//! Bookkeeping for the walkers that look for a degradation inside a type: a
//! node already walked in the current query contributes nothing new, and a
//! query past its work budget answers `Exhausted`.

use vstd::prelude::*;

verus! {

/// How many nodes one query may visit.
pub const WORK_BUDGET: usize = 50000;

/// What a walker should do with a node.
#[derive(PartialEq, Eq, Structural, Clone, Copy, Debug)]
pub enum Visit {
    /// Walk this node's children.
    Walk,
    /// Already walked in this query.
    Seen,
    /// The query ran out of budget.
    Exhausted,
}

/// The state queries share: how deeply they nest, the work done in the
/// outermost one, and the shared nodes it has walked.
pub struct WalkState {
    pub depth: usize,
    pub work: usize,
    pub seen: Vec<u64>,
}

impl WalkState {
    /// A state outside any query.
    pub fn new() -> (r: WalkState)
        ensures
            r.depth == 0,
            r.work == 0,
            r.seen@ == Seq::<u64>::empty(),
    {
        WalkState { depth: 0, work: 0, seen: Vec::new() }
    }
}

/// Enters a query: the outermost one starts with no work done and nothing seen.
/// Returns whether it is the outermost.
pub fn begin_query(state: &mut WalkState) -> (outermost: bool)
    requires
        old(state).depth < usize::MAX,
    ensures
        outermost == (old(state).depth == 0),
        final(state).depth == old(state).depth + 1,
        outermost ==> final(state).work == 0 && final(state).seen@ == Seq::<u64>::empty(),
        !outermost ==> final(state).work == old(state).work && final(state).seen@ == old(state).seen@,
{
    let outermost = state.depth == 0;
    state.depth = state.depth + 1;
    if outermost {
        state.work = 0;
        state.seen = Vec::new();
    }
    outermost
}

/// Leaves a query: the outermost one forgets what it saw.
pub fn end_query(state: &mut WalkState, outermost: bool)
    requires
        old(state).depth > 0,
    ensures
        final(state).depth == old(state).depth - 1,
        final(state).work == old(state).work,
        outermost ==> final(state).seen@ == Seq::<u64>::empty(),
        !outermost ==> final(state).seen@ == old(state).seen@,
{
    state.depth = state.depth - 1;
    if outermost {
        state.seen = Vec::new();
    }
}

/// Runs one query on `state`; the walk is handed the state inside the query
/// and hands it back, so nested queries share it. An outermost query (depth
/// 0) hands the walk no work done and nothing seen, and forgets what it saw
/// afterwards; a nested one hands it the enclosing query's work and nodes as
/// they are. The answer is what the walk returned.
pub fn query<R>(state: WalkState, run: impl FnOnce(WalkState) -> (WalkState, R)) -> (r: (WalkState, R))
    requires
        state.depth < usize::MAX,
        forall|s: WalkState| s.depth > 0 ==> #[trigger] run.requires((s,)),
        forall|s: WalkState, out: (WalkState, R)| #[trigger] run.ensures((s,), out) ==> out.0.depth == s.depth,
    ensures
        r.0.depth == state.depth,
        state.depth == 0 ==> r.0.seen@ == Seq::<u64>::empty(),
        exists|handed: WalkState, out: (WalkState, R)|
            {
                &&& #[trigger] run.ensures((handed,), out)
                &&& handed.depth == state.depth + 1
                &&& state.depth == 0 ==> handed.work == 0 && handed.seen@ == Seq::<u64>::empty()
                &&& state.depth > 0 ==> handed.work == state.work && handed.seen@ == state.seen@
                &&& r.1 == out.1
                &&& r.0.work == out.0.work
                &&& state.depth > 0 ==> r.0.seen@ == out.0.seen@
            },
{
    let mut state = state;
    let outermost = begin_query(&mut state);
    let ghost handed = state;
    let out = run(state);
    let ghost out_g = out;
    let (mut state, result) = out;
    end_query(&mut state, outermost);
    assert(run.ensures((handed,), out_g));
    (state, result)
}

/// What one visit does to the work done and the nodes seen, and what it
/// answers.
pub open spec fn spec_visit(work: int, seen: Seq<u64>, key: Option<u64>) -> (int, Seq<u64>, Visit) {
    if work + 1 > WORK_BUDGET {
        (work + 1, seen, Visit::Exhausted)
    } else {
        match key {
            None => (work + 1, seen, Visit::Walk),
            Some(k) => if seen.contains(k) {
                (work + 1, seen, Visit::Seen)
            } else {
                (work + 1, seen.push(k), Visit::Walk)
            },
        }
    }
}

/// Counts one visit and says what to do with the node: past the budget the
/// query is exhausted; a node without identity is always walked; a shared
/// node is walked the first time and `Seen` after that.
pub fn visit(state: &mut WalkState, key: Option<u64>) -> (v: Visit)
    requires
        old(state).work < usize::MAX,
    ensures
        final(state).depth == old(state).depth,
        final(state).work == spec_visit(old(state).work as int, old(state).seen@, key).0,
        final(state).seen@ == spec_visit(old(state).work as int, old(state).seen@, key).1,
        v == spec_visit(old(state).work as int, old(state).seen@, key).2,
{
    state.work = state.work + 1;
    if state.work > WORK_BUDGET {
        return Visit::Exhausted;
    }
    match key {
        None => Visit::Walk,
        Some(k) => {
            let mut i: usize = 0;
            while i < state.seen.len()
                invariant
                    0 <= i <= state.seen@.len(),
                    state.depth == old(state).depth,
                    state.work == old(state).work + 1,
                    state.seen@ == old(state).seen@,
                    state.work <= WORK_BUDGET,
                    key == Some(k),
                    forall|j: int| 0 <= j < i ==> state.seen@[j] != k,
                decreases state.seen@.len() - i,
            {
                if state.seen[i] == k {
                    assert(old(state).seen@.contains(k));
                    return Visit::Seen;
                }
                i = i + 1;
            }
            assert(!old(state).seen@.contains(k));
            state.seen.push(k);
            Visit::Walk
        },
    }
}

/// Within the budget, a shared node is walked at most once per query: the
/// visit right after the one that walked it answers `Seen`.
pub proof fn lemma_second_visit_is_seen(work: int, seen: Seq<u64>, k: u64)
    requires
        work + 2 <= WORK_BUDGET,
    ensures
        ({
            let first = spec_visit(work, seen, Some(k));
            spec_visit(first.0, first.1, Some(k)).2 == Visit::Seen
        }),
{
    let first = spec_visit(work, seen, Some(k));
    assert(first.1.contains(k)) by {
        if !seen.contains(k) {
            assert(first.1[first.1.len() - 1] == k);
        }
    }
}

/// Once the work done reaches the budget, every further visit answers
/// `Exhausted` and records nothing.
pub proof fn lemma_budget_exhausts(work: int, seen: Seq<u64>, key: Option<u64>)
    requires
        work >= WORK_BUDGET,
    ensures
        spec_visit(work, seen, key).2 == Visit::Exhausted,
        spec_visit(work, seen, key).1 == seen,
{
}

} // verus!
