use lib::structural_walk::{begin_query, end_query, query, visit, Visit, WalkState, WORK_BUDGET};

#[test]
fn a_shared_node_is_walked_once_per_query() {
    let mut state = WalkState::new();
    let outermost = begin_query(&mut state);
    assert!(outermost);
    assert_eq!(visit(&mut state, Some(7)), Visit::Walk);
    assert_eq!(visit(&mut state, Some(7)), Visit::Seen);
    assert_eq!(visit(&mut state, Some(8)), Visit::Walk);
    assert_eq!(visit(&mut state, None), Visit::Walk);
    assert_eq!(visit(&mut state, None), Visit::Walk);
    assert_eq!(state.work, 5);
    end_query(&mut state, outermost);
    assert_eq!(state.depth, 0);
    assert!(state.seen.is_empty());
}

#[test]
fn a_query_past_its_budget_is_exhausted() {
    let mut state = WalkState::new();
    state.work = WORK_BUDGET - 1;
    assert_eq!(visit(&mut state, Some(1)), Visit::Walk);
    assert_eq!(visit(&mut state, Some(2)), Visit::Exhausted);
    assert_eq!(visit(&mut state, None), Visit::Exhausted);
    assert_eq!(state.seen, vec![1]);
}

#[test]
fn nested_queries_share_the_outermost_state() {
    let state = WalkState::new();
    let (state, seen_inside) = query(state, |mut s| {
        assert_eq!(visit(&mut s, Some(3)), Visit::Walk);
        let (s, inner) = query(s, |mut s| {
            let v = visit(&mut s, Some(3));
            (s, v)
        });
        (s, inner)
    });
    assert_eq!(seen_inside, Visit::Seen);
    assert_eq!(state.depth, 0);
    assert!(state.seen.is_empty());
}

#[test]
fn an_outermost_query_starts_afresh() {
    let mut state = WalkState::new();
    state.work = 99;
    state.seen = vec![4];
    let (state, v) = query(state, |mut s| {
        let v = visit(&mut s, Some(4));
        (s, v)
    });
    assert_eq!(v, Visit::Walk);
    assert_eq!(state.work, 1);
}
