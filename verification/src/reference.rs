//! Which bindings a reference guard may narrow.

use vstd::prelude::*;
use crate::symbols::{SymbolInfo, SymbolKind};

verus! {

/// A function declaration is not a reference guards narrow (only variables,
/// parameters and properties are), so `isFoo || isFoo()` still calls a
/// function: the binding itself, with no property path, is left alone.
pub open spec fn spec_is_unnarrowable_binding(kind: SymbolKind, path_len: nat) -> bool {
    path_len == 0 && kind == SymbolKind::Function
}

/// See [`spec_is_unnarrowable_binding`].
pub fn is_unnarrowable_binding(symbol: &SymbolInfo, path: &Vec<String>) -> (r: bool)
    ensures
        r == spec_is_unnarrowable_binding(symbol.kind, path@.len()),
{
    path.len() == 0 && symbol.kind == SymbolKind::Function
}

} // verus!
