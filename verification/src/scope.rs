use vstd::prelude::*;

use crate::graph::ScopeId;

verus! {

/// The kind of a nesting level.
#[derive(Debug, Clone, Copy, PartialEq, Eq, Structural)]
pub enum ScopeKind {
    Module,
    Function,
    Block,
    Unsafe,
}

/// One node of the scope tree. `parent` is the scope that was on top of the
/// stack when this one was entered.
#[derive(Debug, Clone, Copy)]
pub struct ScopeNode {
    pub id: ScopeId,
    pub parent: Option<ScopeId>,
    pub kind: ScopeKind,
    pub active: bool,
}

} // verus!
