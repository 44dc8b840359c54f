use std::collections::HashMap;
use vstd::prelude::*;

verus! {

pub type ValueId = u64;

pub type RegionId = u64;

pub type LifetimeId = u64;

pub type CapabilityId = u64;

pub type ScopeId = u64;

pub type AssumptionId = u64;

/// Index of a phase in declaration order.
pub type PhaseId = usize;

/// Whether a value was allocated under an unsafe scope.
#[derive(Debug, Clone, Copy, PartialEq, Eq, Structural)]
pub enum ValueOrigin {
    Safe,
    Unsafe,
}

#[derive(Debug, Clone, Copy)]
pub struct ValueNode {
    pub id: ValueId,
    pub region: RegionId,
    pub alive: bool,
    pub origin: ValueOrigin,
}

#[derive(Debug, Clone, Copy, PartialEq, Eq, Structural)]
pub enum RegionKind {
    Stack,
    Heap,
    External,
    Static,
}

#[derive(Debug, Clone, Copy)]
pub struct RegionNode {
    pub id: RegionId,
    pub kind: RegionKind,
    pub scope: ScopeId,
}

#[derive(Debug, Clone, Copy)]
pub struct LifetimeNode {
    pub id: LifetimeId,
    pub scope: ScopeId,
    pub active: bool,
    pub phase: PhaseId,
}

#[derive(Debug, Clone, Copy, PartialEq, Eq, Structural)]
pub enum CapabilityKind {
    Own,
    SharedRead,
    UniqueMut,
    ThreadSend,
    ThreadShare,
}

#[derive(Debug, Clone, Copy)]
pub struct CapabilityNode {
    pub id: CapabilityId,
    pub kind: CapabilityKind,
    pub value: ValueId,
    pub lifetime: LifetimeId,
    pub scope: ScopeId,
    pub phase: PhaseId,
}

/// A claim made inside an unsafe scope, with the values that were visible
/// when it was made.
#[derive(Debug, Clone)]
pub struct UnsafeAssumptionNode {
    pub id: AssumptionId,
    pub description: String,
    pub scope: ScopeId,
    pub affected_values: Vec<ValueId>,
    pub phase: PhaseId,
}

/// What an assumption says, with its text as a character sequence.
pub struct AssumptionView {
    pub id: AssumptionId,
    pub description: Seq<char>,
    pub scope: ScopeId,
    pub affected_values: Seq<ValueId>,
    pub phase: PhaseId,
}

impl View for UnsafeAssumptionNode {
    type V = AssumptionView;

    open spec fn view(&self) -> AssumptionView {
        AssumptionView {
            id: self.id,
            description: self.description@,
            scope: self.scope,
            affected_values: self.affected_values@,
            phase: self.phase,
        }
    }
}

/// The scope that owns the destruction of a value.
#[derive(Debug, Clone, Copy)]
pub struct OwnershipEdge {
    pub value: ValueId,
    pub owner: ScopeId,
}

/// A named phase. `id` and `order` both equal the position of the phase in
/// declaration order.
#[derive(Debug, Clone)]
pub struct Phase {
    pub id: PhaseId,
    pub name: String,
    pub order: usize,
}

pub struct PhaseView {
    pub id: PhaseId,
    pub name: Seq<char>,
    pub order: usize,
}

impl View for Phase {
    type V = PhaseView;

    open spec fn view(&self) -> PhaseView {
        PhaseView { id: self.id, name: self.name@, order: self.order }
    }
}

/// The entity tables and the ownership edges.
#[derive(Debug)]
pub struct ConstraintGraph {
    pub values: HashMap<ValueId, ValueNode>,
    pub regions: HashMap<RegionId, RegionNode>,
    pub lifetimes: HashMap<LifetimeId, LifetimeNode>,
    pub capabilities: HashMap<CapabilityId, CapabilityNode>,
    pub unsafe_assumptions: HashMap<AssumptionId, UnsafeAssumptionNode>,
    pub ownership_edges: Vec<OwnershipEdge>,
}

} // verus!
