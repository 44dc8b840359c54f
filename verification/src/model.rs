//! The mathematical model of the interpreter: its state as maps and
//! sequences, and each operation as a check (which rejection, if any) and a
//! successor state.

use vstd::prelude::*;

use crate::error::SemanticError;
use crate::graph::{
    AssumptionId, AssumptionView, CapabilityId, CapabilityKind, CapabilityNode, LifetimeId,
    LifetimeNode, OwnershipEdge, PhaseId, PhaseView, RegionId, RegionKind, RegionNode, ScopeId,
    ValueId, ValueNode, ValueOrigin,
};
use crate::scope::{ScopeKind, ScopeNode};

verus! {

/// The state of the interpreter as a mathematical value.
pub struct StateView {
    pub values: Map<ValueId, ValueNode>,
    pub regions: Map<RegionId, RegionNode>,
    pub lifetimes: Map<LifetimeId, LifetimeNode>,
    pub capabilities: Map<CapabilityId, CapabilityNode>,
    pub assumptions: Map<AssumptionId, AssumptionView>,
    pub edges: Seq<OwnershipEdge>,
    pub scopes: Map<ScopeId, ScopeNode>,
    /// The active scopes, outermost first.
    pub stack: Seq<ScopeId>,
    pub phases: Seq<PhaseView>,
    pub current_phase: Option<PhaseId>,
    pub next_value_id: ValueId,
    pub next_region_id: RegionId,
    pub next_lifetime_id: LifetimeId,
    pub next_capability_id: CapabilityId,
    pub next_scope_id: ScopeId,
    pub next_assumption_id: AssumptionId,
}

/// The top-most scope on `stack` that is not an unsafe scope.
pub open spec fn top_safe_scope(scopes: Map<ScopeId, ScopeNode>, stack: Seq<ScopeId>) -> Option<
    ScopeId,
>
    decreases stack.len(),
{
    if stack.len() == 0 {
        None
    } else if scopes[stack.last()].kind != ScopeKind::Unsafe {
        Some(stack.last())
    } else {
        top_safe_scope(scopes, stack.drop_last())
    }
}

/// Some scope on `stack` is an unsafe scope.
pub open spec fn any_unsafe(scopes: Map<ScopeId, ScopeNode>, stack: Seq<ScopeId>) -> bool {
    exists|i: int| 0 <= i < stack.len() && (#[trigger] scopes[stack[i]]).kind == ScopeKind::Unsafe
}

/// An edge says that `owner` owns `value`.
pub open spec fn owns(edges: Seq<OwnershipEdge>, value: ValueId, owner: ScopeId) -> bool {
    exists|i: int|
        0 <= i < edges.len() && (#[trigger] edges[i]).value == value && edges[i].owner == owner
}

/// The number of ownership edges of `value`.
pub open spec fn edge_count(edges: Seq<OwnershipEdge>, value: ValueId) -> nat
    decreases edges.len(),
{
    if edges.len() == 0 {
        0
    } else if edges.last().value == value {
        edge_count(edges.drop_last(), value) + 1
    } else {
        edge_count(edges.drop_last(), value)
    }
}

/// The edges whose owner is not `owner`, in their order.
pub open spec fn without_owner(edges: Seq<OwnershipEdge>, owner: ScopeId) -> Seq<OwnershipEdge>
    decreases edges.len(),
{
    if edges.len() == 0 {
        edges
    } else if edges.last().owner == owner {
        without_owner(edges.drop_last(), owner)
    } else {
        without_owner(edges.drop_last(), owner).push(edges.last())
    }
}

/// The edges whose value is not `value`, in their order.
pub open spec fn without_value(edges: Seq<OwnershipEdge>, value: ValueId) -> Seq<OwnershipEdge>
    decreases edges.len(),
{
    if edges.len() == 0 {
        edges
    } else if edges.last().value == value {
        without_value(edges.drop_last(), value)
    } else {
        without_value(edges.drop_last(), value).push(edges.last())
    }
}

/// The value of the first edge of `owner` that points to a value which is not
/// alive.
pub open spec fn first_dead_owned(
    edges: Seq<OwnershipEdge>,
    values: Map<ValueId, ValueNode>,
    owner: ScopeId,
) -> Option<ValueId>
    decreases edges.len(),
{
    if edges.len() == 0 {
        None
    } else {
        match first_dead_owned(edges.drop_last(), values, owner) {
            Some(v) => Some(v),
            None => if edges.last().owner == owner && !values[edges.last().value].alive {
                Some(edges.last().value)
            } else {
                None
            },
        }
    }
}

/// Every lifetime of `scope` is made inactive.
pub open spec fn expire_lifetimes(
    lifetimes: Map<LifetimeId, LifetimeNode>,
    scope: ScopeId,
) -> Map<LifetimeId, LifetimeNode> {
    Map::new(
        |k: LifetimeId| lifetimes.contains_key(k),
        |k: LifetimeId|
            if lifetimes[k].scope == scope {
                LifetimeNode { active: false, ..lifetimes[k] }
            } else {
                lifetimes[k]
            },
    )
}

/// Every capability of `scope` is deleted.
pub open spec fn delete_capabilities(
    capabilities: Map<CapabilityId, CapabilityNode>,
    scope: ScopeId,
) -> Map<CapabilityId, CapabilityNode> {
    Map::new(
        |k: CapabilityId| capabilities.contains_key(k) && capabilities[k].scope != scope,
        |k: CapabilityId| capabilities[k],
    )
}

/// Every value that `owner` owns is destroyed.
pub open spec fn destroy_owned(
    values: Map<ValueId, ValueNode>,
    edges: Seq<OwnershipEdge>,
    owner: ScopeId,
) -> Map<ValueId, ValueNode> {
    Map::new(
        |k: ValueId| values.contains_key(k),
        |k: ValueId|
            if owns(edges, k, owner) {
                ValueNode { alive: false, ..values[k] }
            } else {
                values[k]
            },
    )
}

/// `cap` stands in the way of a new capability of `kind` on `value`:
/// `UniqueMut` shares a value with nothing.
pub open spec fn conflicts_with(cap: CapabilityNode, value: ValueId, kind: CapabilityKind) -> bool {
    cap.value == value && (cap.kind == CapabilityKind::UniqueMut || kind
        == CapabilityKind::UniqueMut)
}

pub open spec fn is_conflict(
    capabilities: Map<CapabilityId, CapabilityNode>,
    k: CapabilityId,
    value: ValueId,
    kind: CapabilityKind,
) -> bool {
    capabilities.contains_key(k) && conflicts_with(capabilities[k], value, kind)
}

pub open spec fn has_conflict(
    capabilities: Map<CapabilityId, CapabilityNode>,
    value: ValueId,
    kind: CapabilityKind,
) -> bool {
    exists|k: CapabilityId| is_conflict(capabilities, k, value, kind)
}

/// `k` is the conflicting capability with the least identifier.
pub open spec fn is_least_conflict(
    capabilities: Map<CapabilityId, CapabilityNode>,
    k: CapabilityId,
    value: ValueId,
    kind: CapabilityKind,
) -> bool {
    &&& is_conflict(capabilities, k, value, kind)
    &&& forall|j: CapabilityId| j < k ==> !is_conflict(capabilities, j, value, kind)
}

pub open spec fn least_conflict(
    capabilities: Map<CapabilityId, CapabilityNode>,
    value: ValueId,
    kind: CapabilityKind,
) -> CapabilityId {
    choose|k: CapabilityId| is_least_conflict(capabilities, k, value, kind)
}

/// Some capability refers to `value`.
pub open spec fn has_capability_on(
    capabilities: Map<CapabilityId, CapabilityNode>,
    value: ValueId,
) -> bool {
    exists|k: CapabilityId|
        capabilities.contains_key(k) && (#[trigger] capabilities[k]).value == value
}

/// A phase of that name has been declared.
pub open spec fn has_phase_named(phases: Seq<PhaseView>, name: Seq<char>) -> bool {
    exists|i: int| 0 <= i < phases.len() && (#[trigger] phases[i]).name == name
}

impl StateView {
    /// The state before anything has happened: no entity, no scope, every
    /// counter at 1.
    pub open spec fn initial() -> StateView {
        StateView {
            values: Map::empty(),
            regions: Map::empty(),
            lifetimes: Map::empty(),
            capabilities: Map::empty(),
            assumptions: Map::empty(),
            edges: Seq::empty(),
            scopes: Map::empty(),
            stack: Seq::empty(),
            phases: Seq::empty(),
            current_phase: None,
            next_value_id: 1,
            next_region_id: 1,
            next_lifetime_id: 1,
            next_capability_id: 1,
            next_scope_id: 1,
            next_assumption_id: 1,
        }
    }

    /// The tables hold what their counters have issued, under its own
    /// identifier, and what the stack, the edges and the phase tags refer to
    /// exists.
    pub open spec fn wf(self) -> bool {
        &&& self.next_value_id >= 1
        &&& self.next_region_id >= 1
        &&& self.next_lifetime_id >= 1
        &&& self.next_capability_id >= 1
        &&& self.next_scope_id >= 1
        &&& self.next_assumption_id >= 1
        &&& forall|k: ValueId| #[trigger]
            self.values.contains_key(k) ==> 1 <= k < self.next_value_id && self.values[k].id == k
        &&& forall|k: RegionId| #[trigger]
            self.regions.contains_key(k) ==> 1 <= k < self.next_region_id && self.regions[k].id
                == k
        &&& forall|k: LifetimeId| #[trigger]
            self.lifetimes.contains_key(k) ==> 1 <= k < self.next_lifetime_id
                && self.lifetimes[k].id == k && self.lifetimes[k].phase < self.phases.len()
        &&& forall|k: CapabilityId| #[trigger]
            self.capabilities.contains_key(k) ==> 1 <= k < self.next_capability_id
                && self.capabilities[k].id == k
        &&& forall|k: AssumptionId| #[trigger]
            self.assumptions.contains_key(k) ==> 1 <= k < self.next_assumption_id
                && self.assumptions[k].id == k && self.assumptions[k].phase < self.phases.len()
        &&& forall|k: ScopeId| #[trigger]
            self.scopes.contains_key(k) ==> 1 <= k < self.next_scope_id && self.scopes[k].id == k
        &&& forall|i: int|
            0 <= i < self.stack.len() ==> self.scopes.contains_key(#[trigger] self.stack[i])
        &&& forall|i: int|
            0 <= i < self.edges.len() ==> self.values.contains_key(
                (#[trigger] self.edges[i]).value,
            )
        &&& self.current_phase matches Some(p) ==> p < self.phases.len()
        &&& self.phases.len() <= usize::MAX
    }

    pub open spec fn current_scope(self) -> Option<ScopeId> {
        if self.stack.len() == 0 {
            None
        } else {
            Some(self.stack.last())
        }
    }

    pub open spec fn in_unsafe(self) -> bool {
        any_unsafe(self.scopes, self.stack)
    }

    pub open spec fn effective_owner(self) -> Option<ScopeId> {
        top_safe_scope(self.scopes, self.stack)
    }

    // ---- entering a scope ------------------------------------------------
    pub open spec fn enter_scope(self, kind: ScopeKind) -> StateView {
        let id = self.next_scope_id;
        StateView {
            scopes: self.scopes.insert(
                id,
                ScopeNode { id, parent: self.current_scope(), kind, active: true },
            ),
            stack: self.stack.push(id),
            next_scope_id: (id + 1) as ScopeId,
            ..self
        }
    }

    // ---- leaving a scope -------------------------------------------------
    pub open spec fn exit_scope_check(self) -> Option<SemanticError> {
        if self.stack.len() == 0 {
            Some(SemanticError::NoActiveScope)
        } else {
            match first_dead_owned(self.edges, self.values, self.stack.last()) {
                Some(value) => Some(SemanticError::DoubleDestruction { value }),
                None => None,
            }
        }
    }

    /// The cascade on leaving the current scope: its lifetimes end, its
    /// capabilities go, the values it owns are destroyed, its edges are
    /// removed, and it is deactivated and popped.
    pub open spec fn exit_scope(self) -> StateView {
        let s = self.stack.last();
        StateView {
            lifetimes: expire_lifetimes(self.lifetimes, s),
            capabilities: delete_capabilities(self.capabilities, s),
            values: destroy_owned(self.values, self.edges, s),
            edges: without_owner(self.edges, s),
            scopes: self.scopes.insert(s, ScopeNode { active: false, ..self.scopes[s] }),
            stack: self.stack.drop_last(),
            ..self
        }
    }

    // ---- declaring a phase -----------------------------------------------
    pub open spec fn declare_phase_check(self, name: Seq<char>) -> Option<SemanticError> {
        if self.stack.len() == 0 {
            Some(SemanticError::NoActiveScope)
        } else if self.scopes[self.stack.last()].kind != ScopeKind::Module {
            Some(SemanticError::PhaseOutsideModule)
        } else if has_phase_named(self.phases, name) {
            Some(SemanticError::DuplicatePhase)
        } else if self.phases.len() == usize::MAX {
            Some(SemanticError::IdSpaceExhausted)
        } else {
            None
        }
    }

    /// The new phase is appended; it becomes current only if none was.
    pub open spec fn declare_phase(self, name: Seq<char>) -> StateView {
        let id = self.phases.len() as PhaseId;
        StateView {
            phases: self.phases.push(PhaseView { id, name, order: id }),
            current_phase: match self.current_phase {
                Some(p) => Some(p),
                None => Some(id),
            },
            ..self
        }
    }

    // ---- declaring a region ----------------------------------------------
    pub open spec fn declare_region_check(self) -> Option<SemanticError> {
        if self.stack.len() == 0 {
            Some(SemanticError::NoActiveScope)
        } else if self.next_region_id == u64::MAX {
            Some(SemanticError::IdSpaceExhausted)
        } else {
            None
        }
    }

    pub open spec fn declare_region(self, kind: RegionKind) -> StateView {
        let id = self.next_region_id;
        StateView {
            regions: self.regions.insert(id, RegionNode { id, kind, scope: self.stack.last() }),
            next_region_id: (id + 1) as RegionId,
            ..self
        }
    }

    // ---- creating a lifetime ---------------------------------------------
    pub open spec fn create_lifetime_check(self) -> Option<SemanticError> {
        if self.stack.len() == 0 {
            Some(SemanticError::NoActiveScope)
        } else if !self.scopes[self.stack.last()].active {
            Some(SemanticError::InactiveScope)
        } else if self.current_phase is None {
            Some(SemanticError::NoCurrentPhase)
        } else if self.next_lifetime_id == u64::MAX {
            Some(SemanticError::IdSpaceExhausted)
        } else {
            None
        }
    }

    pub open spec fn create_lifetime(self) -> StateView {
        let id = self.next_lifetime_id;
        StateView {
            lifetimes: self.lifetimes.insert(
                id,
                LifetimeNode {
                    id,
                    scope: self.stack.last(),
                    active: true,
                    phase: self.current_phase->0,
                },
            ),
            next_lifetime_id: (id + 1) as LifetimeId,
            ..self
        }
    }

    // ---- allocating a value ----------------------------------------------
    pub open spec fn allocate_value_check(self, region: RegionId) -> Option<SemanticError> {
        if !self.regions.contains_key(region) {
            Some(SemanticError::UnknownRegion)
        } else if self.effective_owner() is None {
            Some(SemanticError::NoOwnerScope)
        } else if self.next_value_id == u64::MAX {
            Some(SemanticError::IdSpaceExhausted)
        } else {
            None
        }
    }

    /// The value is tagged unsafe exactly if an unsafe scope is on the stack,
    /// and its owner is the top-most scope that is not unsafe.
    pub open spec fn allocate_value(self, region: RegionId) -> StateView {
        let id = self.next_value_id;
        StateView {
            values: self.values.insert(
                id,
                ValueNode {
                    id,
                    region,
                    alive: true,
                    origin: if self.in_unsafe() {
                        ValueOrigin::Unsafe
                    } else {
                        ValueOrigin::Safe
                    },
                },
            ),
            edges: self.edges.push(OwnershipEdge { value: id, owner: self.effective_owner()->0 }),
            next_value_id: (id + 1) as ValueId,
            ..self
        }
    }

    // ---- creating a capability -------------------------------------------
    pub open spec fn create_capability_check(
        self,
        kind: CapabilityKind,
        value: ValueId,
        lifetime: LifetimeId,
    ) -> Option<SemanticError> {
        if !self.values.contains_key(value) {
            Some(SemanticError::UnknownValue)
        } else if !self.values[value].alive {
            Some(SemanticError::ValueDestroyed)
        } else if !self.lifetimes.contains_key(lifetime) {
            Some(SemanticError::UnknownLifetime)
        } else if !self.lifetimes[lifetime].active {
            Some(SemanticError::InactiveLifetime)
        } else if self.current_phase is None {
            Some(SemanticError::NoCurrentPhase)
        } else if self.lifetimes[lifetime].phase != self.current_phase->0 {
            Some(
                SemanticError::PhaseViolation {
                    lifetime_phase: self.lifetimes[lifetime].phase,
                    current_phase: self.current_phase->0,
                },
            )
        } else if self.stack.len() == 0 {
            Some(SemanticError::NoActiveScope)
        } else if has_conflict(self.capabilities, value, kind) {
            let existing = self.capabilities[least_conflict(self.capabilities, value, kind)];
            Some(
                SemanticError::CapabilityConflict {
                    value,
                    existing: existing.kind,
                    existing_lifetime: existing.lifetime,
                    requested: kind,
                },
            )
        } else if self.next_capability_id == u64::MAX {
            Some(SemanticError::IdSpaceExhausted)
        } else {
            None
        }
    }

    pub open spec fn create_capability(
        self,
        kind: CapabilityKind,
        value: ValueId,
        lifetime: LifetimeId,
    ) -> StateView {
        let id = self.next_capability_id;
        StateView {
            capabilities: self.capabilities.insert(
                id,
                CapabilityNode {
                    id,
                    kind,
                    value,
                    lifetime,
                    scope: self.stack.last(),
                    phase: self.lifetimes[lifetime].phase,
                },
            ),
            next_capability_id: (id + 1) as CapabilityId,
            ..self
        }
    }

    // ---- dropping a value ------------------------------------------------
    pub open spec fn drop_value_check(self, value: ValueId) -> Option<SemanticError> {
        if self.stack.len() == 0 {
            Some(SemanticError::NoActiveScope)
        } else if !self.values.contains_key(value) {
            Some(SemanticError::UnknownValue)
        } else if !self.values[value].alive {
            Some(SemanticError::AlreadyDestroyed)
        } else if !owns(self.edges, value, self.stack.last()) {
            Some(SemanticError::NotOwner)
        } else if has_capability_on(self.capabilities, value) {
            Some(SemanticError::LiveCapabilities { value })
        } else {
            None
        }
    }

    pub open spec fn drop_value(self, value: ValueId) -> StateView {
        StateView {
            values: self.values.insert(value, ValueNode { alive: false, ..self.values[value] }),
            edges: without_value(self.edges, value),
            ..self
        }
    }

    // ---- recording an unsafe assumption ----------------------------------
    pub open spec fn add_unsafe_assumption_check(self) -> Option<SemanticError> {
        if !self.in_unsafe() {
            Some(SemanticError::AssumeOutsideUnsafe)
        } else if self.current_phase is None {
            Some(SemanticError::NoCurrentPhase)
        } else if self.next_assumption_id == u64::MAX {
            Some(SemanticError::IdSpaceExhausted)
        } else {
            None
        }
    }

    pub open spec fn add_unsafe_assumption(
        self,
        description: Seq<char>,
        affected_values: Seq<ValueId>,
    ) -> StateView {
        let id = self.next_assumption_id;
        StateView {
            assumptions: self.assumptions.insert(
                id,
                AssumptionView {
                    id,
                    description,
                    scope: self.stack.last(),
                    affected_values,
                    phase: self.current_phase->0,
                },
            ),
            next_assumption_id: (id + 1) as AssumptionId,
            ..self
        }
    }
}

} // verus!
