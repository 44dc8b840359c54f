//! The constraint interpreter: the operations that build the constraint
//! graph, each of which either succeeds as a whole or rejects and leaves the
//! state as it was.

use std::collections::HashMap;
use vstd::prelude::*;
use vstd::std_specs::hash::group_hash_axioms;

use crate::error::SemanticError;
use crate::graph::{
    AssumptionId, CapabilityId, CapabilityKind, CapabilityNode, ConstraintGraph, LifetimeId,
    LifetimeNode, OwnershipEdge, Phase, PhaseId, RegionId, RegionKind, RegionNode, ScopeId,
    UnsafeAssumptionNode, ValueId, ValueNode, ValueOrigin,
};
use crate::invariants::{
    lemma_add_unsafe_assumption_inv, lemma_allocate_value_inv, lemma_create_capability_inv,
    lemma_create_lifetime_inv, lemma_declare_phase_inv, lemma_declare_region_inv,
    lemma_drop_value_inv, lemma_enter_scope_inv, lemma_exit_scope_inv, lemma_initial_inv,
};
use crate::model::{top_safe_scope, StateView};
use crate::scope::{ScopeKind, ScopeNode};
use crate::tables::{
    any_capability_on, delete_capabilities_of, destroy_owned_by, expire_lifetimes_of,
    find_conflict, find_dead_owned, is_owned_by, lemma_without_owner_members,
    lemma_without_value_members, remove_edges_of_owner, remove_edges_of_value,
};

verus! {

pub struct InterpreterState {
    pub graph: ConstraintGraph,
    pub scopes: HashMap<ScopeId, ScopeNode>,
    /// The active scopes, outermost first.
    pub scope_stack: Vec<ScopeId>,
    pub phases: Vec<Phase>,
    pub current_phase: Option<PhaseId>,
    pub next_value_id: ValueId,
    pub next_region_id: RegionId,
    pub next_lifetime_id: LifetimeId,
    pub next_capability_id: CapabilityId,
    pub next_scope_id: ScopeId,
    pub next_assumption_id: AssumptionId,
}

impl View for InterpreterState {
    type V = StateView;

    open spec fn view(&self) -> StateView {
        StateView {
            values: self.graph.values@,
            regions: self.graph.regions@,
            lifetimes: self.graph.lifetimes@,
            capabilities: self.graph.capabilities@,
            assumptions: self.graph.unsafe_assumptions@.map_values(
                |n: UnsafeAssumptionNode| n@,
            ),
            edges: self.graph.ownership_edges@,
            scopes: self.scopes@,
            stack: self.scope_stack@,
            phases: self.phases@.map_values(|p: Phase| p@),
            current_phase: self.current_phase,
            next_value_id: self.next_value_id,
            next_region_id: self.next_region_id,
            next_lifetime_id: self.next_lifetime_id,
            next_capability_id: self.next_capability_id,
            next_scope_id: self.next_scope_id,
            next_assumption_id: self.next_assumption_id,
        }
    }
}

impl InterpreterState {
    /// See [`StateView::wf`].
    pub open spec fn wf(&self) -> bool {
        self@.wf()
    }

    pub fn new() -> (state: InterpreterState)
        ensures
            state@ == StateView::initial(),
            state.wf(),
            state@.inv(),
    {
        let state = InterpreterState {
            graph: ConstraintGraph {
                values: HashMap::new(),
                regions: HashMap::new(),
                lifetimes: HashMap::new(),
                capabilities: HashMap::new(),
                unsafe_assumptions: HashMap::new(),
                ownership_edges: Vec::new(),
            },
            scopes: HashMap::new(),
            scope_stack: Vec::new(),
            phases: Vec::new(),
            current_phase: None,
            next_value_id: 1,
            next_region_id: 1,
            next_lifetime_id: 1,
            next_capability_id: 1,
            next_scope_id: 1,
            next_assumption_id: 1,
        };
        proof {
            assert(state@.assumptions =~= Map::empty());
            assert(state@.phases =~= Seq::empty());
            lemma_initial_inv();
        }
        state
    }

    /// The scope on top of the stack.
    pub fn current_scope(&self) -> (id: ScopeId)
        requires
            self.scope_stack@.len() > 0,
        ensures
            Some(id) == self@.current_scope(),
    {
        self.scope_stack[self.scope_stack.len() - 1]
    }

    /// The scope on top of the stack, if there is one.
    pub fn top_scope(&self) -> (top: Option<ScopeId>)
        ensures
            top == self@.current_scope(),
    {
        if self.scope_stack.len() == 0 {
            None
        } else {
            Some(self.scope_stack[self.scope_stack.len() - 1])
        }
    }

    /// Whether an unsafe scope is on the stack.
    pub fn is_in_unsafe_scope(&self) -> (r: bool)
        requires
            self.wf(),
        ensures
            r == self@.in_unsafe(),
    {
        broadcast use group_hash_axioms;

        let mut i: usize = 0;
        while i < self.scope_stack.len()
            invariant
                self.wf(),
                0 <= i <= self.scope_stack@.len(),
                forall|j: int|
                    0 <= j < i ==> (#[trigger] self.scopes@[self.scope_stack@[j]]).kind
                        != ScopeKind::Unsafe,
            decreases self.scope_stack@.len() - i,
        {
            let id = self.scope_stack[i];
            assert(self.scopes@.contains_key(self@.stack[i as int]));
            let unsafe_here = match self.scopes.get(&id) {
                Some(node) => node.kind == ScopeKind::Unsafe,
                None => false,
            };
            if unsafe_here {
                assert(self.scopes@[self.scope_stack@[i as int]].kind == ScopeKind::Unsafe);
                return true;
            }
            i += 1;
        }
        false
    }

    /// The top-most scope on the stack that is not unsafe: the scope that
    /// owns what is allocated now.
    pub fn effective_owner_scope(&self) -> (owner: Option<ScopeId>)
        requires
            self.wf(),
        ensures
            owner == self@.effective_owner(),
    {
        broadcast use group_hash_axioms;

        let mut i: usize = self.scope_stack.len();
        assert(self.scope_stack@.take(i as int) =~= self.scope_stack@);
        while i > 0
            invariant
                self.wf(),
                0 <= i <= self.scope_stack@.len(),
                self@.effective_owner() == top_safe_scope(
                    self.scopes@,
                    self.scope_stack@.take(i as int),
                ),
            decreases i,
        {
            let id = self.scope_stack[i - 1];
            assert(self.scopes@.contains_key(self@.stack[i - 1]));
            assert(self.scope_stack@.take(i as int).drop_last() =~= self.scope_stack@.take(
                i - 1,
            ));
            let safe_here = match self.scopes.get(&id) {
                Some(node) => node.kind != ScopeKind::Unsafe,
                None => false,
            };
            if safe_here {
                return Some(id);
            }
            i -= 1;
        }
        None
    }

    /// Enters a scope of the given kind under the current one.
    pub fn enter_scope(&mut self, kind: ScopeKind) -> (id: ScopeId)
        requires
            old(self).wf(),
            old(self).next_scope_id < u64::MAX,
        ensures
            final(self).wf(),
            old(self)@.inv() ==> final(self)@.inv(),
            id == old(self).next_scope_id,
            final(self)@ == old(self)@.enter_scope(kind),
    {
        broadcast use group_hash_axioms;

        let id = self.next_scope_id;
        let parent = self.top_scope();
        self.next_scope_id = id + 1;
        self.scopes.insert(id, ScopeNode { id, parent, kind, active: true });
        self.scope_stack.push(id);
        proof {
            assert(self@.scopes =~= old(self)@.enter_scope(kind).scopes);
            assert(self@.stack =~= old(self)@.enter_scope(kind).stack);
            if old(self)@.inv() {
                lemma_enter_scope_inv(old(self)@, kind);
            }
        }
        id
    }

    /// Whether another scope can be entered: scope identifiers are left.
    pub fn can_enter_scope(&self) -> (r: bool)
        ensures
            r == (self.next_scope_id < u64::MAX),
    {
        self.next_scope_id < u64::MAX
    }

    /// Declares a phase. Phases belong to the module scope; the first one
    /// declared becomes the current phase.
    #[verifier::loop_isolation(false)]
    pub fn declare_phase(&mut self, name: String) -> (r: Result<PhaseId, SemanticError>)
        requires
            old(self).wf(),
        ensures
            final(self).wf(),
            old(self)@.inv() ==> final(self)@.inv(),
            match old(self)@.declare_phase_check(name@) {
                Some(e) => r == Err::<PhaseId, SemanticError>(e) && final(self)@ == old(self)@,
                None => r == Ok::<PhaseId, SemanticError>(old(self).phases@.len() as PhaseId)
                    && final(self)@ == old(self)@.declare_phase(name@),
            },
    {
        broadcast use group_hash_axioms;

        let top = match self.top_scope() {
            Some(top) => top,
            None => { return Err(SemanticError::NoActiveScope); },
        };
        assert(self.scopes@.contains_key(self@.stack[self@.stack.len() - 1]));
        let in_module = match self.scopes.get(&top) {
            Some(node) => node.kind == ScopeKind::Module,
            None => false,
        };
        if !in_module {
            return Err(SemanticError::PhaseOutsideModule);
        }
        let mut i: usize = 0;
        while i < self.phases.len()
            invariant
                0 <= i <= self.phases@.len(),
                forall|j: int| 0 <= j < i ==> (#[trigger] self.phases@[j]).name@ != name@,
            decreases self.phases@.len() - i,
        {
            if self.phases[i].name == name {
                assert(self@.phases[i as int].name == name@);
                return Err(SemanticError::DuplicatePhase);
            }
            i += 1;
        }
        assert(!crate::model::has_phase_named(self@.phases, name@)) by {
            assert forall|j: int| 0 <= j < self@.phases.len() implies (#[trigger] self@.phases[j]).name
                != name@ by {
                assert(self.phases@[j].name@ != name@);
            }
        }
        if self.phases.len() == usize::MAX {
            return Err(SemanticError::IdSpaceExhausted);
        }
        let id = self.phases.len();
        self.phases.push(Phase { id, name, order: id });
        if self.current_phase.is_none() {
            self.current_phase = Some(id);
        }
        proof {
            assert(self@.phases =~= old(self)@.declare_phase(name@).phases);
            if old(self)@.inv() {
                lemma_declare_phase_inv(old(self)@, name@);
            }
        }
        Ok(id)
    }

    /// Declares a region in the current scope.
    pub fn declare_region(&mut self, kind: RegionKind) -> (r: Result<RegionId, SemanticError>)
        requires
            old(self).wf(),
        ensures
            final(self).wf(),
            old(self)@.inv() ==> final(self)@.inv(),
            match old(self)@.declare_region_check() {
                Some(e) => r == Err::<RegionId, SemanticError>(e) && final(self)@ == old(self)@,
                None => r == Ok::<RegionId, SemanticError>(old(self).next_region_id) && final(self)@ == old(self)@.declare_region(kind),
            },
    {
        broadcast use group_hash_axioms;

        let scope = match self.top_scope() {
            Some(top) => top,
            None => { return Err(SemanticError::NoActiveScope); },
        };
        if self.next_region_id == u64::MAX {
            return Err(SemanticError::IdSpaceExhausted);
        }
        let id = self.next_region_id;
        self.next_region_id = id + 1;
        self.graph.regions.insert(id, RegionNode { id, kind, scope });
        proof {
            assert(self@.regions =~= old(self)@.declare_region(kind).regions);
            if old(self)@.inv() {
                lemma_declare_region_inv(old(self)@, kind);
            }
        }
        Ok(id)
    }

    /// Creates a lifetime bound to the current scope and the current phase.
    pub fn create_lifetime(&mut self) -> (r: Result<LifetimeId, SemanticError>)
        requires
            old(self).wf(),
        ensures
            final(self).wf(),
            old(self)@.inv() ==> final(self)@.inv(),
            match old(self)@.create_lifetime_check() {
                Some(e) => r == Err::<LifetimeId, SemanticError>(e) && final(self)@ == old(self)@,
                None => r == Ok::<LifetimeId, SemanticError>(old(self).next_lifetime_id)
                    && final(self)@ == old(self)@.create_lifetime(),
            },
    {
        broadcast use group_hash_axioms;

        let scope = match self.top_scope() {
            Some(top) => top,
            None => { return Err(SemanticError::NoActiveScope); },
        };
        assert(self.scopes@.contains_key(self@.stack[self@.stack.len() - 1]));
        let active = match self.scopes.get(&scope) {
            Some(node) => node.active,
            None => false,
        };
        if !active {
            return Err(SemanticError::InactiveScope);
        }
        let phase = match self.current_phase {
            Some(phase) => phase,
            None => { return Err(SemanticError::NoCurrentPhase); },
        };
        if self.next_lifetime_id == u64::MAX {
            return Err(SemanticError::IdSpaceExhausted);
        }
        let id = self.next_lifetime_id;
        self.next_lifetime_id = id + 1;
        self.graph.lifetimes.insert(id, LifetimeNode { id, scope, active: true, phase });
        proof {
            assert(self@.lifetimes =~= old(self)@.create_lifetime().lifetimes);
            if old(self)@.inv() {
                lemma_create_lifetime_inv(old(self)@);
            }
        }
        Ok(id)
    }

    /// Allocates a value in `region`. Its owner is the top-most scope that is
    /// not unsafe, and it is tagged unsafe exactly if an unsafe scope is on
    /// the stack.
    pub fn allocate_value(&mut self, region: RegionId) -> (r: Result<ValueId, SemanticError>)
        requires
            old(self).wf(),
        ensures
            final(self).wf(),
            old(self)@.inv() ==> final(self)@.inv(),
            match old(self)@.allocate_value_check(region) {
                Some(e) => r == Err::<ValueId, SemanticError>(e) && final(self)@ == old(self)@,
                None => r == Ok::<ValueId, SemanticError>(old(self).next_value_id) && final(self)@ == old(self)@.allocate_value(region),
            },
    {
        broadcast use group_hash_axioms;

        if !self.graph.regions.contains_key(&region) {
            return Err(SemanticError::UnknownRegion);
        }
        let owner = match self.effective_owner_scope() {
            Some(owner) => owner,
            None => { return Err(SemanticError::NoOwnerScope); },
        };
        if self.next_value_id == u64::MAX {
            return Err(SemanticError::IdSpaceExhausted);
        }
        let origin = if self.is_in_unsafe_scope() {
            ValueOrigin::Unsafe
        } else {
            ValueOrigin::Safe
        };
        let id = self.next_value_id;
        self.next_value_id = id + 1;
        self.graph.values.insert(id, ValueNode { id, region, alive: true, origin });
        self.graph.ownership_edges.push(OwnershipEdge { value: id, owner });
        proof {
            assert(self@.values =~= old(self)@.allocate_value(region).values);
            assert(self@.edges =~= old(self)@.allocate_value(region).edges);
            if old(self)@.inv() {
                lemma_allocate_value_inv(old(self)@, region);
            }
        }
        Ok(id)
    }

    /// Records an assumption under the current scope and phase. It is
    /// accepted only under an unsafe scope; `affected_values` is kept as
    /// given.
    pub fn add_unsafe_assumption(
        &mut self,
        description: String,
        affected_values: Vec<ValueId>,
    ) -> (r: Result<AssumptionId, SemanticError>)
        requires
            old(self).wf(),
        ensures
            final(self).wf(),
            old(self)@.inv() ==> final(self)@.inv(),
            match old(self)@.add_unsafe_assumption_check() {
                Some(e) => r == Err::<AssumptionId, SemanticError>(e) && final(self)@ == old(self)@,
                None => r == Ok::<AssumptionId, SemanticError>(old(self).next_assumption_id)
                    && final(self)@ == old(self)@.add_unsafe_assumption(
                    description@,
                    affected_values@,
                ),
            },
    {
        broadcast use group_hash_axioms;

        if !self.is_in_unsafe_scope() {
            return Err(SemanticError::AssumeOutsideUnsafe);
        }
        let phase = match self.current_phase {
            Some(phase) => phase,
            None => { return Err(SemanticError::NoCurrentPhase); },
        };
        if self.next_assumption_id == u64::MAX {
            return Err(SemanticError::IdSpaceExhausted);
        }
        let scope = self.current_scope();
        let id = self.next_assumption_id;
        self.next_assumption_id = id + 1;
        self.graph.unsafe_assumptions.insert(
            id,
            UnsafeAssumptionNode { id, description, scope, affected_values, phase },
        );
        proof {
            assert(self@.assumptions =~= old(self)@.add_unsafe_assumption(
                description@,
                affected_values@,
            ).assumptions);
            if old(self)@.inv() {
                lemma_add_unsafe_assumption_inv(old(self)@, description@, affected_values@);
            }
        }
        Ok(id)
    }
}

impl InterpreterState {
    /// Creates a capability of `kind` on `value` under `lifetime`, in the
    /// current scope. `UniqueMut` shares a value with no other capability;
    /// a rejection for that names the conflicting capability with the least
    /// identifier.
    pub fn create_capability(
        &mut self,
        kind: CapabilityKind,
        value: ValueId,
        lifetime: LifetimeId,
    ) -> (r: Result<CapabilityId, SemanticError>)
        requires
            old(self).wf(),
        ensures
            final(self).wf(),
            old(self)@.inv() ==> final(self)@.inv(),
            match old(self)@.create_capability_check(kind, value, lifetime) {
                Some(e) => r == Err::<CapabilityId, SemanticError>(e) && final(self)@ == old(self)@,
                None => r == Ok::<CapabilityId, SemanticError>(old(self).next_capability_id)
                    && final(self)@ == old(self)@.create_capability(kind, value, lifetime),
            },
    {
        broadcast use group_hash_axioms;

        let alive = match self.graph.values.get(&value) {
            Some(node) => node.alive,
            None => { return Err(SemanticError::UnknownValue); },
        };
        if !alive {
            return Err(SemanticError::ValueDestroyed);
        }
        let bound = match self.graph.lifetimes.get(&lifetime) {
            Some(node) => *node,
            None => { return Err(SemanticError::UnknownLifetime); },
        };
        if !bound.active {
            return Err(SemanticError::InactiveLifetime);
        }
        let current = match self.current_phase {
            Some(phase) => phase,
            None => { return Err(SemanticError::NoCurrentPhase); },
        };
        if bound.phase != current {
            return Err(
                SemanticError::PhaseViolation {
                    lifetime_phase: bound.phase,
                    current_phase: current,
                },
            );
        }
        let scope = match self.top_scope() {
            Some(top) => top,
            None => { return Err(SemanticError::NoActiveScope); },
        };
        match find_conflict(&self.graph.capabilities, self.next_capability_id, value, kind) {
            Some(existing) => {
                return Err(
                    SemanticError::CapabilityConflict {
                        value,
                        existing: existing.kind,
                        existing_lifetime: existing.lifetime,
                        requested: kind,
                    },
                );
            },
            None => {},
        }
        if self.next_capability_id == u64::MAX {
            return Err(SemanticError::IdSpaceExhausted);
        }
        let id = self.next_capability_id;
        self.next_capability_id = id + 1;
        self.graph.capabilities.insert(
            id,
            CapabilityNode { id, kind, value, lifetime, scope, phase: bound.phase },
        );
        proof {
            assert(self@.capabilities =~= old(self)@.create_capability(
                kind,
                value,
                lifetime,
            ).capabilities);
            if old(self)@.inv() {
                lemma_create_capability_inv(old(self)@, kind, value, lifetime);
            }
        }
        Ok(id)
    }

    /// Destroys `value` explicitly. The current scope must own it, and no
    /// capability, of whatever scope, may refer to it.
    pub fn drop_value(&mut self, value: ValueId) -> (r: Result<(), SemanticError>)
        requires
            old(self).wf(),
        ensures
            final(self).wf(),
            old(self)@.inv() ==> final(self)@.inv(),
            match old(self)@.drop_value_check(value) {
                Some(e) => r == Err::<(), SemanticError>(e) && final(self)@ == old(self)@,
                None => r == Ok::<(), SemanticError>(()) && final(self)@ == old(self)@.drop_value(value),
            },
    {
        broadcast use group_hash_axioms;

        let scope = match self.top_scope() {
            Some(top) => top,
            None => { return Err(SemanticError::NoActiveScope); },
        };
        let node = match self.graph.values.get(&value) {
            Some(node) => *node,
            None => { return Err(SemanticError::UnknownValue); },
        };
        if !node.alive {
            return Err(SemanticError::AlreadyDestroyed);
        }
        if !is_owned_by(&self.graph.ownership_edges, value, scope) {
            return Err(SemanticError::NotOwner);
        }
        if any_capability_on(&self.graph.capabilities, self.next_capability_id, value) {
            return Err(SemanticError::LiveCapabilities { value });
        }
        self.graph.values.insert(value, ValueNode { alive: false, ..node });
        remove_edges_of_value(&mut self.graph.ownership_edges, value);
        proof {
            lemma_without_value_members(old(self)@.edges, value);
            assert(self@.values =~= old(self)@.drop_value(value).values);
            if old(self)@.inv() {
                lemma_drop_value_inv(old(self)@, value);
            }
        }
        Ok(())
    }

    /// Leaves the current scope. Its lifetimes end, its capabilities are
    /// deleted, the values it owns are destroyed, its ownership edges are
    /// removed and it is deactivated. Rejected, with nothing changed, if no
    /// scope is active or if a value it owns is destroyed already.
    pub fn exit_scope(&mut self) -> (r: Result<(), SemanticError>)
        requires
            old(self).wf(),
        ensures
            final(self).wf(),
            old(self)@.inv() ==> final(self)@.inv(),
            match old(self)@.exit_scope_check() {
                Some(e) => r == Err::<(), SemanticError>(e) && final(self)@ == old(self)@,
                None => r == Ok::<(), SemanticError>(()) && final(self)@ == old(self)@.exit_scope(),
            },
    {
        broadcast use group_hash_axioms;

        let scope = match self.top_scope() {
            Some(top) => top,
            None => { return Err(SemanticError::NoActiveScope); },
        };
        match find_dead_owned(&self.graph.ownership_edges, &self.graph.values, scope) {
            Some(value) => { return Err(SemanticError::DoubleDestruction { value }); },
            None => {},
        }
        assert(self.scopes@.contains_key(self@.stack[self@.stack.len() - 1]));
        let node = match self.scopes.get(&scope) {
            Some(node) => *node,
            None => { return Err(SemanticError::NoActiveScope); },
        };
        expire_lifetimes_of(&mut self.graph.lifetimes, self.next_lifetime_id, scope);
        delete_capabilities_of(&mut self.graph.capabilities, self.next_capability_id, scope);
        destroy_owned_by(&mut self.graph.values, &self.graph.ownership_edges, scope);
        remove_edges_of_owner(&mut self.graph.ownership_edges, scope);
        self.scopes.insert(scope, ScopeNode { active: false, ..node });
        self.scope_stack.pop();
        proof {
            lemma_without_owner_members(old(self)@.edges, scope);
            assert(self@.scopes =~= old(self)@.exit_scope().scopes);
            assert(self@.stack =~= old(self)@.exit_scope().stack);
            if old(self)@.inv() {
                lemma_exit_scope_inv(old(self)@);
            }
        }
        Ok(())
    }
}

} // verus!
