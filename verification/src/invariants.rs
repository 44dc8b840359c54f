//! The invariants of the constraint graph, and the proof that every
//! operation keeps them.

use vstd::prelude::*;

use crate::graph::{
    CapabilityId, CapabilityKind, CapabilityNode, LifetimeId, OwnershipEdge, RegionId, RegionKind,
    ScopeId, ValueId,
};
use crate::model::{
    edge_count, is_conflict, owns, top_safe_scope, without_owner, without_value, StateView,
};
use crate::scope::{ScopeKind, ScopeNode};
use crate::tables::{lemma_without_owner_members, lemma_without_value_members};

verus! {

/// On `stack`, `lower` stands at or below `upper`.
pub open spec fn below_or_at(stack: Seq<ScopeId>, lower: ScopeId, upper: ScopeId) -> bool {
    exists|a: int, b: int|
        0 <= a <= b < stack.len() && #[trigger] stack[a] == lower && #[trigger] stack[b] == upper
}

/// `id` is an unsafe scope, or a scope that was entered under one.
pub open spec fn under_unsafe(scopes: Map<ScopeId, ScopeNode>, id: ScopeId) -> bool
    decreases id,
{
    scopes.contains_key(id) && (scopes[id].kind == ScopeKind::Unsafe || match scopes[id].parent {
        Some(p) => p < id && under_unsafe(scopes, p),
        None => false,
    })
}

impl StateView {
    /// The stack holds each active scope once, and nothing else; a scope on
    /// it has the one below it as its parent.
    pub open spec fn scopes_ok(self) -> bool {
        &&& forall|i: int, j: int|
            0 <= i < j < self.stack.len() ==> self.stack[i] != self.stack[j]
        &&& forall|k: ScopeId| #[trigger]
            self.scopes.contains_key(k) ==> (self.scopes[k].active <==> self.stack.contains(k))
        &&& forall|i: int|
            0 <= i < self.stack.len() ==> (#[trigger] self.scopes[self.stack[i]]).parent == if i
                == 0 {
                None
            } else {
                Some(self.stack[i - 1])
            }
        &&& forall|k: ScopeId| #[trigger]
            self.scopes.contains_key(k) ==> (self.scopes[k].parent matches Some(p) ==> p < k
                && self.scopes.contains_key(p))
    }

    /// A value has one ownership edge while it is alive and none afterwards;
    /// an owner is an active scope that is not unsafe.
    pub open spec fn ownership_ok(self) -> bool {
        &&& forall|v: ValueId| #[trigger]
            self.values.contains_key(v) ==> edge_count(self.edges, v) == if self.values[v].alive {
                1nat
            } else {
                0nat
            }
        &&& forall|i: int|
            0 <= i < self.edges.len() ==> self.stack.contains((#[trigger] self.edges[i]).owner)
                && self.scopes[self.edges[i].owner].kind != ScopeKind::Unsafe
    }

    /// The scope of an active lifetime is active.
    pub open spec fn lifetimes_ok(self) -> bool {
        forall|l: LifetimeId| #[trigger]
            self.lifetimes.contains_key(l) && self.lifetimes[l].active ==> self.stack.contains(
                self.lifetimes[l].scope,
            )
    }

    /// What holds of one capability: its value is alive, its lifetime active
    /// and of its own phase, and its scope is active and not below the scope
    /// of its lifetime or the owner of its value.
    pub open spec fn capability_ok(self, cap: CapabilityNode) -> bool {
        &&& self.values.contains_key(cap.value)
        &&& self.values[cap.value].alive
        &&& self.lifetimes.contains_key(cap.lifetime)
        &&& self.lifetimes[cap.lifetime].active
        &&& cap.phase == self.lifetimes[cap.lifetime].phase
        &&& below_or_at(self.stack, self.lifetimes[cap.lifetime].scope, cap.scope)
        &&& forall|i: int|
            0 <= i < self.edges.len() && (#[trigger] self.edges[i]).value == cap.value
                ==> below_or_at(self.stack, self.edges[i].owner, cap.scope)
    }

    /// Every capability is in order, and a `UniqueMut` capability is the only
    /// capability on its value.
    pub open spec fn capabilities_ok(self) -> bool {
        &&& forall|c: CapabilityId| #[trigger]
            self.capabilities.contains_key(c) ==> self.capability_ok(self.capabilities[c])
        &&& forall|a: CapabilityId, b: CapabilityId|
            #![trigger self.capabilities.contains_key(a), self.capabilities.contains_key(b)]
            self.capabilities.contains_key(a) && self.capabilities.contains_key(b) && a != b
                && self.capabilities[a].value == self.capabilities[b].value
                ==> self.capabilities[a].kind != CapabilityKind::UniqueMut
    }

    /// Every assumption was made in an unsafe scope or in a scope under one.
    pub open spec fn assumptions_ok(self) -> bool {
        forall|a: u64| #[trigger]
            self.assumptions.contains_key(a) ==> under_unsafe(
                self.scopes,
                self.assumptions[a].scope,
            )
    }

    /// Phases are numbered in declaration order and named apart.
    pub open spec fn phases_ok(self) -> bool {
        &&& forall|i: int|
            0 <= i < self.phases.len() ==> (#[trigger] self.phases[i]).id == i
                && self.phases[i].order == i
        &&& forall|i: int, j: int|
            0 <= i < j < self.phases.len() ==> (#[trigger] self.phases[i]).name != (
            #[trigger] self.phases[j]).name
    }

    /// The invariants of the constraint graph.
    pub open spec fn inv(self) -> bool {
        &&& self.wf()
        &&& self.scopes_ok()
        &&& self.ownership_ok()
        &&& self.lifetimes_ok()
        &&& self.capabilities_ok()
        &&& self.assumptions_ok()
        &&& self.phases_ok()
    }
}

// ---- facts about the helper functions -------------------------------------
pub proof fn lemma_edge_count_push(edges: Seq<OwnershipEdge>, edge: OwnershipEdge, value: ValueId)
    ensures
        edge_count(edges.push(edge), value) == edge_count(edges, value) + if edge.value == value {
            1nat
        } else {
            0nat
        },
{
    assert(edges.push(edge).drop_last() =~= edges);
}

/// A value has no edge exactly if its count is zero.
pub proof fn lemma_edge_count_zero(edges: Seq<OwnershipEdge>, value: ValueId)
    ensures
        edge_count(edges, value) == 0 <==> forall|i: int|
            0 <= i < edges.len() ==> (#[trigger] edges[i]).value != value,
    decreases edges.len(),
{
    if edges.len() > 0 {
        let rest = edges.drop_last();
        lemma_edge_count_zero(rest, value);
        if edge_count(edges, value) == 0 {
            assert forall|i: int| 0 <= i < edges.len() implies (#[trigger] edges[i]).value
                != value by {
                if i < rest.len() {
                    assert(rest[i] == edges[i]);
                }
            }
        }
        if forall|i: int| 0 <= i < edges.len() ==> (#[trigger] edges[i]).value != value {
            assert(edges[edges.len() - 1].value != value);
            assert forall|i: int| 0 <= i < rest.len() implies (#[trigger] rest[i]).value
                != value by {
                assert(rest[i] == edges[i]);
            }
        }
    }
}

/// Removing the edges of one owner takes edges away from the values that it
/// owns, and from no other value.
pub proof fn lemma_edge_count_without_owner(
    edges: Seq<OwnershipEdge>,
    owner: ScopeId,
    value: ValueId,
)
    ensures
        edge_count(without_owner(edges, owner), value) <= edge_count(edges, value),
        owns(edges, value, owner) ==> edge_count(without_owner(edges, owner), value) < edge_count(
            edges,
            value,
        ),
        !owns(edges, value, owner) ==> edge_count(without_owner(edges, owner), value)
            == edge_count(edges, value),
    decreases edges.len(),
{
    if edges.len() > 0 {
        let rest = edges.drop_last();
        let last = edges.last();
        lemma_edge_count_without_owner(rest, owner, value);
        lemma_edge_count_push(without_owner(rest, owner), last, value);
        if owns(rest, value, owner) {
            let j = choose|j: int|
                0 <= j < rest.len() && (#[trigger] rest[j]).value == value && rest[j].owner
                    == owner;
            assert(edges[j].value == value && edges[j].owner == owner);
        }
        if last.value == value && last.owner == owner {
            assert(edges[edges.len() - 1].value == value && edges[edges.len() - 1].owner == owner);
        }
        if owns(edges, value, owner) && !(last.value == value && last.owner == owner) {
            let j = choose|j: int|
                0 <= j < edges.len() && (#[trigger] edges[j]).value == value && edges[j].owner
                    == owner;
            assert(rest[j].value == value && rest[j].owner == owner);
        }
    }
}

/// Removing the edges of one value leaves it without an edge, and every other
/// value with the edges it had.
pub proof fn lemma_edge_count_without_value(
    edges: Seq<OwnershipEdge>,
    removed: ValueId,
    value: ValueId,
)
    ensures
        edge_count(without_value(edges, removed), value) == if value == removed {
            0nat
        } else {
            edge_count(edges, value)
        },
    decreases edges.len(),
{
    if edges.len() > 0 {
        let rest = edges.drop_last();
        lemma_edge_count_without_value(rest, removed, value);
        lemma_edge_count_push(without_value(rest, removed), edges.last(), value);
    }
}

/// The effective owner is on the stack and is not an unsafe scope.
pub proof fn lemma_top_safe_scope(scopes: Map<ScopeId, ScopeNode>, stack: Seq<ScopeId>)
    ensures
        top_safe_scope(scopes, stack) matches Some(owner) ==> stack.contains(owner)
            && scopes[owner].kind != ScopeKind::Unsafe,
        top_safe_scope(scopes, stack) is None ==> forall|i: int|
            0 <= i < stack.len() ==> (#[trigger] scopes[stack[i]]).kind == ScopeKind::Unsafe,
    decreases stack.len(),
{
    if stack.len() > 0 {
        let rest = stack.drop_last();
        lemma_top_safe_scope(scopes, rest);
        if scopes[stack.last()].kind != ScopeKind::Unsafe {
            assert(stack[stack.len() - 1] == stack.last());
        } else {
            match top_safe_scope(scopes, rest) {
                Some(owner) => {
                    let j = choose|j: int| 0 <= j < rest.len() && rest[j] == owner;
                    assert(stack[j] == owner);
                },
                None => {
                    assert forall|i: int| 0 <= i < stack.len() implies (
                    #[trigger] scopes[stack[i]]).kind == ScopeKind::Unsafe by {
                        if i < rest.len() {
                            assert(rest[i] == stack[i]);
                        }
                    }
                },
            }
        }
    }
}

/// Being under an unsafe scope depends only on kinds and parents.
pub proof fn lemma_under_unsafe_stable(
    before: Map<ScopeId, ScopeNode>,
    after: Map<ScopeId, ScopeNode>,
    id: ScopeId,
)
    requires
        forall|k: ScopeId| #[trigger]
            before.contains_key(k) ==> after.contains_key(k) && after[k].kind == before[k].kind
                && after[k].parent == before[k].parent,
        under_unsafe(before, id),
    ensures
        under_unsafe(after, id),
    decreases id,
{
    if before[id].kind != ScopeKind::Unsafe {
        lemma_under_unsafe_stable(before, after, before[id].parent->0);
    }
}

/// With an unsafe scope on the stack, the scopes from it upwards are under
/// an unsafe scope.
pub proof fn lemma_stack_under_unsafe(s: StateView, i: int, j: int)
    requires
        s.wf(),
        s.scopes_ok(),
        0 <= i <= j < s.stack.len(),
        s.scopes[s.stack[i]].kind == ScopeKind::Unsafe,
    ensures
        under_unsafe(s.scopes, s.stack[j]),
    decreases j - i,
{
    assert(s.scopes.contains_key(s.stack[j]));
    if i < j {
        lemma_stack_under_unsafe(s, i, j - 1);
        assert(s.scopes[s.stack[j]].parent == Some(s.stack[j - 1]));
    }
}

// ---- the operations keep the invariants ------------------------------------
pub proof fn lemma_initial_inv()
    ensures
        StateView::initial().inv(),
{
}

pub proof fn lemma_enter_scope_inv(s: StateView, kind: ScopeKind)
    requires
        s.inv(),
        s.next_scope_id < u64::MAX,
    ensures
        s.enter_scope(kind).inv(),
{
    let t = s.enter_scope(kind);
    let id = s.next_scope_id;
    let n = s.stack.len() as int;
    assert forall|i: int| 0 <= i < n implies #[trigger] t.stack[i] == s.stack[i] && s.stack[i]
        < id by {
        assert(s.scopes.contains_key(s.stack[i]));
    }
    assert forall|k: ScopeId| s.stack.contains(k) implies t.stack.contains(k) by {
        let i = choose|i: int| 0 <= i < n && s.stack[i] == k;
        assert(t.stack[i] == k);
    }
    assert forall|k: ScopeId| t.stack.contains(k) && k != id implies s.stack.contains(k) by {
        let i = choose|i: int| 0 <= i < t.stack.len() && t.stack[i] == k;
        assert(s.stack[i] == k);
    }
    assert(t.stack[n] == id);
    assert(t.stack.contains(id));
    assert(t.wf()) by {
        assert forall|i: int| 0 <= i < t.stack.len() implies t.scopes.contains_key(
            #[trigger] t.stack[i],
        ) by {
            if i < n {
                assert(s.scopes.contains_key(s.stack[i]));
            }
        }
    }
    assert(t.scopes_ok()) by {
        assert forall|i: int| 0 <= i < t.stack.len() implies (
        #[trigger] t.scopes[t.stack[i]]).parent == if i == 0 {
            None
        } else {
            Some(t.stack[i - 1])
        } by {
            if i < n {
                assert(t.scopes[t.stack[i]] == s.scopes[s.stack[i]]);
            }
        }
        assert forall|k: ScopeId| #[trigger] t.scopes.contains_key(k) implies (
        t.scopes[k].parent matches Some(p) ==> p < k && t.scopes.contains_key(p)) by {
            if k == id && n > 0 {
                assert(s.scopes.contains_key(s.stack[n - 1]));
            }
        }
    }
    assert(t.ownership_ok()) by {
        assert forall|i: int| 0 <= i < t.edges.len() implies t.stack.contains(
            (#[trigger] t.edges[i]).owner,
        ) && t.scopes[t.edges[i].owner].kind != ScopeKind::Unsafe by {
            assert(s.stack.contains(s.edges[i].owner));
        }
    }
    assert(t.lifetimes_ok());
    assert(t.capabilities_ok()) by {
        assert forall|c: CapabilityId| #[trigger] t.capabilities.contains_key(c) implies t.capability_ok(
            t.capabilities[c],
        ) by {
            let cap = s.capabilities[c];
            assert(s.capability_ok(cap));
            lemma_below_or_at_push(s.stack, id, s.lifetimes[cap.lifetime].scope, cap.scope);
            assert forall|i: int|
                0 <= i < t.edges.len() && (#[trigger] t.edges[i]).value
                    == cap.value implies below_or_at(t.stack, t.edges[i].owner, cap.scope) by {
                lemma_below_or_at_push(s.stack, id, s.edges[i].owner, cap.scope);
            }
        }
    }
    assert(t.assumptions_ok()) by {
        assert forall|a: u64| #[trigger] t.assumptions.contains_key(a) implies under_unsafe(
            t.scopes,
            t.assumptions[a].scope,
        ) by {
            lemma_under_unsafe_stable(s.scopes, t.scopes, s.assumptions[a].scope);
        }
    }
}

pub proof fn lemma_below_or_at_push(
    stack: Seq<ScopeId>,
    pushed: ScopeId,
    lower: ScopeId,
    upper: ScopeId,
)
    requires
        below_or_at(stack, lower, upper),
    ensures
        below_or_at(stack.push(pushed), lower, upper),
{
    let (a, b) = choose|a: int, b: int|
        0 <= a <= b < stack.len() && #[trigger] stack[a] == lower && #[trigger] stack[b] == upper;
    assert(stack.push(pushed)[a] == lower && stack.push(pushed)[b] == upper);
}

/// What stands at or below a scope other than the top one still does so
/// when the top scope is popped.
pub proof fn lemma_below_or_at_pop(stack: Seq<ScopeId>, lower: ScopeId, upper: ScopeId)
    requires
        stack.len() > 0,
        forall|i: int, j: int| 0 <= i < j < stack.len() ==> stack[i] != stack[j],
        below_or_at(stack, lower, upper),
    ensures
        upper != stack.last() ==> below_or_at(stack.drop_last(), lower, upper),
        lower == stack.last() ==> upper == stack.last(),
{
    let (a, b) = choose|a: int, b: int|
        0 <= a <= b < stack.len() && #[trigger] stack[a] == lower && #[trigger] stack[b] == upper;
    if upper != stack.last() {
        assert(b < stack.len() - 1);
        assert(stack.drop_last()[a] == lower && stack.drop_last()[b] == upper);
    }
    if lower == stack.last() {
        assert(a == stack.len() - 1);
    }
}

pub proof fn lemma_exit_scope_inv(s: StateView)
    requires
        s.inv(),
        s.exit_scope_check() is None,
    ensures
        s.exit_scope().inv(),
{
    let t = s.exit_scope();
    let top = s.stack.last();
    let n = s.stack.len() as int;
    assert(s.stack[n - 1] == top);
    assert(s.scopes.contains_key(s.stack[n - 1]));
    lemma_without_owner_members(s.edges, top);
    assert forall|k: ScopeId| k != top && s.stack.contains(k) implies t.stack.contains(k) by {
        let i = choose|i: int| 0 <= i < n && s.stack[i] == k;
        assert(t.stack[i] == k);
    }
    assert forall|k: ScopeId| t.stack.contains(k) implies s.stack.contains(k) && k != top by {
        let i = choose|i: int| 0 <= i < t.stack.len() && t.stack[i] == k;
        assert(s.stack[i] == k);
    }
    // An edge that stays was there before.
    assert forall|i: int| 0 <= i < t.edges.len() implies exists|j: int|
        0 <= j < s.edges.len() && s.edges[j] == #[trigger] t.edges[i] by {
        assert(s.edges.contains(t.edges[i]));
    }
    assert(t.wf()) by {
        assert forall|i: int| 0 <= i < t.stack.len() implies t.scopes.contains_key(
            #[trigger] t.stack[i],
        ) by {
            assert(s.scopes.contains_key(s.stack[i]));
        }
        assert forall|i: int| 0 <= i < t.edges.len() implies t.values.contains_key(
            (#[trigger] t.edges[i]).value,
        ) by {
            let j = choose|j: int| 0 <= j < s.edges.len() && s.edges[j] == t.edges[i];
            assert(s.values.contains_key(s.edges[j].value));
        }
    }
    assert(t.scopes_ok()) by {
        assert forall|i: int| 0 <= i < t.stack.len() implies (
        #[trigger] t.scopes[t.stack[i]]).parent == if i == 0 {
            None
        } else {
            Some(t.stack[i - 1])
        } by {
            assert(s.stack[i] != top);
            assert(t.scopes[t.stack[i]] == s.scopes[s.stack[i]]);
        }
    }
    assert(t.ownership_ok()) by {
        assert forall|v: ValueId| #[trigger] t.values.contains_key(v) implies edge_count(
            t.edges,
            v,
        ) == if t.values[v].alive {
            1nat
        } else {
            0nat
        } by {
            assert(s.values.contains_key(v));
            lemma_edge_count_without_owner(s.edges, top, v);
        }
        assert forall|i: int| 0 <= i < t.edges.len() implies t.stack.contains(
            (#[trigger] t.edges[i]).owner,
        ) && t.scopes[t.edges[i].owner].kind != ScopeKind::Unsafe by {
            let j = choose|j: int| 0 <= j < s.edges.len() && s.edges[j] == t.edges[i];
            assert(s.stack.contains(s.edges[j].owner));
        }
    }
    assert(t.lifetimes_ok()) by {
        assert forall|l: LifetimeId| #[trigger]
            t.lifetimes.contains_key(l) && t.lifetimes[l].active implies t.stack.contains(
            t.lifetimes[l].scope,
        ) by {
            assert(s.lifetimes.contains_key(l));
        }
    }
    assert(t.capabilities_ok()) by {
        assert forall|c: CapabilityId| #[trigger] t.capabilities.contains_key(c) implies t.capability_ok(
            t.capabilities[c],
        ) by {
            let cap = s.capabilities[c];
            assert(s.capabilities.contains_key(c));
            assert(s.capability_ok(cap));
            assert(cap.scope != top);
            lemma_below_or_at_pop(s.stack, s.lifetimes[cap.lifetime].scope, cap.scope);
            if owns(s.edges, cap.value, top) {
                let j = choose|j: int|
                    0 <= j < s.edges.len() && (#[trigger] s.edges[j]).value == cap.value
                        && s.edges[j].owner == top;
                lemma_below_or_at_pop(s.stack, s.edges[j].owner, cap.scope);
            }
            assert forall|i: int|
                0 <= i < t.edges.len() && (#[trigger] t.edges[i]).value
                    == cap.value implies below_or_at(t.stack, t.edges[i].owner, cap.scope) by {
                let j = choose|j: int| 0 <= j < s.edges.len() && s.edges[j] == t.edges[i];
                assert(s.edges[j].value == cap.value);
                lemma_below_or_at_pop(s.stack, s.edges[j].owner, cap.scope);
            }
        }
    }
    assert(t.assumptions_ok()) by {
        assert forall|a: u64| #[trigger] t.assumptions.contains_key(a) implies under_unsafe(
            t.scopes,
            t.assumptions[a].scope,
        ) by {
            lemma_under_unsafe_stable(s.scopes, t.scopes, s.assumptions[a].scope);
        }
    }
}

pub proof fn lemma_declare_phase_inv(s: StateView, name: Seq<char>)
    requires
        s.inv(),
        s.declare_phase_check(name) is None,
    ensures
        s.declare_phase(name).inv(),
{
    let t = s.declare_phase(name);
    assert(t.capabilities_ok()) by {
        assert forall|c: CapabilityId| #[trigger] t.capabilities.contains_key(c) implies t.capability_ok(
            t.capabilities[c],
        ) by {
            assert(s.capability_ok(s.capabilities[c]));
        }
    }
    assert(t.phases_ok()) by {
        assert forall|i: int, j: int| 0 <= i < j < t.phases.len() implies (
        #[trigger] t.phases[i]).name != (#[trigger] t.phases[j]).name by {
            if j == s.phases.len() {
                assert(s.phases[i].name != name);
            } else {
                assert(s.phases[i].name != s.phases[j].name);
            }
        }
    }
}

pub proof fn lemma_declare_region_inv(s: StateView, kind: RegionKind)
    requires
        s.inv(),
        s.declare_region_check() is None,
    ensures
        s.declare_region(kind).inv(),
{
    let t = s.declare_region(kind);
    assert(t.capabilities_ok()) by {
        assert forall|c: CapabilityId| #[trigger] t.capabilities.contains_key(c) implies t.capability_ok(
            t.capabilities[c],
        ) by {
            assert(s.capability_ok(s.capabilities[c]));
        }
    }
}

pub proof fn lemma_create_lifetime_inv(s: StateView)
    requires
        s.inv(),
        s.create_lifetime_check() is None,
    ensures
        s.create_lifetime().inv(),
{
    let t = s.create_lifetime();
    let n = s.stack.len() as int;
    assert(s.stack[n - 1] == s.stack.last());
    assert(t.capabilities_ok()) by {
        assert forall|c: CapabilityId| #[trigger] t.capabilities.contains_key(c) implies t.capability_ok(
            t.capabilities[c],
        ) by {
            assert(s.capability_ok(s.capabilities[c]));
        }
    }
}

pub proof fn lemma_allocate_value_inv(s: StateView, region: RegionId)
    requires
        s.inv(),
        s.allocate_value_check(region) is None,
    ensures
        s.allocate_value(region).inv(),
{
    let t = s.allocate_value(region);
    let id = s.next_value_id;
    let owner = s.effective_owner()->0;
    lemma_top_safe_scope(s.scopes, s.stack);
    let edge = OwnershipEdge { value: id, owner };
    assert forall|i: int| 0 <= i < s.edges.len() implies #[trigger] t.edges[i] == s.edges[i]
        && s.edges[i].value != id by {
        assert(s.values.contains_key(s.edges[i].value));
    }
    assert(t.edges[s.edges.len() as int] == edge);
    assert(t.ownership_ok()) by {
        assert forall|v: ValueId| #[trigger] t.values.contains_key(v) implies edge_count(
            t.edges,
            v,
        ) == if t.values[v].alive {
            1nat
        } else {
            0nat
        } by {
            lemma_edge_count_push(s.edges, edge, v);
            if v == id {
                lemma_edge_count_zero(s.edges, id);
            }
        }
    }
    assert(t.capabilities_ok()) by {
        assert forall|c: CapabilityId| #[trigger] t.capabilities.contains_key(c) implies t.capability_ok(
            t.capabilities[c],
        ) by {
            let cap = s.capabilities[c];
            assert(s.capability_ok(cap));
            assert forall|i: int|
                0 <= i < t.edges.len() && (#[trigger] t.edges[i]).value
                    == cap.value implies below_or_at(t.stack, t.edges[i].owner, cap.scope) by {
                assert(i < s.edges.len());
                assert(s.edges[i].value == cap.value);
            }
        }
    }
}

pub proof fn lemma_create_capability_inv(
    s: StateView,
    kind: CapabilityKind,
    value: ValueId,
    lifetime: LifetimeId,
)
    requires
        s.inv(),
        s.create_capability_check(kind, value, lifetime) is None,
    ensures
        s.create_capability(kind, value, lifetime).inv(),
{
    let t = s.create_capability(kind, value, lifetime);
    let id = s.next_capability_id;
    let n = s.stack.len() as int;
    let top = s.stack.last();
    assert(s.stack[n - 1] == top);
    assert(t.capabilities_ok()) by {
        assert forall|c: CapabilityId| #[trigger] t.capabilities.contains_key(c) implies t.capability_ok(
            t.capabilities[c],
        ) by {
            if c == id {
                let cap = t.capabilities[id];
                let bound = s.lifetimes[lifetime].scope;
                assert(s.stack.contains(bound));
                let a = choose|a: int| 0 <= a < n && s.stack[a] == bound;
                assert(s.stack[a] == bound && s.stack[n - 1] == top);
                assert forall|i: int|
                    0 <= i < t.edges.len() && (#[trigger] t.edges[i]).value
                        == cap.value implies below_or_at(t.stack, t.edges[i].owner, cap.scope) by {
                    assert(s.stack.contains(s.edges[i].owner));
                    let b = choose|b: int| 0 <= b < n && s.stack[b] == s.edges[i].owner;
                    assert(s.stack[b] == s.edges[i].owner && s.stack[n - 1] == top);
                }
            } else {
                assert(s.capability_ok(s.capabilities[c]));
            }
        }
        assert forall|a: CapabilityId, b: CapabilityId|
            #![trigger t.capabilities.contains_key(a), t.capabilities.contains_key(b)]
            t.capabilities.contains_key(a) && t.capabilities.contains_key(b) && a != b
                && t.capabilities[a].value
                == t.capabilities[b].value implies t.capabilities[a].kind
                != CapabilityKind::UniqueMut by {
            if a == id {
                assert(!is_conflict(s.capabilities, b, value, kind));
            } else if b == id {
                assert(!is_conflict(s.capabilities, a, value, kind));
            } else {
                assert(s.capabilities.contains_key(a) && s.capabilities.contains_key(b));
            }
        }
    }
}

pub proof fn lemma_drop_value_inv(s: StateView, value: ValueId)
    requires
        s.inv(),
        s.drop_value_check(value) is None,
    ensures
        s.drop_value(value).inv(),
{
    let t = s.drop_value(value);
    lemma_without_value_members(s.edges, value);
    assert forall|i: int| 0 <= i < t.edges.len() implies exists|j: int|
        0 <= j < s.edges.len() && s.edges[j] == #[trigger] t.edges[i] by {
        assert(s.edges.contains(t.edges[i]));
    }
    assert(t.wf()) by {
        assert forall|i: int| 0 <= i < t.edges.len() implies t.values.contains_key(
            (#[trigger] t.edges[i]).value,
        ) by {
            let j = choose|j: int| 0 <= j < s.edges.len() && s.edges[j] == t.edges[i];
            assert(s.values.contains_key(s.edges[j].value));
        }
    }
    assert(t.ownership_ok()) by {
        assert forall|v: ValueId| #[trigger] t.values.contains_key(v) implies edge_count(
            t.edges,
            v,
        ) == if t.values[v].alive {
            1nat
        } else {
            0nat
        } by {
            assert(s.values.contains_key(v));
            lemma_edge_count_without_value(s.edges, value, v);
        }
        assert forall|i: int| 0 <= i < t.edges.len() implies t.stack.contains(
            (#[trigger] t.edges[i]).owner,
        ) && t.scopes[t.edges[i].owner].kind != ScopeKind::Unsafe by {
            let j = choose|j: int| 0 <= j < s.edges.len() && s.edges[j] == t.edges[i];
            assert(s.stack.contains(s.edges[j].owner));
        }
    }
    assert(t.capabilities_ok()) by {
        assert forall|c: CapabilityId| #[trigger] t.capabilities.contains_key(c) implies t.capability_ok(
            t.capabilities[c],
        ) by {
            let cap = s.capabilities[c];
            assert(s.capability_ok(cap));
            assert(cap.value != value);
            assert forall|i: int|
                0 <= i < t.edges.len() && (#[trigger] t.edges[i]).value
                    == cap.value implies below_or_at(t.stack, t.edges[i].owner, cap.scope) by {
                let j = choose|j: int| 0 <= j < s.edges.len() && s.edges[j] == t.edges[i];
                assert(s.edges[j].value == cap.value);
            }
        }
    }
}

pub proof fn lemma_add_unsafe_assumption_inv(
    s: StateView,
    description: Seq<char>,
    affected_values: Seq<ValueId>,
)
    requires
        s.inv(),
        s.add_unsafe_assumption_check() is None,
    ensures
        s.add_unsafe_assumption(description, affected_values).inv(),
{
    let t = s.add_unsafe_assumption(description, affected_values);
    let id = s.next_assumption_id;
    assert(under_unsafe(s.scopes, s.stack.last())) by {
        let i = choose|i: int|
            0 <= i < s.stack.len() && (#[trigger] s.scopes[s.stack[i]]).kind == ScopeKind::Unsafe;
        lemma_stack_under_unsafe(s, i, s.stack.len() - 1);
    }
    assert(t.wf());
    assert(t.scopes_ok());
    assert(t.ownership_ok());
    assert(t.lifetimes_ok());
    assert(t.phases_ok());
    assert(t.assumptions_ok()) by {
        assert forall|a: u64| #[trigger] t.assumptions.contains_key(a) implies under_unsafe(
            t.scopes,
            t.assumptions[a].scope,
        ) by {
            if a != id {
                assert(s.assumptions.contains_key(a));
            }
        }
    }
    assert(t.capabilities_ok()) by {
        assert forall|c: CapabilityId| #[trigger] t.capabilities.contains_key(c) implies t.capability_ok(
            t.capabilities[c],
        ) by {
            assert(s.capability_ok(s.capabilities[c]));
        }
    }
}

} // verus!
