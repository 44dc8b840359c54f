//! Scans and bulk updates of the entity tables and of the ownership edges.
//! A table whose keys lie below a bound is walked by identifier, in
//! ascending order.

use std::collections::HashMap;
use vstd::prelude::*;
use vstd::std_specs::hash::group_hash_axioms;

use crate::graph::{
    CapabilityId, CapabilityKind, CapabilityNode, LifetimeId, LifetimeNode, OwnershipEdge,
    ScopeId, ValueId, ValueNode,
};
use crate::model::{
    delete_capabilities, destroy_owned, expire_lifetimes, first_dead_owned, has_capability_on,
    has_conflict, is_conflict, is_least_conflict, least_conflict, owns, without_owner,
    without_value,
};

verus! {

/// What is left after removing the edges of one owner was there before, with
/// another owner.
pub proof fn lemma_without_owner_members(edges: Seq<OwnershipEdge>, owner: ScopeId)
    ensures
        forall|i: int|
            0 <= i < without_owner(edges, owner).len() ==> (#[trigger] without_owner(
                edges,
                owner,
            )[i]).owner != owner && edges.contains(without_owner(edges, owner)[i]),
        forall|j: int|
            0 <= j < edges.len() && (#[trigger] edges[j]).owner != owner ==> without_owner(
                edges,
                owner,
            ).contains(edges[j]),
    decreases edges.len(),
{
    if edges.len() > 0 {
        let rest = edges.drop_last();
        lemma_without_owner_members(rest, owner);
        let out = without_owner(edges, owner);
        let sub = without_owner(rest, owner);
        assert forall|i: int| 0 <= i < out.len() implies (#[trigger] out[i]).owner != owner
            && edges.contains(out[i]) by {
            if i < sub.len() {
                assert(out[i] == sub[i]);
                assert(rest.contains(sub[i]));
                let j = choose|j: int| 0 <= j < rest.len() && rest[j] == sub[i];
                assert(edges[j] == out[i]);
            } else {
                assert(out[i] == edges.last());
                assert(edges[edges.len() - 1] == out[i]);
            }
        }
        assert forall|j: int| 0 <= j < edges.len() && (#[trigger] edges[j]).owner
            != owner implies out.contains(edges[j]) by {
            if j < rest.len() {
                assert(rest[j] == edges[j]);
                assert(sub.contains(rest[j]));
                let i = choose|i: int| 0 <= i < sub.len() && sub[i] == rest[j];
                assert(out[i] == edges[j]);
            } else {
                assert(out[out.len() - 1] == edges[j]);
            }
        }
    }
}

/// What is left after removing the edges of one value was there before, with
/// another value.
pub proof fn lemma_without_value_members(edges: Seq<OwnershipEdge>, value: ValueId)
    ensures
        forall|i: int|
            0 <= i < without_value(edges, value).len() ==> (#[trigger] without_value(
                edges,
                value,
            )[i]).value != value && edges.contains(without_value(edges, value)[i]),
        forall|j: int|
            0 <= j < edges.len() && (#[trigger] edges[j]).value != value ==> without_value(
                edges,
                value,
            ).contains(edges[j]),
    decreases edges.len(),
{
    if edges.len() > 0 {
        let rest = edges.drop_last();
        lemma_without_value_members(rest, value);
        let out = without_value(edges, value);
        let sub = without_value(rest, value);
        assert forall|i: int| 0 <= i < out.len() implies (#[trigger] out[i]).value != value
            && edges.contains(out[i]) by {
            if i < sub.len() {
                assert(out[i] == sub[i]);
                assert(rest.contains(sub[i]));
                let j = choose|j: int| 0 <= j < rest.len() && rest[j] == sub[i];
                assert(edges[j] == out[i]);
            } else {
                assert(out[i] == edges.last());
                assert(edges[edges.len() - 1] == out[i]);
            }
        }
        assert forall|j: int| 0 <= j < edges.len() && (#[trigger] edges[j]).value
            != value implies out.contains(edges[j]) by {
            if j < rest.len() {
                assert(rest[j] == edges[j]);
                assert(sub.contains(rest[j]));
                let i = choose|i: int| 0 <= i < sub.len() && sub[i] == rest[j];
                assert(out[i] == edges[j]);
            } else {
                assert(out[out.len() - 1] == edges[j]);
            }
        }
    }
}

/// Whether an edge says that `owner` owns `value`.
pub fn is_owned_by(edges: &Vec<OwnershipEdge>, value: ValueId, owner: ScopeId) -> (r: bool)
    ensures
        r == owns(edges@, value, owner),
{
    let mut i: usize = 0;
    while i < edges.len()
        invariant
            0 <= i <= edges@.len(),
            forall|j: int|
                0 <= j < i ==> !((#[trigger] edges@[j]).value == value && edges@[j].owner
                    == owner),
        decreases edges@.len() - i,
    {
        if edges[i].value == value && edges[i].owner == owner {
            return true;
        }
        i += 1;
    }
    false
}

/// The first value that `owner` owns and that is not alive, if there is one.
pub fn find_dead_owned(
    edges: &Vec<OwnershipEdge>,
    values: &HashMap<ValueId, ValueNode>,
    owner: ScopeId,
) -> (r: Option<ValueId>)
    requires
        forall|i: int| 0 <= i < edges@.len() ==> values@.contains_key((#[trigger] edges@[i]).value),
    ensures
        r == first_dead_owned(edges@, values@, owner),
{
    broadcast use group_hash_axioms;

    let mut i: usize = 0;
    while i < edges.len()
        invariant
            0 <= i <= edges@.len(),
            forall|i: int|
                0 <= i < edges@.len() ==> values@.contains_key((#[trigger] edges@[i]).value),
            first_dead_owned(edges@.take(i as int), values@, owner) is None,
        decreases edges@.len() - i,
    {
        let edge = edges[i];
        assert(edges@.take(i + 1).drop_last() =~= edges@.take(i as int));
        assert(values@.contains_key(edges@[i as int].value));
        let alive = match values.get(&edge.value) {
            Some(node) => node.alive,
            None => true,
        };
        if edge.owner == owner && !alive {
            proof {
                lemma_first_dead_owned_prefix(edges@, values@, owner, i + 1);
            }
            return Some(edge.value);
        }
        i += 1;
    }
    assert(edges@.take(i as int) =~= edges@);
    None
}

/// Once a prefix of the edges holds a dead value of `owner`, the first one of
/// the whole list is the first one of the prefix.
pub proof fn lemma_first_dead_owned_prefix(
    edges: Seq<OwnershipEdge>,
    values: Map<ValueId, ValueNode>,
    owner: ScopeId,
    n: int,
)
    requires
        0 <= n <= edges.len(),
        first_dead_owned(edges.take(n), values, owner) is Some,
    ensures
        first_dead_owned(edges, values, owner) == first_dead_owned(edges.take(n), values, owner),
    decreases edges.len() - n,
{
    if n < edges.len() {
        assert(edges.take(n + 1).drop_last() =~= edges.take(n));
        lemma_first_dead_owned_prefix(edges, values, owner, n + 1);
    } else {
        assert(edges.take(n) =~= edges);
    }
}

/// Removes the edges of `owner`.
pub fn remove_edges_of_owner(edges: &mut Vec<OwnershipEdge>, owner: ScopeId)
    ensures
        final(edges)@ == without_owner(old(edges)@, owner),
{
    let mut kept: Vec<OwnershipEdge> = Vec::new();
    let mut i: usize = 0;
    while i < edges.len()
        invariant
            0 <= i <= edges@.len(),
            edges@ == old(edges)@,
            kept@ == without_owner(edges@.take(i as int), owner),
        decreases edges@.len() - i,
    {
        assert(edges@.take(i + 1).drop_last() =~= edges@.take(i as int));
        let edge = edges[i];
        if edge.owner != owner {
            kept.push(edge);
        }
        i += 1;
    }
    assert(edges@.take(i as int) =~= edges@);
    *edges = kept;
}

/// Removes the edges of `value`.
pub fn remove_edges_of_value(edges: &mut Vec<OwnershipEdge>, value: ValueId)
    ensures
        final(edges)@ == without_value(old(edges)@, value),
{
    let mut kept: Vec<OwnershipEdge> = Vec::new();
    let mut i: usize = 0;
    while i < edges.len()
        invariant
            0 <= i <= edges@.len(),
            edges@ == old(edges)@,
            kept@ == without_value(edges@.take(i as int), value),
        decreases edges@.len() - i,
    {
        assert(edges@.take(i + 1).drop_last() =~= edges@.take(i as int));
        let edge = edges[i];
        if edge.value != value {
            kept.push(edge);
        }
        i += 1;
    }
    assert(edges@.take(i as int) =~= edges@);
    *edges = kept;
}

/// Ends every lifetime of `scope`.
pub fn expire_lifetimes_of(
    lifetimes: &mut HashMap<LifetimeId, LifetimeNode>,
    bound: LifetimeId,
    scope: ScopeId,
)
    requires
        forall|k: LifetimeId| #[trigger] old(lifetimes)@.contains_key(k) ==> 1 <= k < bound,
    ensures
        final(lifetimes)@ == expire_lifetimes(old(lifetimes)@, scope),
{
    broadcast use group_hash_axioms;

    let ghost orig = lifetimes@;
    let mut id: LifetimeId = 1;
    while id < bound
        invariant
            1 <= id,
            id <= bound || bound == 0,
            orig == old(lifetimes)@,
            forall|k: LifetimeId| #[trigger] orig.contains_key(k) ==> 1 <= k < bound,
            forall|k: LifetimeId| lifetimes@.contains_key(k) == orig.contains_key(k),
            forall|k: LifetimeId| #[trigger]
                orig.contains_key(k) ==> lifetimes@[k] == if k < id && orig[k].scope == scope {
                    LifetimeNode { active: false, ..orig[k] }
                } else {
                    orig[k]
                },
        decreases bound - id,
    {
        let found = match lifetimes.get(&id) {
            Some(node) => Some(*node),
            None => None,
        };
        match found {
            Some(node) => {
                if node.scope == scope {
                    lifetimes.insert(id, LifetimeNode { active: false, ..node });
                }
            },
            None => {},
        }
        id += 1;
    }
    assert(lifetimes@ =~= expire_lifetimes(orig, scope));
}

/// Deletes every capability of `scope`.
pub fn delete_capabilities_of(
    capabilities: &mut HashMap<CapabilityId, CapabilityNode>,
    bound: CapabilityId,
    scope: ScopeId,
)
    requires
        forall|k: CapabilityId| #[trigger] old(capabilities)@.contains_key(k) ==> 1 <= k < bound,
    ensures
        final(capabilities)@ == delete_capabilities(old(capabilities)@, scope),
{
    broadcast use group_hash_axioms;

    let ghost orig = capabilities@;
    let mut id: CapabilityId = 1;
    while id < bound
        invariant
            1 <= id,
            id <= bound || bound == 0,
            orig == old(capabilities)@,
            forall|k: CapabilityId| #[trigger] orig.contains_key(k) ==> 1 <= k < bound,
            forall|k: CapabilityId| #[trigger]
                capabilities@.contains_key(k) ==> orig.contains_key(k) && !(k < id
                    && orig[k].scope == scope) && capabilities@[k] == orig[k],
            forall|k: CapabilityId| #[trigger]
                orig.contains_key(k) && !(k < id && orig[k].scope == scope)
                    ==> capabilities@.contains_key(k),
        decreases bound - id,
    {
        let of_scope = match capabilities.get(&id) {
            Some(node) => node.scope == scope,
            None => false,
        };
        if of_scope {
            capabilities.remove(&id);
        }
        id += 1;
    }
    assert(capabilities@ =~= delete_capabilities(orig, scope));
}

/// Destroys every value that `owner` owns.
pub fn destroy_owned_by(
    values: &mut HashMap<ValueId, ValueNode>,
    edges: &Vec<OwnershipEdge>,
    owner: ScopeId,
)
    requires
        forall|i: int|
            0 <= i < edges@.len() ==> old(values)@.contains_key((#[trigger] edges@[i]).value),
    ensures
        final(values)@ == destroy_owned(old(values)@, edges@, owner),
{
    broadcast use group_hash_axioms;

    let ghost orig = values@;
    let mut i: usize = 0;
    while i < edges.len()
        invariant
            0 <= i <= edges@.len(),
            orig == old(values)@,
            forall|i: int| 0 <= i < edges@.len() ==> orig.contains_key((#[trigger] edges@[i]).value),
            forall|k: ValueId| values@.contains_key(k) == orig.contains_key(k),
            forall|k: ValueId| #[trigger]
                orig.contains_key(k) ==> values@[k] == if owns(edges@.take(i as int), k, owner) {
                    ValueNode { alive: false, ..orig[k] }
                } else {
                    orig[k]
                },
        decreases edges@.len() - i,
    {
        let edge = edges[i];
        let ghost prev = edges@.take(i as int);
        let ghost next = edges@.take(i + 1);
        assert(orig.contains_key(edges@[i as int].value));
        if edge.owner == owner {
            let found = match values.get(&edge.value) {
                Some(node) => Some(*node),
                None => None,
            };
            match found {
                Some(node) => {
                    values.insert(edge.value, ValueNode { alive: false, ..node });
                },
                None => {},
            }
        }
        proof {
            assert forall|k: ValueId| #[trigger] orig.contains_key(k) implies values@[k] == if owns(
                next,
                k,
                owner,
            ) {
                ValueNode { alive: false, ..orig[k] }
            } else {
                orig[k]
            } by {
                if owns(prev, k, owner) {
                    let j = choose|j: int|
                        0 <= j < prev.len() && (#[trigger] prev[j]).value == k && prev[j].owner
                            == owner;
                    assert(next[j].value == k && next[j].owner == owner);
                }
                if owns(next, k, owner) && !owns(prev, k, owner) {
                    let j = choose|j: int|
                        0 <= j < next.len() && (#[trigger] next[j]).value == k && next[j].owner
                            == owner;
                    if j < i {
                        assert(prev[j].value == k && prev[j].owner == owner);
                    }
                    assert(j == i);
                }
                if edge.owner == owner && edge.value == k {
                    assert(next[i as int].value == k && next[i as int].owner == owner);
                }
            }
        }
        i += 1;
    }
    assert(edges@.take(i as int) =~= edges@);
    assert(values@ =~= destroy_owned(orig, edges@, owner));
}

/// The capability with the least identifier that stands in the way of a new
/// capability of `kind` on `value`.
pub fn find_conflict(
    capabilities: &HashMap<CapabilityId, CapabilityNode>,
    bound: CapabilityId,
    value: ValueId,
    kind: CapabilityKind,
) -> (r: Option<CapabilityNode>)
    requires
        forall|k: CapabilityId| #[trigger] capabilities@.contains_key(k) ==> 1 <= k < bound,
    ensures
        r is Some == has_conflict(capabilities@, value, kind),
        r matches Some(cap) ==> cap == capabilities@[least_conflict(capabilities@, value, kind)],
{
    broadcast use group_hash_axioms;

    let mut id: CapabilityId = 1;
    while id < bound
        invariant
            1 <= id,
            id <= bound || bound == 0,
            forall|k: CapabilityId| #[trigger] capabilities@.contains_key(k) ==> 1 <= k < bound,
            forall|j: CapabilityId| j < id ==> !is_conflict(capabilities@, j, value, kind),
        decreases bound - id,
    {
        let found = match capabilities.get(&id) {
            Some(node) => Some(*node),
            None => None,
        };
        match found {
            Some(cap) => {
                if cap.value == value && (cap.kind == CapabilityKind::UniqueMut || kind
                    == CapabilityKind::UniqueMut) {
                    proof {
                        assert(is_least_conflict(capabilities@, id, value, kind));
                        let least = least_conflict(capabilities@, value, kind);
                        assert(is_least_conflict(capabilities@, least, value, kind));
                        assert(least == id) by {
                            if least < id {
                                assert(!is_conflict(capabilities@, least, value, kind));
                            }
                            if id < least {
                                assert(!is_conflict(capabilities@, id, value, kind));
                            }
                        }
                        assert(is_conflict(capabilities@, id, value, kind));
                    }
                    return Some(cap);
                }
            },
            None => {},
        }
        id += 1;
    }
    assert forall|k: CapabilityId| !is_conflict(capabilities@, k, value, kind) by {
        if capabilities@.contains_key(k) {
            assert(k < id);
        }
    }
    None
}

/// Whether some capability refers to `value`.
pub fn any_capability_on(
    capabilities: &HashMap<CapabilityId, CapabilityNode>,
    bound: CapabilityId,
    value: ValueId,
) -> (r: bool)
    requires
        forall|k: CapabilityId| #[trigger] capabilities@.contains_key(k) ==> 1 <= k < bound,
    ensures
        r == has_capability_on(capabilities@, value),
{
    broadcast use group_hash_axioms;

    let mut id: CapabilityId = 1;
    while id < bound
        invariant
            1 <= id,
            id <= bound || bound == 0,
            forall|k: CapabilityId| #[trigger] capabilities@.contains_key(k) ==> 1 <= k < bound,
            forall|j: CapabilityId|
                j < id && capabilities@.contains_key(j) ==> (#[trigger] capabilities@[j]).value
                    != value,
        decreases bound - id,
    {
        let on_value = match capabilities.get(&id) {
            Some(node) => node.value == value,
            None => false,
        };
        if on_value {
            assert(capabilities@.contains_key(id) && capabilities@[id].value == value);
            return true;
        }
        id += 1;
    }
    assert forall|k: CapabilityId| capabilities@.contains_key(k) implies (
    #[trigger] capabilities@[k]).value != value by {
        assert(k < id);
    }
    false
}

} // verus!
