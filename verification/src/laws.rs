//! What the invariants say of every state that the operations can reach.

use vstd::prelude::*;

use crate::graph::{
    CapabilityId, CapabilityKind, LifetimeId, OwnershipEdge, RegionId, ScopeId, ValueId,
    ValueOrigin,
};
use crate::invariants::{lemma_edge_count_zero, lemma_top_safe_scope};
use crate::ast::Decl;
use crate::exec::{run_all, run_block, run_one, Machine};
use crate::interpreter::InterpreterState;
use crate::invariants::{
    lemma_add_unsafe_assumption_inv, lemma_allocate_value_inv, lemma_create_capability_inv,
    lemma_create_lifetime_inv, lemma_declare_phase_inv, lemma_declare_region_inv,
    lemma_drop_value_inv, lemma_enter_scope_inv, lemma_exit_scope_inv, lemma_initial_inv,
};
use crate::model::{edge_count, is_conflict, owns, StateView};
use crate::report::{
    ascending, ascending_keys, exit_code_of, lemma_ascending, report_of, report_text,
    value_summary, verdict_text, SafetyReport,
};
use crate::analysis::program_run;
use crate::exec::{capability_kind_of, region_kind_of};
use crate::names::lookup;
use crate::scope::ScopeKind;
use crate::tables::lemma_without_owner_members;

verus! {

/// A scope that has been left holds nothing: none of its lifetimes is
/// active, no capability belongs to it, it owns no value, and every value
/// that is alive is owned by a scope that is still active.
pub proof fn law_exited_scope_holds_nothing(s: StateView, scope: ScopeId)
    requires
        s.inv(),
        s.scopes.contains_key(scope),
        !s.scopes[scope].active,
    ensures
        forall|l: LifetimeId|
            s.lifetimes.contains_key(l) && (#[trigger] s.lifetimes[l]).scope == scope
                ==> !s.lifetimes[l].active,
        forall|c: CapabilityId|
            s.capabilities.contains_key(c) ==> (#[trigger] s.capabilities[c]).scope != scope,
        forall|i: int| 0 <= i < s.edges.len() ==> (#[trigger] s.edges[i]).owner != scope,
        forall|v: ValueId|
            s.values.contains_key(v) && (#[trigger] s.values[v]).alive ==> !owns(
                s.edges,
                v,
                scope,
            ),
{
    assert(!s.stack.contains(scope));
    assert forall|c: CapabilityId| s.capabilities.contains_key(c) implies (
    #[trigger] s.capabilities[c]).scope != scope by {
        assert(s.capability_ok(s.capabilities[c]));
    }
    assert forall|i: int| 0 <= i < s.edges.len() implies (#[trigger] s.edges[i]).owner
        != scope by {
        assert(s.stack.contains(s.edges[i].owner));
    }
}

/// Leaving a scope ends its lifetimes, deletes its capabilities, destroys
/// the values it owns, removes its ownership edges and deactivates it.
pub proof fn law_exit_clears_scope(s: StateView)
    requires
        s.wf(),
        s.exit_scope_check() is None,
    ensures
        ({
            let t = s.exit_scope();
            let scope = s.stack.last();
            &&& !t.scopes[scope].active
            &&& forall|l: LifetimeId|
                t.lifetimes.contains_key(l) && (#[trigger] t.lifetimes[l]).scope == scope
                    ==> !t.lifetimes[l].active
            &&& forall|c: CapabilityId|
                t.capabilities.contains_key(c) ==> (#[trigger] t.capabilities[c]).scope != scope
            &&& forall|v: ValueId|
                s.values.contains_key(v) && owns(s.edges, v, scope) ==> !(
                #[trigger] t.values[v]).alive
            &&& forall|i: int| 0 <= i < t.edges.len() ==> (#[trigger] t.edges[i]).owner != scope
        }),
{
    lemma_without_owner_members(s.edges, s.stack.last());
}

/// A value that is alive has exactly one ownership edge; a destroyed value
/// has none.
pub proof fn law_one_owner_while_alive(s: StateView, v: ValueId)
    requires
        s.inv(),
        s.values.contains_key(v),
    ensures
        edge_count(s.edges, v) == if s.values[v].alive {
            1nat
        } else {
            0nat
        },
        s.values[v].alive ==> exists|i: int|
            0 <= i < s.edges.len() && (#[trigger] s.edges[i]).value == v,
        !s.values[v].alive ==> forall|i: int|
            0 <= i < s.edges.len() ==> (#[trigger] s.edges[i]).value != v,
{
    lemma_edge_count_zero(s.edges, v);
}

/// A `UniqueMut` capability is the only capability on its value.
pub proof fn law_unique_mut_is_exclusive(s: StateView, a: CapabilityId, b: CapabilityId)
    requires
        s.inv(),
        s.capabilities.contains_key(a),
        s.capabilities.contains_key(b),
        a != b,
        s.capabilities[a].value == s.capabilities[b].value,
    ensures
        s.capabilities[a].kind != CapabilityKind::UniqueMut,
        s.capabilities[b].kind != CapabilityKind::UniqueMut,
{
}

/// A capability that would put a `UniqueMut` capability beside another one
/// on the same value is rejected.
pub proof fn law_conflict_is_rejected(
    s: StateView,
    kind: CapabilityKind,
    value: ValueId,
    lifetime: LifetimeId,
    existing: CapabilityId,
)
    requires
        s.capabilities.contains_key(existing),
        s.capabilities[existing].value == value,
        s.capabilities[existing].kind == CapabilityKind::UniqueMut || kind
            == CapabilityKind::UniqueMut,
    ensures
        s.create_capability_check(kind, value, lifetime) is Some,
{
    assert(is_conflict(s.capabilities, existing, value, kind));
}

/// A value is tagged unsafe exactly if it is allocated with an unsafe scope
/// on the stack; even so the scope that owns it is not an unsafe scope.
pub proof fn law_allocation_origin_and_owner(s: StateView, region: RegionId)
    requires
        s.wf(),
        s.allocate_value_check(region) is None,
    ensures
        ({
            let t = s.allocate_value(region);
            let id = s.next_value_id;
            let owner = s.effective_owner()->0;
            &&& t.values.contains_key(id)
            &&& t.values[id].alive
            &&& (t.values[id].origin == ValueOrigin::Unsafe <==> s.in_unsafe())
            &&& owns(t.edges, id, owner)
            &&& s.stack.contains(owner)
            &&& s.scopes[owner].kind != ScopeKind::Unsafe
            &&& forall|o: ScopeId| owns(t.edges, id, o) ==> o == owner
        }),
{
    let t = s.allocate_value(region);
    let id = s.next_value_id;
    let owner = s.effective_owner()->0;
    lemma_top_safe_scope(s.scopes, s.stack);
    assert(t.edges[s.edges.len() as int] == OwnershipEdge { value: id, owner });
    assert forall|o: ScopeId| owns(t.edges, id, o) implies o == owner by {
        let i = choose|i: int|
            0 <= i < t.edges.len() && (#[trigger] t.edges[i]).value == id && t.edges[i].owner == o;
        if i < s.edges.len() {
            assert(s.values.contains_key(s.edges[i].value));
        }
    }
}

/// The owner of a value is never an unsafe scope, and it is active.
pub proof fn law_owner_is_never_unsafe(s: StateView, i: int)
    requires
        s.inv(),
        0 <= i < s.edges.len(),
    ensures
        s.scopes.contains_key(s.edges[i].owner),
        s.scopes[s.edges[i].owner].kind != ScopeKind::Unsafe,
        s.scopes[s.edges[i].owner].active,
{
    let owner = s.edges[i].owner;
    assert(s.stack.contains(owner));
    let j = choose|j: int| 0 <= j < s.stack.len() && s.stack[j] == owner;
    assert(s.scopes.contains_key(s.stack[j]));
}

/// A capability refers to a value that is alive and to an active lifetime,
/// and its phase is the phase of its lifetime.
pub proof fn law_capability_phase(s: StateView, c: CapabilityId)
    requires
        s.inv(),
        s.capabilities.contains_key(c),
    ensures
        s.values.contains_key(s.capabilities[c].value),
        s.values[s.capabilities[c].value].alive,
        s.lifetimes.contains_key(s.capabilities[c].lifetime),
        s.lifetimes[s.capabilities[c].lifetime].active,
        s.capabilities[c].phase == s.lifetimes[s.capabilities[c].lifetime].phase,
{
    assert(s.capability_ok(s.capabilities[c]));
}

/// The verdict is SAFE exactly if no assumption is recorded and
/// SAFE_IF_ASSUMPTIONS_HOLD exactly if at least one is. The exit code is 0
/// with the first verdict and 1 with the second, and the text of the report
/// ends in the same verdict.
pub proof fn law_verdict(s: StateView)
    requires
        s.wf(),
    ensures
        report_of(s).verdict == "SAFE"@ <==> forall|k: u64| !s.assumptions.contains_key(k),
        report_of(s).verdict == "SAFE_IF_ASSUMPTIONS_HOLD"@ <==> exists|k: u64|
            s.assumptions.contains_key(k),
        exit_code_of(report_of(s)) == if report_of(s).verdict == "SAFE"@ {
            0i32
        } else {
            1i32
        },
        report_of(s).has_unsafe_assumptions <==> exists|k: u64| s.assumptions.contains_key(k),
        verdict_text(report_of(s)) == report_of(s).verdict,
{
    reveal_strlit("SAFE");
    reveal_strlit("SAFE_IF_ASSUMPTIONS_HOLD");
    let bound = s.next_assumption_id as nat;
    lemma_ascending(s.assumptions, bound);
    let keys = ascending_keys(s.assumptions, bound);
    assert("SAFE"@.len() != "SAFE_IF_ASSUMPTIONS_HOLD"@.len());
    if keys.len() > 0 {
        assert(s.assumptions.contains_key(keys[0]));
    } else {
        assert forall|k: u64| !s.assumptions.contains_key(k) by {
            if s.assumptions.contains_key(k) {
                assert(keys.contains(k));
            }
        }
    }
}

/// The report lists every value of the state once, in ascending order of the
/// identifiers, and every assumption likewise.
pub proof fn law_report_lists_in_order(s: StateView)
    requires
        s.wf(),
    ensures
        forall|i: int, j: int|
            0 <= i < j < report_of(s).values.len() ==> (#[trigger] report_of(s).values[i]).id < (
            #[trigger] report_of(s).values[j]).id,
        forall|i: int|
            0 <= i < report_of(s).values.len() ==> s.values.contains_key(
                (#[trigger] report_of(s).values[i]).id,
            ) && report_of(s).values[i] == value_summary(s.values[report_of(s).values[i].id]),
        forall|v: u64|
            s.values.contains_key(v) ==> report_of(s).values.contains(
                value_summary(#[trigger] s.values[v]),
            ),
        forall|i: int, j: int|
            0 <= i < j < report_of(s).unsafe_assumptions.len() ==> (
            #[trigger] report_of(s).unsafe_assumptions[i]).id < (
            #[trigger] report_of(s).unsafe_assumptions[j]).id,
        forall|i: int|
            0 <= i < report_of(s).unsafe_assumptions.len() ==> s.assumptions.contains_key(
                (#[trigger] report_of(s).unsafe_assumptions[i]).id,
            ) && report_of(s).unsafe_assumptions[i]
                == s.assumptions[report_of(s).unsafe_assumptions[i].id],
        forall|a: u64|
            s.assumptions.contains_key(a) ==> report_of(s).unsafe_assumptions.contains(
                #[trigger] s.assumptions[a],
            ),
{
    let r = report_of(s);
    let vb = s.next_value_id as nat;
    let ab = s.next_assumption_id as nat;
    lemma_ascending(s.values, vb);
    lemma_ascending(s.assumptions, ab);
    let vkeys = ascending_keys(s.values, vb);
    let akeys = ascending_keys(s.assumptions, ab);
    assert forall|i: int| 0 <= i < r.values.len() implies (#[trigger] r.values[i]).id
        == vkeys[i] && s.values.contains_key(vkeys[i]) && r.values[i] == value_summary(
        s.values[vkeys[i]],
    ) by {
        assert(s.values.contains_key(vkeys[i]));
    }
    assert forall|i: int| 0 <= i < r.unsafe_assumptions.len() implies (
    #[trigger] r.unsafe_assumptions[i]).id == akeys[i] && s.assumptions.contains_key(akeys[i])
        && r.unsafe_assumptions[i] == s.assumptions[akeys[i]] by {
        assert(s.assumptions.contains_key(akeys[i]));
    }
    assert forall|v: u64| s.values.contains_key(v) implies r.values.contains(
        value_summary(#[trigger] s.values[v]),
    ) by {
        assert(vkeys.contains(v));
        let i = choose|i: int| 0 <= i < vkeys.len() && vkeys[i] == v;
        assert(r.values[i] == value_summary(s.values[v]));
    }
    assert forall|a: u64| s.assumptions.contains_key(a) implies r.unsafe_assumptions.contains(
        #[trigger] s.assumptions[a],
    ) by {
        assert(akeys.contains(a));
        let i = choose|i: int| 0 <= i < akeys.len() && akeys[i] == a;
        assert(r.unsafe_assumptions[i] == s.assumptions[a]);
    }
}

/// Reporting is repeatable: reports on states with the same tables are the
/// same, and so are their texts.
pub proof fn law_report_is_repeatable(
    first: InterpreterState,
    second: InterpreterState,
    a: SafetyReport,
    b: SafetyReport,
)
    requires
        first@ == second@,
        a@ == report_of(first@),
        b@ == report_of(second@),
    ensures
        a@ == b@,
        report_text(a@, first@) == report_text(b@, second@),
        exit_code_of(a@) == exit_code_of(b@),
{
}

/// A block that is run in a state that satisfies the invariants ends in one
/// that does.
pub proof fn law_block_keeps_invariants(kind: ScopeKind, body: Seq<Decl>, m: Machine)
    requires
        m.state.inv(),
    ensures
        run_block(kind, body, m).end.state.inv(),
    decreases body, 3nat,
{
    if m.state.next_scope_id != u64::MAX {
        lemma_enter_scope_inv(m.state, kind);
        let entered = Machine { state: m.state.enter_scope(kind), frame: m.frame };
        law_run_keeps_invariants(body, entered);
        let inner = run_all(body, entered);
        if inner.error is None && inner.end.state.exit_scope_check() is None {
            lemma_exit_scope_inv(inner.end.state);
        }
    }
}

/// A declaration that is run in a state that satisfies the invariants leaves
/// one that does, accepted or not.
pub proof fn law_declaration_keeps_invariants(decl: Decl, m: Machine)
    requires
        m.state.inv(),
    ensures
        run_one(decl, m).end.state.inv(),
    decreases decl, 0nat,
{
    let s = m.state;
    let f = m.frame;
    match decl {
        Decl::PhaseDecl { name } => {
            if s.declare_phase_check(name) is None {
                lemma_declare_phase_inv(s, name);
            }
        },
        Decl::Function { name, body } => {
            law_block_keeps_invariants(ScopeKind::Function, body, m);
        },
        Decl::Unsafe { body } => {
            law_block_keeps_invariants(ScopeKind::Unsafe, body, m);
        },
        Decl::Region { kind, name } => {
            if region_kind_of(kind) is Some && s.declare_region_check() is None {
                lemma_declare_region_inv(s, region_kind_of(kind)->0);
            }
        },
        Decl::Lifetime { name, scope } => {
            if s.create_lifetime_check() is None {
                lemma_create_lifetime_inv(s);
            }
        },
        Decl::Let { name, region } => {
            match lookup(f.regions, region) {
                Some(r) => {
                    if s.allocate_value_check(r) is None {
                        lemma_allocate_value_inv(s, r);
                    }
                },
                None => {},
            }
        },
        Decl::Capability { kind, value, lifetime } => {
            match (capability_kind_of(kind), lookup(f.values, value), lookup(f.lifetimes, lifetime)) {
                (Some(k), Some(v), Some(l)) => {
                    if s.create_capability_check(k, v, l) is None {
                        lemma_create_capability_inv(s, k, v, l);
                    }
                },
                _ => {},
            }
        },
        Decl::Drop { value } => {
            match lookup(f.values, value) {
                Some(v) => {
                    if s.drop_value_check(v) is None {
                        lemma_drop_value_inv(s, v);
                    }
                },
                None => {},
            }
        },
        Decl::Assume { text } => {
            if s.add_unsafe_assumption_check() is None {
                lemma_add_unsafe_assumption_inv(s, text, crate::names::bound_ids(f.values));
            }
        },
    }
}

/// Declarations that are run in a state that satisfies the invariants end in
/// one that does, wherever the run stops.
pub proof fn law_run_keeps_invariants(decls: Seq<Decl>, m: Machine)
    requires
        m.state.inv(),
    ensures
        run_all(decls, m).end.state.inv(),
    decreases decls, 2nat,
{
    if decls.len() > 0 {
        law_run_keeps_invariants(decls.drop_last(), m);
        let before = run_all(decls.drop_last(), m);
        if before.error is None {
            law_declaration_keeps_invariants(decls.last(), before.end);
        }
    }
}

/// Every program, accepted or rejected, ends in a state that satisfies the
/// invariants.
pub proof fn law_every_program_keeps_invariants(decls: Seq<Decl>)
    ensures
        program_run(decls).end.state.inv(),
{
    lemma_initial_inv();
    lemma_enter_scope_inv(StateView::initial(), ScopeKind::Module);
    law_run_keeps_invariants(decls, crate::analysis::start());
}

/// Phases are listed in ascending order of their identifiers, which are
/// their positions, and the current phase is one of them.
pub proof fn law_phases_in_order(s: StateView)
    requires
        s.inv(),
    ensures
        forall|i: int, j: int|
            0 <= i < j < s.phases.len() ==> (#[trigger] s.phases[i]).id < (
            #[trigger] s.phases[j]).id,
        forall|i: int| 0 <= i < s.phases.len() ==> (#[trigger] s.phases[i]).order == i,
        s.current_phase matches Some(p) ==> p < s.phases.len() && s.phases[p as int].id == p,
{
}

} // verus!
