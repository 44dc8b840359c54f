use chiru::error::SemanticError;
use chiru::graph::{CapabilityKind, RegionKind, ValueOrigin};
use chiru::interpreter::InterpreterState;
use chiru::report::SafetyReport;
use chiru::scope::ScopeKind;

fn in_function() -> InterpreterState {
    let mut state = InterpreterState::new();
    state.enter_scope(ScopeKind::Module);
    state.declare_phase("main".to_string()).unwrap();
    state.enter_scope(ScopeKind::Function);
    state
}

#[test]
fn new_state_is_empty() {
    let state = InterpreterState::new();
    assert!(state.scope_stack.is_empty());
    assert!(state.scopes.is_empty());
    assert!(state.graph.values.is_empty());
    assert!(state.phases.is_empty());
    assert_eq!(state.current_phase, None);
    assert_eq!(state.top_scope(), None);
    assert_eq!(state.effective_owner_scope(), None);
    assert!(!state.is_in_unsafe_scope());
    assert!(state.can_enter_scope());
}

#[test]
fn enter_scope_records_parent_and_kind() {
    let mut state = InterpreterState::new();
    let a = state.enter_scope(ScopeKind::Module);
    let b = state.enter_scope(ScopeKind::Block);
    assert_eq!((a, b), (1, 2));
    assert_eq!(state.current_scope(), 2);
    let node = state.scopes.get(&b).unwrap();
    assert_eq!(node.id, 2);
    assert_eq!(node.parent, Some(1));
    assert_eq!(node.kind, ScopeKind::Block);
    assert!(node.active);
    assert_eq!(state.scopes.get(&a).unwrap().parent, None);
}

#[test]
fn operations_without_a_scope_are_rejected() {
    let mut state = InterpreterState::new();
    assert_eq!(state.exit_scope(), Err(SemanticError::NoActiveScope));
    assert_eq!(state.declare_region(RegionKind::Heap), Err(SemanticError::NoActiveScope));
    assert_eq!(state.create_lifetime(), Err(SemanticError::NoActiveScope));
    assert_eq!(state.declare_phase("p".to_string()), Err(SemanticError::NoActiveScope));
    assert_eq!(state.drop_value(1), Err(SemanticError::NoActiveScope));
    assert_eq!(
        state.add_unsafe_assumption("x".to_string(), vec![]),
        Err(SemanticError::AssumeOutsideUnsafe)
    );
}

#[test]
fn phases_belong_to_the_module_scope() {
    let mut state = InterpreterState::new();
    state.enter_scope(ScopeKind::Module);
    assert_eq!(state.declare_phase("a".to_string()), Ok(0));
    assert_eq!(state.declare_phase("b".to_string()), Ok(1));
    assert_eq!(state.current_phase, Some(0));
    assert_eq!(state.declare_phase("a".to_string()), Err(SemanticError::DuplicatePhase));
    state.enter_scope(ScopeKind::Function);
    assert_eq!(state.declare_phase("c".to_string()), Err(SemanticError::PhaseOutsideModule));
    assert_eq!(state.phases.len(), 2);
}

#[test]
fn lifetime_needs_a_phase() {
    let mut state = InterpreterState::new();
    state.enter_scope(ScopeKind::Module);
    assert_eq!(state.create_lifetime(), Err(SemanticError::NoCurrentPhase));
    state.declare_phase("main".to_string()).unwrap();
    let id = state.create_lifetime().unwrap();
    assert_eq!(id, 1);
    let node = state.graph.lifetimes.get(&id).unwrap();
    assert_eq!((node.id, node.scope, node.active, node.phase), (1, 1, true, 0));
}

#[test]
fn lifetime_needs_an_active_scope() {
    let mut state = in_function();
    let top = state.current_scope();
    let mut node = *state.scopes.get(&top).unwrap();
    node.active = false;
    state.scopes.insert(top, node);
    assert_eq!(state.create_lifetime(), Err(SemanticError::InactiveScope));
}

#[test]
fn allocation_needs_region_and_owner() {
    let mut state = InterpreterState::new();
    state.enter_scope(ScopeKind::Unsafe);
    let region = state.declare_region(RegionKind::Static).unwrap();
    assert_eq!(state.allocate_value(99), Err(SemanticError::UnknownRegion));
    assert_eq!(state.allocate_value(region), Err(SemanticError::NoOwnerScope));
    assert!(state.graph.values.is_empty());
    assert!(state.graph.ownership_edges.is_empty());
}

#[test]
fn allocation_tags_origin_and_owner() {
    let mut state = in_function();
    let region = state.declare_region(RegionKind::Stack).unwrap();
    assert_eq!(state.graph.regions.get(&region).unwrap().scope, 2);
    assert_eq!(state.graph.regions.get(&region).unwrap().kind, RegionKind::Stack);
    let safe = state.allocate_value(region).unwrap();
    state.enter_scope(ScopeKind::Unsafe);
    state.enter_scope(ScopeKind::Block);
    let tagged = state.allocate_value(region).unwrap();
    assert_eq!(state.graph.values.get(&safe).unwrap().origin, ValueOrigin::Safe);
    assert_eq!(state.graph.values.get(&tagged).unwrap().origin, ValueOrigin::Unsafe);
    assert_eq!(state.graph.values.get(&tagged).unwrap().region, region);
    // The block under the unsafe scope is not unsafe itself and owns the value.
    assert_eq!(state.graph.ownership_edges[1].owner, 4);
    assert!(state.is_in_unsafe_scope());
}

#[test]
fn capability_rejections() {
    let mut state = in_function();
    let region = state.declare_region(RegionKind::Heap).unwrap();
    let value = state.allocate_value(region).unwrap();
    let lifetime = state.create_lifetime().unwrap();
    assert_eq!(
        state.create_capability(CapabilityKind::Own, 9, lifetime),
        Err(SemanticError::UnknownValue)
    );
    assert_eq!(
        state.create_capability(CapabilityKind::Own, value, 9),
        Err(SemanticError::UnknownLifetime)
    );
    state.enter_scope(ScopeKind::Block);
    let inner_life = state.create_lifetime().unwrap();
    let inner_value = state.allocate_value(region).unwrap();
    state.exit_scope().unwrap();
    assert_eq!(
        state.create_capability(CapabilityKind::Own, value, inner_life),
        Err(SemanticError::InactiveLifetime)
    );
    assert_eq!(
        state.create_capability(CapabilityKind::Own, inner_value, lifetime),
        Err(SemanticError::ValueDestroyed)
    );
    state.current_phase = None;
    assert_eq!(
        state.create_capability(CapabilityKind::Own, value, lifetime),
        Err(SemanticError::NoCurrentPhase)
    );
}

#[test]
fn shared_capabilities_coexist() {
    let mut state = in_function();
    let region = state.declare_region(RegionKind::Heap).unwrap();
    let value = state.allocate_value(region).unwrap();
    let lifetime = state.create_lifetime().unwrap();
    assert_eq!(state.create_capability(CapabilityKind::SharedRead, value, lifetime), Ok(1));
    assert_eq!(state.create_capability(CapabilityKind::Own, value, lifetime), Ok(2));
    assert_eq!(state.create_capability(CapabilityKind::ThreadSend, value, lifetime), Ok(3));
    assert_eq!(state.create_capability(CapabilityKind::ThreadShare, value, lifetime), Ok(4));
    assert_eq!(
        state.create_capability(CapabilityKind::UniqueMut, value, lifetime),
        Err(SemanticError::CapabilityConflict {
            value,
            existing: CapabilityKind::SharedRead,
            existing_lifetime: lifetime,
            requested: CapabilityKind::UniqueMut,
        })
    );
    assert_eq!(state.graph.capabilities.len(), 4);
}

#[test]
fn unique_mut_excludes_another_unique_mut_under_another_lifetime() {
    let mut state = in_function();
    let region = state.declare_region(RegionKind::Heap).unwrap();
    let value = state.allocate_value(region).unwrap();
    let other = state.allocate_value(region).unwrap();
    let first = state.create_lifetime().unwrap();
    let second = state.create_lifetime().unwrap();
    state.create_capability(CapabilityKind::UniqueMut, value, first).unwrap();
    assert_eq!(
        state.create_capability(CapabilityKind::UniqueMut, value, second),
        Err(SemanticError::CapabilityConflict {
            value,
            existing: CapabilityKind::UniqueMut,
            existing_lifetime: first,
            requested: CapabilityKind::UniqueMut,
        })
    );
    // Another value is not affected.
    assert!(state.create_capability(CapabilityKind::UniqueMut, other, first).is_ok());
}

#[test]
fn drop_rejections_and_success() {
    let mut state = in_function();
    let region = state.declare_region(RegionKind::Heap).unwrap();
    let value = state.allocate_value(region).unwrap();
    assert_eq!(state.drop_value(77), Err(SemanticError::UnknownValue));
    state.enter_scope(ScopeKind::Block);
    assert_eq!(state.drop_value(value), Err(SemanticError::NotOwner));
    state.exit_scope().unwrap();
    assert_eq!(state.drop_value(value), Ok(()));
    assert!(!state.graph.values.get(&value).unwrap().alive);
    assert!(state.graph.ownership_edges.is_empty());
    assert_eq!(state.drop_value(value), Err(SemanticError::AlreadyDestroyed));
    // Leaving the scope afterwards finds nothing to destroy twice.
    assert_eq!(state.exit_scope(), Ok(()));
}

#[test]
fn drop_sees_capabilities_of_inner_scopes() {
    let mut state = in_function();
    let region = state.declare_region(RegionKind::Heap).unwrap();
    let lifetime = state.create_lifetime().unwrap();
    state.enter_scope(ScopeKind::Unsafe);
    let value = state.allocate_value(region).unwrap();
    state.create_capability(CapabilityKind::SharedRead, value, lifetime).unwrap();
    // The function owns the value but the unsafe block is current.
    assert_eq!(state.drop_value(value), Err(SemanticError::NotOwner));
    state.exit_scope().unwrap();
    // The capability went with the block, so the drop is accepted now.
    assert_eq!(state.drop_value(value), Ok(()));
}

#[test]
fn exit_cascade() {
    let mut state = in_function();
    let region = state.declare_region(RegionKind::Heap).unwrap();
    let outer = state.allocate_value(region).unwrap();
    let outer_life = state.create_lifetime().unwrap();
    state.enter_scope(ScopeKind::Block);
    let inner = state.allocate_value(region).unwrap();
    let inner_life = state.create_lifetime().unwrap();
    let kept = state.create_capability(CapabilityKind::SharedRead, outer, outer_life).unwrap();
    let gone = state.create_capability(CapabilityKind::Own, inner, inner_life).unwrap();
    assert_eq!(state.exit_scope(), Ok(()));
    assert!(!state.graph.lifetimes.get(&inner_life).unwrap().active);
    assert!(state.graph.lifetimes.get(&outer_life).unwrap().active);
    assert!(state.graph.capabilities.get(&gone).is_none());
    assert!(state.graph.capabilities.get(&kept).is_none());
    assert!(!state.graph.values.get(&inner).unwrap().alive);
    assert!(state.graph.values.get(&outer).unwrap().alive);
    assert_eq!(state.graph.ownership_edges.len(), 1);
    assert_eq!(state.graph.ownership_edges[0].value, outer);
    assert!(!state.scopes.get(&3).unwrap().active);
    assert_eq!(state.scope_stack, vec![1, 2]);
}

#[test]
fn exit_rejects_double_destruction_and_changes_nothing() {
    let mut state = in_function();
    let region = state.declare_region(RegionKind::Heap).unwrap();
    let value = state.allocate_value(region).unwrap();
    let lifetime = state.create_lifetime().unwrap();
    let mut node = *state.graph.values.get(&value).unwrap();
    node.alive = false;
    state.graph.values.insert(value, node);
    assert_eq!(state.exit_scope(), Err(SemanticError::DoubleDestruction { value }));
    assert_eq!(state.scope_stack, vec![1, 2]);
    assert!(state.graph.lifetimes.get(&lifetime).unwrap().active);
    assert_eq!(state.graph.ownership_edges.len(), 1);
    assert_eq!(
        SemanticError::DoubleDestruction { value }.message(),
        "Value 1 already destroyed before scope exit.\nRule: A value is destroyed exactly once.\nSuggested fix: Let the scope exit destroy the value."
    );
}

#[test]
fn assumption_is_recorded_under_scope_and_phase() {
    let mut state = in_function();
    assert_eq!(
        state.add_unsafe_assumption("no".to_string(), vec![]),
        Err(SemanticError::AssumeOutsideUnsafe)
    );
    state.enter_scope(ScopeKind::Unsafe);
    let id = state.add_unsafe_assumption("aligned".to_string(), vec![4, 2]).unwrap();
    let node = state.graph.unsafe_assumptions.get(&id).unwrap();
    assert_eq!(node.id, 1);
    assert_eq!(node.description, "aligned");
    assert_eq!(node.scope, 3);
    assert_eq!(node.affected_values, vec![4, 2]);
    assert_eq!(node.phase, 0);
}

#[test]
fn assumption_needs_a_phase() {
    let mut state = InterpreterState::new();
    state.enter_scope(ScopeKind::Module);
    state.enter_scope(ScopeKind::Unsafe);
    assert_eq!(
        state.add_unsafe_assumption("x".to_string(), vec![]),
        Err(SemanticError::NoCurrentPhase)
    );
}

#[test]
fn exhausted_identifiers_are_reported() {
    let mut state = in_function();
    state.next_region_id = u64::MAX;
    assert_eq!(state.declare_region(RegionKind::Heap), Err(SemanticError::IdSpaceExhausted));
    state.next_scope_id = u64::MAX;
    assert!(!state.can_enter_scope());
}

#[test]
fn exited_scope_holds_nothing() {
    let mut state = in_function();
    let region = state.declare_region(RegionKind::Heap).unwrap();
    state.enter_scope(ScopeKind::Block);
    let value = state.allocate_value(region).unwrap();
    let lifetime = state.create_lifetime().unwrap();
    state.create_capability(CapabilityKind::UniqueMut, value, lifetime).unwrap();
    state.exit_scope().unwrap();
    let exited = 3;
    assert!(state.graph.lifetimes.values().all(|l| l.scope != exited || !l.active));
    assert!(state.graph.capabilities.values().all(|c| c.scope != exited));
    assert!(state.graph.ownership_edges.iter().all(|e| e.owner != exited));
}

#[test]
fn alive_values_have_one_edge_and_dead_ones_none() {
    let mut state = in_function();
    let region = state.declare_region(RegionKind::Heap).unwrap();
    let a = state.allocate_value(region).unwrap();
    let b = state.allocate_value(region).unwrap();
    state.drop_value(a).unwrap();
    let count = |state: &InterpreterState, v: u64| {
        state.graph.ownership_edges.iter().filter(|e| e.value == v).count()
    };
    assert_eq!(count(&state, a), 0);
    assert_eq!(count(&state, b), 1);
    state.exit_scope().unwrap();
    assert_eq!(count(&state, b), 0);
}

#[test]
fn verdict_follows_assumptions() {
    let mut state = in_function();
    let before = SafetyReport::generate(&state);
    assert_eq!(before.verdict, "SAFE");
    assert!(!before.has_unsafe_assumptions);
    assert_eq!(before.exit_code(), 0);
    state.enter_scope(ScopeKind::Unsafe);
    state.add_unsafe_assumption("one".to_string(), vec![]).unwrap();
    state.add_unsafe_assumption("two".to_string(), vec![]).unwrap();
    let after = SafetyReport::generate(&state);
    assert_eq!(after.verdict, "SAFE_IF_ASSUMPTIONS_HOLD");
    assert!(after.has_unsafe_assumptions);
    assert_eq!(after.exit_code(), 1);
    assert_eq!(after.unsafe_assumptions[0].description, "one");
    assert_eq!(after.unsafe_assumptions[1].description, "two");
}

#[test]
fn failed_dimension_gives_exit_code_two() {
    let state = in_function();
    let mut report = SafetyReport::generate(&state);
    report.lifetimes_ok = false;
    assert_eq!(report.exit_code(), 2);
    let text = report.render(&state);
    assert!(text.contains("Lifetimes:     FAILED\n"));
    assert!(text.ends_with("Verdict\n-------\nUNSAFE\n"));
}

#[test]
fn reporting_is_repeatable_and_sorted() {
    let mut state = in_function();
    let region = state.declare_region(RegionKind::Heap).unwrap();
    for _ in 0..12 {
        state.allocate_value(region).unwrap();
    }
    state.drop_value(5).unwrap();
    let first = SafetyReport::generate(&state);
    let second = SafetyReport::generate(&state);
    assert_eq!(first.render(&state), second.render(&state));
    let ids: Vec<u64> = first.values.iter().map(|v| v.id).collect();
    assert_eq!(ids, vec![1, 2, 3, 4, 5, 6, 7, 8, 9, 10, 11, 12]);
    assert_eq!(first.values[4].state, "DESTROYED");
    assert_eq!(first.values[3].state, "ALIVE");
    let text = first.render(&state);
    assert!(text.contains("Values\n------\n1: SAFE\n2: SAFE\n3: SAFE\n4: SAFE\n5: DESTROYED\n6: SAFE\n"));
    assert!(text.contains("10: SAFE\n11: SAFE\n12: SAFE\n\n"));
}

#[test]
fn report_pads_assumption_numbers() {
    let mut state = in_function();
    state.enter_scope(ScopeKind::Unsafe);
    for _ in 0..100 {
        state.add_unsafe_assumption("a".to_string(), vec![10, 200]).unwrap();
    }
    let report = SafetyReport::generate(&state);
    let text = report.render(&state);
    assert!(text.contains("[UA-001] a\n  Phase: main\n  Scope: 3\n  Affects: [10, 200]\n[UA-002] a\n"));
    assert!(text.contains("[UA-010] a\n"));
    assert!(text.contains("[UA-099] a\n"));
    assert!(text.contains("[UA-100] a\n"));
    assert!(!text.contains("None"));
}
