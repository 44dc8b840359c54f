use chiru::analysis::{analyze, interpret, Analysis};
use chiru::error::SemanticError;
use chiru::exec::ExecError;
use chiru::graph::{CapabilityKind, RegionKind, ValueOrigin};
use chiru::interpreter::InterpreterState;
use chiru::parser::{parse, ParseError};
use chiru::scope::ScopeKind;

fn verified(source: &str) -> (InterpreterState, chiru::report::SafetyReport) {
    match analyze(source) {
        Analysis::Verified { state, report } => (state, report),
        Analysis::Rejected(e) => panic!("rejected: {}", e.message()),
        Analysis::Malformed(e) => panic!("malformed: {}", e.message()),
    }
}

fn rejected(source: &str) -> ExecError {
    match analyze(source) {
        Analysis::Rejected(e) => e,
        Analysis::Verified { .. } => panic!("accepted"),
        Analysis::Malformed(e) => panic!("malformed: {}", e.message()),
    }
}

#[test]
fn trivial_safe() {
    let source = "phase main\nfunction f {\n  region stack s\n  let v in s\n}\n";
    let (state, report) = verified(source);
    assert_eq!(report.verdict, "SAFE");
    assert_eq!(report.exit_code(), 0);
    assert_eq!(analyze(source).exit_code(), 0);
    assert_eq!(report.values.len(), 1);
    assert_eq!(report.values[0].id, 1);
    assert_eq!(report.values[0].origin, "SAFE");
    assert_eq!(report.values[0].state, "DESTROYED");
    assert!(report.unsafe_assumptions.is_empty());
    assert_eq!(report.summary.ownership, "VERIFIED");
    assert_eq!(report.summary.lifetimes, "VERIFIED");
    assert_eq!(report.summary.capabilities, "VERIFIED");
    assert_eq!(report.summary.destruction, "VERIFIED");
    assert!(!state.graph.values.get(&1).unwrap().alive);
    assert!(state.graph.ownership_edges.is_empty());
}

#[test]
fn trivial_safe_report_text() {
    let source = "phase main\nfunction f {\n  region stack s\n  let v in s\n}\n";
    let (state, report) = verified(source);
    let expected = "Chiru Safety Report\n==================\n\nSummary\n-------\nOwnership:     VERIFIED\nLifetimes:     VERIFIED\nCapabilities:  VERIFIED\nDestruction:   VERIFIED\n\nPhases\n------\n[0] main (active)\n\nUnsafe Assumptions\n------------------\nNone\n\nValues\n------\n1: DESTROYED\n\nVerdict\n-------\nSAFE\n";
    assert_eq!(report.render(&state), expected);
}

#[test]
fn capability_conflict() {
    let source = "phase main\nfunction f {\n  region heap h\n  lifetime l in scope f\n  let v in h\n  capability UniqueMut v for l\n  capability SharedRead v for l\n}\n";
    let e = rejected(source);
    assert_eq!(
        e,
        ExecError::Semantic(SemanticError::CapabilityConflict {
            value: 1,
            existing: CapabilityKind::UniqueMut,
            existing_lifetime: 1,
            requested: CapabilityKind::SharedRead,
        })
    );
    assert_eq!(analyze(source).exit_code(), 2);
    let message = e.message();
    assert!(message.contains("UniqueMut requires exclusive access"));
    assert_eq!(
        message,
        "Capability conflict on value 1.\nExisting capability: UniqueMut (lifetime 1)\nRequested capability: SharedRead\nRule: UniqueMut requires exclusive access.\nSuggested fix: End the existing capability's lifetime or use SharedRead instead."
    );
}

#[test]
fn drop_with_live_capability() {
    let source = "phase main\nfunction f {\n  region heap h\n  lifetime l in scope f\n  let v in h\n  capability SharedRead v for l\n  drop v\n}\n";
    let e = rejected(source);
    assert_eq!(e, ExecError::Semantic(SemanticError::LiveCapabilities { value: 1 }));
    assert_eq!(analyze(source).exit_code(), 2);
}

#[test]
fn unsafe_assumption() {
    let source = "phase main\nfunction f {\n  unsafe {\n    region external e\n    let v in e\n    assume \"v is aligned\"\n  }\n}\n";
    let (state, report) = verified(source);
    assert_eq!(report.verdict, "SAFE_IF_ASSUMPTIONS_HOLD");
    assert_eq!(report.exit_code(), 1);
    assert_eq!(analyze(source).exit_code(), 1);
    assert_eq!(report.values.len(), 1);
    assert_eq!(report.values[0].origin, "UNSAFE");
    assert_eq!(report.unsafe_assumptions.len(), 1);
    let assumption = &report.unsafe_assumptions[0];
    assert_eq!(assumption.id, 1);
    assert_eq!(assumption.description, "v is aligned");
    assert_eq!(assumption.scope, 3);
    assert_eq!(assumption.affected_values, vec![1]);
    assert_eq!(assumption.phase, 0);
    let text = report.render(&state);
    assert!(text.contains("[UA-001] v is aligned\n  Phase: main\n  Scope: 3\n  Affects: [1]\n"));
    assert!(text.ends_with("Verdict\n-------\nSAFE_IF_ASSUMPTIONS_HOLD\n"));
}

#[test]
fn unsafe_value_is_owned_by_the_function_scope() {
    let mut state = InterpreterState::new();
    let module = state.enter_scope(ScopeKind::Module);
    state.declare_phase("main".to_string()).unwrap();
    let function = state.enter_scope(ScopeKind::Function);
    let block = state.enter_scope(ScopeKind::Unsafe);
    assert_eq!((module, function, block), (1, 2, 3));
    let region = state.declare_region(RegionKind::External).unwrap();
    let value = state.allocate_value(region).unwrap();
    assert_eq!(state.graph.values.get(&value).unwrap().origin, ValueOrigin::Unsafe);
    assert_eq!(state.graph.ownership_edges.len(), 1);
    assert_eq!(state.graph.ownership_edges[0].value, value);
    assert_eq!(state.graph.ownership_edges[0].owner, function);
    assert_eq!(state.effective_owner_scope(), Some(function));
    // Leaving the unsafe block does not destroy the value; leaving the function does.
    state.exit_scope().unwrap();
    assert!(state.graph.values.get(&value).unwrap().alive);
    state.exit_scope().unwrap();
    assert!(!state.graph.values.get(&value).unwrap().alive);
    assert!(state.graph.ownership_edges.is_empty());
}

#[test]
fn assume_outside_unsafe() {
    let source = "phase main\nfunction f {\n  assume \"anything\"\n}\n";
    assert_eq!(rejected(source), ExecError::Semantic(SemanticError::AssumeOutsideUnsafe));
    assert_eq!(analyze(source).exit_code(), 2);
}

#[test]
fn phase_of_first_declaration_stays_current() {
    let source = "phase build\nphase run\nfunction f {\n  lifetime l in scope f     # bound to phase build\n  region heap h\n  let v in h\n  capability Own v for l    # still phase build \u{2014} OK\n}\n";
    let (state, report) = verified(source);
    assert_eq!(report.verdict, "SAFE");
    assert_eq!(report.exit_code(), 0);
    assert_eq!(state.current_phase, Some(0));
    assert_eq!(state.phases.len(), 2);
    assert_eq!(state.phases[1].name, "run");
    assert_eq!(state.phases[1].id, 1);
    assert_eq!(state.phases[1].order, 1);
    let text = report.render(&state);
    assert!(text.contains("Phases\n------\n[0] build (active)\n[1] run\n\n"));
}

#[test]
fn phase_violation_after_switching_the_phase() {
    let mut state = InterpreterState::new();
    state.enter_scope(ScopeKind::Module);
    state.declare_phase("build".to_string()).unwrap();
    state.declare_phase("run".to_string()).unwrap();
    state.enter_scope(ScopeKind::Function);
    let lifetime = state.create_lifetime().unwrap();
    let region = state.declare_region(RegionKind::Heap).unwrap();
    let value = state.allocate_value(region).unwrap();
    state.current_phase = Some(1);
    assert_eq!(
        state.create_capability(CapabilityKind::Own, value, lifetime),
        Err(SemanticError::PhaseViolation { lifetime_phase: 0, current_phase: 1 })
    );
    assert!(state.graph.capabilities.is_empty());
    state.current_phase = Some(0);
    let capability = state.create_capability(CapabilityKind::Own, value, lifetime).unwrap();
    let node = state.graph.capabilities.get(&capability).unwrap();
    assert_eq!(node.phase, state.graph.lifetimes.get(&lifetime).unwrap().phase);
}

#[test]
fn malformed_text_has_exit_code_three() {
    let analysis = analyze("bogus line\n");
    assert_eq!(analysis.exit_code(), 3);
    match analysis {
        Analysis::Malformed(e) => {
            assert_eq!(e, ParseError::UnknownSyntax("bogus line".to_string()));
            assert_eq!(e.message(), "Unknown syntax: bogus line");
        }
        _ => panic!("not malformed"),
    }
}

#[test]
fn interpret_starts_in_the_module_scope() {
    let nodes = parse("phase main\nregion heap h\nlet v in h\n").unwrap();
    let state = interpret(&nodes).unwrap();
    assert_eq!(state.scope_stack, vec![1]);
    assert_eq!(state.scopes.get(&1).unwrap().kind, ScopeKind::Module);
    assert!(state.graph.values.get(&1).unwrap().alive);
    assert_eq!(state.graph.ownership_edges[0].owner, 1);
}
