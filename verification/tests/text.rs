use chiru::error::SemanticError;
use chiru::graph::CapabilityKind;
use chiru::text::{push_bracketed, push_decimal, push_decimal3};

fn decimal(n: u64) -> String {
    let mut out = String::new();
    push_decimal(&mut out, n);
    out
}

#[test]
fn decimal_numbers() {
    assert_eq!(decimal(0), "0");
    assert_eq!(decimal(7), "7");
    assert_eq!(decimal(10), "10");
    assert_eq!(decimal(1234567890), "1234567890");
    assert_eq!(decimal(u64::MAX), "18446744073709551615");
    let mut out = String::from("n=");
    push_decimal(&mut out, 42);
    assert_eq!(out, "n=42");
}

#[test]
fn decimal_numbers_of_three_digits() {
    let padded = |n: u64| {
        let mut out = String::new();
        push_decimal3(&mut out, n);
        out
    };
    assert_eq!(padded(0), "000");
    assert_eq!(padded(9), "009");
    assert_eq!(padded(10), "010");
    assert_eq!(padded(99), "099");
    assert_eq!(padded(100), "100");
    assert_eq!(padded(12345), "12345");
}

#[test]
fn bracketed_lists() {
    let listed = |numbers: Vec<u64>| {
        let mut out = String::new();
        push_bracketed(&mut out, &numbers);
        out
    };
    assert_eq!(listed(vec![]), "[]");
    assert_eq!(listed(vec![5]), "[5]");
    assert_eq!(listed(vec![1, 20, 300]), "[1, 20, 300]");
    assert_eq!(listed(vec![1, 20, 300]), format!("{:?}", vec![1u64, 20, 300]));
}

#[test]
fn every_rejection_has_rule_and_fix() {
    let all = vec![
        SemanticError::NoActiveScope,
        SemanticError::InactiveScope,
        SemanticError::NoOwnerScope,
        SemanticError::PhaseOutsideModule,
        SemanticError::DuplicatePhase,
        SemanticError::NoCurrentPhase,
        SemanticError::UnknownRegion,
        SemanticError::UnknownValue,
        SemanticError::UnknownLifetime,
        SemanticError::ValueDestroyed,
        SemanticError::AlreadyDestroyed,
        SemanticError::DoubleDestruction { value: 3 },
        SemanticError::InactiveLifetime,
        SemanticError::NotOwner,
        SemanticError::CapabilityConflict {
            value: 1,
            existing: CapabilityKind::Own,
            existing_lifetime: 2,
            requested: CapabilityKind::UniqueMut,
        },
        SemanticError::PhaseViolation { lifetime_phase: 0, current_phase: 1 },
        SemanticError::LiveCapabilities { value: 4 },
        SemanticError::AssumeOutsideUnsafe,
        SemanticError::IdSpaceExhausted,
    ];
    for e in all {
        let message = e.message();
        assert!(message.contains("\nRule: "), "{:?}", e);
        assert!(message.contains("\nSuggested fix: "), "{:?}", e);
    }
    assert_eq!(
        SemanticError::PhaseViolation { lifetime_phase: 0, current_phase: 1 }.message(),
        "Phase violation: the lifetime belongs to phase 0 and the current phase is 1.\nRule: A capability is created in the phase of its lifetime.\nSuggested fix: Use a lifetime of the current phase."
    );
    assert_eq!(
        SemanticError::LiveCapabilities { value: 4 }.message(),
        "Cannot drop value 4 because active capabilities exist.\nRule: A value may only be destroyed after all capabilities expire.\nSuggested fix: End the associated lifetime or allow scope exit to perform destruction."
    );
}
