//! The text of a rejection: what was wrong, the rule behind it, and what to
//! do about it.

use vstd::prelude::*;
use vstd::string::StringExecFns;

use crate::error::SemanticError;
use crate::exec::{ExecError, Failure};
use crate::graph::CapabilityKind;
use crate::parser::{ParseError, ParseFailure};
use crate::text::{decimal, push_decimal};

verus! {

pub open spec fn kind_text(kind: CapabilityKind) -> Seq<char> {
    match kind {
        CapabilityKind::Own => "Own"@,
        CapabilityKind::SharedRead => "SharedRead"@,
        CapabilityKind::UniqueMut => "UniqueMut"@,
        CapabilityKind::ThreadSend => "ThreadSend"@,
        CapabilityKind::ThreadShare => "ThreadShare"@,
    }
}

/// The text of a rejection by the interpreter.
pub open spec fn semantic_message(e: SemanticError) -> Seq<char> {
    match e {
        SemanticError::NoActiveScope =>
            "No scope is active.\nRule: A declaration belongs to the scope that is current.\nSuggested fix: Enter a scope before declaring anything."@,
        SemanticError::InactiveScope =>
            "Cannot bind a lifetime to an inactive scope.\nRule: A lifetime is bound to an active scope.\nSuggested fix: Create the lifetime before its scope is left."@,
        SemanticError::NoOwnerScope =>
            "No scope can own the value.\nRule: A value is owned by the nearest enclosing scope that is not unsafe.\nSuggested fix: Allocate inside a module, function or block scope."@,
        SemanticError::PhaseOutsideModule =>
            "Phases must be declared at module level.\nRule: A phase is declared in the module scope.\nSuggested fix: Move the phase declaration out of the block."@,
        SemanticError::DuplicatePhase =>
            "A phase of that name is declared already.\nRule: Phase names are unique.\nSuggested fix: Rename the phase or remove the second declaration."@,
        SemanticError::NoCurrentPhase =>
            "No phase is current.\nRule: Lifetimes, capabilities and assumptions are tagged with the current phase.\nSuggested fix: Declare a phase first."@,
        SemanticError::UnknownRegion =>
            "Region does not exist.\nRule: A value is allocated in a declared region.\nSuggested fix: Declare the region first."@,
        SemanticError::UnknownValue =>
            "Value does not exist.\nRule: Only an allocated value can be used.\nSuggested fix: Allocate the value first."@,
        SemanticError::UnknownLifetime =>
            "Lifetime does not exist.\nRule: A capability is held under a created lifetime.\nSuggested fix: Create the lifetime first."@,
        SemanticError::ValueDestroyed =>
            "Cannot create capability for destroyed value.\nRule: A capability refers to a value that is alive.\nSuggested fix: Create the capability before the value is destroyed."@,
        SemanticError::AlreadyDestroyed =>
            "Attempted to drop value that is already destroyed.\nRule: A value is destroyed exactly once.\nSuggested fix: Remove the second drop."@,
        SemanticError::DoubleDestruction { value } => "Value "@ + decimal(value as nat)
            + " already destroyed before scope exit.\nRule: A value is destroyed exactly once.\nSuggested fix: Let the scope exit destroy the value."@,
        SemanticError::InactiveLifetime =>
            "Cannot create capability with inactive lifetime.\nRule: A capability is held under an active lifetime.\nSuggested fix: Create the capability inside the scope of the lifetime."@,
        SemanticError::NotOwner =>
            "Cannot drop value not owned by current scope.\nRule: An explicit drop is local to the owning scope.\nSuggested fix: Drop the value in the scope that owns it."@,
        SemanticError::CapabilityConflict { value, existing, existing_lifetime, requested } =>
            "Capability conflict on value "@ + decimal(value as nat) + ".\nExisting capability: "@
                + kind_text(existing) + " (lifetime "@ + decimal(existing_lifetime as nat)
                + ")\nRequested capability: "@ + kind_text(requested)
                + "\nRule: UniqueMut requires exclusive access.\nSuggested fix: End the existing capability's lifetime or use SharedRead instead."@,
        SemanticError::PhaseViolation { lifetime_phase, current_phase } =>
            "Phase violation: the lifetime belongs to phase "@ + decimal(lifetime_phase as nat)
                + " and the current phase is "@ + decimal(current_phase as nat)
                + ".\nRule: A capability is created in the phase of its lifetime.\nSuggested fix: Use a lifetime of the current phase."@,
        SemanticError::LiveCapabilities { value } => "Cannot drop value "@ + decimal(value as nat)
            + " because active capabilities exist.\nRule: A value may only be destroyed after all capabilities expire.\nSuggested fix: End the associated lifetime or allow scope exit to perform destruction."@,
        SemanticError::AssumeOutsideUnsafe =>
            "Unsafe assumptions must be declared inside unsafe scope.\nRule: An assumption is legal only under an unsafe scope.\nSuggested fix: Move the assumption into an unsafe block."@,
        SemanticError::IdSpaceExhausted =>
            "No identifier is left.\nRule: Every entity has an identifier of its own.\nSuggested fix: Split the program."@,
    }
}

/// The text of a rejection while a program runs.
pub open spec fn failure_message(f: Failure) -> Seq<char> {
    match f {
        Failure::UnknownRegionKind(word) => "Unknown region kind: "@ + word,
        Failure::UnknownCapabilityKind(word) => "Unknown capability kind: "@ + word,
        Failure::UnknownRegion(name) => "Unknown region: "@ + name,
        Failure::UnknownValue(name) => "Unknown value: "@ + name,
        Failure::UnknownLifetime(name) => "Unknown lifetime: "@ + name,
        Failure::Semantic(e) => semantic_message(e),
    }
}

/// The text of a parse failure.
pub open spec fn parse_message(f: ParseFailure) -> Seq<char> {
    match f {
        ParseFailure::UnknownSyntax(line) => "Unknown syntax: "@ + line,
        ParseFailure::MissingWord(line) => "Incomplete declaration: "@ + line,
        ParseFailure::MissingQuote(line) => "Expected a quoted text: "@ + line,
        ParseFailure::ExpectedBrace => "Expected '{'"@,
    }
}

fn kind_name(kind: CapabilityKind) -> (s: &'static str)
    ensures
        s@ == kind_text(kind),
{
    match kind {
        CapabilityKind::Own => "Own",
        CapabilityKind::SharedRead => "SharedRead",
        CapabilityKind::UniqueMut => "UniqueMut",
        CapabilityKind::ThreadSend => "ThreadSend",
        CapabilityKind::ThreadShare => "ThreadShare",
    }
}

fn labelled(label: &str, text: &String) -> (s: String)
    ensures
        s@ == label@ + text@,
{
    let mut s = label.to_owned();
    s.append(text.as_str());
    s
}

impl SemanticError {
    /// The text of the rejection: what was wrong, the rule, and a fix.
    pub fn message(&self) -> (s: String)
        ensures
            s@ == semantic_message(*self),
    {
        match self {
            SemanticError::NoActiveScope =>
                "No scope is active.\nRule: A declaration belongs to the scope that is current.\nSuggested fix: Enter a scope before declaring anything.".to_owned(),
            SemanticError::InactiveScope =>
                "Cannot bind a lifetime to an inactive scope.\nRule: A lifetime is bound to an active scope.\nSuggested fix: Create the lifetime before its scope is left.".to_owned(),
            SemanticError::NoOwnerScope =>
                "No scope can own the value.\nRule: A value is owned by the nearest enclosing scope that is not unsafe.\nSuggested fix: Allocate inside a module, function or block scope.".to_owned(),
            SemanticError::PhaseOutsideModule =>
                "Phases must be declared at module level.\nRule: A phase is declared in the module scope.\nSuggested fix: Move the phase declaration out of the block.".to_owned(),
            SemanticError::DuplicatePhase =>
                "A phase of that name is declared already.\nRule: Phase names are unique.\nSuggested fix: Rename the phase or remove the second declaration.".to_owned(),
            SemanticError::NoCurrentPhase =>
                "No phase is current.\nRule: Lifetimes, capabilities and assumptions are tagged with the current phase.\nSuggested fix: Declare a phase first.".to_owned(),
            SemanticError::UnknownRegion =>
                "Region does not exist.\nRule: A value is allocated in a declared region.\nSuggested fix: Declare the region first.".to_owned(),
            SemanticError::UnknownValue =>
                "Value does not exist.\nRule: Only an allocated value can be used.\nSuggested fix: Allocate the value first.".to_owned(),
            SemanticError::UnknownLifetime =>
                "Lifetime does not exist.\nRule: A capability is held under a created lifetime.\nSuggested fix: Create the lifetime first.".to_owned(),
            SemanticError::ValueDestroyed =>
                "Cannot create capability for destroyed value.\nRule: A capability refers to a value that is alive.\nSuggested fix: Create the capability before the value is destroyed.".to_owned(),
            SemanticError::AlreadyDestroyed =>
                "Attempted to drop value that is already destroyed.\nRule: A value is destroyed exactly once.\nSuggested fix: Remove the second drop.".to_owned(),
            SemanticError::DoubleDestruction { value } => {
                let mut s = "Value ".to_owned();
                push_decimal(&mut s, *value);
                s.append(
                    " already destroyed before scope exit.\nRule: A value is destroyed exactly once.\nSuggested fix: Let the scope exit destroy the value.",
                );
                s
            },
            SemanticError::InactiveLifetime =>
                "Cannot create capability with inactive lifetime.\nRule: A capability is held under an active lifetime.\nSuggested fix: Create the capability inside the scope of the lifetime.".to_owned(),
            SemanticError::NotOwner =>
                "Cannot drop value not owned by current scope.\nRule: An explicit drop is local to the owning scope.\nSuggested fix: Drop the value in the scope that owns it.".to_owned(),
            SemanticError::CapabilityConflict { value, existing, existing_lifetime, requested } => {
                let mut s = "Capability conflict on value ".to_owned();
                push_decimal(&mut s, *value);
                s.append(".\nExisting capability: ");
                s.append(kind_name(*existing));
                s.append(" (lifetime ");
                push_decimal(&mut s, *existing_lifetime);
                s.append(")\nRequested capability: ");
                s.append(kind_name(*requested));
                s.append(
                    "\nRule: UniqueMut requires exclusive access.\nSuggested fix: End the existing capability's lifetime or use SharedRead instead.",
                );
                s
            },
            SemanticError::PhaseViolation { lifetime_phase, current_phase } => {
                let mut s = "Phase violation: the lifetime belongs to phase ".to_owned();
                push_decimal(&mut s, *lifetime_phase as u64);
                s.append(" and the current phase is ");
                push_decimal(&mut s, *current_phase as u64);
                s.append(
                    ".\nRule: A capability is created in the phase of its lifetime.\nSuggested fix: Use a lifetime of the current phase.",
                );
                s
            },
            SemanticError::LiveCapabilities { value } => {
                let mut s = "Cannot drop value ".to_owned();
                push_decimal(&mut s, *value);
                s.append(
                    " because active capabilities exist.\nRule: A value may only be destroyed after all capabilities expire.\nSuggested fix: End the associated lifetime or allow scope exit to perform destruction.",
                );
                s
            },
            SemanticError::AssumeOutsideUnsafe =>
                "Unsafe assumptions must be declared inside unsafe scope.\nRule: An assumption is legal only under an unsafe scope.\nSuggested fix: Move the assumption into an unsafe block.".to_owned(),
            SemanticError::IdSpaceExhausted =>
                "No identifier is left.\nRule: Every entity has an identifier of its own.\nSuggested fix: Split the program.".to_owned(),
        }
    }
}

impl ExecError {
    /// The text of the rejection.
    pub fn message(&self) -> (s: String)
        ensures
            s@ == failure_message(self@),
    {
        match self {
            ExecError::UnknownRegionKind(word) => labelled("Unknown region kind: ", word),
            ExecError::UnknownCapabilityKind(word) => labelled("Unknown capability kind: ", word),
            ExecError::UnknownRegion(name) => labelled("Unknown region: ", name),
            ExecError::UnknownValue(name) => labelled("Unknown value: ", name),
            ExecError::UnknownLifetime(name) => labelled("Unknown lifetime: ", name),
            ExecError::Semantic(e) => e.message(),
        }
    }
}

impl ParseError {
    /// The text of the failure.
    pub fn message(&self) -> (s: String)
        ensures
            s@ == parse_message(self@),
    {
        match self {
            ParseError::UnknownSyntax(line) => labelled("Unknown syntax: ", line),
            ParseError::MissingWord(line) => labelled("Incomplete declaration: ", line),
            ParseError::MissingQuote(line) => labelled("Expected a quoted text: ", line),
            ParseError::ExpectedBrace => "Expected '{'".to_owned(),
        }
    }
}

} // verus!
