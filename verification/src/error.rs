use vstd::prelude::*;

use crate::graph::{CapabilityKind, LifetimeId, PhaseId, ValueId};

verus! {

/// Why an operation on the interpreter state was rejected.
#[derive(Debug, Clone, Copy, PartialEq, Eq)]
pub enum SemanticError {
    /// The operation needs a current scope and the scope stack is empty.
    NoActiveScope,
    /// The current scope has already been deactivated.
    InactiveScope,
    /// A value needs an owner and every scope on the stack is unsafe.
    NoOwnerScope,
    /// A phase was declared while the current scope is not a module scope.
    PhaseOutsideModule,
    /// A phase of that name exists already.
    DuplicatePhase,
    /// The operation is tagged with the current phase and none was declared.
    NoCurrentPhase,
    UnknownRegion,
    UnknownValue,
    UnknownLifetime,
    /// A capability was asked for on a value that is destroyed.
    ValueDestroyed,
    /// A value that is destroyed already was dropped.
    AlreadyDestroyed,
    /// A scope exit found a value it owns destroyed already.
    DoubleDestruction { value: ValueId },
    /// A capability was asked for under a lifetime that has ended.
    InactiveLifetime,
    /// A value was dropped in a scope that does not own it.
    NotOwner,
    /// `UniqueMut` would overlap another capability on the same value.
    CapabilityConflict {
        value: ValueId,
        existing: CapabilityKind,
        existing_lifetime: LifetimeId,
        requested: CapabilityKind,
    },
    /// The lifetime belongs to another phase than the current one.
    PhaseViolation { lifetime_phase: PhaseId, current_phase: PhaseId },
    /// A value was dropped while capabilities still refer to it.
    LiveCapabilities { value: ValueId },
    /// An assumption was made outside every unsafe scope.
    AssumeOutsideUnsafe,
    /// No identifier of the needed kind is left.
    IdSpaceExhausted,
}

} // verus!
