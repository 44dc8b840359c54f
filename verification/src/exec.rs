//! Running a program: the declarations are executed in source order against
//! the interpreter state and the name binding frame, and the first rejection
//! ends the run.

use vstd::prelude::*;

use crate::ast::{decls_of, AstNode, Decl};
use crate::error::SemanticError;
use crate::graph::{CapabilityKind, RegionKind};
use crate::interpreter::InterpreterState;
use crate::lexer::reads;
use crate::model::StateView;
use crate::names::{bind, bound_ids, distinct_names, lookup, NameTable, Names};
use crate::scope::ScopeKind;

verus! {

/// The name binding frame: three flat tables, for the whole program.
pub struct ExecContext {
    pub lifetimes: NameTable,
    pub regions: NameTable,
    pub values: NameTable,
}

/// The frame as a mathematical value.
pub struct Frame {
    pub lifetimes: Names,
    pub regions: Names,
    pub values: Names,
}

impl View for ExecContext {
    type V = Frame;

    open spec fn view(&self) -> Frame {
        Frame { lifetimes: self.lifetimes@, regions: self.regions@, values: self.values@ }
    }
}

impl ExecContext {
    pub fn new() -> (ctx: ExecContext)
        ensures
            ctx@ == Frame::empty(),
    {
        ExecContext {
            lifetimes: NameTable::new(),
            regions: NameTable::new(),
            values: NameTable::new(),
        }
    }
}

impl Frame {
    pub open spec fn empty() -> Frame {
        Frame { lifetimes: Seq::empty(), regions: Seq::empty(), values: Seq::empty() }
    }

    /// In each table no name is bound twice.
    pub open spec fn distinct(self) -> bool {
        distinct_names(self.lifetimes) && distinct_names(self.regions) && distinct_names(
            self.values,
        )
    }
}

/// Why a run ended early: a word that names no kind, a name that is bound
/// to nothing, or a rejection by the interpreter.
#[derive(Debug, PartialEq, Eq)]
pub enum ExecError {
    UnknownRegionKind(String),
    UnknownCapabilityKind(String),
    UnknownRegion(String),
    UnknownValue(String),
    UnknownLifetime(String),
    Semantic(SemanticError),
}

/// An [`ExecError`] as a mathematical value.
pub enum Failure {
    UnknownRegionKind(Seq<char>),
    UnknownCapabilityKind(Seq<char>),
    UnknownRegion(Seq<char>),
    UnknownValue(Seq<char>),
    UnknownLifetime(Seq<char>),
    Semantic(SemanticError),
}

impl View for ExecError {
    type V = Failure;

    open spec fn view(&self) -> Failure {
        match self {
            ExecError::UnknownRegionKind(word) => Failure::UnknownRegionKind(word@),
            ExecError::UnknownCapabilityKind(word) => Failure::UnknownCapabilityKind(word@),
            ExecError::UnknownRegion(name) => Failure::UnknownRegion(name@),
            ExecError::UnknownValue(name) => Failure::UnknownValue(name@),
            ExecError::UnknownLifetime(name) => Failure::UnknownLifetime(name@),
            ExecError::Semantic(e) => Failure::Semantic(*e),
        }
    }
}

/// The region kind that a word of the source names.
pub open spec fn region_kind_of(word: Seq<char>) -> Option<RegionKind> {
    if word == "heap"@ {
        Some(RegionKind::Heap)
    } else if word == "stack"@ {
        Some(RegionKind::Stack)
    } else if word == "external"@ {
        Some(RegionKind::External)
    } else if word == "static"@ {
        Some(RegionKind::Static)
    } else {
        None
    }
}

/// The capability kind that a word of the source names.
pub open spec fn capability_kind_of(word: Seq<char>) -> Option<CapabilityKind> {
    if word == "Own"@ {
        Some(CapabilityKind::Own)
    } else if word == "SharedRead"@ {
        Some(CapabilityKind::SharedRead)
    } else if word == "UniqueMut"@ {
        Some(CapabilityKind::UniqueMut)
    } else if word == "ThreadSend"@ {
        Some(CapabilityKind::ThreadSend)
    } else if word == "ThreadShare"@ {
        Some(CapabilityKind::ThreadShare)
    } else {
        None
    }
}

/// The interpreter state and the frame together.
pub struct Machine {
    pub state: StateView,
    pub frame: Frame,
}

/// How a run ended: where it stopped, and why if it stopped early.
pub struct Run {
    pub end: Machine,
    pub error: Option<Failure>,
}

/// The run stops at `m` with a rejection, or goes on from `next`.
pub open spec fn settle(m: Machine, check: Option<SemanticError>, next: Machine) -> Run {
    match check {
        Some(e) => Run { end: m, error: Some(Failure::Semantic(e)) },
        None => Run { end: next, error: None },
    }
}

pub open spec fn stop(m: Machine, failure: Failure) -> Run {
    Run { end: m, error: Some(failure) }
}

/// A block: its scope is entered, its declarations run, and the scope is
/// left again.
pub open spec fn run_block(kind: ScopeKind, body: Seq<Decl>, m: Machine) -> Run
    decreases body, 3nat,
{
    if m.state.next_scope_id == u64::MAX {
        stop(m, Failure::Semantic(SemanticError::IdSpaceExhausted))
    } else {
        let inner = run_all(body, Machine { state: m.state.enter_scope(kind), frame: m.frame });
        if inner.error is Some {
            inner
        } else {
            settle(
                inner.end,
                inner.end.state.exit_scope_check(),
                Machine { state: inner.end.state.exit_scope(), frame: inner.end.frame },
            )
        }
    }
}

/// One declaration.
pub open spec fn run_one(decl: Decl, m: Machine) -> Run
    decreases decl, 0nat,
{
    let s = m.state;
    let f = m.frame;
    match decl {
        Decl::PhaseDecl { name } => settle(
            m,
            s.declare_phase_check(name),
            Machine { state: s.declare_phase(name), frame: f },
        ),
        Decl::Function { name, body } => run_block(ScopeKind::Function, body, m),
        Decl::Unsafe { body } => run_block(ScopeKind::Unsafe, body, m),
        Decl::Region { kind, name } => match region_kind_of(kind) {
            None => stop(m, Failure::UnknownRegionKind(kind)),
            Some(k) => settle(
                m,
                s.declare_region_check(),
                Machine {
                    state: s.declare_region(k),
                    frame: Frame { regions: bind(f.regions, name, s.next_region_id), ..f },
                },
            ),
        },
        Decl::Lifetime { name, scope } => settle(
            m,
            s.create_lifetime_check(),
            Machine {
                state: s.create_lifetime(),
                frame: Frame { lifetimes: bind(f.lifetimes, name, s.next_lifetime_id), ..f },
            },
        ),
        Decl::Let { name, region } => match lookup(f.regions, region) {
            None => stop(m, Failure::UnknownRegion(region)),
            Some(r) => settle(
                m,
                s.allocate_value_check(r),
                Machine {
                    state: s.allocate_value(r),
                    frame: Frame { values: bind(f.values, name, s.next_value_id), ..f },
                },
            ),
        },
        Decl::Capability { kind, value, lifetime } => match capability_kind_of(kind) {
            None => stop(m, Failure::UnknownCapabilityKind(kind)),
            Some(k) => match lookup(f.values, value) {
                None => stop(m, Failure::UnknownValue(value)),
                Some(v) => match lookup(f.lifetimes, lifetime) {
                    None => stop(m, Failure::UnknownLifetime(lifetime)),
                    Some(l) => settle(
                        m,
                        s.create_capability_check(k, v, l),
                        Machine { state: s.create_capability(k, v, l), frame: f },
                    ),
                },
            },
        },
        Decl::Drop { value } => match lookup(f.values, value) {
            None => stop(m, Failure::UnknownValue(value)),
            Some(v) => settle(
                m,
                s.drop_value_check(v),
                Machine { state: s.drop_value(v), frame: f },
            ),
        },
        Decl::Assume { text } => settle(
            m,
            s.add_unsafe_assumption_check(),
            Machine { state: s.add_unsafe_assumption(text, bound_ids(f.values)), frame: f },
        ),
    }
}

/// The declarations in order, up to the first one that is rejected.
pub open spec fn run_all(decls: Seq<Decl>, m: Machine) -> Run
    decreases decls, 2nat,
{
    if decls.len() == 0 {
        Run { end: m, error: None }
    } else {
        let before = run_all(decls.drop_last(), m);
        if before.error is Some {
            before
        } else {
            run_one(decls.last(), before.end)
        }
    }
}

/// A run that was rejected within a prefix of the declarations is the run
/// of all of them.
pub proof fn lemma_run_all_prefix(decls: Seq<Decl>, m: Machine, n: int)
    requires
        0 <= n <= decls.len(),
        run_all(decls.take(n), m).error is Some,
    ensures
        run_all(decls, m) == run_all(decls.take(n), m),
    decreases decls.len() - n,
{
    if n < decls.len() {
        assert(decls.take(n + 1).drop_last() =~= decls.take(n));
        lemma_run_all_prefix(decls, m, n + 1);
    } else {
        assert(decls.take(n) =~= decls);
    }
}

/// The region kind that `word` names.
pub fn region_kind(word: &String) -> (r: Option<RegionKind>)
    ensures
        r == region_kind_of(word@),
{
    if reads(word, "heap") {
        Some(RegionKind::Heap)
    } else if reads(word, "stack") {
        Some(RegionKind::Stack)
    } else if reads(word, "external") {
        Some(RegionKind::External)
    } else if reads(word, "static") {
        Some(RegionKind::Static)
    } else {
        None
    }
}

/// The capability kind that `word` names.
pub fn capability_kind(word: &String) -> (r: Option<CapabilityKind>)
    ensures
        r == capability_kind_of(word@),
{
    if reads(word, "Own") {
        Some(CapabilityKind::Own)
    } else if reads(word, "SharedRead") {
        Some(CapabilityKind::SharedRead)
    } else if reads(word, "UniqueMut") {
        Some(CapabilityKind::UniqueMut)
    } else if reads(word, "ThreadSend") {
        Some(CapabilityKind::ThreadSend)
    } else if reads(word, "ThreadShare") {
        Some(CapabilityKind::ThreadShare)
    } else {
        None
    }
}

/// Runs a block: enters a scope of `kind`, executes `body` and leaves the
/// scope.
fn execute_block(
    kind: ScopeKind,
    body: &Vec<AstNode>,
    state: &mut InterpreterState,
    ctx: &mut ExecContext,
) -> (r: Result<(), ExecError>)
    requires
        old(state).wf(),
    ensures
        final(state).wf(),
        old(state)@.inv() ==> final(state)@.inv(),
        old(ctx)@.distinct() ==> final(ctx)@.distinct(),
        ({
            let run = run_block(
                kind,
                decls_of(body@),
                Machine { state: old(state)@, frame: old(ctx)@ },
            );
            &&& final(state)@ == run.end.state
            &&& final(ctx)@ == run.end.frame
            &&& match r {
                Ok(_) => run.error is None,
                Err(e) => run.error == Some(e@),
            }
        }),
    decreases body@, 3nat,
{
    if !state.can_enter_scope() {
        return Err(ExecError::Semantic(SemanticError::IdSpaceExhausted));
    }
    state.enter_scope(kind);
    match execute(body.as_slice(), state, ctx) {
        Ok(_) => {},
        Err(e) => { return Err(e); },
    }
    match state.exit_scope() {
        Ok(_) => Ok(()),
        Err(e) => Err(ExecError::Semantic(e)),
    }
}

/// Executes one declaration.
fn execute_one(node: &AstNode, state: &mut InterpreterState, ctx: &mut ExecContext) -> (r: Result<
    (),
    ExecError,
>)
    requires
        old(state).wf(),
    ensures
        final(state).wf(),
        old(state)@.inv() ==> final(state)@.inv(),
        old(ctx)@.distinct() ==> final(ctx)@.distinct(),
        ({
            let run = run_one(node@, Machine { state: old(state)@, frame: old(ctx)@ });
            &&& final(state)@ == run.end.state
            &&& final(ctx)@ == run.end.frame
            &&& match r {
                Ok(_) => run.error is None,
                Err(e) => run.error == Some(e@),
            }
        }),
    decreases node, 0nat,
{
    match node {
        AstNode::PhaseDecl { name } => {
            match state.declare_phase(name.clone()) {
                Ok(_) => Ok(()),
                Err(e) => Err(ExecError::Semantic(e)),
            }
        },
        AstNode::Function { name: _, body } => execute_block(ScopeKind::Function, body, state, ctx),
        AstNode::Unsafe { body } => execute_block(ScopeKind::Unsafe, body, state, ctx),
        AstNode::Region { kind, name } => {
            let k = match region_kind(kind) {
                Some(k) => k,
                None => { return Err(ExecError::UnknownRegionKind(kind.clone())); },
            };
            match state.declare_region(k) {
                Ok(id) => {
                    ctx.regions.insert(name.clone(), id);
                    Ok(())
                },
                Err(e) => Err(ExecError::Semantic(e)),
            }
        },
        AstNode::Lifetime { name, scope: _ } => {
            match state.create_lifetime() {
                Ok(id) => {
                    ctx.lifetimes.insert(name.clone(), id);
                    Ok(())
                },
                Err(e) => Err(ExecError::Semantic(e)),
            }
        },
        AstNode::Let { name, region } => {
            let region_id = match ctx.regions.get(region) {
                Some(id) => id,
                None => { return Err(ExecError::UnknownRegion(region.clone())); },
            };
            match state.allocate_value(region_id) {
                Ok(id) => {
                    ctx.values.insert(name.clone(), id);
                    Ok(())
                },
                Err(e) => Err(ExecError::Semantic(e)),
            }
        },
        AstNode::Capability { kind, value, lifetime } => {
            let k = match capability_kind(kind) {
                Some(k) => k,
                None => { return Err(ExecError::UnknownCapabilityKind(kind.clone())); },
            };
            let value_id = match ctx.values.get(value) {
                Some(id) => id,
                None => { return Err(ExecError::UnknownValue(value.clone())); },
            };
            let lifetime_id = match ctx.lifetimes.get(lifetime) {
                Some(id) => id,
                None => { return Err(ExecError::UnknownLifetime(lifetime.clone())); },
            };
            match state.create_capability(k, value_id, lifetime_id) {
                Ok(_) => Ok(()),
                Err(e) => Err(ExecError::Semantic(e)),
            }
        },
        AstNode::Drop { value } => {
            let value_id = match ctx.values.get(value) {
                Some(id) => id,
                None => { return Err(ExecError::UnknownValue(value.clone())); },
            };
            match state.drop_value(value_id) {
                Ok(_) => Ok(()),
                Err(e) => Err(ExecError::Semantic(e)),
            }
        },
        AstNode::Assume { text } => {
            let affected = ctx.values.ids();
            match state.add_unsafe_assumption(text.clone(), affected) {
                Ok(_) => Ok(()),
                Err(e) => Err(ExecError::Semantic(e)),
            }
        },
    }
}

/// Executes the declarations in order against `state` and `ctx`, and stops
/// at the first one that is rejected. The state and the frame are then as
/// they were before that declaration.
#[verifier::loop_isolation(false)]
pub fn execute(nodes: &[AstNode], state: &mut InterpreterState, ctx: &mut ExecContext) -> (r:
    Result<(), ExecError>)
    requires
        old(state).wf(),
    ensures
        final(state).wf(),
        old(state)@.inv() ==> final(state)@.inv(),
        old(ctx)@.distinct() ==> final(ctx)@.distinct(),
        ({
            let run = run_all(decls_of(nodes@), Machine { state: old(state)@, frame: old(ctx)@ });
            &&& final(state)@ == run.end.state
            &&& final(ctx)@ == run.end.frame
            &&& match r {
                Ok(_) => run.error is None,
                Err(e) => run.error == Some(e@),
            }
        }),
    decreases nodes@, 2nat,
{
    let ghost start = Machine { state: state@, frame: ctx@ };
    let ghost decls = decls_of(nodes@);
    let mut i: usize = 0;
    while i < nodes.len()
        invariant
            0 <= i <= nodes@.len(),
            state.wf(),
            old(state)@.inv() ==> state@.inv(),
            old(ctx)@.distinct() ==> ctx@.distinct(),
            run_all(decls.take(i as int), start) == (Run {
                end: Machine { state: state@, frame: ctx@ },
                error: None,
            }),
        decreases nodes@.len() - i,
    {
        proof {
            assert(decls.take(i + 1).drop_last() =~= decls.take(i as int));
            assert(decls.take(i + 1).last() == nodes@[i as int]@);
        }
        match execute_one(&nodes[i], state, ctx) {
            Ok(_) => {},
            Err(e) => {
                proof {
                    lemma_run_all_prefix(decls, start, i + 1);
                }
                return Err(e);
            },
        }
        i += 1;
    }
    proof {
        assert(decls.take(i as int) =~= decls);
    }
    Ok(())
}

} // verus!
