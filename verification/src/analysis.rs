//! The analysis of a program as a whole: its text is parsed, the program is
//! interpreted in a fresh state under a module scope, and the final state is
//! reported on.

use vstd::prelude::*;

use crate::ast::{decls_of, AstNode, Decl};
use crate::exec::{execute, run_all, ExecContext, ExecError, Frame, Machine, Run};
use crate::interpreter::InterpreterState;
use crate::model::StateView;
use crate::parser::{parse, parsed_source, ParseError};
use crate::report::{exit_code_of, report_of, SafetyReport};
use crate::scope::ScopeKind;

verus! {

/// Where interpretation starts: a fresh state in which the module scope has
/// been entered, and no name bound.
pub open spec fn start() -> Machine {
    Machine { state: StateView::initial().enter_scope(ScopeKind::Module), frame: Frame::empty() }
}

/// The run of a program from the start.
pub open spec fn program_run(decls: Seq<Decl>) -> Run {
    run_all(decls, start())
}

/// How the analysis of a source text ended.
pub enum Analysis {
    /// The program was accepted; the report holds the verdict.
    Verified { state: InterpreterState, report: SafetyReport },
    /// A rule was violated during interpretation.
    Rejected(ExecError),
    /// The text is no program.
    Malformed(ParseError),
}

/// Interprets a program from a fresh state under a module scope. An
/// accepted program leaves a state that satisfies the invariants.
pub fn interpret(nodes: &[AstNode]) -> (r: Result<InterpreterState, ExecError>)
    ensures
        match r {
            Ok(state) => program_run(decls_of(nodes@)).error is None && state@ == program_run(
                decls_of(nodes@),
            ).end.state && state.wf() && state@.inv(),
            Err(e) => program_run(decls_of(nodes@)).error == Some(e@),
        },
{
    let mut state = InterpreterState::new();
    let mut ctx = ExecContext::new();
    state.enter_scope(ScopeKind::Module);
    match execute(nodes, &mut state, &mut ctx) {
        Ok(_) => Ok(state),
        Err(e) => Err(e),
    }
}

/// Analyses a source text: a text that is no program is malformed, a
/// program that violates a rule is rejected with the first violation, and
/// any other program is verified with a report on its final state.
pub fn analyze(source: &str) -> (r: Analysis)
    ensures
        match parsed_source(source@) {
            Err(f) => r matches Analysis::Malformed(e) && e@ == f,
            Ok(decls) => match program_run(decls).error {
                Some(f) => r matches Analysis::Rejected(e) && e@ == f,
                None => r matches Analysis::Verified { state, report } && state@ == program_run(
                    decls,
                ).end.state && state.wf() && state@.inv() && report@ == report_of(state@),
            },
        },
{
    let nodes = match parse(source) {
        Ok(nodes) => nodes,
        Err(e) => { return Analysis::Malformed(e); },
    };
    match interpret(nodes.as_slice()) {
        Ok(state) => {
            let report = SafetyReport::generate(&state);
            Analysis::Verified { state, report }
        },
        Err(e) => Analysis::Rejected(e),
    }
}

impl Analysis {
    /// The exit code of the analysis: that of the report for a verified
    /// program, 2 for a rejected one, 3 for a malformed text.
    pub open spec fn exit_code_of(self) -> i32 {
        match self {
            Analysis::Verified { state, report } => exit_code_of(report@),
            Analysis::Rejected(e) => 2,
            Analysis::Malformed(e) => 3,
        }
    }

    pub fn exit_code(&self) -> (code: i32)
        ensures
            code == self.exit_code_of(),
    {
        match self {
            Analysis::Verified { state: _, report } => report.exit_code(),
            Analysis::Rejected(_) => 2,
            Analysis::Malformed(_) => 3,
        }
    }
}

} // verus!
