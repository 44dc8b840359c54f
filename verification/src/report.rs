//! The safety report: the verdict on a finished run, the listings that go
//! with it, and its text. A report only reads the state.

use std::collections::HashMap;
use vstd::prelude::*;
use vstd::std_specs::hash::group_hash_axioms;
use vstd::string::StringExecFns;

use crate::graph::{
    AssumptionId, AssumptionView, Phase, PhaseId, PhaseView, UnsafeAssumptionNode, ValueId,
    ValueNode, ValueOrigin,
};
use crate::interpreter::InterpreterState;
use crate::model::StateView;
use crate::text::{bracketed, decimal, decimal3, push_bracketed, push_decimal, push_decimal3};

verus! {

pub struct Summary {
    pub ownership: String,
    pub lifetimes: String,
    pub capabilities: String,
    pub destruction: String,
}

pub struct ValueSummary {
    pub id: ValueId,
    pub origin: String,
    pub state: String,
}

pub struct SafetyReport {
    pub verdict: String,
    pub summary: Summary,
    /// The assumptions, in ascending order of their identifiers.
    pub unsafe_assumptions: Vec<UnsafeAssumptionNode>,
    /// The values, in ascending order of their identifiers.
    pub values: Vec<ValueSummary>,
    pub ownership_ok: bool,
    pub lifetimes_ok: bool,
    pub capabilities_ok: bool,
    pub destruction_ok: bool,
    pub has_unsafe_assumptions: bool,
}

pub struct SummaryView {
    pub ownership: Seq<char>,
    pub lifetimes: Seq<char>,
    pub capabilities: Seq<char>,
    pub destruction: Seq<char>,
}

pub struct ValueSummaryView {
    pub id: ValueId,
    pub origin: Seq<char>,
    pub state: Seq<char>,
}

/// A report as a mathematical value.
pub struct ReportView {
    pub verdict: Seq<char>,
    pub summary: SummaryView,
    pub unsafe_assumptions: Seq<AssumptionView>,
    pub values: Seq<ValueSummaryView>,
    pub ownership_ok: bool,
    pub lifetimes_ok: bool,
    pub capabilities_ok: bool,
    pub destruction_ok: bool,
    pub has_unsafe_assumptions: bool,
}

impl View for Summary {
    type V = SummaryView;

    open spec fn view(&self) -> SummaryView {
        SummaryView {
            ownership: self.ownership@,
            lifetimes: self.lifetimes@,
            capabilities: self.capabilities@,
            destruction: self.destruction@,
        }
    }
}

impl View for ValueSummary {
    type V = ValueSummaryView;

    open spec fn view(&self) -> ValueSummaryView {
        ValueSummaryView { id: self.id, origin: self.origin@, state: self.state@ }
    }
}

impl View for SafetyReport {
    type V = ReportView;

    open spec fn view(&self) -> ReportView {
        ReportView {
            verdict: self.verdict@,
            summary: self.summary@,
            unsafe_assumptions: Seq::new(
                self.unsafe_assumptions@.len(),
                |i: int| self.unsafe_assumptions@[i]@,
            ),
            values: Seq::new(self.values@.len(), |i: int| self.values@[i]@),
            ownership_ok: self.ownership_ok,
            lifetimes_ok: self.lifetimes_ok,
            capabilities_ok: self.capabilities_ok,
            destruction_ok: self.destruction_ok,
            has_unsafe_assumptions: self.has_unsafe_assumptions,
        }
    }
}

/// The entries of `table` with a key below `bound`, in ascending order of
/// their keys.
pub open spec fn ascending<T>(table: Map<u64, T>, bound: nat) -> Seq<T>
    decreases bound,
{
    if bound == 0 {
        Seq::empty()
    } else {
        let rest = ascending(table, (bound - 1) as nat);
        if bound - 1 <= u64::MAX && table.contains_key((bound - 1) as u64) {
            rest.push(table[(bound - 1) as u64])
        } else {
            rest
        }
    }
}

/// The keys of `table` below `bound`, in ascending order.
pub open spec fn ascending_keys<T>(table: Map<u64, T>, bound: nat) -> Seq<u64>
    decreases bound,
{
    if bound == 0 {
        Seq::empty()
    } else {
        let rest = ascending_keys(table, (bound - 1) as nat);
        if bound - 1 <= u64::MAX && table.contains_key((bound - 1) as u64) {
            rest.push((bound - 1) as u64)
        } else {
            rest
        }
    }
}

/// The listing holds the entries of the keys below the bound, each once and
/// in strictly ascending order of the keys.
pub proof fn lemma_ascending<T>(table: Map<u64, T>, bound: nat)
    ensures
        ascending(table, bound).len() == ascending_keys(table, bound).len(),
        forall|i: int|
            0 <= i < ascending_keys(table, bound).len() ==> {
                let k = #[trigger] ascending_keys(table, bound)[i];
                &&& k < bound
                &&& table.contains_key(k)
                &&& ascending(table, bound)[i] == table[k]
            },
        forall|i: int, j: int|
            0 <= i < j < ascending_keys(table, bound).len() ==> ascending_keys(table, bound)[i]
                < ascending_keys(table, bound)[j],
        forall|k: u64|
            k < bound && table.contains_key(k) ==> ascending_keys(table, bound).contains(k),
    decreases bound,
{
    if bound > 0 {
        let below = (bound - 1) as nat;
        lemma_ascending(table, below);
        let keys = ascending_keys(table, bound);
        let rest = ascending_keys(table, below);
        assert forall|k: u64| k < bound && table.contains_key(k) implies keys.contains(k) by {
            if k < below {
                assert(rest.contains(k));
                let i = choose|i: int| 0 <= i < rest.len() && rest[i] == k;
                assert(keys[i] == k);
            } else {
                assert(keys[keys.len() - 1] == k);
            }
        }
    }
}

pub open spec fn origin_text(origin: ValueOrigin) -> Seq<char> {
    match origin {
        ValueOrigin::Safe => "SAFE"@,
        ValueOrigin::Unsafe => "UNSAFE"@,
    }
}

pub open spec fn value_summary(node: ValueNode) -> ValueSummaryView {
    ValueSummaryView {
        id: node.id,
        origin: origin_text(node.origin),
        state: if node.alive {
            "ALIVE"@
        } else {
            "DESTROYED"@
        },
    }
}

/// The report on a state: the assumptions and the values by ascending
/// identifier, every dimension verified, and the verdict by whether an
/// assumption was recorded.
pub open spec fn report_of(s: StateView) -> ReportView {
    let assumptions = ascending(s.assumptions, s.next_assumption_id as nat);
    let values = ascending(s.values, s.next_value_id as nat);
    ReportView {
        verdict: if assumptions.len() == 0 {
            "SAFE"@
        } else {
            "SAFE_IF_ASSUMPTIONS_HOLD"@
        },
        summary: SummaryView {
            ownership: "VERIFIED"@,
            lifetimes: "VERIFIED"@,
            capabilities: "VERIFIED"@,
            destruction: "VERIFIED"@,
        },
        unsafe_assumptions: assumptions,
        values: Seq::new(values.len(), |i: int| value_summary(values[i])),
        ownership_ok: true,
        lifetimes_ok: true,
        capabilities_ok: true,
        destruction_ok: true,
        has_unsafe_assumptions: assumptions.len() > 0,
    }
}

/// The exit code of a report: 2 if a dimension failed, else 1 if it rests
/// on assumptions, else 0.
pub open spec fn exit_code_of(r: ReportView) -> i32 {
    if !r.ownership_ok || !r.lifetimes_ok || !r.capabilities_ok || !r.destruction_ok {
        2
    } else if r.has_unsafe_assumptions {
        1
    } else {
        0
    }
}

// ---- the text of a report ---------------------------------------------------
pub open spec fn flag_text(ok: bool) -> Seq<char> {
    if ok {
        "VERIFIED"@
    } else {
        "FAILED"@
    }
}

pub open spec fn flag_line(label: Seq<char>, ok: bool) -> Seq<char> {
    label + flag_text(ok) + "\n"@
}

pub open spec fn summary_text(r: ReportView) -> Seq<char> {
    "Summary\n-------\n"@ + flag_line("Ownership:     "@, r.ownership_ok) + flag_line(
        "Lifetimes:     "@,
        r.lifetimes_ok,
    ) + flag_line("Capabilities:  "@, r.capabilities_ok) + flag_line(
        "Destruction:   "@,
        r.destruction_ok,
    )
}

pub open spec fn phase_line(phase: PhaseView, current: Option<PhaseId>) -> Seq<char> {
    "["@ + decimal(phase.id as nat) + "] "@ + phase.name + if current == Some(phase.id) {
        " (active)"@
    } else {
        ""@
    } + "\n"@
}

/// The lines of the phases, in order.
pub open spec fn phase_lines(phases: Seq<PhaseView>, current: Option<PhaseId>) -> Seq<char>
    decreases phases.len(),
{
    if phases.len() == 0 {
        Seq::empty()
    } else {
        phase_lines(phases.drop_last(), current) + phase_line(phases.last(), current)
    }
}

pub open spec fn assumption_text(a: AssumptionView, phases: Seq<PhaseView>) -> Seq<char> {
    "[UA-"@ + decimal3(a.id as nat) + "] "@ + a.description + "\n"@ + "  Phase: "@
        + phases[a.phase as int].name + "\n"@ + "  Scope: "@ + decimal(a.scope as nat) + "\n"@
        + "  Affects: "@ + bracketed(a.affected_values) + "\n"@
}

/// The text of the assumptions, in order.
pub open spec fn assumption_lines(assumptions: Seq<AssumptionView>, phases: Seq<PhaseView>) -> Seq<
    char,
>
    decreases assumptions.len(),
{
    if assumptions.len() == 0 {
        Seq::empty()
    } else {
        assumption_lines(assumptions.drop_last(), phases) + assumption_text(
            assumptions.last(),
            phases,
        )
    }
}

pub open spec fn value_line(node: ValueNode) -> Seq<char> {
    decimal(node.id as nat) + ": "@ + if node.alive {
        origin_text(node.origin)
    } else {
        "DESTROYED"@
    } + "\n"@
}

/// The lines of the values, in order.
pub open spec fn value_lines(values: Seq<ValueNode>) -> Seq<char>
    decreases values.len(),
{
    if values.len() == 0 {
        Seq::empty()
    } else {
        value_lines(values.drop_last()) + value_line(values.last())
    }
}

pub open spec fn verdict_text(r: ReportView) -> Seq<char> {
    if !r.ownership_ok || !r.lifetimes_ok || !r.capabilities_ok || !r.destruction_ok {
        "UNSAFE"@
    } else if r.has_unsafe_assumptions {
        "SAFE_IF_ASSUMPTIONS_HOLD"@
    } else {
        "SAFE"@
    }
}

pub open spec fn assumptions_section(s: StateView) -> Seq<char> {
    let assumptions = ascending(s.assumptions, s.next_assumption_id as nat);
    "Unsafe Assumptions\n------------------\n"@ + if assumptions.len() == 0 {
        "None\n"@
    } else {
        assumption_lines(assumptions, s.phases)
    } + "\n"@
}

pub open spec fn phases_section(s: StateView) -> Seq<char> {
    "Phases\n------\n"@ + phase_lines(s.phases, s.current_phase) + "\n"@
}

pub open spec fn values_section(s: StateView) -> Seq<char> {
    let values = ascending(s.values, s.next_value_id as nat);
    "Values\n------\n"@ + value_lines(values) + "\n"@
}

/// The text of a report: the header, the summary of the report, the
/// phases, assumptions and values of the state, each listing in ascending
/// order of identifiers, and the verdict of the report.
pub open spec fn report_text(r: ReportView, s: StateView) -> Seq<char> {
    "Chiru Safety Report\n==================\n\n"@ + summary_text(r) + "\n"@ + phases_section(s)
        + assumptions_section(s) + values_section(s) + "Verdict\n-------\n"@ + verdict_text(r)
        + "\n"@
}

fn copy_ids(ids: &Vec<ValueId>) -> (r: Vec<ValueId>)
    ensures
        r@ == ids@,
{
    let mut r: Vec<ValueId> = Vec::new();
    let mut i: usize = 0;
    while i < ids.len()
        invariant
            0 <= i <= ids@.len(),
            r@ == ids@.take(i as int),
        decreases ids@.len() - i,
    {
        r.push(ids[i]);
        assert(r@ =~= ids@.take(i + 1));
        i += 1;
    }
    assert(ids@.take(i as int) =~= ids@);
    r
}

/// The assumptions of the table, in ascending order of their identifiers.
fn list_assumptions(table: &HashMap<AssumptionId, UnsafeAssumptionNode>, bound: AssumptionId) -> (r:
    Vec<UnsafeAssumptionNode>)
    ensures
        Seq::new(r@.len(), |i: int| r@[i]@) == ascending(
            table@.map_values(|n: UnsafeAssumptionNode| n@),
            bound as nat,
        ),
{
    broadcast use group_hash_axioms;

    let ghost views = table@.map_values(|n: UnsafeAssumptionNode| n@);
    let mut r: Vec<UnsafeAssumptionNode> = Vec::new();
    let mut id: AssumptionId = 0;
    while id < bound
        invariant
            0 <= id <= bound,
            views == table@.map_values(|n: UnsafeAssumptionNode| n@),
            Seq::new(r@.len(), |i: int| r@[i]@) == ascending(views, id as nat),
        decreases bound - id,
    {
        let ghost before = r@;
        match table.get(&id) {
            Some(node) => {
                r.push(
                    UnsafeAssumptionNode {
                        id: node.id,
                        description: node.description.clone(),
                        scope: node.scope,
                        affected_values: copy_ids(&node.affected_values),
                        phase: node.phase,
                    },
                );
                assert(views.contains_key(id) && views[id] == table@[id]@);
                assert(Seq::new(r@.len(), |i: int| r@[i]@) =~= Seq::new(
                    before.len(),
                    |i: int| before[i]@,
                ).push(views[id]));
            },
            None => {
                assert(!views.contains_key(id));
            },
        }
        id += 1;
    }
    r
}

/// The summaries of the values of the table, in ascending order of their
/// identifiers.
fn list_values(table: &HashMap<ValueId, ValueNode>, bound: ValueId) -> (r: Vec<ValueSummary>)
    ensures
        r@.len() == ascending(table@, bound as nat).len(),
        forall|i: int|
            0 <= i < r@.len() ==> (#[trigger] r@[i])@ == value_summary(
                ascending(table@, bound as nat)[i],
            ),
{
    broadcast use group_hash_axioms;

    let mut r: Vec<ValueSummary> = Vec::new();
    let mut id: ValueId = 0;
    while id < bound
        invariant
            0 <= id <= bound,
            r@.len() == ascending(table@, id as nat).len(),
            forall|i: int|
                0 <= i < r@.len() ==> (#[trigger] r@[i])@ == value_summary(
                    ascending(table@, id as nat)[i],
                ),
        decreases bound - id,
    {
        match table.get(&id) {
            Some(node) => {
                let origin = match node.origin {
                    ValueOrigin::Safe => "SAFE",
                    ValueOrigin::Unsafe => "UNSAFE",
                };
                let state = if node.alive {
                    "ALIVE"
                } else {
                    "DESTROYED"
                };
                r.push(
                    ValueSummary { id: node.id, origin: origin.to_owned(), state: state.to_owned() },
                );
            },
            None => {},
        }
        id += 1;
    }
    r
}

impl SafetyReport {
    /// The report on `state`. It reads the state and changes nothing.
    pub fn generate(state: &InterpreterState) -> (report: SafetyReport)
        ensures
            report@ == report_of(state@),
    {
        let unsafe_assumptions = list_assumptions(
            &state.graph.unsafe_assumptions,
            state.next_assumption_id,
        );
        let values = list_values(&state.graph.values, state.next_value_id);
        let has_unsafe_assumptions = unsafe_assumptions.len() > 0;
        let verdict = if has_unsafe_assumptions {
            "SAFE_IF_ASSUMPTIONS_HOLD"
        } else {
            "SAFE"
        };
        let report = SafetyReport {
            verdict: verdict.to_owned(),
            summary: Summary {
                ownership: "VERIFIED".to_owned(),
                lifetimes: "VERIFIED".to_owned(),
                capabilities: "VERIFIED".to_owned(),
                destruction: "VERIFIED".to_owned(),
            },
            unsafe_assumptions,
            values,
            ownership_ok: true,
            lifetimes_ok: true,
            capabilities_ok: true,
            destruction_ok: true,
            has_unsafe_assumptions,
        };
        proof {
            assert(report@.unsafe_assumptions.len() == report.unsafe_assumptions@.len());
            assert(report@.values =~= report_of(state@).values);
        }
        report
    }

    /// 2 if a dimension failed, else 1 if the verdict rests on assumptions,
    /// else 0.
    pub fn exit_code(&self) -> (code: i32)
        ensures
            code == exit_code_of(self@),
    {
        if !self.ownership_ok || !self.lifetimes_ok || !self.capabilities_ok
            || !self.destruction_ok {
            2
        } else if self.has_unsafe_assumptions {
            1
        } else {
            0
        }
    }
}

fn push_flag_line(out: &mut String, label: &str, ok: bool)
    ensures
        final(out)@ == old(out)@ + flag_line(label@, ok),
{
    out.append(label);
    if ok {
        out.append("VERIFIED");
    } else {
        out.append("FAILED");
    }
    out.append("\n");
    proof {
        assert(out@ =~= old(out)@ + flag_line(label@, ok));
    }
}

fn push_summary(out: &mut String, report: &SafetyReport)
    ensures
        final(out)@ == old(out)@ + summary_text(report@),
{
    out.append("Summary\n-------\n");
    push_flag_line(out, "Ownership:     ", report.ownership_ok);
    push_flag_line(out, "Lifetimes:     ", report.lifetimes_ok);
    push_flag_line(out, "Capabilities:  ", report.capabilities_ok);
    push_flag_line(out, "Destruction:   ", report.destruction_ok);
    proof {
        assert(out@ =~= old(out)@ + summary_text(report@));
    }
}

fn push_phase_line(out: &mut String, phase: &Phase, current: Option<PhaseId>)
    ensures
        final(out)@ == old(out)@ + phase_line(phase@, current),
{
    out.append("[");
    push_decimal(out, phase.id as u64);
    out.append("] ");
    out.append(phase.name.as_str());
    let active = match current {
        Some(id) => id == phase.id,
        None => false,
    };
    if active {
        out.append(" (active)");
    } else {
        out.append("");
    }
    out.append("\n");
    proof {
        assert(out@ =~= old(out)@ + phase_line(phase@, current));
    }
}

fn push_phases(out: &mut String, state: &InterpreterState)
    ensures
        final(out)@ == old(out)@ + phases_section(state@),
{
    out.append("Phases\n------\n");
    let ghost start = out@;
    let ghost phases = state@.phases;
    let mut i: usize = 0;
    while i < state.phases.len()
        invariant
            0 <= i <= state.phases@.len(),
            phases == state@.phases,
            start == old(out)@ + "Phases\n------\n"@,
            out@ == start + phase_lines(phases.take(i as int), state.current_phase),
        decreases state.phases@.len() - i,
    {
        proof {
            assert(phases.take(i + 1).drop_last() =~= phases.take(i as int));
            assert(phases.take(i + 1).last() == state.phases@[i as int]@);
        }
        push_phase_line(out, &state.phases[i], state.current_phase);
        proof {
            assert(out@ =~= start + phase_lines(phases.take(i + 1), state.current_phase));
        }
        i += 1;
    }
    out.append("\n");
    proof {
        assert(phases.take(i as int) =~= phases);
        assert(out@ =~= old(out)@ + phases_section(state@));
    }
}

fn push_assumption(out: &mut String, node: &UnsafeAssumptionNode, phases: &Vec<Phase>)
    requires
        node.phase < phases@.len(),
    ensures
        final(out)@ == old(out)@ + assumption_text(node@, phases@.map_values(|p: Phase| p@)),
{
    out.append("[UA-");
    push_decimal3(out, node.id);
    out.append("] ");
    out.append(node.description.as_str());
    out.append("\n");
    out.append("  Phase: ");
    out.append(phases[node.phase].name.as_str());
    out.append("\n");
    out.append("  Scope: ");
    push_decimal(out, node.scope);
    out.append("\n");
    out.append("  Affects: ");
    push_bracketed(out, &node.affected_values);
    out.append("\n");
    proof {
        assert(out@ =~= old(out)@ + assumption_text(node@, phases@.map_values(|p: Phase| p@)));
    }
}

fn push_assumptions(out: &mut String, state: &InterpreterState)
    requires
        state.wf(),
    ensures
        final(out)@ == old(out)@ + assumptions_section(state@),
{
    broadcast use group_hash_axioms;

    out.append("Unsafe Assumptions\n------------------\n");
    let ghost table = state@.assumptions;
    let ghost phases = state@.phases;
    let mut lines = String::new();
    let mut found = false;
    let mut id: AssumptionId = 0;
    while id < state.next_assumption_id
        invariant
            0 <= id <= state.next_assumption_id,
            state.wf(),
            table == state@.assumptions,
            phases == state@.phases,
            found == (ascending(table, id as nat).len() > 0),
            lines@ == assumption_lines(ascending(table, id as nat), phases),
        decreases state.next_assumption_id - id,
    {
        match state.graph.unsafe_assumptions.get(&id) {
            Some(node) => {
                assert(table.contains_key(id) && table[id] == node@);
                let ghost before = ascending(table, id as nat);
                push_assumption(&mut lines, node, &state.phases);
                found = true;
                proof {
                    assert(before.push(node@).drop_last() =~= before);
                }
            },
            None => {
                assert(!table.contains_key(id));
            },
        }
        id += 1;
    }
    if found {
        out.append(lines.as_str());
    } else {
        out.append("None\n");
    }
    out.append("\n");
    proof {
        assert(out@ =~= old(out)@ + assumptions_section(state@));
    }
}

fn push_value_line(out: &mut String, node: &ValueNode)
    ensures
        final(out)@ == old(out)@ + value_line(*node),
{
    push_decimal(out, node.id);
    out.append(": ");
    if node.alive {
        match node.origin {
            ValueOrigin::Safe => { out.append("SAFE"); },
            ValueOrigin::Unsafe => { out.append("UNSAFE"); },
        }
    } else {
        out.append("DESTROYED");
    }
    out.append("\n");
    proof {
        assert(out@ =~= old(out)@ + value_line(*node));
    }
}

fn push_values(out: &mut String, state: &InterpreterState)
    ensures
        final(out)@ == old(out)@ + values_section(state@),
{
    broadcast use group_hash_axioms;

    out.append("Values\n------\n");
    let ghost start = out@;
    let ghost table = state@.values;
    let mut id: ValueId = 0;
    while id < state.next_value_id
        invariant
            0 <= id <= state.next_value_id,
            table == state@.values,
            start == old(out)@ + "Values\n------\n"@,
            out@ == start + value_lines(ascending(table, id as nat)),
        decreases state.next_value_id - id,
    {
        match state.graph.values.get(&id) {
            Some(node) => {
                let ghost before = ascending(table, id as nat);
                push_value_line(out, node);
                proof {
                    assert(before.push(*node).drop_last() =~= before);
                    assert(out@ =~= start + value_lines(ascending(table, (id + 1) as nat)));
                }
            },
            None => {},
        }
        id += 1;
    }
    out.append("\n");
    proof {
        assert(out@ =~= old(out)@ + values_section(state@));
    }
}

impl SafetyReport {
    /// The text of the report, as it is printed: the summary and the verdict
    /// of the report, and the phases, assumptions and values of `state`.
    pub fn render(&self, state: &InterpreterState) -> (text: String)
        requires
            state.wf(),
        ensures
            text@ == report_text(self@, state@),
    {
        let mut out = String::new();
        out.append("Chiru Safety Report\n==================\n\n");
        push_summary(&mut out, self);
        out.append("\n");
        push_phases(&mut out, state);
        push_assumptions(&mut out, state);
        push_values(&mut out, state);
        out.append("Verdict\n-------\n");
        if !self.ownership_ok || !self.lifetimes_ok || !self.capabilities_ok
            || !self.destruction_ok {
            out.append("UNSAFE");
        } else if self.has_unsafe_assumptions {
            out.append("SAFE_IF_ASSUMPTIONS_HOLD");
        } else {
            out.append("SAFE");
        }
        out.append("\n");
        proof {
            assert(out@ =~= report_text(self@, state@));
        }
        out
    }
}

} // verus!
