//! Advisories, findings, decisions and typical values, as they are served.
//!
//! What is served refers to the published lists by place, so that nothing is copied that is sent
//! unchanged.

use crate::findings::{guidance, guidance_for, Finding};
use crate::http::host::HostMetrics;
use crate::http::render::{names_contain, AnalysisSnapshot, ScoredFinding};
use crate::http::reply::Message;
use crate::identity::{key_text, FindingKey};
use crate::ordered_map::OrderedMap;
use crate::process::{get_process, place_of, ManagedProcess};
use crate::reading::Figure;
use crate::rules::Decision;
use crate::sequences::{
    as_places, lemma_place_pushed, lemma_places_where, places_where,
};
use crate::severity::{Typical, TypicalUnavailable};
use crate::text::{copy_texts, same_text, texts};
use crate::tuning::SuppressionCounters;
use vstd::prelude::*;

verus! {

/// A configuration advisory: its rule, and how severe it is. A larger rank is more severe.
#[derive(Debug)]
pub struct Advisory {
    pub id: String,
    pub severity: u8,
}

/// The advisories that were evaluated for a process.
#[derive(Debug)]
pub struct EvaluatedProcess {
    pub process: String,
    pub id: u64,
    pub advisories: Vec<Advisory>,
}

/// The advisories of a process as they are served, by place.
#[derive(Debug)]
pub struct ProcessAdvisories {
    pub process: String,
    pub id: u64,
    /// The rank of the most severe active advisory.
    pub highest_severity: Option<u8>,
    pub active: Vec<usize>,
    pub dismissed: Vec<usize>,
}

/// The advisories of every process.
#[derive(Debug)]
pub struct AdvisoriesReport {
    pub processes: Vec<ProcessAdvisories>,
    pub total: u128,
    pub dismissed_total: u128,
    pub capacity_available: bool,
}

/// The rules dismissed for processes, by name.
pub type Dismissals = OrderedMap<String, OrderedMap<String, ()>>;

/// Whether a rule is dismissed for a process.
pub open spec fn is_dismissed(dismissals: Dismissals, process: Seq<char>, rule: Seq<char>) -> bool {
    dismissals@.contains_key(process) && dismissals@[process]@.contains_key(rule)
}

/// Whether the advisory at a place is dismissed, or is not.
pub open spec fn standing(
    evaluated: EvaluatedProcess,
    dismissals: Dismissals,
    dismissed: bool,
) -> spec_fn(int) -> bool {
    |at: int|
        is_dismissed(dismissals, evaluated.process@, evaluated.advisories@[at].id@) == dismissed
}

/// Whether a rank is the highest among the advisories at some places.
pub open spec fn is_highest(
    advisories: Seq<Advisory>,
    places: Seq<int>,
    highest: Option<u8>,
) -> bool {
    match highest {
        None => places.len() == 0,
        Some(rank) => {
            &&& exists|i: int|
                0 <= i < places.len() && advisories[#[trigger] places[i]].severity == rank
            &&& forall|i: int|
                0 <= i < places.len() ==> advisories[#[trigger] places[i]].severity <= rank
        },
    }
}

impl ProcessAdvisories {
    /// Whether these are the advisories of a process, split by what is dismissed.
    pub open spec fn splits(self, evaluated: EvaluatedProcess, dismissals: Dismissals) -> bool {
        let count = evaluated.advisories@.len();
        &&& self.process@ == evaluated.process@
        &&& self.id == evaluated.id
        &&& as_places(self.active@) == places_where(count, standing(evaluated, dismissals, false))
        &&& as_places(self.dismissed@) == places_where(count, standing(evaluated, dismissals, true))
        &&& is_highest(evaluated.advisories@, as_places(self.active@), self.highest_severity)
    }
}

fn split_advisories(evaluated: &EvaluatedProcess, dismissals: &Dismissals) -> (split:
    ProcessAdvisories)
    ensures
        split.splits(*evaluated, *dismissals),
{
    let rules: Option<&OrderedMap<String, ()>> = dismissals.get(&evaluated.process);
    let mut active: Vec<usize> = Vec::new();
    let mut dismissed: Vec<usize> = Vec::new();
    let mut highest: Option<u8> = None;
    let ghost kept = standing(*evaluated, *dismissals, false);
    let ghost gone = standing(*evaluated, *dismissals, true);
    assert(as_places(active@) =~= Seq::<int>::empty());
    assert(as_places(dismissed@) =~= Seq::<int>::empty());
    let mut i: usize = 0;
    while i < evaluated.advisories.len()
        invariant
            i <= evaluated.advisories.len(),
            match rules {
                Some(rules) => dismissals@.contains_key(evaluated.process@)
                    && dismissals@[evaluated.process@] == *rules,
                None => !dismissals@.contains_key(evaluated.process@),
            },
            kept == standing(*evaluated, *dismissals, false),
            gone == standing(*evaluated, *dismissals, true),
            as_places(active@) == places_where(i as nat, kept),
            as_places(dismissed@) == places_where(i as nat, gone),
            is_highest(evaluated.advisories@, as_places(active@), highest),
        decreases evaluated.advisories.len() - i,
    {
        let advisory = &evaluated.advisories[i];
        let out: bool = match rules {
            Some(rules) => rules.contains(&advisory.id),
            None => false,
        };
        let ghost before = as_places(active@);
        if out {
            proof {
                lemma_place_pushed(dismissed@, i);
            }
            dismissed.push(i);
        } else {
            proof {
                lemma_place_pushed(active@, i);
            }
            active.push(i);
            let ghost after = as_places(active@);
            let higher: bool = match highest {
                Some(rank) => advisory.severity > rank,
                None => true,
            };
            assert(after[after.len() - 1] == i);
            assert(forall|j: int| 0 <= j < before.len() ==> after[j] == before[j]);
            if higher {
                highest = Some(advisory.severity);
            } else {
                proof {
                    let rank = highest->0;
                    let j = choose|j: int|
                        0 <= j < before.len() && evaluated.advisories@[#[trigger] before[j]].severity
                            == rank;
                    assert(evaluated.advisories@[after[j]].severity == rank);
                }
            }
        }
        assert(kept(i as int) == !out);
        assert(gone(i as int) == out);
        i = i + 1;
    }
    ProcessAdvisories {
        process: evaluated.process.clone(),
        id: evaluated.id,
        highest_severity: highest,
        active,
        dismissed,
    }
}

/// How many advisories are listed as active.
pub open spec fn active_total(reports: Seq<ProcessAdvisories>) -> nat
    decreases reports.len(),
{
    if reports.len() == 0 {
        0
    } else {
        active_total(reports.drop_last()) + reports.last().active@.len()
    }
}

/// How many advisories are listed as dismissed.
pub open spec fn dismissed_total(reports: Seq<ProcessAdvisories>) -> nat
    decreases reports.len(),
{
    if reports.len() == 0 {
        0
    } else {
        dismissed_total(reports.drop_last()) + reports.last().dismissed@.len()
    }
}

/// The advisories of every process, split by what is dismissed.
pub fn get_advisories(
    evaluated: &[EvaluatedProcess],
    dismissals: &Dismissals,
    capacity_available: bool,
) -> (report: AdvisoriesReport)
    ensures
        report.processes@.len() == evaluated@.len(),
        forall|i: int|
            0 <= i < evaluated@.len() ==> (#[trigger] report.processes@[i]).splits(
                evaluated@[i],
                *dismissals,
            ),
        report.total == active_total(report.processes@),
        report.dismissed_total == dismissed_total(report.processes@),
        report.capacity_available == capacity_available,
{
    let mut processes: Vec<ProcessAdvisories> = Vec::new();
    let mut total: u128 = 0;
    let mut gone: u128 = 0;
    let mut i: usize = 0;
    while i < evaluated.len()
        invariant
            i <= evaluated.len(),
            processes@.len() == i,
            forall|j: int|
                0 <= j < i ==> (#[trigger] processes@[j]).splits(evaluated@[j], *dismissals),
            total == active_total(processes@),
            gone == dismissed_total(processes@),
            total <= i * 0xffff_ffff_ffff_ffff,
            gone <= i * 0xffff_ffff_ffff_ffff,
        decreases evaluated.len() - i,
    {
        let split = split_advisories(&evaluated[i], dismissals);
        let ghost before = processes@;
        total = total + split.active.len() as u128;
        gone = gone + split.dismissed.len() as u128;
        processes.push(split);
        assert(processes@.drop_last() =~= before);
        i = i + 1;
    }
    AdvisoriesReport { processes, total, dismissed_total: gone, capacity_available }
}

proof fn lemma_split_counts(count: nat, wanted: spec_fn(int) -> bool, unwanted: spec_fn(int) -> bool)
    requires
        forall|at: int| #[trigger] wanted(at) != unwanted(at),
    ensures
        places_where(count, wanted).len() + places_where(count, unwanted).len() == count,
    decreases count,
{
    if count > 0 {
        lemma_split_counts((count - 1) as nat, wanted, unwanted);
        assert(wanted(count - 1) != unwanted(count - 1));
    }
}

/// A dismissal hides nothing: every advisory of a process is listed once, among the active ones or
/// among the dismissed ones, as the dismissals say.
pub proof fn every_advisory_is_listed_once(
    evaluated: EvaluatedProcess,
    dismissals: Dismissals,
    split: ProcessAdvisories,
    at: int,
)
    requires
        split.splits(evaluated, dismissals),
        0 <= at < evaluated.advisories@.len(),
    ensures
        split.active@.len() + split.dismissed@.len() == evaluated.advisories@.len(),
        as_places(split.active@).contains(at) != as_places(split.dismissed@).contains(at),
        as_places(split.dismissed@).contains(at) == is_dismissed(
            dismissals,
            evaluated.process@,
            evaluated.advisories@[at].id@,
        ),
{
    let count = evaluated.advisories@.len();
    let kept = standing(evaluated, dismissals, false);
    let gone = standing(evaluated, dismissals, true);
    lemma_split_counts(count, kept, gone);
    lemma_places_where(count, kept);
    lemma_places_where(count, gone);
    assert(kept(at) != gone(at));
}

/// Whether the finding at a place is active.
pub open spec fn active_at(findings: Seq<ScoredFinding>) -> spec_fn(int) -> bool {
    |at: int| findings[at].finding.active()
}

/// Whether the finding at a place is about a process.
pub open spec fn about_at(findings: Seq<ScoredFinding>, process: Seq<char>) -> spec_fn(int) -> bool {
    |at: int| findings[at].finding.key.process@ == process
}

/// Whether the finding at a place is active and about a process.
pub open spec fn active_about_at(findings: Seq<ScoredFinding>, process: Seq<char>) -> spec_fn(
    int,
) -> bool {
    |at: int| findings[at].finding.active() && findings[at].finding.key.process@ == process
}

/// The findings as they are served: guidance beside each, in the order of the listing.
#[derive(Debug)]
pub struct FindingsReport {
    pub guidance: Vec<Option<Vec<String>>>,
    pub active: usize,
    pub total: usize,
    pub suppressed: SuppressionCounters,
    /// The processes some baseline of which is still warming.
    pub warming: Vec<String>,
}

/// Whether steps are the guidance for a finding.
pub open spec fn is_guidance(steps: Option<Vec<String>>, finding: Finding) -> bool {
    match guidance(finding) {
        Some(lines) => steps matches Some(steps) && texts(steps@) == lines,
        None => steps is None,
    }
}

/// The findings as they are served.
pub fn get_findings(analysis: &AnalysisSnapshot) -> (report: FindingsReport)
    ensures
        report.guidance@.len() == analysis.findings@.len(),
        forall|i: int|
            0 <= i < analysis.findings@.len() ==> is_guidance(
                #[trigger] report.guidance@[i],
                analysis.findings@[i].finding,
            ),
        report.active == places_where(
            analysis.findings@.len(),
            active_at(analysis.findings@),
        ).len(),
        report.total == analysis.findings@.len(),
        report.suppressed == analysis.suppressed,
        texts(report.warming@) == texts(analysis.warming@),
{
    let mut steps: Vec<Option<Vec<String>>> = Vec::new();
    let mut active: usize = 0;
    let ghost wanted = active_at(analysis.findings@);
    let mut i: usize = 0;
    while i < analysis.findings.len()
        invariant
            i <= analysis.findings.len(),
            wanted == active_at(analysis.findings@),
            steps@.len() == i,
            forall|j: int|
                0 <= j < i ==> is_guidance(
                    #[trigger] steps@[j],
                    analysis.findings@[j].finding,
                ),
            active <= i,
            active == places_where(i as nat, wanted).len(),
        decreases analysis.findings.len() - i,
    {
        let finding = &analysis.findings[i].finding;
        steps.push(guidance_for(finding));
        let holds: bool = finding.is_active();
        assert(wanted(i as int) == holds);
        if holds {
            active = active + 1;
        }
        i = i + 1;
    }
    FindingsReport {
        guidance: steps,
        active,
        total: analysis.findings.len(),
        suppressed: analysis.suppressed,
        warming: copy_texts(analysis.warming.as_slice()),
    }
}

/// The findings of one process as they are served, by place.
#[derive(Debug)]
pub struct ProcessFindings {
    pub findings: Vec<usize>,
    pub active: usize,
    pub total: usize,
    pub warming: bool,
}

/// The findings of one process, or the refusal for one that is not known: a process without
/// findings and a process that does not exist are different facts.
pub fn get_process_findings(
    processes: &[ManagedProcess],
    name: &str,
    analysis: &AnalysisSnapshot,
) -> (outcome: Result<ProcessFindings, Message>)
    ensures
        match outcome {
            Ok(report) => {
                let count = analysis.findings@.len();
                &&& place_of(processes@, name@) is Some
                &&& as_places(report.findings@) == places_where(
                    count,
                    about_at(analysis.findings@, name@),
                )
                &&& report.active == places_where(
                    count,
                    active_about_at(analysis.findings@, name@),
                ).len()
                &&& report.total == report.findings@.len()
                &&& report.warming == texts(analysis.warming@).contains(name@)
            },
            Err(refusal) => place_of(processes@, name@) is None && refusal.says(
                404,
                false,
                "service not found"@,
            ),
        },
{
    if get_process(processes, name).is_none() {
        return Err(Message::refusal(404, "service not found"));
    }
    let mut findings: Vec<usize> = Vec::new();
    let mut active: usize = 0;
    let ghost about = about_at(analysis.findings@, name@);
    let ghost both = active_about_at(analysis.findings@, name@);
    assert(as_places(findings@) =~= Seq::<int>::empty());
    let mut i: usize = 0;
    while i < analysis.findings.len()
        invariant
            i <= analysis.findings.len(),
            about == about_at(analysis.findings@, name@),
            both == active_about_at(analysis.findings@, name@),
            as_places(findings@) == places_where(i as nat, about),
            active <= i,
            active == places_where(i as nat, both).len(),
        decreases analysis.findings.len() - i,
    {
        let finding = &analysis.findings[i].finding;
        let named: bool = same_text(finding.key.process.as_str(), name);
        let holds: bool = named && finding.is_active();
        assert(about(i as int) == named);
        assert(both(i as int) == holds);
        if named {
            proof {
                lemma_place_pushed(findings@, i);
            }
            findings.push(i);
        }
        if holds {
            active = active + 1;
        }
        i = i + 1;
    }
    let total: usize = findings.len();
    let warming: bool = names_contain(analysis.warming.as_slice(), name);
    Ok(ProcessFindings { findings, active, total, warming })
}

/// A decision beside the two scores of its confidence gate, as they print.
#[derive(Debug)]
pub struct ShownDecision {
    pub decision: Decision,
    pub observed: String,
    pub required: String,
}

/// A decision as it is served.
#[derive(Debug)]
pub struct DecisionRow {
    pub process: String,
    pub at: u64,
    pub rule: Option<&'static str>,
    pub action: Option<&'static str>,
    pub withheld: Option<String>,
    pub findings: Vec<String>,
    pub summary: String,
}

/// The texts of keys.
pub open spec fn key_texts(keys: Seq<FindingKey>) -> Seq<Seq<char>> {
    keys.map_values(|key: FindingKey| key_text(key@))
}

impl DecisionRow {
    /// Whether this row shows a decision.
    pub open spec fn shows(self, shown: ShownDecision) -> bool {
        let decision = shown.decision;
        &&& self.process@ == decision.process@
        &&& self.at == decision.at_unix
        &&& match decision.rule {
            Some(rule) => self.rule matches Some(name) && name@ == rule.wire(),
            None => self.rule is None,
        }
        &&& match decision.action {
            Some(action) => self.action matches Some(name) && name@ == action.wire(),
            None => self.action is None,
        }
        &&& match decision.withheld {
            Some(withheld) => self.withheld matches Some(text) && text@ == withheld.reason_text(
                shown.observed@,
                shown.required@,
            ),
            None => self.withheld is None,
        }
        &&& texts(self.findings@) == key_texts(decision.findings@)
        &&& self.summary@ == decision.summary_text(shown.observed@, shown.required@)
    }
}

fn decision_row(shown: &ShownDecision) -> (row: DecisionRow)
    ensures
        row.shows(*shown),
{
    let decision = &shown.decision;
    let mut findings: Vec<String> = Vec::new();
    let mut i: usize = 0;
    assert(texts(findings@) =~= key_texts(decision.findings@.take(0)));
    while i < decision.findings.len()
        invariant
            i <= decision.findings.len(),
            texts(findings@) == key_texts(decision.findings@.take(i as int)),
        decreases decision.findings.len() - i,
    {
        let ghost earlier = texts(findings@);
        findings.push(decision.findings[i].as_string());
        assert(texts(findings@) =~= earlier.push(key_text(decision.findings@[i as int]@)));
        assert(key_texts(decision.findings@.take(i + 1)) =~= key_texts(
            decision.findings@.take(i as int),
        ).push(key_text(decision.findings@[i as int]@)));
        i = i + 1;
    }
    assert(decision.findings@.take(i as int) =~= decision.findings@);
    DecisionRow {
        process: decision.process.clone(),
        at: decision.at_unix,
        rule: match decision.rule {
            Some(rule) => Some(rule.as_wire()),
            None => None,
        },
        action: match decision.action {
            Some(action) => Some(action.as_wire()),
            None => None,
        },
        withheld: match &decision.withheld {
            Some(withheld) => Some(
                withheld.reason(shown.observed.as_str(), shown.required.as_str()),
            ),
            None => None,
        },
        findings,
        summary: decision.summary(shown.observed.as_str(), shown.required.as_str()),
    }
}

/// The recorded decisions. Nothing acts on them yet, and the report says so.
#[derive(Debug)]
pub struct DecisionsReport {
    pub decisions: Vec<DecisionRow>,
    pub acting_enabled: bool,
}

/// The recorded decisions, in their order.
pub fn get_decisions(decisions: &[ShownDecision]) -> (report: DecisionsReport)
    ensures
        report.decisions@.len() == decisions@.len(),
        forall|i: int|
            0 <= i < decisions@.len() ==> (#[trigger] report.decisions@[i]).shows(decisions@[i]),
        !report.acting_enabled,
{
    let mut rows: Vec<DecisionRow> = Vec::new();
    let mut i: usize = 0;
    while i < decisions.len()
        invariant
            i <= decisions.len(),
            rows@.len() == i,
            forall|j: int| 0 <= j < i ==> (#[trigger] rows@[j]).shows(decisions@[j]),
        decreases decisions.len() - i,
    {
        rows.push(decision_row(&decisions[i]));
        i = i + 1;
    }
    DecisionsReport { decisions: rows, acting_enabled: false }
}

/// Whether the decision at a place is about a process.
pub open spec fn decided_at(decisions: Seq<ShownDecision>, process: Seq<char>) -> spec_fn(
    int,
) -> bool {
    |at: int| decisions[at].decision.process@ == process
}

/// Whether rows show the decisions at some places.
pub open spec fn rows_show(
    rows: Seq<DecisionRow>,
    decisions: Seq<ShownDecision>,
    places: Seq<int>,
) -> bool {
    &&& rows.len() == places.len()
    &&& forall|i: int| 0 <= i < rows.len() ==> (#[trigger] rows[i]).shows(decisions[places[i]])
}

/// The recorded decisions about one process, or the refusal for one that is not known.
pub fn get_process_decisions(
    processes: &[ManagedProcess],
    name: &str,
    decisions: &[ShownDecision],
) -> (outcome: Result<DecisionsReport, Message>)
    ensures
        match outcome {
            Ok(report) => {
                &&& place_of(processes@, name@) is Some
                &&& rows_show(
                    report.decisions@,
                    decisions@,
                    places_where(decisions@.len(), decided_at(decisions@, name@)),
                )
                &&& !report.acting_enabled
            },
            Err(refusal) => place_of(processes@, name@) is None && refusal.says(
                404,
                false,
                "service not found"@,
            ),
        },
{
    if get_process(processes, name).is_none() {
        return Err(Message::refusal(404, "service not found"));
    }
    let mut rows: Vec<DecisionRow> = Vec::new();
    let ghost wanted = decided_at(decisions@, name@);
    let mut i: usize = 0;
    while i < decisions.len()
        invariant
            i <= decisions.len(),
            wanted == decided_at(decisions@, name@),
            rows_show(rows@, decisions@, places_where(i as nat, wanted)),
        decreases decisions.len() - i,
    {
        let named: bool = same_text(decisions[i].decision.process.as_str(), name);
        assert(wanted(i as int) == named);
        if named {
            rows.push(decision_row(&decisions[i]));
        }
        i = i + 1;
    }
    Ok(DecisionsReport { decisions: rows, acting_enabled: false })
}

/// The typical values of a process, where there is a history of them.
#[derive(Debug, Clone, Copy, PartialEq, Eq, Structural)]
pub struct TypicalReport {
    pub cpu: Option<Typical>,
    pub memory: Option<Typical>,
}

/// Current and typical values of a process. Current values are withheld while it is not up.
#[derive(Debug)]
pub struct TypicalEntry<'a> {
    pub process: String,
    pub id: u64,
    pub running: bool,
    pub cpu_percent: Option<&'a Figure>,
    pub memory_bytes: Option<u64>,
    pub typical_cpu: Typical,
    pub typical_memory: Typical,
}

/// Current values of the host, each present where it was measured.
#[derive(Debug)]
pub struct HostCurrent<'a> {
    pub cpu_percent: Option<&'a Figure>,
    pub memory_used_percent: Option<&'a Figure>,
    pub memory_effective_used_percent: Option<&'a Figure>,
    pub memory_effective_total_bytes: Option<u64>,
}

/// Current and typical values of everything.
#[derive(Debug)]
pub struct TypicalsReport<'a> {
    pub processes: Vec<TypicalEntry<'a>>,
    pub host: HostCurrent<'a>,
    pub host_typical: Typical,
}

/// A typical value as it is served: without a history there is none.
pub open spec fn served_typical(typical: Option<Typical>) -> Typical {
    match typical {
        Some(typical) => typical,
        None => Typical::Unavailable { reason: TypicalUnavailable::NoHistory },
    }
}

/// The typical values recorded for a process.
pub open spec fn recorded_typical(
    typical: OrderedMap<String, TypicalReport>,
    process: Seq<char>,
) -> TypicalReport {
    if typical@.contains_key(process) {
        typical@[process]
    } else {
        TypicalReport { cpu: None, memory: None }
    }
}

impl<'a> TypicalEntry<'a> {
    /// Whether this is the entry of a process.
    pub open spec fn describes(
        self,
        process: ManagedProcess,
        typical: OrderedMap<String, TypicalReport>,
    ) -> bool {
        let report = recorded_typical(typical, process.name@);
        &&& self.process@ == process.name@
        &&& self.id == process.id
        &&& self.running == process.up()
        &&& self.cpu_percent == (if process.up() {
            Some(&process.cpu_percent)
        } else {
            None
        })
        &&& self.memory_bytes == (if process.up() {
            Some(process.memory_bytes)
        } else {
            None
        })
        &&& self.typical_cpu == served_typical(report.cpu)
        &&& self.typical_memory == served_typical(report.memory)
    }
}

fn render_typical(typical: Option<Typical>) -> (served: Typical)
    ensures
        served == served_typical(typical),
{
    match typical {
        Some(typical) => typical,
        None => Typical::Unavailable { reason: TypicalUnavailable::NoHistory },
    }
}

impl<'a> HostCurrent<'a> {
    /// Whether these are the current values of the host.
    pub open spec fn describes(self, host: Option<HostMetrics>) -> bool {
        let cpu = match host {
            Some(host) => host.cpu,
            None => None,
        };
        let memory = match host {
            Some(host) => host.memory,
            None => None,
        };
        &&& self.cpu_percent == (match cpu {
            Some(cpu) => match cpu.global_percent {
                Some(figure) => Some(&figure),
                None => None,
            },
            None => None,
        })
        &&& match memory {
            Some(memory) => {
                &&& self.memory_used_percent == (match memory.used_percent {
                    Some(figure) => Some(&figure),
                    None => None,
                })
                &&& self.memory_effective_used_percent == (match memory.effective_used_percent {
                    Some(figure) => Some(&figure),
                    None => None,
                })
                &&& self.memory_effective_total_bytes == memory.effective_total_bytes
            },
            None => self.memory_used_percent is None && self.memory_effective_used_percent is None
                && self.memory_effective_total_bytes is None,
        }
    }
}

fn borrow_figure(figure: &Option<Figure>) -> (borrowed: Option<&Figure>)
    ensures
        borrowed == (match *figure {
            Some(figure) => Some(&figure),
            None => None,
        }),
{
    match figure {
        Some(figure) => Some(figure),
        None => None,
    }
}

fn host_current(host: &Option<HostMetrics>) -> (current: HostCurrent<'_>)
    ensures
        current.describes(*host),
{
    let mut current = HostCurrent {
        cpu_percent: None,
        memory_used_percent: None,
        memory_effective_used_percent: None,
        memory_effective_total_bytes: None,
    };
    if let Some(host) = host {
        if let Some(cpu) = &host.cpu {
            current.cpu_percent = borrow_figure(&cpu.global_percent);
        }
        if let Some(memory) = &host.memory {
            current.memory_used_percent = borrow_figure(&memory.used_percent);
            current.memory_effective_used_percent = borrow_figure(&memory.effective_used_percent);
            current.memory_effective_total_bytes = memory.effective_total_bytes;
        }
    }
    current
}

/// Current and typical values together, per process and for the host. The host has no history.
pub fn get_typical<'a>(
    processes: &'a [ManagedProcess],
    typical: &OrderedMap<String, TypicalReport>,
    host: &'a Option<HostMetrics>,
) -> (report: TypicalsReport<'a>)
    ensures
        report.processes@.len() == processes@.len(),
        forall|i: int|
            0 <= i < processes@.len() ==> (#[trigger] report.processes@[i]).describes(
                processes@[i],
                *typical,
            ),
        report.host.describes(*host),
        report.host_typical == served_typical(None),
{
    let mut entries: Vec<TypicalEntry<'a>> = Vec::new();
    let mut i: usize = 0;
    while i < processes.len()
        invariant
            i <= processes.len(),
            entries@.len() == i,
            forall|j: int|
                0 <= j < i ==> (#[trigger] entries@[j]).describes(processes@[j], *typical),
        decreases processes.len() - i,
    {
        let process: &'a ManagedProcess = &processes[i];
        let report: TypicalReport = match typical.get(&process.name) {
            Some(report) => *report,
            None => TypicalReport { cpu: None, memory: None },
        };
        let running: bool = process.is_up();
        let cpu_percent: Option<&'a Figure> = if running {
            Some(&process.cpu_percent)
        } else {
            None
        };
        let memory_bytes: Option<u64> = if running {
            Some(process.memory_bytes)
        } else {
            None
        };
        entries.push(
            TypicalEntry {
                process: process.name.clone(),
                id: process.id,
                running,
                cpu_percent,
                memory_bytes,
                typical_cpu: render_typical(report.cpu),
                typical_memory: render_typical(report.memory),
            },
        );
        i = i + 1;
    }
    TypicalsReport { processes: entries, host: host_current(host), host_typical: render_typical(None) }
}

/// The advisories of a process are told apart by what is dismissed for that process: the most
/// severe active one is named by its rank, and there is none exactly where none is active. A
/// dismissed one never counts, however severe.
pub proof fn the_most_severe_active_advisory_is_named(
    evaluated: EvaluatedProcess,
    dismissals: Dismissals,
    split: ProcessAdvisories,
    at: int,
)
    requires
        split.splits(evaluated, dismissals),
    ensures
        split.process@ == evaluated.process@ && split.id == evaluated.id,
        split.highest_severity is None <==> split.active@.len() == 0,
        split.highest_severity matches Some(rank) ==> exists|i: int|
            0 <= i < evaluated.advisories@.len() && (#[trigger] evaluated.advisories@[i]).severity
                == rank && !(dismissals@.contains_key(evaluated.process@)
                && dismissals@[evaluated.process@]@.contains_key(evaluated.advisories@[i].id@)),
        0 <= at < evaluated.advisories@.len() && !(dismissals@.contains_key(evaluated.process@)
            && dismissals@[evaluated.process@]@.contains_key(evaluated.advisories@[at].id@)) ==> (
        split.highest_severity matches Some(rank) && evaluated.advisories@[at].severity <= rank),
{
    let count = evaluated.advisories@.len();
    let active = standing(evaluated, dismissals, false);
    lemma_places_where(count, active);
    let places = as_places(split.active@);
    assert(places.len() == split.active@.len());
    if split.highest_severity is Some {
        let i = choose|i: int|
            0 <= i < places.len() && evaluated.advisories@[#[trigger] places[i]].severity
                == split.highest_severity->0;
        let place = places_where(count, active)[i];
        assert(active(place));
        assert(evaluated.advisories@[place].severity == split.highest_severity->0);
    }
    if 0 <= at < count && active(at) {
        assert(places.contains(at));
        let i = choose|i: int| 0 <= i < places.len() && places[i] == at;
        assert(places[i] == at);
    }
}

/// Totals add up report by report.
pub proof fn totals_add_up(reports: Seq<ProcessAdvisories>, report: ProcessAdvisories)
    ensures
        active_total(Seq::<ProcessAdvisories>::empty()) == 0,
        dismissed_total(Seq::<ProcessAdvisories>::empty()) == 0,
        active_total(reports.push(report)) == active_total(reports) + report.active@.len(),
        dismissed_total(reports.push(report)) == dismissed_total(reports)
            + report.dismissed@.len(),
{
    assert(reports.push(report).drop_last() =~= reports);
}

proof fn lemma_places_are_counted(
    findings: Seq<ScoredFinding>,
    wanted: spec_fn(int) -> bool,
    keep: spec_fn(ScoredFinding) -> bool,
    count: nat,
)
    requires
        count <= findings.len(),
        forall|i: int| 0 <= i < findings.len() ==> wanted(i) == keep(#[trigger] findings[i]),
    ensures
        places_where(count, wanted).len() == findings.take(count as int).filter(keep).len(),
    decreases count,
{
    if count == 0 {
        crate::sequences::lemma_filter_ends(findings, keep);
    } else {
        let last = count - 1;
        lemma_places_are_counted(findings, wanted, keep, last as nat);
        crate::sequences::lemma_filter_step(findings, last, keep);
        assert(wanted(last) == keep(findings[last]));
    }
}

/// The findings served are counted as they are: all of them, and of these the ones that hold, with
/// guidance beside each.
pub proof fn findings_are_counted_as_they_are(analysis: &AnalysisSnapshot, report: FindingsReport)
    requires
        call_ensures(get_findings, (analysis,), report),
    ensures
        report.total == analysis.findings@.len(),
        report.active == analysis.findings@.filter(
            |scored: ScoredFinding| scored.finding.status is Active,
        ).len(),
        report.guidance@.len() == report.total,
        report.suppressed == analysis.suppressed,
        texts(report.warming@) == texts(analysis.warming@),
{
    let findings = analysis.findings@;
    let keep = |scored: ScoredFinding| scored.finding.status is Active;
    assert(findings.take(findings.len() as int) =~= findings);
    lemma_places_are_counted(findings, active_at(findings), keep, findings.len());
}

/// The findings of a process are those about it, in order, and a process that is not known is not
/// found.
pub proof fn findings_are_served_by_process(
    processes: &[ManagedProcess],
    name: &str,
    analysis: &AnalysisSnapshot,
    outcome: Result<ProcessFindings, Message>,
    at: int,
)
    requires
        call_ensures(get_process_findings, (processes, name, analysis), outcome),
    ensures
        outcome is Ok <==> place_of(processes@, name@) is Some,
        outcome matches Err(refusal) ==> refusal.status == 404 && !refusal.ok,
        outcome matches Ok(report) ==> report.total == analysis.findings@.filter(
            |scored: ScoredFinding| scored.finding.key.process@ == name@,
        ).len(),
        outcome matches Ok(report) ==> report.active == analysis.findings@.filter(
            |scored: ScoredFinding|
                scored.finding.status is Active && scored.finding.key.process@ == name@,
        ).len(),
        outcome matches Ok(report) ==> report.warming == texts(analysis.warming@).contains(name@),
        outcome matches Ok(report) ==> (0 <= at < report.findings@.len() ==> report.findings@[at]
            < analysis.findings@.len() && analysis.findings@[report.findings@[at]
            as int].finding.key.process@ == name@),
{
    let findings = analysis.findings@;
    let own = |scored: ScoredFinding| scored.finding.key.process@ == name@;
    let held = |scored: ScoredFinding|
        scored.finding.status is Active && scored.finding.key.process@ == name@;
    assert(findings.take(findings.len() as int) =~= findings);
    lemma_places_are_counted(findings, about_at(findings, name@), own, findings.len());
    lemma_places_are_counted(findings, active_about_at(findings, name@), held, findings.len());
    lemma_places_where(findings.len(), about_at(findings, name@));
    if let Ok(report) = outcome {
        let places = as_places(report.findings@);
        assert(places.len() == report.findings@.len());
        if 0 <= at < report.findings@.len() {
            assert(places[at] == report.findings@[at] as int);
            assert(about_at(findings, name@)(places[at]));
        }
    }
}

/// A decision is shown with its own process, time, rule, action and reason, the keys it went by in
/// order; and what is shown never claims to act.
pub proof fn a_decision_is_shown_as_it_was_made(
    decisions: &[ShownDecision],
    report: DecisionsReport,
    at: int,
)
    requires
        call_ensures(get_decisions, (decisions,), report),
        0 <= at < decisions@.len(),
    ensures
        !report.acting_enabled,
        report.decisions@.len() == decisions@.len(),
        report.decisions@[at].process@ == decisions@[at].decision.process@,
        report.decisions@[at].at == decisions@[at].decision.at_unix,
        report.decisions@[at].rule is Some <==> decisions@[at].decision.rule is Some,
        report.decisions@[at].action is Some <==> decisions@[at].decision.action is Some,
        decisions@[at].decision.rule == Some(crate::rules::RuleId::ResourceLeak) ==> (
        report.decisions@[at].rule matches Some(name) && name@ == "resource_leak"@),
        decisions@[at].decision.action == Some(crate::rules::Action::Restart) ==> (
        report.decisions@[at].action matches Some(name) && name@ == "restart"@),
        decisions@[at].decision.action == Some(crate::rules::Action::Notify) ==> (
        report.decisions@[at].action matches Some(name) && name@ == "notify"@),
        report.decisions@[at].withheld is Some <==> decisions@[at].decision.withheld is Some,
        report.decisions@[at].findings@.len() == decisions@[at].decision.findings@.len(),
        forall|i: int|
            0 <= i < decisions@[at].decision.findings@.len() ==> (
            #[trigger] report.decisions@[at].findings@[i])@ == key_text(
                decisions@[at].decision.findings@[i]@,
            ),
{
    let row = report.decisions@[at];
    let shown = decisions@[at];
    assert(row.shows(shown));
    let given = texts(row.findings@);
    assert(given == key_texts(shown.decision.findings@));
    assert(given.len() == row.findings@.len());
    assert forall|i: int| 0 <= i < shown.decision.findings@.len() implies (
    #[trigger] row.findings@[i])@ == key_text(shown.decision.findings@[i]@) by {
        assert(given[i] == row.findings@[i]@);
        assert(key_texts(shown.decision.findings@)[i] == key_text(shown.decision.findings@[i]@));
    }
}

/// The decisions of a process are those about it, and a process that is not known is not found.
pub proof fn decisions_are_served_by_process(
    processes: &[ManagedProcess],
    name: &str,
    decisions: &[ShownDecision],
    outcome: Result<DecisionsReport, Message>,
    at: int,
)
    requires
        call_ensures(get_process_decisions, (processes, name, decisions), outcome),
    ensures
        outcome is Ok <==> place_of(processes@, name@) is Some,
        outcome matches Err(refusal) ==> refusal.status == 404 && !refusal.ok,
        outcome matches Ok(report) ==> !report.acting_enabled,
        outcome matches Ok(report) ==> (0 <= at < report.decisions@.len()
            ==> report.decisions@[at].process@ == name@),
{
    if let Ok(report) = outcome {
        let wanted = decided_at(decisions@, name@);
        let places = places_where(decisions@.len(), wanted);
        lemma_places_where(decisions@.len(), wanted);
        if 0 <= at < report.decisions@.len() {
            assert(report.decisions@[at].shows(decisions@[places[at]]));
            assert(wanted(places[at]));
        }
    }
}

/// Current values are shown of a process that is up and of no other; its typical values are those
/// recorded for its name, processor as processor and memory as memory, and without a history there
/// are none.
pub proof fn current_values_are_of_running_processes(
    processes: &[ManagedProcess],
    typical: &OrderedMap<String, TypicalReport>,
    host: &Option<HostMetrics>,
    report: TypicalsReport<'_>,
    at: int,
)
    requires
        call_ensures(get_typical, (processes, typical, host), report),
        0 <= at < processes@.len(),
    ensures
        report.processes@.len() == processes@.len(),
        report.processes@[at].process@ == processes@[at].name@,
        report.processes@[at].id == processes@[at].id,
        report.processes@[at].running <==> processes@[at].running && processes@[at].pid is Some,
        report.processes@[at].cpu_percent is Some <==> report.processes@[at].running,
        report.processes@[at].memory_bytes is Some <==> report.processes@[at].running,
        report.processes@[at].running ==> *(report.processes@[at].cpu_percent->0)
            == processes@[at].cpu_percent && report.processes@[at].memory_bytes->0
            == processes@[at].memory_bytes,
        typical@.contains_key(processes@[at].name@) && typical@[processes@[at].name@].cpu
            is Some ==> Some(report.processes@[at].typical_cpu)
            == typical@[processes@[at].name@].cpu,
        typical@.contains_key(processes@[at].name@) && typical@[processes@[at].name@].memory
            is Some ==> Some(report.processes@[at].typical_memory)
            == typical@[processes@[at].name@].memory,
        !typical@.contains_key(processes@[at].name@) ==> report.processes@[at].typical_cpu == (
        Typical::Unavailable { reason: TypicalUnavailable::NoHistory })
            && report.processes@[at].typical_memory == (Typical::Unavailable {
            reason: TypicalUnavailable::NoHistory,
        }),
        report.host_typical == (Typical::Unavailable { reason: TypicalUnavailable::NoHistory }),
{
    assert(report.processes@[at].describes(processes@[at], *typical));
}

/// The current values of the host are those measured, each under its own name; what was not
/// measured is absent.
pub proof fn host_values_are_shown_where_measured(current: HostCurrent<'_>, host: HostMetrics)
    requires
        current.describes(Some(host)),
    ensures
        host.cpu is None ==> current.cpu_percent is None,
        host.cpu matches Some(cpu) ==> (cpu.global_percent matches Some(figure)
            ==> current.cpu_percent == Some(&figure)),
        host.memory is None ==> current.memory_used_percent is None
            && current.memory_effective_used_percent is None
            && current.memory_effective_total_bytes is None,
        host.memory matches Some(memory) ==> current.memory_effective_total_bytes
            == memory.effective_total_bytes,
        host.memory matches Some(memory) ==> (memory.used_percent matches Some(figure)
            ==> current.memory_used_percent == Some(&figure)),
        host.memory matches Some(memory) ==> (memory.used_percent is None
            ==> current.memory_used_percent is None),
        host.memory matches Some(memory) ==> (memory.effective_used_percent matches Some(figure)
            ==> current.memory_effective_used_percent == Some(&figure)),
        host.memory matches Some(memory) ==> (memory.effective_used_percent is None
            ==> current.memory_effective_used_percent is None),
{
}

} // verus!
