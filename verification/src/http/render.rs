//! The metrics the daemon exposes: managed processes, the host, and findings.
//!
//! A figure that was not measured is left out, never filled with zero: a gauge at zero cannot be
//! told from a real measurement of zero.

use crate::findings::Finding;
use crate::http::exposition::{
    families_joined, families_text, family_views, figure_text, label_views, push_family,
    push_sample, render_families_joined, sample_views,
    sanitize_prometheus_figure, Family, FamilyView, Sample, SampleView,
};
use crate::http::host::{host_families, render_host_prometheus_metrics, HostMetrics};
use crate::http::reply::{Reply, ReplyView};
use crate::process::{find_by_name, place_by_name, ManagedProcess};
use crate::reading::Figure;
use crate::rules::{Decision, RuleId};
use crate::text::{decimal, decimal_text, same_text, text_before, texts};
use crate::tuning::SuppressionCounters;
use vstd::prelude::*;

verus! {

/// The metrics of managed processes, one sample for each process.
#[derive(Debug, Clone, Copy, PartialEq, Eq, Structural)]
pub enum ProcessSeries {
    Info,
    Up,
    RestartCount,
    CpuPercent,
    MemoryBytes,
    Pid,
    Status,
    HealthStatus,
    LastStarted,
    LastMetrics,
    DiskRead,
    DiskWritten,
    DiskReadRate,
    DiskWrittenRate,
}

/// The metrics of managed processes, in the order in which they are exposed.
pub open spec fn process_series() -> Seq<ProcessSeries> {
    seq![
        ProcessSeries::Info,
        ProcessSeries::Up,
        ProcessSeries::RestartCount,
        ProcessSeries::CpuPercent,
        ProcessSeries::MemoryBytes,
        ProcessSeries::Pid,
        ProcessSeries::Status,
        ProcessSeries::HealthStatus,
        ProcessSeries::LastStarted,
        ProcessSeries::LastMetrics,
        ProcessSeries::DiskRead,
        ProcessSeries::DiskWritten,
        ProcessSeries::DiskReadRate,
        ProcessSeries::DiskWrittenRate,
    ]
}

fn all_process_series() -> (series: Vec<ProcessSeries>)
    ensures
        series@ == process_series(),
{
    let series = vec![
        ProcessSeries::Info,
        ProcessSeries::Up,
        ProcessSeries::RestartCount,
        ProcessSeries::CpuPercent,
        ProcessSeries::MemoryBytes,
        ProcessSeries::Pid,
        ProcessSeries::Status,
        ProcessSeries::HealthStatus,
        ProcessSeries::LastStarted,
        ProcessSeries::LastMetrics,
        ProcessSeries::DiskRead,
        ProcessSeries::DiskWritten,
        ProcessSeries::DiskReadRate,
        ProcessSeries::DiskWrittenRate,
    ];
    assert(series@ =~= process_series());
    series
}

/// An optional text, empty when absent.
pub open spec fn text_or_empty(text: Option<String>) -> Seq<char> {
    match text {
        Some(inner) => inner@,
        None => Seq::empty(),
    }
}

/// An optional number, zero when absent.
pub open spec fn number_or_zero(number: Option<u64>) -> u64 {
    match number {
        Some(inner) => inner,
        None => 0,
    }
}

fn copy_or_empty(text: &Option<String>) -> (copy: String)
    ensures
        copy@ == text_or_empty(*text),
{
    match text {
        Some(inner) => inner.clone(),
        None => String::new(),
    }
}

/// The labels that identify a process.
pub open spec fn process_labels(process: ManagedProcess) -> Seq<(Seq<char>, Seq<char>)> {
    seq![
        ("id"@, decimal(process.id as nat)),
        ("name"@, process.name@),
        ("namespace"@, text_or_empty(process.namespace)),
    ]
}

fn process_metric_labels(process: &ManagedProcess) -> (labels: Vec<(&'static str, String)>)
    ensures
        label_views(labels@) == process_labels(*process),
{
    let mut labels: Vec<(&'static str, String)> = Vec::new();
    labels.push(("id", decimal_text(process.id)));
    labels.push(("name", process.name.clone()));
    labels.push(("namespace", copy_or_empty(&process.namespace)));
    assert(label_views(labels@) =~= process_labels(*process));
    labels
}

fn push_label(labels: &mut Vec<(&'static str, String)>, key: &'static str, value: String)
    ensures
        label_views(final(labels)@) == label_views(old(labels)@).push((key@, value@)),
{
    labels.push((key, value));
    assert(label_views(labels@) =~= label_views(old(labels)@).push((key@, value@)));
}

/// A sample of one process.
pub open spec fn process_sample(process: ManagedProcess, value: Seq<char>) -> SampleView {
    SampleView::labelled(process_labels(process), value)
}

/// The sample of an optional figure: none when it was not measured.
pub open spec fn rate_samples(process: ManagedProcess, rate: Option<Figure>) -> Seq<SampleView> {
    match rate {
        Some(figure) => seq![process_sample(process, figure_text(figure))],
        None => Seq::empty(),
    }
}

impl ProcessSeries {
    /// The name of the metric, in characters.
    pub open spec fn name_text(self) -> Seq<char> {
        match self {
            ProcessSeries::Info => "oxmgr_process_info"@,
            ProcessSeries::Up => "oxmgr_process_up"@,
            ProcessSeries::RestartCount => "oxmgr_process_restart_count"@,
            ProcessSeries::CpuPercent => "oxmgr_process_cpu_percent"@,
            ProcessSeries::MemoryBytes => "oxmgr_process_memory_bytes"@,
            ProcessSeries::Pid => "oxmgr_process_pid"@,
            ProcessSeries::Status => "oxmgr_process_status"@,
            ProcessSeries::HealthStatus => "oxmgr_process_health_status"@,
            ProcessSeries::LastStarted => "oxmgr_process_last_started_at_seconds"@,
            ProcessSeries::LastMetrics => "oxmgr_process_last_metrics_at_seconds"@,
            ProcessSeries::DiskRead => "oxmgr_process_disk_read_bytes_total"@,
            ProcessSeries::DiskWritten => "oxmgr_process_disk_written_bytes_total"@,
            ProcessSeries::DiskReadRate => "oxmgr_process_disk_read_bytes_per_second"@,
            ProcessSeries::DiskWrittenRate => "oxmgr_process_disk_written_bytes_per_second"@,
        }
    }

    /// What the metric means, in characters.
    pub open spec fn help_text(self) -> Seq<char> {
        match self {
            ProcessSeries::Info => "Static metadata about each managed process."@,
            ProcessSeries::Up => "Whether the managed process is currently running."@,
            ProcessSeries::RestartCount => "Number of restarts recorded for the managed process."@,
            ProcessSeries::CpuPercent => "Latest CPU usage percentage reported by oxmgr."@,
            ProcessSeries::MemoryBytes => "Latest memory usage in bytes reported by oxmgr."@,
            ProcessSeries::Pid => "Current operating-system PID for the process, or 0 when unavailable."@,
            ProcessSeries::Status => "Current lifecycle status of the managed process."@,
            ProcessSeries::HealthStatus => "Current health-check status of the managed process."@,
            ProcessSeries::LastStarted => "Unix timestamp of the last successful start, or 0 when unknown."@,
            ProcessSeries::LastMetrics => "Unix timestamp of the last resource metrics refresh, or 0 when unknown."@,
            ProcessSeries::DiskRead => "Cumulative bytes read by the managed process across restarts."@,
            ProcessSeries::DiskWritten => "Cumulative bytes written by the managed process across restarts."@,
            ProcessSeries::DiskReadRate => "Bytes read per second over the interval the last sample covered."@,
            ProcessSeries::DiskWrittenRate => "Bytes written per second over the interval the last sample covered."@,
        }
    }

    /// Whether the metric only ever grows over the life of a managed process.
    pub open spec fn cumulative(self) -> bool {
        self is RestartCount || self is DiskRead || self is DiskWritten
    }

    fn name(self) -> (name: &'static str)
        ensures
            name@ == self.name_text(),
    {
        match self {
            ProcessSeries::Info => "oxmgr_process_info",
            ProcessSeries::Up => "oxmgr_process_up",
            ProcessSeries::RestartCount => "oxmgr_process_restart_count",
            ProcessSeries::CpuPercent => "oxmgr_process_cpu_percent",
            ProcessSeries::MemoryBytes => "oxmgr_process_memory_bytes",
            ProcessSeries::Pid => "oxmgr_process_pid",
            ProcessSeries::Status => "oxmgr_process_status",
            ProcessSeries::HealthStatus => "oxmgr_process_health_status",
            ProcessSeries::LastStarted => "oxmgr_process_last_started_at_seconds",
            ProcessSeries::LastMetrics => "oxmgr_process_last_metrics_at_seconds",
            ProcessSeries::DiskRead => "oxmgr_process_disk_read_bytes_total",
            ProcessSeries::DiskWritten => "oxmgr_process_disk_written_bytes_total",
            ProcessSeries::DiskReadRate => "oxmgr_process_disk_read_bytes_per_second",
            ProcessSeries::DiskWrittenRate => "oxmgr_process_disk_written_bytes_per_second",
        }
    }

    fn help(self) -> (help: &'static str)
        ensures
            help@ == self.help_text(),
    {
        match self {
            ProcessSeries::Info => "Static metadata about each managed process.",
            ProcessSeries::Up => "Whether the managed process is currently running.",
            ProcessSeries::RestartCount => "Number of restarts recorded for the managed process.",
            ProcessSeries::CpuPercent => "Latest CPU usage percentage reported by oxmgr.",
            ProcessSeries::MemoryBytes => "Latest memory usage in bytes reported by oxmgr.",
            ProcessSeries::Pid => "Current operating-system PID for the process, or 0 when unavailable.",
            ProcessSeries::Status => "Current lifecycle status of the managed process.",
            ProcessSeries::HealthStatus => "Current health-check status of the managed process.",
            ProcessSeries::LastStarted => "Unix timestamp of the last successful start, or 0 when unknown.",
            ProcessSeries::LastMetrics => "Unix timestamp of the last resource metrics refresh, or 0 when unknown.",
            ProcessSeries::DiskRead => "Cumulative bytes read by the managed process across restarts.",
            ProcessSeries::DiskWritten => "Cumulative bytes written by the managed process across restarts.",
            ProcessSeries::DiskReadRate => "Bytes read per second over the interval the last sample covered.",
            ProcessSeries::DiskWrittenRate => "Bytes written per second over the interval the last sample covered.",
        }
    }

    fn is_cumulative(self) -> (yes: bool)
        ensures
            yes == self.cumulative(),
    {
        match self {
            ProcessSeries::RestartCount => true,
            ProcessSeries::DiskRead => true,
            ProcessSeries::DiskWritten => true,
            _ => false,
        }
    }

    /// The samples of one process: one, or none for a rate that was not measured.
    pub open spec fn samples_of(self, process: ManagedProcess) -> Seq<SampleView> {
        match self {
            ProcessSeries::Info => seq![
                SampleView::labelled(
                    process_labels(process).push(
                        ("desired_state"@, process.desired_state.label_text()),
                    ).push(("restart_policy"@, process.restart_policy@)).push(
                        ("status"@, process.status@),
                    ),
                    "1"@,
                ),
            ],
            ProcessSeries::Up => seq![
                process_sample(
                    process,
                    if process.up() {
                        "1"@
                    } else {
                        "0"@
                    },
                ),
            ],
            ProcessSeries::RestartCount => seq![
                process_sample(process, decimal(process.restart_count as nat)),
            ],
            ProcessSeries::CpuPercent => seq![
                process_sample(process, figure_text(process.cpu_percent)),
            ],
            ProcessSeries::MemoryBytes => seq![
                process_sample(process, decimal(process.memory_bytes as nat)),
            ],
            ProcessSeries::Pid => seq![
                process_sample(
                    process,
                    decimal(
                        match process.pid {
                            Some(pid) => pid as nat,
                            None => 0,
                        },
                    ),
                ),
            ],
            ProcessSeries::Status => seq![
                SampleView::labelled(
                    process_labels(process).push(("status"@, process.status@)),
                    "1"@,
                ),
            ],
            ProcessSeries::HealthStatus => seq![
                SampleView::labelled(
                    process_labels(process).push(("health_status"@, process.health_status@)),
                    "1"@,
                ),
            ],
            ProcessSeries::LastStarted => seq![
                process_sample(process, decimal(number_or_zero(process.last_started_at) as nat)),
            ],
            ProcessSeries::LastMetrics => seq![
                process_sample(process, decimal(number_or_zero(process.last_metrics_at) as nat)),
            ],
            ProcessSeries::DiskRead => seq![
                process_sample(process, decimal(process.disk_read_total as nat)),
            ],
            ProcessSeries::DiskWritten => seq![
                process_sample(process, decimal(process.disk_write_total as nat)),
            ],
            ProcessSeries::DiskReadRate => rate_samples(process, process.disk_read_rate),
            ProcessSeries::DiskWrittenRate => rate_samples(process, process.disk_write_rate),
        }
    }

    /// The samples of some processes, in order.
    pub open spec fn samples(self, processes: Seq<ManagedProcess>) -> Seq<SampleView>
        decreases processes.len(),
    {
        if processes.len() == 0 {
            Seq::empty()
        } else {
            self.samples(processes.drop_last()) + self.samples_of(processes.last())
        }
    }

    /// The family of the metric.
    pub open spec fn family(self, processes: Seq<ManagedProcess>) -> FamilyView {
        FamilyView {
            name: self.name_text(),
            help: self.help_text(),
            kind: if self.cumulative() {
                "counter"@
            } else {
                "gauge"@
            },
            samples: self.samples(processes),
        }
    }

    fn sample_of(self, process: &ManagedProcess) -> (sample: Option<Sample>)
        ensures
            match sample {
                Some(sample) => self.samples_of(*process) == seq![sample@],
                None => self.samples_of(*process) == Seq::<SampleView>::empty(),
            },
    {
        let mut labels = process_metric_labels(process);
        let value = match self {
            ProcessSeries::Info => {
                push_label(&mut labels, "desired_state", process.desired_state.label().to_owned());
                push_label(&mut labels, "restart_policy", process.restart_policy.clone());
                push_label(&mut labels, "status", process.status.clone());
                "1".to_owned()
            },
            ProcessSeries::Up => if process.is_up() {
                "1".to_owned()
            } else {
                "0".to_owned()
            },
            ProcessSeries::RestartCount => decimal_text(process.restart_count),
            ProcessSeries::CpuPercent => sanitize_prometheus_figure(&process.cpu_percent),
            ProcessSeries::MemoryBytes => decimal_text(process.memory_bytes),
            ProcessSeries::Pid => match process.pid {
                Some(pid) => decimal_text(pid as u64),
                None => decimal_text(0),
            },
            ProcessSeries::Status => {
                push_label(&mut labels, "status", process.status.clone());
                "1".to_owned()
            },
            ProcessSeries::HealthStatus => {
                push_label(&mut labels, "health_status", process.health_status.clone());
                "1".to_owned()
            },
            ProcessSeries::LastStarted => match process.last_started_at {
                Some(at) => decimal_text(at),
                None => decimal_text(0),
            },
            ProcessSeries::LastMetrics => match process.last_metrics_at {
                Some(at) => decimal_text(at),
                None => decimal_text(0),
            },
            ProcessSeries::DiskRead => decimal_text(process.disk_read_total),
            ProcessSeries::DiskWritten => decimal_text(process.disk_write_total),
            ProcessSeries::DiskReadRate => match &process.disk_read_rate {
                Some(rate) => sanitize_prometheus_figure(rate),
                None => {
                    return None;
                },
            },
            ProcessSeries::DiskWrittenRate => match &process.disk_write_rate {
                Some(rate) => sanitize_prometheus_figure(rate),
                None => {
                    return None;
                },
            },
        };
        Some(Sample::labelled(labels, value))
    }

    fn build(self, processes: &[ManagedProcess]) -> (family: Family)
        ensures
            family@ == self.family(processes@),
    {
        let mut samples: Vec<Sample> = Vec::new();
        let mut i: usize = 0;
        assert(sample_views(samples@) =~= Seq::<SampleView>::empty());
        assert(processes@.take(0) =~= Seq::<ManagedProcess>::empty());
        while i < processes.len()
            invariant
                i <= processes.len(),
                sample_views(samples@) == self.samples(processes@.take(i as int)),
            decreases processes.len() - i,
        {
            proof {
                assert(processes@.take(i + 1).drop_last() =~= processes@.take(i as int));
                assert(processes@.take(i + 1).last() == processes@[i as int]);
            }
            let ghost before = sample_views(samples@);
            if let Some(sample) = self.sample_of(&processes[i]) {
                push_sample(&mut samples, sample);
                assert(before.push(sample@) =~= before + seq![sample@]);
            } else {
                assert(before + Seq::<SampleView>::empty() =~= before);
            }
            i = i + 1;
        }
        assert(processes@.take(i as int) =~= processes@);
        Family {
            name: self.name(),
            help: self.help(),
            kind: if self.is_cumulative() {
                "counter"
            } else {
                "gauge"
            },
            samples,
        }
    }
}

/// A family of one sample without labels.
pub open spec fn lone_family(
    name: Seq<char>,
    help: Seq<char>,
    kind: Seq<char>,
    value: Seq<char>,
) -> FamilyView {
    FamilyView { name, help, kind, samples: seq![SampleView::bare(value)] }
}

fn lone(name: &'static str, help: &'static str, kind: &'static str, value: String) -> (family:
    Family)
    ensures
        family@ == lone_family(name@, help@, kind@, value@),
{
    let mut samples: Vec<Sample> = Vec::new();
    push_sample(&mut samples, Sample::bare(value));
    let family = Family { name, help, kind, samples };
    assert(family@.samples =~= seq![SampleView::bare(value@)]);
    family
}

/// The families of some series, in order.
pub open spec fn series_families(
    series: Seq<ProcessSeries>,
    processes: Seq<ManagedProcess>,
) -> Seq<FamilyView> {
    series.map_values(|one: ProcessSeries| one.family(processes))
}

/// The families that describe managed processes.
pub open spec fn process_families(processes: Seq<ManagedProcess>) -> Seq<FamilyView> {
    seq![
        lone_family(
            "oxmgr_managed_processes"@,
            "Total number of processes currently managed by oxmgr."@,
            "gauge"@,
            decimal(processes.len()),
        ),
    ] + series_families(process_series(), processes)
}

/// Renders the metrics of managed processes.
pub fn render_prometheus_metrics(processes: &[ManagedProcess]) -> (body: String)
    ensures
        body@ == families_joined(process_families(processes@)),
{
    let mut families: Vec<Family> = Vec::new();
    push_family(
        &mut families,
        lone(
            "oxmgr_managed_processes",
            "Total number of processes currently managed by oxmgr.",
            "gauge",
            decimal_text(processes.len() as u64),
        ),
    );
    let series = all_process_series();
    let ghost first = family_views(families@)[0];
    let mut i: usize = 0;
    assert(family_views(families@) =~= seq![first] + series_families(
        process_series().take(0),
        processes@,
    ));
    while i < series.len()
        invariant
            i <= series.len(),
            series@ == process_series(),
            family_views(families@) == seq![first] + series_families(
                process_series().take(i as int),
                processes@,
            ),
        decreases series.len() - i,
    {
        let ghost before = family_views(families@);
        let family = series[i].build(processes);
        push_family(&mut families, family);
        proof {
            assert(series_families(process_series().take(i + 1), processes@)
                =~= series_families(process_series().take(i as int), processes@).push(
                series@[i as int].family(processes@),
            ));
            assert(family_views(families@) =~= seq![first] + series_families(
                process_series().take(i + 1),
                processes@,
            ));
        }
        i = i + 1;
    }
    proof {
        assert(process_series().take(i as int) =~= process_series());
        assert(family_views(families@) =~= process_families(processes@));
    }
    render_families_joined(families.as_slice())
}

/// A finding together with its confidence score as it prints.
#[derive(Debug, Clone)]
pub struct ScoredFinding {
    pub finding: Finding,
    pub score_text: String,
}

/// The output of one analysis.
#[derive(Debug)]
pub struct AnalysisSnapshot {
    pub findings: Vec<ScoredFinding>,
    pub decisions: Vec<Decision>,
    pub suppressed: SuppressionCounters,
    /// The processes some baseline of which is still warming.
    pub warming: Vec<String>,
}

/// The namespace of the process with a name, empty when there is none.
pub open spec fn namespace_of(processes: Seq<ManagedProcess>, name: Seq<char>) -> Seq<char> {
    match place_by_name(processes, name) {
        Some(at) => text_or_empty(processes[at].namespace),
        None => Seq::empty(),
    }
}

/// The labels that identify a finding.
pub open spec fn finding_labels(
    finding: Finding,
    processes: Seq<ManagedProcess>,
) -> Seq<(Seq<char>, Seq<char>)> {
    seq![
        ("name"@, finding.key.process@),
        ("namespace"@, namespace_of(processes, finding.key.process@)),
        ("detector"@, finding.key.detector@.name),
        ("metric"@, finding.key.metric@.name),
        ("variant"@, text_or_empty(finding.key.variant)),
    ]
}

fn finding_metric_labels(finding: &Finding, processes: &[ManagedProcess]) -> (labels: Vec<
    (&'static str, String),
>)
    ensures
        label_views(labels@) == finding_labels(*finding, processes@),
{
    let namespace = match find_by_name(processes, finding.key.process.as_str()) {
        Some(i) => copy_or_empty(&processes[i].namespace),
        None => String::new(),
    };
    let mut labels: Vec<(&'static str, String)> = Vec::new();
    labels.push(("name", finding.key.process.clone()));
    labels.push(("namespace", namespace));
    labels.push(("detector", finding.key.detector.as_wire().to_owned()));
    labels.push(("metric", finding.key.metric.as_wire().to_owned()));
    labels.push(("variant", copy_or_empty(&finding.key.variant)));
    assert(label_views(labels@) =~= finding_labels(*finding, processes@));
    labels
}

/// The metrics of active findings.
#[derive(Debug, Clone, Copy, PartialEq, Eq, Structural)]
pub enum FindingSeries {
    Active,
    Confidence,
    Occurrence,
}

impl FindingSeries {
    /// The name and the meaning of the metric.
    pub open spec fn heading(self) -> (Seq<char>, Seq<char>) {
        match self {
            FindingSeries::Active => (
                "oxmgr_finding_active"@,
                "A finding whose condition currently holds, labelled by detector and metric."@,
            ),
            FindingSeries::Confidence => (
                "oxmgr_finding_confidence"@,
                "Confidence of an active finding, 0 to 1."@,
            ),
            FindingSeries::Occurrence => (
                "oxmgr_finding_occurrence"@,
                "Which episode of this condition, from 1. Above 1 is a recurrence."@,
            ),
        }
    }

    fn titles(self) -> (titles: (&'static str, &'static str))
        ensures
            (titles.0@, titles.1@) == self.heading(),
    {
        match self {
            FindingSeries::Active => (
                "oxmgr_finding_active",
                "A finding whose condition currently holds, labelled by detector and metric.",
            ),
            FindingSeries::Confidence => (
                "oxmgr_finding_confidence",
                "Confidence of an active finding, 0 to 1.",
            ),
            FindingSeries::Occurrence => (
                "oxmgr_finding_occurrence",
                "Which episode of this condition, from 1. Above 1 is a recurrence.",
            ),
        }
    }

    /// The value of the metric for a finding.
    pub open spec fn value_of(self, scored: ScoredFinding) -> Seq<char> {
        match self {
            FindingSeries::Active => "1"@,
            FindingSeries::Confidence => if scored.finding.confidence.score.finite() {
                scored.score_text@
            } else {
                "0"@
            },
            FindingSeries::Occurrence => decimal(scored.finding.occurrence as nat),
        }
    }

    /// The samples of the findings whose condition holds. One that has cleared has none.
    pub open spec fn samples(
        self,
        findings: Seq<ScoredFinding>,
        processes: Seq<ManagedProcess>,
    ) -> Seq<SampleView>
        decreases findings.len(),
    {
        if findings.len() == 0 {
            Seq::empty()
        } else {
            let rest = self.samples(findings.drop_last(), processes);
            let scored = findings.last();
            if scored.finding.active() {
                rest.push(
                    SampleView::labelled(
                        finding_labels(scored.finding, processes),
                        self.value_of(scored),
                    ),
                )
            } else {
                rest
            }
        }
    }

    /// The family of the metric.
    pub open spec fn family(
        self,
        findings: Seq<ScoredFinding>,
        processes: Seq<ManagedProcess>,
    ) -> FamilyView {
        FamilyView {
            name: self.heading().0,
            help: self.heading().1,
            kind: "gauge"@,
            samples: self.samples(findings, processes),
        }
    }

    fn build(self, findings: &[ScoredFinding], processes: &[ManagedProcess]) -> (family: Family)
        ensures
            family@ == self.family(findings@, processes@),
    {
        let mut samples: Vec<Sample> = Vec::new();
        let mut i: usize = 0;
        assert(sample_views(samples@) =~= Seq::<SampleView>::empty());
        assert(findings@.take(0) =~= Seq::<ScoredFinding>::empty());
        while i < findings.len()
            invariant
                i <= findings.len(),
                sample_views(samples@) == self.samples(findings@.take(i as int), processes@),
            decreases findings.len() - i,
        {
            proof {
                assert(findings@.take(i + 1).drop_last() =~= findings@.take(i as int));
                assert(findings@.take(i + 1).last() == findings@[i as int]);
            }
            let scored = &findings[i];
            if scored.finding.is_active() {
                let value = match self {
                    FindingSeries::Active => "1".to_owned(),
                    FindingSeries::Confidence => if scored.finding.confidence.score.is_finite() {
                        scored.score_text.clone()
                    } else {
                        "0".to_owned()
                    },
                    FindingSeries::Occurrence => decimal_text(scored.finding.occurrence as u64),
                };
                push_sample(
                    &mut samples,
                    Sample::labelled(finding_metric_labels(&scored.finding, processes), value),
                );
            }
            i = i + 1;
        }
        assert(findings@.take(i as int) =~= findings@);
        let (name, help) = self.titles();
        Family { name, help, kind: "gauge", samples }
    }
}

/// A sample with one label.
pub open spec fn labelled_once(key: Seq<char>, label: Seq<char>, value: Seq<char>) -> SampleView {
    SampleView::labelled(seq![(key, label)], value)
}

fn push_labelled_once(
    samples: &mut Vec<Sample>,
    key: &'static str,
    label: &'static str,
    value: String,
)
    ensures
        sample_views(final(samples)@) == sample_views(old(samples)@).push(
            labelled_once(key@, label@, value@),
        ),
{
    let mut labels: Vec<(&'static str, String)> = Vec::new();
    labels.push((key, label.to_owned()));
    assert(label_views(labels@) =~= seq![(key@, label@)]);
    push_sample(samples, Sample::labelled(labels, value));
}

/// The family of what tuning withheld, by scope.
pub open spec fn suppression_family(suppressed: SuppressionCounters) -> FamilyView {
    FamilyView {
        name: "oxmgr_findings_suppressed_total"@,
        help: "Findings withheld by tuning, by the scope that withheld them."@,
        kind: "counter"@,
        samples: seq![
            labelled_once("scope"@, "global"@, decimal(suppressed.blocked_globally as nat)),
            labelled_once("scope"@, "detector"@, decimal(suppressed.blocked_by_detector as nat)),
            labelled_once("scope"@, "process"@, decimal(suppressed.blocked_by_process as nat)),
        ],
    }
}

fn build_suppression(suppressed: &SuppressionCounters) -> (family: Family)
    ensures
        family@ == suppression_family(*suppressed),
{
    let mut samples: Vec<Sample> = Vec::new();
    push_labelled_once(&mut samples, "scope", "global", decimal_text(suppressed.blocked_globally));
    push_labelled_once(
        &mut samples,
        "scope",
        "detector",
        decimal_text(suppressed.blocked_by_detector),
    );
    push_labelled_once(
        &mut samples,
        "scope",
        "process",
        decimal_text(suppressed.blocked_by_process),
    );
    let family = Family {
        name: "oxmgr_findings_suppressed_total",
        help: "Findings withheld by tuning, by the scope that withheld them.",
        kind: "counter",
        samples,
    };
    assert(family@.samples =~= suppression_family(*suppressed).samples);
    family
}

/// The sample of whether a process is warming.
pub open spec fn warming_sample(process: ManagedProcess, warming: Seq<Seq<char>>) -> SampleView {
    process_sample(
        process,
        if warming.contains(process.name@) {
            "1"@
        } else {
            "0"@
        },
    )
}

/// The family of the processes whose baselines are warming.
pub open spec fn warming_family(
    processes: Seq<ManagedProcess>,
    warming: Seq<Seq<char>>,
) -> FamilyView {
    FamilyView {
        name: "oxmgr_process_baseline_warming"@,
        help: "Whether any of the process's baselines is still warming."@,
        kind: "gauge"@,
        samples: processes.map_values(|process: ManagedProcess| warming_sample(process, warming)),
    }
}

/// Whether a name is among some names.
pub fn names_contain(names: &[String], name: &str) -> (found: bool)
    ensures
        found == texts(names@).contains(name@),
{
    let mut i: usize = 0;
    while i < names.len()
        invariant
            i <= names.len(),
            forall|j: int| 0 <= j < i ==> #[trigger] texts(names@)[j] != name@,
        decreases names.len() - i,
    {
        if same_text(names[i].as_str(), name) {
            assert(texts(names@)[i as int] == name@);
            return true;
        }
        assert(texts(names@)[i as int] == names@[i as int]@);
        i = i + 1;
    }
    false
}

fn build_warming(processes: &[ManagedProcess], warming: &[String]) -> (family: Family)
    ensures
        family@ == warming_family(processes@, texts(warming@)),
{
    let mut samples: Vec<Sample> = Vec::new();
    let mut i: usize = 0;
    while i < processes.len()
        invariant
            i <= processes.len(),
            samples.len() == i,
            forall|j: int|
                0 <= j < i ==> (#[trigger] samples@[j])@ == warming_sample(
                    processes@[j],
                    texts(warming@),
                ),
        decreases processes.len() - i,
    {
        let value = if names_contain(warming, processes[i].name.as_str()) {
            "1".to_owned()
        } else {
            "0".to_owned()
        };
        samples.push(Sample::labelled(process_metric_labels(&processes[i]), value));
        i = i + 1;
    }
    let family = Family {
        name: "oxmgr_process_baseline_warming",
        help: "Whether any of the process's baselines is still warming.",
        kind: "gauge",
        samples,
    };
    assert(family@.samples =~= warming_family(processes@, texts(warming@)).samples);
    family
}

/// The rules, in the dictionary order of their names.
pub open spec fn rules_by_name() -> Seq<RuleId> {
    seq![
        RuleId::CrashLoopLimitReached,
        RuleId::DependencyImplicated,
        RuleId::LevelDeparture,
        RuleId::ProcessStopped,
        RuleId::ResourceLeak,
    ]
}

/// The order in which rules are listed is that of their names, and every declared rule is listed.
pub proof fn rules_are_listed_by_name()
    ensures
        forall|i: int, j: int|
            0 <= i < j < rules_by_name().len() ==> text_before(
                (#[trigger] rules_by_name()[i]).wire(),
                (#[trigger] rules_by_name()[j]).wire(),
            ),
        forall|rule: RuleId| #[trigger] rules_by_name().contains(rule),
{
    reveal_strlit("crash_loop_limit_reached");
    reveal_strlit("dependency_implicated");
    reveal_strlit("level_departure");
    reveal_strlit("process_stopped");
    reveal_strlit("resource_leak");
    assert("crash_loop_limit_reached"@[0] == 'c' && "dependency_implicated"@[0] == 'd'
        && "level_departure"@[0] == 'l' && "process_stopped"@[0] == 'p' && "resource_leak"@[0]
        == 'r');
    assert forall|rule: RuleId| #[trigger] rules_by_name().contains(rule) by {
        let list = rules_by_name();
        assert(list[0] == RuleId::CrashLoopLimitReached && list[1] == RuleId::DependencyImplicated
            && list[2] == RuleId::LevelDeparture && list[3] == RuleId::ProcessStopped && list[4]
            == RuleId::ResourceLeak);
    }
}

/// Whether a decision matched a rule with an outcome: an action proposed, or withheld.
pub open spec fn has_outcome(decision: Decision, rule: RuleId, proposed: bool) -> bool {
    decision.rule == Some(rule) && (decision.action is Some) == proposed
}

/// How many decisions matched a rule with an outcome.
pub open spec fn outcome_count(decisions: Seq<Decision>, rule: RuleId, proposed: bool) -> nat
    decreases decisions.len(),
{
    if decisions.len() == 0 {
        0
    } else {
        let rest = outcome_count(decisions.drop_last(), rule, proposed);
        if has_outcome(decisions.last(), rule, proposed) {
            rest + 1
        } else {
            rest
        }
    }
}

/// The sample of a rule and an outcome: none when no decision had it.
pub open spec fn outcome_samples(decisions: Seq<Decision>, rule: RuleId, proposed: bool) -> Seq<
    SampleView,
> {
    let count = outcome_count(decisions, rule, proposed);
    if count == 0 {
        Seq::empty()
    } else {
        seq![
            SampleView::labelled(
                seq![
                    ("rule"@, rule.wire()),
                    (
                        "outcome"@,
                        if proposed {
                            "proposed"@
                        } else {
                            "withheld"@
                        },
                    ),
                ],
                decimal(count),
            ),
        ]
    }
}

/// The samples of some rules, proposals before what was withheld.
pub open spec fn decision_samples(rules: Seq<RuleId>, decisions: Seq<Decision>) -> Seq<SampleView>
    decreases rules.len(),
{
    if rules.len() == 0 {
        Seq::empty()
    } else {
        decision_samples(rules.drop_last(), decisions) + outcome_samples(
            decisions,
            rules.last(),
            true,
        ) + outcome_samples(decisions, rules.last(), false)
    }
}

/// The family of retained decisions, by rule and outcome.
pub open spec fn decision_family(decisions: Seq<Decision>) -> FamilyView {
    FamilyView {
        name: "oxmgr_remediation_decisions"@,
        help: "Recent decisions retained, by rule and outcome."@,
        kind: "gauge"@,
        samples: decision_samples(rules_by_name(), decisions),
    }
}

fn count_outcomes(decisions: &[Decision], rule: RuleId, proposed: bool) -> (count: usize)
    ensures
        count == outcome_count(decisions@, rule, proposed),
{
    let mut count: usize = 0;
    let mut i: usize = 0;
    assert(decisions@.take(0) =~= Seq::<Decision>::empty());
    while i < decisions.len()
        invariant
            i <= decisions.len(),
            count <= i,
            count == outcome_count(decisions@.take(i as int), rule, proposed),
        decreases decisions.len() - i,
    {
        proof {
            assert(decisions@.take(i + 1).drop_last() =~= decisions@.take(i as int));
            assert(decisions@.take(i + 1).last() == decisions@[i as int]);
        }
        let same_rule: bool = match decisions[i].rule {
            Some(matched) => matched == rule,
            None => false,
        };
        if same_rule && decisions[i].action.is_some() == proposed {
            count = count + 1;
        }
        i = i + 1;
    }
    assert(decisions@.take(i as int) =~= decisions@);
    count
}

fn push_outcome(samples: &mut Vec<Sample>, decisions: &[Decision], rule: RuleId, proposed: bool)
    ensures
        sample_views(final(samples)@) == sample_views(old(samples)@) + outcome_samples(
            decisions@,
            rule,
            proposed,
        ),
{
    let ghost before = sample_views(samples@);
    assert(before + Seq::<SampleView>::empty() =~= before);
    let count = count_outcomes(decisions, rule, proposed);
    if count > 0 {
        let outcome = if proposed {
            "proposed"
        } else {
            "withheld"
        };
        let mut labels: Vec<(&'static str, String)> = Vec::new();
        labels.push(("rule", rule.as_wire().to_owned()));
        labels.push(("outcome", outcome.to_owned()));
        assert(label_views(labels@) =~= outcome_samples(
            decisions@,
            rule,
            proposed,
        )[0].labels->0);
        push_sample(samples, Sample::labelled(labels, decimal_text(count as u64)));
        assert(sample_views(samples@) =~= before + outcome_samples(decisions@, rule, proposed));
    }
}

fn build_decisions(decisions: &[Decision]) -> (family: Family)
    ensures
        family@ == decision_family(decisions@),
{
    let rules = vec![
        RuleId::CrashLoopLimitReached,
        RuleId::DependencyImplicated,
        RuleId::LevelDeparture,
        RuleId::ProcessStopped,
        RuleId::ResourceLeak,
    ];
    assert(rules@ =~= rules_by_name());
    let mut samples: Vec<Sample> = Vec::new();
    let mut i: usize = 0;
    assert(sample_views(samples@) =~= Seq::<SampleView>::empty());
    assert(rules@.take(0) =~= Seq::<RuleId>::empty());
    while i < rules.len()
        invariant
            i <= rules.len(),
            sample_views(samples@) == decision_samples(rules@.take(i as int), decisions@),
        decreases rules.len() - i,
    {
        proof {
            assert(rules@.take(i + 1).drop_last() =~= rules@.take(i as int));
            assert(rules@.take(i + 1).last() == rules@[i as int]);
        }
        push_outcome(&mut samples, decisions, rules[i], true);
        push_outcome(&mut samples, decisions, rules[i], false);
        i = i + 1;
    }
    assert(rules@.take(i as int) =~= rules_by_name());
    Family {
        name: "oxmgr_remediation_decisions",
        help: "Recent decisions retained, by rule and outcome.",
        kind: "gauge",
        samples,
    }
}

/// The families that describe findings and decisions.
pub open spec fn analysis_families(
    analysis: AnalysisSnapshot,
    processes: Seq<ManagedProcess>,
) -> Seq<FamilyView> {
    seq![
        FindingSeries::Active.family(analysis.findings@, processes),
        FindingSeries::Confidence.family(analysis.findings@, processes),
        FindingSeries::Occurrence.family(analysis.findings@, processes),
        suppression_family(analysis.suppressed),
        warming_family(processes, texts(analysis.warming@)),
        decision_family(analysis.decisions@),
    ]
}

/// Renders the metrics of findings and decisions.
pub fn render_findings_prometheus_metrics(
    analysis: &AnalysisSnapshot,
    processes: &[ManagedProcess],
) -> (body: String)
    ensures
        body@ == families_joined(analysis_families(*analysis, processes@)),
{
    let findings = analysis.findings.as_slice();
    let mut families: Vec<Family> = Vec::new();
    push_family(&mut families, FindingSeries::Active.build(findings, processes));
    push_family(&mut families, FindingSeries::Confidence.build(findings, processes));
    push_family(&mut families, FindingSeries::Occurrence.build(findings, processes));
    push_family(&mut families, build_suppression(&analysis.suppressed));
    push_family(&mut families, build_warming(processes, analysis.warming.as_slice()));
    push_family(&mut families, build_decisions(analysis.decisions.as_slice()));
    assert(family_views(families@) =~= analysis_families(*analysis, processes@));
    render_families_joined(families.as_slice())
}

/// The body of a scrape: processes, then the host where it was measured, then findings.
pub open spec fn scrape(
    processes: Seq<ManagedProcess>,
    host: Option<HostMetrics>,
    analysis: AnalysisSnapshot,
) -> Seq<char> {
    families_joined(process_families(processes)) + (match host {
        Some(host) => "\n"@ + families_text(host_families(host)),
        None => Seq::empty(),
    }) + "\n"@ + families_joined(analysis_families(analysis, processes))
}

/// The content type of a scrape.
pub const PROMETHEUS_CONTENT_TYPE: &'static str = "text/plain; version=0.0.4; charset=utf-8";

/// Answers a scrape.
pub fn get_metrics(
    processes: &[ManagedProcess],
    host: &Option<HostMetrics>,
    analysis: &AnalysisSnapshot,
) -> (reply: Reply)
    ensures
        reply@ == ReplyView::plain(
            200,
            vstd::utf8::encode_utf8(scrape(processes@, *host, *analysis)),
        ).with("content-type"@, PROMETHEUS_CONTENT_TYPE@),
{
    let mut body = render_prometheus_metrics(processes);
    let mut middle = String::new();
    if let Some(host) = host {
        middle.append("\n");
        middle.append(render_host_prometheus_metrics(host).as_str());
        assert(middle@ =~= "\n"@ + families_text(host_families(*host)));
    }
    body.append(middle.as_str());
    body.append("\n");
    body.append(render_findings_prometheus_metrics(analysis, processes).as_str());
    Reply::new(200, body.as_str().as_bytes_vec()).with("content-type", PROMETHEUS_CONTENT_TYPE)
}

/// Whether a family shows one sample for each process, in order: under the labels that identify
/// it, the text that a figure of it has.
pub open spec fn shows(
    family: FamilyView,
    processes: Seq<ManagedProcess>,
    text: spec_fn(ManagedProcess) -> Seq<char>,
) -> bool {
    &&& family.samples.len() == processes.len()
    &&& forall|i: int|
        0 <= i < processes.len() ==> (#[trigger] family.samples[i]).value == text(processes[i])
            && identifies(family.samples[i], processes[i])
}

/// Whether the first labels of a sample are the id, the name and the namespace of a process.
pub open spec fn identifies(sample: SampleView, process: ManagedProcess) -> bool {
    sample.labels matches Some(labels) && {
        &&& labels.len() >= 3
        &&& labels[0] == ("id"@, decimal(process.id as nat))
        &&& labels[1].0 == "name"@ && labels[1].1 == process.name@
        &&& labels[2].0 == "namespace"@
        &&& process.namespace matches Some(namespace) ==> labels[2].1 == namespace@
        &&& process.namespace is None ==> labels[2].1.len() == 0
    }
}

proof fn lemma_one_sample_each(series: ProcessSeries, processes: Seq<ManagedProcess>)
    requires
        !(series is DiskReadRate) && !(series is DiskWrittenRate),
    ensures
        series.samples(processes).len() == processes.len(),
        forall|i: int|
            0 <= i < processes.len() ==> #[trigger] series.samples(processes)[i]
                == series.samples_of(processes[i])[0],
    decreases processes.len(),
{
    if processes.len() > 0 {
        let rest = processes.drop_last();
        lemma_one_sample_each(series, rest);
        let all = series.samples(processes);
        assert(series.samples_of(processes.last()).len() == 1);
        assert forall|i: int| 0 <= i < processes.len() implies #[trigger] all[i]
            == series.samples_of(processes[i])[0] by {
            if i < rest.len() {
                assert(all[i] == series.samples(rest)[i]);
                assert(rest[i] == processes[i]);
            }
        }
    }
}

proof fn lemma_names_of_series(a: ProcessSeries, b: ProcessSeries)
    ensures
        a.name_text() == b.name_text() ==> a == b,
        a.name_text() != "oxmgr_managed_processes"@,
{
    reveal_strlit("oxmgr_managed_processes");
    reveal_strlit("oxmgr_process_info");
    reveal_strlit("oxmgr_process_up");
    reveal_strlit("oxmgr_process_restart_count");
    reveal_strlit("oxmgr_process_cpu_percent");
    reveal_strlit("oxmgr_process_memory_bytes");
    reveal_strlit("oxmgr_process_pid");
    reveal_strlit("oxmgr_process_status");
    reveal_strlit("oxmgr_process_health_status");
    reveal_strlit("oxmgr_process_last_started_at_seconds");
    reveal_strlit("oxmgr_process_last_metrics_at_seconds");
    reveal_strlit("oxmgr_process_disk_read_bytes_total");
    reveal_strlit("oxmgr_process_disk_written_bytes_total");
    reveal_strlit("oxmgr_process_disk_read_bytes_per_second");
    reveal_strlit("oxmgr_process_disk_written_bytes_per_second");
    assert("oxmgr_managed_processes"@.len() == 23);
    assert("oxmgr_process_info"@.len() == 18);
    assert("oxmgr_process_up"@.len() == 16);
    assert("oxmgr_process_restart_count"@.len() == 27);
    assert("oxmgr_process_cpu_percent"@.len() == 25);
    assert("oxmgr_process_memory_bytes"@.len() == 26);
    assert("oxmgr_process_pid"@.len() == 17);
    assert("oxmgr_process_status"@.len() == 20);
    assert("oxmgr_process_health_status"@.len() == 27);
    assert("oxmgr_process_last_started_at_seconds"@.len() == 37);
    assert("oxmgr_process_last_metrics_at_seconds"@.len() == 37);
    assert("oxmgr_process_disk_read_bytes_total"@.len() == 35);
    assert("oxmgr_process_disk_written_bytes_total"@.len() == 38);
    assert("oxmgr_process_disk_read_bytes_per_second"@.len() == 40);
    assert("oxmgr_process_disk_written_bytes_per_second"@.len() == 43);
    assert("oxmgr_process_restart_count"@[14] == 'r');
    assert("oxmgr_process_health_status"@[14] == 'h');
    assert("oxmgr_process_last_started_at_seconds"@[19] == 's');
    assert("oxmgr_process_last_metrics_at_seconds"@[19] == 'm');
}

/// The series that has a name is the one whose family bears it.
proof fn lemma_family_of_series(
    series: ProcessSeries,
    processes: Seq<ManagedProcess>,
    family: FamilyView,
)
    requires
        process_families(processes).contains(family),
        family.name == series.name_text(),
    ensures
        family == series.family(processes),
{
    let families = process_families(processes);
    let j = choose|j: int| 0 <= j < families.len() && families[j] == family;
    lemma_names_of_series(series, series);
    assert(j > 0);
    let other = process_series()[j - 1];
    assert(families[j] == series_families(process_series(), processes)[j - 1]);
    assert(families[j] == other.family(processes));
    lemma_names_of_series(series, other);
}

/// Each metric of the processes shows the figure it is named for: bytes read where it says read,
/// bytes written where it says written, restarts, memory and times each in their own family, in
/// decimal, one sample for each process.
pub proof fn each_metric_shows_the_figure_it_names(
    processes: Seq<ManagedProcess>,
    family: FamilyView,
)
    requires
        process_families(processes).contains(family),
    ensures
        family.name == "oxmgr_process_disk_read_bytes_total"@ ==> shows(
            family,
            processes,
            |p: ManagedProcess| decimal(p.disk_read_total as nat),
        ) && family.kind == "counter"@,
        family.name == "oxmgr_process_disk_written_bytes_total"@ ==> shows(
            family,
            processes,
            |p: ManagedProcess| decimal(p.disk_write_total as nat),
        ) && family.kind == "counter"@,
        family.name == "oxmgr_process_restart_count"@ ==> shows(
            family,
            processes,
            |p: ManagedProcess| decimal(p.restart_count as nat),
        ) && family.kind == "counter"@,
        family.name == "oxmgr_process_memory_bytes"@ ==> shows(
            family,
            processes,
            |p: ManagedProcess| decimal(p.memory_bytes as nat),
        ) && family.kind == "gauge"@,
        family.name == "oxmgr_process_cpu_percent"@ ==> shows(
            family,
            processes,
            |p: ManagedProcess| figure_text(p.cpu_percent),
        ) && family.kind == "gauge"@,
{
    if family.name == "oxmgr_process_disk_read_bytes_total"@ {
        lemma_family_of_series(ProcessSeries::DiskRead, processes, family);
        lemma_one_sample_each(ProcessSeries::DiskRead, processes);
    } else if family.name == "oxmgr_process_disk_written_bytes_total"@ {
        lemma_family_of_series(ProcessSeries::DiskWritten, processes, family);
        lemma_one_sample_each(ProcessSeries::DiskWritten, processes);
        lemma_names_of_series(ProcessSeries::DiskWritten, ProcessSeries::DiskRead);
    } else if family.name == "oxmgr_process_restart_count"@ {
        lemma_family_of_series(ProcessSeries::RestartCount, processes, family);
        lemma_one_sample_each(ProcessSeries::RestartCount, processes);
    } else if family.name == "oxmgr_process_memory_bytes"@ {
        lemma_family_of_series(ProcessSeries::MemoryBytes, processes, family);
        lemma_one_sample_each(ProcessSeries::MemoryBytes, processes);
    } else if family.name == "oxmgr_process_cpu_percent"@ {
        lemma_family_of_series(ProcessSeries::CpuPercent, processes, family);
        lemma_one_sample_each(ProcessSeries::CpuPercent, processes);
    }
    lemma_names_of_series(ProcessSeries::DiskRead, ProcessSeries::DiskWritten);
    lemma_names_of_series(ProcessSeries::DiskRead, ProcessSeries::RestartCount);
    lemma_names_of_series(ProcessSeries::DiskRead, ProcessSeries::MemoryBytes);
    lemma_names_of_series(ProcessSeries::DiskRead, ProcessSeries::CpuPercent);
    lemma_names_of_series(ProcessSeries::DiskWritten, ProcessSeries::RestartCount);
    lemma_names_of_series(ProcessSeries::DiskWritten, ProcessSeries::MemoryBytes);
    lemma_names_of_series(ProcessSeries::DiskWritten, ProcessSeries::CpuPercent);
    lemma_names_of_series(ProcessSeries::RestartCount, ProcessSeries::MemoryBytes);
    lemma_names_of_series(ProcessSeries::RestartCount, ProcessSeries::CpuPercent);
    lemma_names_of_series(ProcessSeries::MemoryBytes, ProcessSeries::CpuPercent);
}

/// The state of a process is shown as it is: up exactly when it runs under a process id, the id or
/// zero, and the times of the last start and the last figures or zero.
pub proof fn the_state_of_a_process_is_shown(processes: Seq<ManagedProcess>, family: FamilyView)
    requires
        process_families(processes).contains(family),
    ensures
        family.name == "oxmgr_process_up"@ ==> shows(
            family,
            processes,
            |p: ManagedProcess|
                if p.running && p.pid is Some {
                    "1"@
                } else {
                    "0"@
                },
        ) && family.kind == "gauge"@,
        family.name == "oxmgr_process_pid"@ ==> shows(
            family,
            processes,
            |p: ManagedProcess|
                if p.pid is Some {
                    decimal((p.pid->0) as nat)
                } else {
                    decimal(0)
                },
        ) && family.kind == "gauge"@,
        family.name == "oxmgr_process_last_started_at_seconds"@ ==> shows(
            family,
            processes,
            |p: ManagedProcess|
                if p.last_started_at is Some {
                    decimal((p.last_started_at->0) as nat)
                } else {
                    decimal(0)
                },
        ) && family.kind == "gauge"@,
        family.name == "oxmgr_process_last_metrics_at_seconds"@ ==> shows(
            family,
            processes,
            |p: ManagedProcess|
                if p.last_metrics_at is Some {
                    decimal((p.last_metrics_at->0) as nat)
                } else {
                    decimal(0)
                },
        ) && family.kind == "gauge"@,
{
    if family.name == "oxmgr_process_up"@ {
        lemma_family_of_series(ProcessSeries::Up, processes, family);
        lemma_one_sample_each(ProcessSeries::Up, processes);
    } else if family.name == "oxmgr_process_pid"@ {
        lemma_family_of_series(ProcessSeries::Pid, processes, family);
        lemma_one_sample_each(ProcessSeries::Pid, processes);
    } else if family.name == "oxmgr_process_last_started_at_seconds"@ {
        lemma_family_of_series(ProcessSeries::LastStarted, processes, family);
        lemma_one_sample_each(ProcessSeries::LastStarted, processes);
    } else if family.name == "oxmgr_process_last_metrics_at_seconds"@ {
        lemma_family_of_series(ProcessSeries::LastMetrics, processes, family);
        lemma_one_sample_each(ProcessSeries::LastMetrics, processes);
    }
    lemma_names_of_series(ProcessSeries::Up, ProcessSeries::Pid);
    lemma_names_of_series(ProcessSeries::Up, ProcessSeries::LastStarted);
    lemma_names_of_series(ProcessSeries::Up, ProcessSeries::LastMetrics);
    lemma_names_of_series(ProcessSeries::Pid, ProcessSeries::LastStarted);
    lemma_names_of_series(ProcessSeries::Pid, ProcessSeries::LastMetrics);
    lemma_names_of_series(ProcessSeries::LastStarted, ProcessSeries::LastMetrics);
}

/// Whether the sample of a process has one more label with a value, and the value one.
pub open spec fn marks(sample: SampleView, place: int, key: Seq<char>, value: Seq<char>) -> bool {
    sample.value == "1"@ && (sample.labels matches Some(labels) && place < labels.len()
        && labels[place] == (key, value))
}

/// What a process is in words stands in labels: its status, its health, its policy and what it is
/// wanted to be, each under its own key.
pub proof fn words_about_a_process_are_labels(
    processes: Seq<ManagedProcess>,
    family: FamilyView,
    at: int,
)
    requires
        process_families(processes).contains(family),
        0 <= at < processes.len(),
    ensures
        family.name == "oxmgr_process_status"@ ==> family.samples.len() == processes.len() && marks(
            family.samples[at],
            3,
            "status"@,
            processes[at].status@,
        ) && identifies(family.samples[at], processes[at]),
        family.name == "oxmgr_process_health_status"@ ==> family.samples.len() == processes.len()
            && marks(family.samples[at], 3, "health_status"@, processes[at].health_status@)
            && identifies(family.samples[at], processes[at]),
        family.name == "oxmgr_process_info"@ ==> family.samples.len() == processes.len()
            && identifies(family.samples[at], processes[at]) && marks(
            family.samples[at],
            4,
            "restart_policy"@,
            processes[at].restart_policy@,
        ) && marks(family.samples[at], 5, "status"@, processes[at].status@),
        family.name == "oxmgr_process_info"@ && processes[at].desired_state is Running ==> marks(
            family.samples[at],
            3,
            "desired_state"@,
            "running"@,
        ),
        family.name == "oxmgr_process_info"@ && processes[at].desired_state is Stopped ==> marks(
            family.samples[at],
            3,
            "desired_state"@,
            "stopped"@,
        ),
{
    if family.name == "oxmgr_process_status"@ {
        lemma_family_of_series(ProcessSeries::Status, processes, family);
        lemma_one_sample_each(ProcessSeries::Status, processes);
    } else if family.name == "oxmgr_process_health_status"@ {
        lemma_family_of_series(ProcessSeries::HealthStatus, processes, family);
        lemma_one_sample_each(ProcessSeries::HealthStatus, processes);
    } else if family.name == "oxmgr_process_info"@ {
        lemma_family_of_series(ProcessSeries::Info, processes, family);
        lemma_one_sample_each(ProcessSeries::Info, processes);
    }
    lemma_names_of_series(ProcessSeries::Status, ProcessSeries::HealthStatus);
    lemma_names_of_series(ProcessSeries::Status, ProcessSeries::Info);
    lemma_names_of_series(ProcessSeries::HealthStatus, ProcessSeries::Info);
}

proof fn lemma_rate_shown(series: ProcessSeries, processes: Seq<ManagedProcess>, i: int) -> (j: int)
    requires
        0 <= i < processes.len(),
        series.samples_of(processes[i]).len() == 1,
    ensures
        0 <= j < series.samples(processes).len(),
        series.samples(processes)[j] == series.samples_of(processes[i])[0],
    decreases processes.len(),
{
    let rest = processes.drop_last();
    if i < rest.len() {
        assert(rest[i] == processes[i]);
        lemma_rate_shown(series, rest, i)
    } else {
        series.samples(rest).len() as int
    }
}

proof fn lemma_rate_source(series: ProcessSeries, processes: Seq<ManagedProcess>, j: int) -> (i: int)
    requires
        series is DiskReadRate || series is DiskWrittenRate,
        0 <= j < series.samples(processes).len(),
    ensures
        0 <= i < processes.len(),
        series.samples_of(processes[i]).len() == 1,
        series.samples_of(processes[i])[0] == series.samples(processes)[j],
    decreases processes.len(),
{
    let rest = processes.drop_last();
    if j < series.samples(rest).len() {
        let i = lemma_rate_source(series, rest, j);
        assert(rest[i] == processes[i]);
        i
    } else {
        assert(series.samples_of(processes.last()).len() <= 1);
        processes.len() - 1
    }
}

/// Whether a family of rates shows each rate that was measured.
#[verifier::opaque]
pub open spec fn shows_each_rate(
    family: FamilyView,
    processes: Seq<ManagedProcess>,
    rate: spec_fn(ManagedProcess) -> Option<Figure>,
) -> bool {
    forall|i: int|
        0 <= i < processes.len() && rate(#[trigger] processes[i]) is Some ==> exists|j: int|
            0 <= j < family.samples.len() && (#[trigger] family.samples[j]).value == figure_text(
                rate(processes[i])->0,
            ) && identifies(family.samples[j], processes[i])
}

/// Whether a family of rates shows nothing but rates that were measured.
#[verifier::opaque]
pub open spec fn shows_only_rates(
    family: FamilyView,
    processes: Seq<ManagedProcess>,
    rate: spec_fn(ManagedProcess) -> Option<Figure>,
) -> bool {
    forall|j: int|
        0 <= j < family.samples.len() ==> exists|i: int|
            0 <= i < processes.len() && rate(#[trigger] processes[i]) is Some && (
            #[trigger] family.samples[j]).value == figure_text(rate(processes[i])->0)
                && identifies(family.samples[j], processes[i])
}

/// Whether a family of rates shows each rate that was measured, and no other.
pub open spec fn shows_rates(
    family: FamilyView,
    processes: Seq<ManagedProcess>,
    rate: spec_fn(ManagedProcess) -> Option<Figure>,
) -> bool {
    shows_each_rate(family, processes, rate) && shows_only_rates(family, processes, rate)
}

/// A disk rate is shown where it was measured, a read rate as a read rate and a write rate as a
/// write rate; a process without one has no sample, in particular no zero.
pub proof fn an_unmeasured_rate_is_left_out(processes: Seq<ManagedProcess>, family: FamilyView)
    requires
        process_families(processes).contains(family),
    ensures
        family.name == "oxmgr_process_disk_read_bytes_per_second"@ ==> shows_rates(
            family,
            processes,
            |p: ManagedProcess| p.disk_read_rate,
        ) && family.kind == "gauge"@,
        family.name == "oxmgr_process_disk_written_bytes_per_second"@ ==> shows_rates(
            family,
            processes,
            |p: ManagedProcess| p.disk_write_rate,
        ) && family.kind == "gauge"@,
{
    lemma_names_of_series(ProcessSeries::DiskReadRate, ProcessSeries::DiskWrittenRate);
    if family.name == "oxmgr_process_disk_read_bytes_per_second"@ {
        let series = ProcessSeries::DiskReadRate;
        lemma_family_of_series(series, processes, family);
        lemma_rates_are_shown(series, processes, |p: ManagedProcess| p.disk_read_rate);
    } else if family.name == "oxmgr_process_disk_written_bytes_per_second"@ {
        let series = ProcessSeries::DiskWrittenRate;
        lemma_family_of_series(series, processes, family);
        lemma_rates_are_shown(series, processes, |p: ManagedProcess| p.disk_write_rate);
    }
}

proof fn lemma_rates_are_shown(
    series: ProcessSeries,
    processes: Seq<ManagedProcess>,
    rate: spec_fn(ManagedProcess) -> Option<Figure>,
)
    requires
        series is DiskReadRate || series is DiskWrittenRate,
        forall|p: ManagedProcess| #[trigger]
            series.samples_of(p) == rate_samples(p, rate(p)),
    ensures
        shows_rates(series.family(processes), processes, rate),
{
    let family = series.family(processes);
    assert(shows_each_rate(family, processes, rate)) by {
        reveal(shows_each_rate);
        assert forall|i: int|
            0 <= i < processes.len() && rate(#[trigger] processes[i]) is Some implies exists|j: int|
            0 <= j < family.samples.len() && (#[trigger] family.samples[j]).value == figure_text(
                rate(processes[i])->0,
            ) && identifies(family.samples[j], processes[i]) by {
            let own = series.samples_of(processes[i]);
            let j = lemma_rate_shown(series, processes, i);
            assert(family.samples[j] == own[0]);
            lemma_rate_sample(family.samples[j], processes[i], rate(processes[i])->0);
        }
    }
    assert(shows_only_rates(family, processes, rate)) by {
        reveal(shows_only_rates);
        assert forall|j: int| 0 <= j < family.samples.len() implies exists|i: int|
            0 <= i < processes.len() && rate(#[trigger] processes[i]) is Some && (
            #[trigger] family.samples[j]).value == figure_text(rate(processes[i])->0) && identifies(
                family.samples[j],
                processes[i],
            ) by {
            let i = lemma_rate_source(series, processes, j);
            assert(series.samples_of(processes[i])[0] == family.samples[j]);
            lemma_rate_sample(family.samples[j], processes[i], rate(processes[i])->0);
            assert(rate(processes[i]) is Some);
        }
    }
}

proof fn lemma_rate_sample(sample: SampleView, process: ManagedProcess, figure: Figure)
    requires
        sample == process_sample(process, figure_text(figure)),
    ensures
        sample.value == figure_text(figure),
        identifies(sample, process),
{
}

/// Two processes that differ only in what they have written have equal read samples, and two that
/// differ only in what they have read have equal write samples.
pub proof fn reading_and_writing_are_counted_apart(p: ManagedProcess, q: ManagedProcess)
    ensures
        q == (ManagedProcess { disk_write_total: q.disk_write_total, ..p })
            ==> ProcessSeries::DiskRead.family(seq![p]).samples == ProcessSeries::DiskRead.family(
            seq![q],
        ).samples,
        q == (ManagedProcess { disk_read_total: q.disk_read_total, ..p })
            ==> ProcessSeries::DiskWritten.family(seq![p]).samples
            == ProcessSeries::DiskWritten.family(seq![q]).samples,
        p.disk_read_total != q.disk_read_total ==> ProcessSeries::DiskRead.family(seq![p]).samples
            != ProcessSeries::DiskRead.family(seq![q]).samples,
        p.disk_write_total != q.disk_write_total ==> ProcessSeries::DiskWritten.family(
            seq![p],
        ).samples != ProcessSeries::DiskWritten.family(seq![q]).samples,
{
    let read = ProcessSeries::DiskRead;
    let written = ProcessSeries::DiskWritten;
    lemma_one_sample_each(read, seq![p]);
    lemma_one_sample_each(read, seq![q]);
    lemma_one_sample_each(written, seq![p]);
    lemma_one_sample_each(written, seq![q]);
    assert(read.samples(seq![p])[0] == read.samples_of(p)[0]);
    assert(read.samples(seq![q])[0] == read.samples_of(q)[0]);
    assert(written.samples(seq![p])[0] == written.samples_of(p)[0]);
    assert(written.samples(seq![q])[0] == written.samples_of(q)[0]);
    crate::text::decimals_tell_numbers_apart(p.disk_read_total as nat, q.disk_read_total as nat);
    crate::text::decimals_tell_numbers_apart(p.disk_write_total as nat, q.disk_write_total as nat);
    if q == (ManagedProcess { disk_write_total: q.disk_write_total, ..p }) {
        assert(process_labels(p) == process_labels(q));
        assert(read.samples(seq![p]) =~= read.samples(seq![q]));
    }
    if q == (ManagedProcess { disk_read_total: q.disk_read_total, ..p }) {
        assert(process_labels(p) == process_labels(q));
        assert(written.samples(seq![p]) =~= written.samples(seq![q]));
    }
}

/// Every metric of the processes is there, the number of processes first, whatever there is to
/// show.
pub proof fn every_metric_is_always_there(processes: Seq<ManagedProcess>, series: ProcessSeries)
    ensures
        process_families(processes).contains(series.family(processes)),
        process_families(processes)[0].name == "oxmgr_managed_processes"@,
        process_families(processes)[0].samples.len() == 1,
        process_families(processes)[0].samples[0].labels is None,
        process_families(processes)[0].samples[0].value == decimal(processes.len()),
        process_families(processes).len() == 15,
{
    let all = process_series();
    assert(all[0] == ProcessSeries::Info && all[1] == ProcessSeries::Up && all[2]
        == ProcessSeries::RestartCount && all[3] == ProcessSeries::CpuPercent && all[4]
        == ProcessSeries::MemoryBytes && all[5] == ProcessSeries::Pid && all[6]
        == ProcessSeries::Status && all[7] == ProcessSeries::HealthStatus && all[8]
        == ProcessSeries::LastStarted && all[9] == ProcessSeries::LastMetrics && all[10]
        == ProcessSeries::DiskRead && all[11] == ProcessSeries::DiskWritten && all[12]
        == ProcessSeries::DiskReadRate && all[13] == ProcessSeries::DiskWrittenRate);
    assert(all.contains(series));
    let i = choose|i: int| 0 <= i < all.len() && all[i] == series;
    assert(process_families(processes)[i + 1] == series.family(processes));
}

/// Whether a sample is about a finding: its labels name the process, the detector, the metric and
/// the variant.
pub open spec fn concerns(sample: SampleView, finding: Finding) -> bool {
    sample.labels matches Some(labels) && {
        &&& labels.len() == 5
        &&& labels[0] == ("name"@, finding.key.process@)
        &&& labels[1].0 == "namespace"@
        &&& labels[2] == ("detector"@, finding.key.detector@.name)
        &&& labels[3] == ("metric"@, finding.key.metric@.name)
        &&& labels[4].0 == "variant"@
        &&& finding.key.variant matches Some(variant) ==> labels[4].1 == variant@
        &&& finding.key.variant is None ==> labels[4].1.len() == 0
    }
}

proof fn lemma_finding_shown(
    series: FindingSeries,
    findings: Seq<ScoredFinding>,
    processes: Seq<ManagedProcess>,
    i: int,
) -> (j: int)
    requires
        0 <= i < findings.len(),
        findings[i].finding.status is Active,
    ensures
        0 <= j < series.samples(findings, processes).len(),
        concerns(series.samples(findings, processes)[j], findings[i].finding),
        series.samples(findings, processes)[j].value == series.value_of(findings[i]),
    decreases findings.len(),
{
    let rest = findings.drop_last();
    if i < rest.len() {
        assert(rest[i] == findings[i]);
        let j = lemma_finding_shown(series, rest, processes, i);
        assert(series.samples(findings, processes)[j] == series.samples(rest, processes)[j]);
        j
    } else {
        series.samples(rest, processes).len() as int
    }
}

proof fn lemma_finding_source(
    series: FindingSeries,
    findings: Seq<ScoredFinding>,
    processes: Seq<ManagedProcess>,
    j: int,
) -> (i: int)
    requires
        0 <= j < series.samples(findings, processes).len(),
    ensures
        0 <= i < findings.len(),
        findings[i].finding.status is Active,
        concerns(series.samples(findings, processes)[j], findings[i].finding),
        series.samples(findings, processes)[j].value == series.value_of(findings[i]),
    decreases findings.len(),
{
    let rest = findings.drop_last();
    if j < series.samples(rest, processes).len() {
        let i = lemma_finding_source(series, rest, processes, j);
        assert(rest[i] == findings[i]);
        assert(series.samples(findings, processes)[j] == series.samples(rest, processes)[j]);
        i
    } else {
        findings.len() - 1
    }
}

/// Whether a family shows each finding that holds, with the text of a figure.
#[verifier::opaque]
pub open spec fn shows_each_finding(
    family: FamilyView,
    findings: Seq<ScoredFinding>,
    text: spec_fn(ScoredFinding) -> Seq<char>,
) -> bool {
    forall|i: int|
        0 <= i < findings.len() && (#[trigger] findings[i]).finding.status is Active
            ==> exists|j: int|
            0 <= j < family.samples.len() && (#[trigger] family.samples[j]).value == text(
                findings[i],
            ) && concerns(family.samples[j], findings[i].finding)
}

/// Whether a family shows nothing but findings that hold.
#[verifier::opaque]
pub open spec fn shows_only_findings(
    family: FamilyView,
    findings: Seq<ScoredFinding>,
    text: spec_fn(ScoredFinding) -> Seq<char>,
) -> bool {
    forall|j: int|
        0 <= j < family.samples.len() ==> exists|i: int|
            0 <= i < findings.len() && (#[trigger] findings[i]).finding.status is Active && (
            #[trigger] family.samples[j]).value == text(findings[i]) && concerns(
                family.samples[j],
                findings[i].finding,
            )
}

/// Whether a family shows the findings that hold, and no other, each with the text of a figure.
pub open spec fn shows_findings(
    family: FamilyView,
    findings: Seq<ScoredFinding>,
    text: spec_fn(ScoredFinding) -> Seq<char>,
) -> bool {
    shows_each_finding(family, findings, text) && shows_only_findings(family, findings, text)
}

proof fn lemma_findings_are_shown(
    series: FindingSeries,
    findings: Seq<ScoredFinding>,
    processes: Seq<ManagedProcess>,
    text: spec_fn(ScoredFinding) -> Seq<char>,
)
    requires
        forall|scored: ScoredFinding| #[trigger] text(scored) == series.value_of(scored),
    ensures
        shows_findings(series.family(findings, processes), findings, text),
{
    let family = series.family(findings, processes);
    assert(shows_each_finding(family, findings, text)) by {
        reveal(shows_each_finding);
        assert forall|i: int|
            0 <= i < findings.len() && (#[trigger] findings[i]).finding.status
                is Active implies exists|j: int|
            0 <= j < family.samples.len() && (#[trigger] family.samples[j]).value == text(
                findings[i],
            ) && concerns(family.samples[j], findings[i].finding) by {
            let j = lemma_finding_shown(series, findings, processes, i);
            assert(family.samples[j].value == text(findings[i]));
        }
    }
    assert(shows_only_findings(family, findings, text)) by {
        reveal(shows_only_findings);
        assert forall|j: int| 0 <= j < family.samples.len() implies exists|i: int|
            0 <= i < findings.len() && (#[trigger] findings[i]).finding.status is Active && (
            #[trigger] family.samples[j]).value == text(findings[i]) && concerns(
                family.samples[j],
                findings[i].finding,
            ) by {
            let i = lemma_finding_source(series, findings, processes, j);
            assert(family.samples[j].value == text(findings[i]));
        }
    }
}

/// A finding is exposed while it holds and no longer: one sample says that it does, one how sure
/// that is, where the score is a finite number and zero where it is not, and one which episode it
/// is.
pub proof fn findings_are_exposed_while_they_hold(
    analysis: AnalysisSnapshot,
    processes: Seq<ManagedProcess>,
)
    ensures
        analysis_families(analysis, processes)[0].name == "oxmgr_finding_active"@,
        shows_findings(
            analysis_families(analysis, processes)[0],
            analysis.findings@,
            |scored: ScoredFinding| "1"@,
        ),
        analysis_families(analysis, processes)[1].name == "oxmgr_finding_confidence"@,
        shows_findings(
            analysis_families(analysis, processes)[1],
            analysis.findings@,
            |scored: ScoredFinding|
                if scored.finding.confidence.score.finite() {
                    scored.score_text@
                } else {
                    "0"@
                },
        ),
        analysis_families(analysis, processes)[2].name == "oxmgr_finding_occurrence"@,
        shows_findings(
            analysis_families(analysis, processes)[2],
            analysis.findings@,
            |scored: ScoredFinding| decimal(scored.finding.occurrence as nat),
        ),
{
    lemma_findings_are_shown(
        FindingSeries::Active,
        analysis.findings@,
        processes,
        |scored: ScoredFinding| "1"@,
    );
    lemma_findings_are_shown(
        FindingSeries::Confidence,
        analysis.findings@,
        processes,
        |scored: ScoredFinding|
            if scored.finding.confidence.score.finite() {
                scored.score_text@
            } else {
                "0"@
            },
    );
    lemma_findings_are_shown(
        FindingSeries::Occurrence,
        analysis.findings@,
        processes,
        |scored: ScoredFinding| decimal(scored.finding.occurrence as nat),
    );
}

/// The namespace of a finding is that of the first process with its name, and empty where there is
/// none.
pub proof fn a_finding_has_the_namespace_of_its_process(
    processes: Seq<ManagedProcess>,
    name: Seq<char>,
    at: int,
)
    ensures
        0 <= at < processes.len() && processes[at].name@ == name && (forall|i: int|
            0 <= i < at ==> (#[trigger] processes[i]).name@ != name) ==> (
        processes[at].namespace matches Some(namespace) ==> namespace_of(processes, name)
            == namespace@),
        0 <= at < processes.len() && processes[at].name@ == name && (forall|i: int|
            0 <= i < at ==> (#[trigger] processes[i]).name@ != name) ==> (
        processes[at].namespace is None ==> namespace_of(processes, name).len() == 0),
        (forall|i: int| 0 <= i < processes.len() ==> (#[trigger] processes[i]).name@ != name)
            ==> namespace_of(processes, name).len() == 0,
{
    crate::process::the_first_of_a_name_is_found(processes, name);
    if let Some(first) = place_by_name(processes, name) {
        if 0 <= at < processes.len() && processes[at].name@ == name && first < at {
            assert(processes[first].name@ == name);
        }
    }
}

/// What tuning withheld is counted by scope, each count under the name of its own.
pub proof fn withheld_findings_are_counted_by_scope(
    analysis: AnalysisSnapshot,
    processes: Seq<ManagedProcess>,
)
    ensures
        analysis_families(analysis, processes)[3].name == "oxmgr_findings_suppressed_total"@,
        analysis_families(analysis, processes)[3].kind == "counter"@,
        analysis_families(analysis, processes)[3].samples.len() == 3,
        analysis_families(analysis, processes)[3].samples[0].labels == Some(
            seq![("scope"@, "global"@)],
        ),
        analysis_families(analysis, processes)[3].samples[0].value == decimal(
            analysis.suppressed.blocked_globally as nat,
        ),
        analysis_families(analysis, processes)[3].samples[1].labels == Some(
            seq![("scope"@, "detector"@)],
        ),
        analysis_families(analysis, processes)[3].samples[1].value == decimal(
            analysis.suppressed.blocked_by_detector as nat,
        ),
        analysis_families(analysis, processes)[3].samples[2].labels == Some(
            seq![("scope"@, "process"@)],
        ),
        analysis_families(analysis, processes)[3].samples[2].value == decimal(
            analysis.suppressed.blocked_by_process as nat,
        ),
{
}

/// A process is shown as warming exactly when its name is among those that are.
pub proof fn a_warming_process_is_shown_as_such(
    analysis: AnalysisSnapshot,
    processes: Seq<ManagedProcess>,
)
    ensures
        analysis_families(analysis, processes)[4].name == "oxmgr_process_baseline_warming"@,
        shows(
            analysis_families(analysis, processes)[4],
            processes,
            |p: ManagedProcess|
                if texts(analysis.warming@).contains(p.name@) {
                    "1"@
                } else {
                    "0"@
                },
        ),
{
}

/// Decisions by a rule that proposed an action, or that did not.
pub open spec fn decided_by(rule: RuleId, proposed: bool) -> spec_fn(Decision) -> bool {
    |decision: Decision| decision.rule == Some(rule) && proposed == (decision.action is Some)
}

/// The count of an outcome is the number of decisions with it.
pub proof fn outcomes_are_counted_by_rule(decisions: Seq<Decision>, rule: RuleId, proposed: bool)
    ensures
        outcome_count(decisions, rule, proposed) == decisions.filter(
            decided_by(rule, proposed),
        ).len(),
    decreases decisions.len(),
{
    reveal(Seq::filter);
    if decisions.len() > 0 {
        outcomes_are_counted_by_rule(decisions.drop_last(), rule, proposed);
    }
}

/// Whether a sample counts an outcome of a rule.
pub open spec fn counts_outcome(sample: SampleView, rule: RuleId, outcome: Seq<char>) -> bool {
    sample.labels == Some(seq![("rule"@, rule.wire()), ("outcome"@, outcome)])
}

/// The retained decisions are exposed by rule and outcome: a decision with an action counts as
/// proposed, one without as withheld, and an outcome that did not occur has no sample.
pub proof fn decisions_are_exposed_by_outcome(
    analysis: AnalysisSnapshot,
    processes: Seq<ManagedProcess>,
    rule: RuleId,
)
    ensures
        analysis_families(analysis, processes)[5].name == "oxmgr_remediation_decisions"@,
        shows_outcome(
            analysis_families(analysis, processes)[5].samples,
            rule,
            "proposed"@,
            analysis.decisions@.filter(decided_by(rule, true)).len(),
        ),
        shows_outcome(
            analysis_families(analysis, processes)[5].samples,
            rule,
            "withheld"@,
            analysis.decisions@.filter(decided_by(rule, false)).len(),
        ),
{
    rules_are_listed_by_name();
    outcomes_are_counted_by_rule(analysis.decisions@, rule, true);
    outcomes_are_counted_by_rule(analysis.decisions@, rule, false);
    assert(rules_by_name().contains(rule));
    let at = choose|at: int| 0 <= at < rules_by_name().len() && rules_by_name()[at] == rule;
    lemma_outcome_shown(rules_by_name(), analysis.decisions@, at, true);
    lemma_outcome_shown(rules_by_name(), analysis.decisions@, at, false);
    assert forall|j: int|
        0 <= j < decision_samples(rules_by_name(), analysis.decisions@).len() implies (
    #[trigger] decision_samples(rules_by_name(), analysis.decisions@)[j]).value != decimal(0) by {
        lemma_outcome_not_zero(rules_by_name(), analysis.decisions@, j);
    }
}

/// Whether samples show an outcome of a rule as often as it occurred: a sample says so, or, where
/// it did not occur, none shows a zero.
pub open spec fn shows_outcome(
    samples: Seq<SampleView>,
    rule: RuleId,
    outcome: Seq<char>,
    count: nat,
) -> bool {
    &&& count > 0 ==> exists|j: int|
        0 <= j < samples.len() && counts_outcome(#[trigger] samples[j], rule, outcome)
            && samples[j].value == decimal(count)
    &&& forall|j: int| 0 <= j < samples.len() ==> (#[trigger] samples[j]).value != decimal(0)
}

proof fn lemma_outcome_shown(
    rules: Seq<RuleId>,
    decisions: Seq<Decision>,
    at: int,
    proposed: bool,
)
    requires
        0 <= at < rules.len(),
    ensures
        ({
            let samples = decision_samples(rules, decisions);
            let count = outcome_count(decisions, rules[at], proposed);
            let outcome = if proposed {
                "proposed"@
            } else {
                "withheld"@
            };
            count > 0 ==> exists|j: int|
                0 <= j < samples.len() && counts_outcome(#[trigger] samples[j], rules[at], outcome)
                    && samples[j].value == decimal(count)
        }),
    decreases rules.len(),
{
    let samples = decision_samples(rules, decisions);
    let count = outcome_count(decisions, rules[at], proposed);
    let fewer = decision_samples(rules.drop_last(), decisions);
    let outcome = if proposed {
        "proposed"@
    } else {
        "withheld"@
    };
    if count > 0 {
        if at < rules.len() - 1 {
            lemma_outcome_shown(rules.drop_last(), decisions, at, proposed);
            assert(rules.drop_last()[at] == rules[at]);
            let j = choose|j: int|
                0 <= j < fewer.len() && counts_outcome(#[trigger] fewer[j], rules[at], outcome)
                    && fewer[j].value == decimal(count);
            assert(samples[j] == fewer[j]);
        } else {
            let first = outcome_samples(decisions, rules[at], true);
            let j = if proposed {
                fewer.len() as int
            } else {
                (fewer.len() + first.len()) as int
            };
            assert(samples[j] == outcome_samples(decisions, rules[at], proposed)[0]);
            assert(counts_outcome(samples[j], rules[at], outcome));
        }
    }
}

proof fn lemma_outcome_not_zero(rules: Seq<RuleId>, decisions: Seq<Decision>, j: int)
    requires
        0 <= j < decision_samples(rules, decisions).len(),
    ensures
        decision_samples(rules, decisions)[j].value != decimal(0),
    decreases rules.len(),
{
    let fewer = decision_samples(rules.drop_last(), decisions);
    if j < fewer.len() {
        lemma_outcome_not_zero(rules.drop_last(), decisions, j);
        assert(decision_samples(rules, decisions)[j] == fewer[j]);
    } else {
        let rule = rules.last();
        crate::text::decimals_tell_numbers_apart(outcome_count(decisions, rule, true), 0);
        crate::text::decimals_tell_numbers_apart(outcome_count(decisions, rule, false), 0);
    }
}

/// Each metric of the processes bears its own name and says what it is of.
pub proof fn each_process_metric_says_what_it_is(
    series: ProcessSeries,
    processes: Seq<ManagedProcess>,
)
    ensures
        series is Info ==> series.family(processes).name == "oxmgr_process_info"@
            && series.family(processes).help
            == "Static metadata about each managed process."@,
        series is Up ==> series.family(processes).name == "oxmgr_process_up"@
            && series.family(processes).help
            == "Whether the managed process is currently running."@,
        series is RestartCount ==> series.family(processes).name == "oxmgr_process_restart_count"@
            && series.family(processes).help
            == "Number of restarts recorded for the managed process."@,
        series is CpuPercent ==> series.family(processes).name == "oxmgr_process_cpu_percent"@
            && series.family(processes).help
            == "Latest CPU usage percentage reported by oxmgr."@,
        series is MemoryBytes ==> series.family(processes).name == "oxmgr_process_memory_bytes"@
            && series.family(processes).help
            == "Latest memory usage in bytes reported by oxmgr."@,
        series is Pid ==> series.family(processes).name == "oxmgr_process_pid"@
            && series.family(processes).help
            == "Current operating-system PID for the process, or 0 when unavailable."@,
        series is Status ==> series.family(processes).name == "oxmgr_process_status"@
            && series.family(processes).help
            == "Current lifecycle status of the managed process."@,
        series is HealthStatus ==> series.family(processes).name == "oxmgr_process_health_status"@
            && series.family(processes).help
            == "Current health-check status of the managed process."@,
        series is LastStarted ==> series.family(processes).name == "oxmgr_process_last_started_at_seconds"@
            && series.family(processes).help
            == "Unix timestamp of the last successful start, or 0 when unknown."@,
        series is LastMetrics ==> series.family(processes).name == "oxmgr_process_last_metrics_at_seconds"@
            && series.family(processes).help
            == "Unix timestamp of the last resource metrics refresh, or 0 when unknown."@,
        series is DiskRead ==> series.family(processes).name == "oxmgr_process_disk_read_bytes_total"@
            && series.family(processes).help
            == "Cumulative bytes read by the managed process across restarts."@,
        series is DiskWritten ==> series.family(processes).name == "oxmgr_process_disk_written_bytes_total"@
            && series.family(processes).help
            == "Cumulative bytes written by the managed process across restarts."@,
        series is DiskReadRate ==> series.family(processes).name == "oxmgr_process_disk_read_bytes_per_second"@
            && series.family(processes).help
            == "Bytes read per second over the interval the last sample covered."@,
        series is DiskWrittenRate ==> series.family(processes).name == "oxmgr_process_disk_written_bytes_per_second"@
            && series.family(processes).help
            == "Bytes written per second over the interval the last sample covered."@,
{
}

/// Each metric of the findings bears its own name and says what it is of.
pub proof fn each_finding_metric_says_what_it_is(
    series: FindingSeries,
    findings: Seq<ScoredFinding>,
    processes: Seq<ManagedProcess>,
)
    ensures
        series.family(findings, processes).kind == "gauge"@,
        series is Active ==> series.family(findings, processes).name == "oxmgr_finding_active"@
            && series.family(findings, processes).help
            == "A finding whose condition currently holds, labelled by detector and metric."@,
        series is Confidence ==> series.family(findings, processes).name == "oxmgr_finding_confidence"@
            && series.family(findings, processes).help
            == "Confidence of an active finding, 0 to 1."@,
        series is Occurrence ==> series.family(findings, processes).name == "oxmgr_finding_occurrence"@
            && series.family(findings, processes).help
            == "Which episode of this condition, from 1. Above 1 is a recurrence."@,
{
}

/// What was counted, what is warming and what was decided say what they are of.
pub proof fn each_analysis_metric_says_what_it_is(
    analysis: AnalysisSnapshot,
    processes: Seq<ManagedProcess>,
)
    ensures
        analysis_families(analysis, processes).len() == 6,
        analysis_families(analysis, processes)[3].help
            == "Findings withheld by tuning, by the scope that withheld them."@,
        analysis_families(analysis, processes)[4].help
            == "Whether any of the process's baselines is still warming."@,
        analysis_families(analysis, processes)[4].kind == "gauge"@,
        analysis_families(analysis, processes)[5].help
            == "Recent decisions retained, by rule and outcome."@,
        analysis_families(analysis, processes)[5].kind == "gauge"@,
        process_families(processes)[0].help
            == "Total number of processes currently managed by oxmgr."@,
        process_families(processes)[0].kind == "gauge"@,
{
}

/// A scrape is the processes, the host where it was measured, and the analysis, in this order, each
/// part from the next by an empty line.
pub proof fn a_scrape_has_its_parts_in_order(
    processes: Seq<ManagedProcess>,
    host: HostMetrics,
    analysis: AnalysisSnapshot,
)
    ensures
        scrape(processes, None, analysis) == families_joined(process_families(processes)) + seq![
            '\n',
        ] + families_joined(analysis_families(analysis, processes)),
        scrape(processes, Some(host), analysis) == families_joined(process_families(processes))
            + seq!['\n'] + families_text(host_families(host)) + seq!['\n'] + families_joined(
            analysis_families(analysis, processes),
        ),
{
    reveal_strlit("\n");
    assert("\n"@ =~= seq!['\n']);
    assert(scrape(processes, None, analysis) =~= families_joined(process_families(processes)) + seq![
        '\n',
    ] + families_joined(analysis_families(analysis, processes)));
    assert(scrape(processes, Some(host), analysis) =~= families_joined(process_families(processes))
        + seq!['\n'] + families_text(host_families(host)) + seq!['\n'] + families_joined(
        analysis_families(analysis, processes),
    ));
}

} // verus!
