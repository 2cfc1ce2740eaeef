//! What is started to observe the host, and what is said about it.
//!
//! Collecting host figures and sampling host-wide consumers run on tasks of their own. Here stands
//! whether each is started, and what an operator is told at that moment: what was switched off, and
//! which setting was not applied as given.

use crate::text::{decimal, push_decimal};
use vstd::prelude::*;

verus! {

/// Something an operator is told.
#[derive(Debug, PartialEq, Eq)]
pub enum Notice {
    Info(String),
    Warning(String),
}

/// What a notice says, and whether it is a warning.
pub struct NoticeView {
    pub warning: bool,
    pub text: Seq<char>,
}

impl View for Notice {
    type V = NoticeView;

    open spec fn view(&self) -> NoticeView {
        match self {
            Notice::Info(text) => NoticeView { warning: false, text: text@ },
            Notice::Warning(text) => NoticeView { warning: true, text: text@ },
        }
    }
}

/// A notice that informs.
pub open spec fn informs(text: Seq<char>) -> NoticeView {
    NoticeView { warning: false, text }
}

/// A notice that warns.
pub open spec fn warns(text: Seq<char>) -> NoticeView {
    NoticeView { warning: true, text }
}

/// What notices say.
pub open spec fn notice_views(notices: Seq<Notice>) -> Seq<NoticeView> {
    notices.map_values(|notice: Notice| notice@)
}

fn push_notice(notices: &mut Vec<Notice>, notice: Notice)
    ensures
        notice_views(final(notices)@) == notice_views(old(notices)@).push(notice@),
{
    notices.push(notice);
    assert(notice_views(notices@) =~= notice_views(old(notices)@).push(notice@));
}

/// A sampling setting that was not applied as given.
#[derive(Debug, PartialEq, Eq)]
pub struct SettingAdjustment {
    pub setting: String,
    pub reason: String,
    /// What was applied instead, as printed.
    pub applied: String,
}

impl SettingAdjustment {
    /// What is said about the adjustment.
    pub open spec fn warning(self) -> NoticeView {
        warns(
            "host consumers: "@ + self.setting@ + " "@ + self.reason@ + " — applied "@
                + self.applied@,
        )
    }

    fn notice(&self) -> (notice: Notice)
        ensures
            notice@ == self.warning(),
    {
        let mut text = "host consumers: ".to_owned();
        text.append(self.setting.as_str());
        text.append(" ");
        text.append(self.reason.as_str());
        text.append(" — applied ");
        text.append(self.applied.as_str());
        Notice::Warning(text)
    }
}

/// The settings of host-wide consumer sampling.
#[derive(Debug, Clone, Copy, PartialEq, Eq, Structural)]
pub struct SamplingSettings {
    pub enabled: bool,
    /// Whether full command lines are exposed.
    pub include_command_lines: bool,
    pub interval_secs: u64,
    /// How many consumers are listed by each figure.
    pub top_n: usize,
}

/// How sampling starts.
#[derive(Debug, PartialEq, Eq)]
pub struct SamplingStart {
    /// Whether sampling is marked as enabled, before its first sample, and runs.
    pub enabled: bool,
    pub notices: Vec<Notice>,
}

/// The warnings about adjusted settings.
pub open spec fn adjustment_warnings(adjustments: Seq<SettingAdjustment>) -> Seq<NoticeView> {
    adjustments.map_values(|adjustment: SettingAdjustment| adjustment.warning())
}

/// What is said when sampling is switched off, or starts.
pub open spec fn sampling_notices(settings: SamplingSettings) -> Seq<NoticeView> {
    let started = informs(
        "host-wide consumer sampling started (every "@ + decimal(settings.interval_secs as nat)
            + "s, top "@ + decimal(settings.top_n as nat) + " by cpu and memory)"@,
    );
    if !settings.enabled {
        seq![informs("host-wide consumer sampling disabled by OXMGR_HOST_CONSUMERS"@)]
    } else if settings.include_command_lines {
        seq![
            warns(
                "host consumers: full command lines ENABLED by OXMGR_HOST_CONSUMERS_COMMANDS — unmanaged process arguments may contain credentials"@,
            ),
            started,
        ]
    } else {
        seq![started]
    }
}

/// Starts host-wide consumer sampling, unless it is switched off.
pub fn begin_consumer_sampling(
    settings: &SamplingSettings,
    adjustments: &[SettingAdjustment],
) -> (start: SamplingStart)
    ensures
        start.enabled == settings.enabled,
        notice_views(start.notices@) == adjustment_warnings(adjustments@) + sampling_notices(
            *settings,
        ),
{
    let mut notices: Vec<Notice> = Vec::new();
    let mut i: usize = 0;
    assert(notice_views(notices@) =~= adjustment_warnings(adjustments@.take(0)));
    while i < adjustments.len()
        invariant
            i <= adjustments.len(),
            notice_views(notices@) == adjustment_warnings(adjustments@.take(i as int)),
        decreases adjustments.len() - i,
    {
        push_notice(&mut notices, adjustments[i].notice());
        assert(adjustment_warnings(adjustments@.take(i + 1)) =~= adjustment_warnings(
            adjustments@.take(i as int),
        ).push(adjustments@[i as int].warning()));
        i = i + 1;
    }
    assert(adjustments@.take(i as int) =~= adjustments@);
    if !settings.enabled {
        push_notice(
            &mut notices,
            Notice::Info(
                "host-wide consumer sampling disabled by OXMGR_HOST_CONSUMERS".to_owned(),
            ),
        );
    } else {
        if settings.include_command_lines {
            push_notice(
                &mut notices,
                Notice::Warning(
                    "host consumers: full command lines ENABLED by OXMGR_HOST_CONSUMERS_COMMANDS — unmanaged process arguments may contain credentials".to_owned(),
                ),
            );
        }
        let mut text = "host-wide consumer sampling started (every ".to_owned();
        push_decimal(&mut text, settings.interval_secs);
        text.append("s, top ");
        push_decimal(&mut text, settings.top_n as u64);
        text.append(" by cpu and memory)");
        push_notice(&mut notices, Notice::Info(text));
    }
    assert(notice_views(notices@) =~= adjustment_warnings(adjustments@) + sampling_notices(
        *settings,
    ));
    SamplingStart { enabled: settings.enabled, notices }
}

/// What host collection is asked for besides what it always collects.
#[derive(Debug, Clone, Copy, PartialEq, Eq, Structural)]
pub struct HostMetricsRequest {
    pub per_core_cpu: bool,
    pub temperatures: bool,
}

/// What host collection is asked for, or what is said when it is switched off. Temperatures are
/// never asked for: reading them is slow, and they are often absent.
pub fn begin_host_collection(enabled: bool, per_core_cpu: bool) -> (request: Result<
    HostMetricsRequest,
    Notice,
>)
    ensures
        match request {
            Ok(request) => enabled && request == (HostMetricsRequest {
                per_core_cpu,
                temperatures: false,
            }),
            Err(notice) => !enabled && notice@ == informs(
                "host metrics collection disabled by OXMGR_HOST_METRICS"@,
            ),
        },
{
    if enabled {
        Ok(HostMetricsRequest { per_core_cpu, temperatures: false })
    } else {
        Err(Notice::Info("host metrics collection disabled by OXMGR_HOST_METRICS".to_owned()))
    }
}

/// A collection interval that was raised.
#[derive(Debug, PartialEq, Eq)]
pub struct IntervalAdjustment {
    /// The name of the subsystem.
    pub subsystem: String,
    pub configured_ms: u64,
    pub applied_ms: u64,
    pub reason: String,
}

impl IntervalAdjustment {
    /// What is said about the adjustment.
    pub open spec fn warning(self) -> NoticeView {
        warns(
            "host metrics: "@ + self.subsystem@ + " interval of "@ + decimal(
                self.configured_ms as nat,
            ) + "ms raised to "@ + decimal(self.applied_ms as nat) + "ms: "@ + self.reason@,
        )
    }

    fn notice(&self) -> (notice: Notice)
        ensures
            notice@ == self.warning(),
    {
        let mut text = "host metrics: ".to_owned();
        text.append(self.subsystem.as_str());
        text.append(" interval of ");
        push_decimal(&mut text, self.configured_ms);
        text.append("ms raised to ");
        push_decimal(&mut text, self.applied_ms);
        text.append("ms: ");
        text.append(self.reason.as_str());
        Notice::Warning(text)
    }
}

/// The intervals of host collection, in milliseconds.
#[derive(Debug, Clone, Copy, PartialEq, Eq, Structural)]
pub struct CollectionIntervals {
    pub cpu_memory_ms: u64,
    pub io_ms: u64,
    pub components_ms: u64,
}

/// The warnings about raised intervals.
pub open spec fn interval_warnings(adjustments: Seq<IntervalAdjustment>) -> Seq<NoticeView> {
    adjustments.map_values(|adjustment: IntervalAdjustment| adjustment.warning())
}

/// What is said when host collection starts.
pub open spec fn collection_started(intervals: CollectionIntervals) -> NoticeView {
    informs(
        "host metrics collection started (cpu/memory "@ + decimal(intervals.cpu_memory_ms as nat)
            + "ms, disks/interfaces "@ + decimal(intervals.io_ms as nat) + "ms, components "@
            + decimal(intervals.components_ms as nat) + "ms)"@,
    )
}

/// What is said when host collection starts: every raised interval, and the intervals applied.
pub fn host_collection_notices(
    adjustments: &[IntervalAdjustment],
    intervals: &CollectionIntervals,
) -> (notices: Vec<Notice>)
    ensures
        notice_views(notices@) == interval_warnings(adjustments@).push(
            collection_started(*intervals),
        ),
{
    let mut notices: Vec<Notice> = Vec::new();
    let mut i: usize = 0;
    assert(notice_views(notices@) =~= interval_warnings(adjustments@.take(0)));
    while i < adjustments.len()
        invariant
            i <= adjustments.len(),
            notice_views(notices@) == interval_warnings(adjustments@.take(i as int)),
        decreases adjustments.len() - i,
    {
        push_notice(&mut notices, adjustments[i].notice());
        assert(interval_warnings(adjustments@.take(i + 1)) =~= interval_warnings(
            adjustments@.take(i as int),
        ).push(adjustments@[i as int].warning()));
        i = i + 1;
    }
    assert(adjustments@.take(i as int) =~= adjustments@);
    let mut text = "host metrics collection started (cpu/memory ".to_owned();
    push_decimal(&mut text, intervals.cpu_memory_ms);
    text.append("ms, disks/interfaces ");
    push_decimal(&mut text, intervals.io_ms);
    text.append("ms, components ");
    push_decimal(&mut text, intervals.components_ms);
    text.append("ms)");
    push_notice(&mut notices, Notice::Info(text));
    notices
}

/// Sampling that is switched off says so and nothing else; sampling that starts says how often and
/// for how many, last, and warns before that where command lines are exposed.
pub proof fn exposed_command_lines_are_warned_of(settings: SamplingSettings)
    ensures
        !settings.enabled ==> sampling_notices(settings).len() == 1 && !sampling_notices(
            settings,
        )[0].warning,
        settings.enabled && settings.include_command_lines ==> sampling_notices(settings).len() == 2
            && sampling_notices(settings)[0].warning && !sampling_notices(settings)[1].warning,
        settings.enabled && !settings.include_command_lines ==> sampling_notices(settings).len()
            == 1 && !sampling_notices(settings)[0].warning,
        settings.enabled ==> sampling_notices(settings).last().text
            == "host-wide consumer sampling started (every "@ + decimal(
            settings.interval_secs as nat,
        ) + "s, top "@ + decimal(settings.top_n as nat) + " by cpu and memory)"@,
{
}

/// Every setting that was not applied as given is warned of, in order, and says what was applied.
pub proof fn adjustments_are_warned_of(
    adjustments: Seq<SettingAdjustment>,
    raised: Seq<IntervalAdjustment>,
    at: int,
)
    ensures
        adjustment_warnings(adjustments).len() == adjustments.len(),
        interval_warnings(raised).len() == raised.len(),
        0 <= at < adjustments.len() ==> adjustment_warnings(adjustments)[at].warning
            && adjustment_warnings(adjustments)[at].text == "host consumers: "@
            + adjustments[at].setting@ + " "@ + adjustments[at].reason@ + " — applied "@
            + adjustments[at].applied@,
        0 <= at < raised.len() ==> interval_warnings(raised)[at].warning && interval_warnings(
            raised,
        )[at].text == "host metrics: "@ + raised[at].subsystem@ + " interval of "@ + decimal(
            raised[at].configured_ms as nat,
        ) + "ms raised to "@ + decimal(raised[at].applied_ms as nat) + "ms: "@ + raised[at].reason@,
{
}

/// The start of host collection names each interval for what it is of.
pub proof fn the_intervals_are_named(intervals: CollectionIntervals)
    ensures
        !collection_started(intervals).warning,
        collection_started(intervals).text == "host metrics collection started (cpu/memory "@
            + decimal(intervals.cpu_memory_ms as nat) + "ms, disks/interfaces "@ + decimal(
            intervals.io_ms as nat,
        ) + "ms, components "@ + decimal(intervals.components_ms as nat) + "ms)"@,
{
}

/// Host collection runs exactly when it is enabled, is asked for cores as configured, and never for
/// temperatures; one that is switched off says so without a warning.
pub proof fn temperatures_are_never_asked_for(
    enabled: bool,
    per_core_cpu: bool,
    request: Result<HostMetricsRequest, Notice>,
)
    requires
        call_ensures(begin_host_collection, (enabled, per_core_cpu), request),
    ensures
        request is Ok <==> enabled,
        request matches Ok(asked) ==> asked.per_core_cpu == per_core_cpu && !asked.temperatures,
        request matches Err(notice) ==> notice is Info,
{
}

/// Sampling runs exactly when it is enabled, and warns first of every setting that was adjusted.
pub proof fn sampling_starts_when_enabled(
    settings: &SamplingSettings,
    adjustments: &[SettingAdjustment],
    start: SamplingStart,
    at: int,
)
    requires
        call_ensures(begin_consumer_sampling, (settings, adjustments), start),
    ensures
        start.enabled == settings.enabled,
        start.notices@.len() == adjustments@.len() + (if settings.enabled
            && settings.include_command_lines {
            2int
        } else {
            1
        }),
        0 <= at < adjustments@.len() ==> start.notices@[at] is Warning,
        start.notices@.last() is Info,
{
    let views = notice_views(start.notices@);
    let first = adjustment_warnings(adjustments@);
    let second = sampling_notices(*settings);
    assert(views.len() == start.notices@.len());
    assert(views == first + second);
    if 0 <= at < adjustments@.len() {
        assert(views[at] == first[at]);
        assert(views[at] == start.notices@[at]@);
    }
    let last = start.notices@.len() - 1;
    assert(views[last] == second[second.len() - 1]);
    assert(views[last] == start.notices@[last]@);
}

} // verus!
