//! Tuning and false-positive control: what detection is allowed to run, and for whom.
//!
//! Four scopes, from a daemon-wide switch down to thresholds of one process. A verdict says which
//! scope blocked a detector, so that "nothing found" and "nobody looked" stay distinguishable. An
//! unusable threshold falls back to its documented default and is reported, never clamped.

use crate::identity::{optional_text, Detector};
use crate::ordered_map::OrderedMap;
use crate::reading::{Figure, Reading};
use crate::sequences::{lemma_filter_ends, lemma_filter_step};
use crate::text::decimal;
use vstd::prelude::*;

verus! {

/// The documented default departure z-score, 3.5, as a double's bit pattern.
pub const DEFAULT_DEPARTURE_Z: u64 = 0x400c_0000_0000_0000;

/// The documented default for consecutive agreeing samples.
pub const DEFAULT_MIN_CONSECUTIVE_SAMPLES: u32 = 3;

/// The documented default for baseline samples required before a detector may fire.
pub const DEFAULT_MIN_BASELINE_SAMPLES: u32 = 30;

/// Why detection did not run.
#[derive(Debug, PartialEq, Eq)]
pub enum Blocked {
    /// Detection is disabled daemon-wide.
    DetectionDisabled,
    /// This detector is disabled for every process.
    DetectorDisabled { detector: Detector },
    /// This detector is suppressed for this process only.
    SuppressedForProcess {
        detector: Detector,
        process: String,
        /// The operator's note, when they left one.
        note: Option<String>,
    },
}

impl Blocked {
    /// The reason, in characters.
    pub open spec fn reason_text(self) -> Seq<char> {
        match self {
            Blocked::DetectionDisabled => "detection is disabled"@,
            Blocked::DetectorDisabled { detector } => "detector "@ + detector@.name
                + " is disabled"@,
            Blocked::SuppressedForProcess { detector, process, note } => match note {
                Some(note) => "detector "@ + detector@.name + " is suppressed for "@ + process@
                    + ": "@ + note@,
                None => "detector "@ + detector@.name + " is suppressed for "@ + process@,
            },
        }
    }

    /// A short operator-facing reason.
    pub fn reason(&self) -> (text: String)
        ensures
            text@ == self.reason_text(),
    {
        match self {
            Blocked::DetectionDisabled => "detection is disabled".to_owned(),
            Blocked::DetectorDisabled { detector } => {
                let mut text = "detector ".to_owned();
                text.append(detector.as_wire());
                text.append(" is disabled");
                text
            },
            Blocked::SuppressedForProcess { detector, process, note } => {
                let mut text = "detector ".to_owned();
                text.append(detector.as_wire());
                text.append(" is suppressed for ");
                text.append(process.as_str());
                match note {
                    Some(note) => {
                        text.append(": ");
                        text.append(note.as_str());
                    },
                    None => {},
                }
                text
            },
        }
    }

    /// The scope this block applies to.
    pub fn scope(&self) -> (name: &'static str)
        ensures
            name@ == (match self {
                Blocked::DetectionDisabled => "global"@,
                Blocked::DetectorDisabled { .. } => "detector"@,
                Blocked::SuppressedForProcess { .. } => "process"@,
            }),
    {
        match self {
            Blocked::DetectionDisabled => "global",
            Blocked::DetectorDisabled { .. } => "detector",
            Blocked::SuppressedForProcess { .. } => "process",
        }
    }
}

/// Whether a detector may run, and why not.
#[derive(Debug, PartialEq, Eq)]
pub enum Gate {
    /// Detection may run.
    Allowed,
    /// Detection must not run.
    Blocked(Blocked),
}

impl Gate {
    /// Whether detection may run.
    pub fn is_allowed(&self) -> (allowed: bool)
        ensures
            allowed == (self is Allowed),
    {
        match self {
            Gate::Allowed => true,
            Gate::Blocked(_) => false,
        }
    }

    /// The reason, when blocked.
    pub fn blocked(&self) -> (reason: Option<&Blocked>)
        ensures
            match self {
                Gate::Allowed => reason is None,
                Gate::Blocked(blocked) => reason == Some(blocked),
            },
    {
        match self {
            Gate::Allowed => None,
            Gate::Blocked(reason) => Some(reason),
        }
    }
}

/// One suppression, as declared.
#[derive(Debug, PartialEq, Eq)]
pub struct Suppression {
    /// The operator's note.
    pub note: Option<String>,
}

/// A copy of an optional string.
fn copy_optional(text: &Option<String>) -> (copy: Option<String>)
    ensures
        copy == *text,
{
    match text {
        Some(inner) => Some(inner.clone()),
        None => None,
    }
}

impl Clone for Suppression {
    fn clone(&self) -> (copy: Self)
        ensures
            copy == *self,
    {
        Suppression { note: copy_optional(&self.note) }
    }
}

/// A configured value that could not be used, and what was applied instead.
#[derive(Debug, PartialEq, Eq)]
pub struct Fallback {
    /// Which setting.
    pub setting: String,
    /// The process it was configured for, or `None` for a daemon-wide value.
    pub process: Option<String>,
    /// How the value was unusable.
    pub problem: String,
    /// The documented default that was applied, rendered.
    pub applied: String,
}

/// What a fallback says.
pub struct FallbackView {
    pub setting: Seq<char>,
    pub process: Option<Seq<char>>,
    pub problem: Seq<char>,
    pub applied: Seq<char>,
}

impl View for Fallback {
    type V = FallbackView;

    open spec fn view(&self) -> FallbackView {
        FallbackView {
            setting: self.setting@,
            process: optional_text(self.process),
            problem: self.problem@,
            applied: self.applied@,
        }
    }
}

impl Fallback {
    /// A short operator-facing sentence.
    pub fn reason(&self) -> (text: String)
        ensures
            text@ == (match self.process {
                Some(process) => self.setting@ + ": "@ + self.setting@ + " for "@ + process@
                    + " is unusable ("@ + self.problem@ + "); applied the default "@
                    + self.applied@,
                None => self.setting@ + " is unusable ("@ + self.problem@
                    + "); applied the default "@ + self.applied@,
            }),
    {
        let mut text = self.setting.clone();
        match &self.process {
            Some(process) => {
                text.append(": ");
                text.append(self.setting.as_str());
                text.append(" for ");
                text.append(process.as_str());
            },
            None => {},
        }
        text.append(" is unusable (");
        text.append(self.problem.as_str());
        text.append("); applied the default ");
        text.append(self.applied.as_str());
        text
    }
}

/// Per-process detector thresholds. Absent means "use the default".
#[derive(Debug, PartialEq, Eq)]
pub struct ProcessThresholds {
    pub departure_z: Option<Figure>,
    pub min_consecutive_samples: Option<u32>,
    pub min_baseline_samples: Option<u32>,
}

impl Default for ProcessThresholds {
    fn default() -> (thresholds: Self)
        ensures
            thresholds.departure_z is None,
            thresholds.min_consecutive_samples is None,
            thresholds.min_baseline_samples is None,
    {
        ProcessThresholds {
            departure_z: None,
            min_consecutive_samples: None,
            min_baseline_samples: None,
        }
    }
}

impl Clone for ProcessThresholds {
    fn clone(&self) -> (copy: Self)
        ensures
            copy == *self,
    {
        ProcessThresholds {
            departure_z: match &self.departure_z {
                Some(figure) => Some(figure.clone()),
                None => None,
            },
            min_consecutive_samples: self.min_consecutive_samples,
            min_baseline_samples: self.min_baseline_samples,
        }
    }
}

/// The resolved thresholds for one process, plus any fallbacks that were applied.
#[derive(Debug, PartialEq, Eq)]
pub struct ResolvedThresholds {
    pub departure_z: Reading,
    pub min_consecutive_samples: u32,
    pub min_baseline_samples: u32,
    /// Values that could not be used.
    pub fallbacks: Vec<Fallback>,
}

impl ResolvedThresholds {
    /// Whether every configured value was usable.
    pub fn is_clean(&self) -> (clean: bool)
        ensures
            clean == (self.fallbacks@.len() == 0),
    {
        self.fallbacks.len() == 0
    }
}

/// Counters for what detection was kept from doing, by the scope that blocked it.
#[derive(Debug, Clone, Copy, PartialEq, Eq, Structural)]
pub struct SuppressionCounters {
    /// Blocked globally.
    pub blocked_globally: u64,
    /// Blocked by a per-detector disable.
    pub blocked_by_detector: u64,
    /// Blocked by a per-process suppression.
    pub blocked_by_process: u64,
}

/// One more, up to the largest count.
pub open spec fn one_more(count: u64) -> u64 {
    if count < u64::MAX {
        (count + 1) as u64
    } else {
        u64::MAX
    }
}

impl Default for SuppressionCounters {
    fn default() -> (counters: Self)
        ensures
            counters.blocked_globally == 0,
            counters.blocked_by_detector == 0,
            counters.blocked_by_process == 0,
    {
        SuppressionCounters { blocked_globally: 0, blocked_by_detector: 0, blocked_by_process: 0 }
    }
}

impl SuppressionCounters {
    /// Total blocked across every scope, up to the largest count.
    pub fn total(&self) -> (total: u64)
        ensures
            total == ({
                let sum = self.blocked_globally + self.blocked_by_detector
                    + self.blocked_by_process;
                if sum <= u64::MAX {
                    sum
                } else {
                    u64::MAX as int
                }
            }),
    {
        self.blocked_globally.saturating_add(self.blocked_by_detector).saturating_add(
            self.blocked_by_process,
        )
    }

    /// Counts one block against the scope that caused it, and no other.
    pub fn record(&mut self, blocked: &Blocked)
        ensures
            !(blocked is DetectionDisabled) ==> final(self).blocked_globally
                == old(self).blocked_globally,
            !(blocked is DetectorDisabled) ==> final(self).blocked_by_detector
                == old(self).blocked_by_detector,
            !(blocked is SuppressedForProcess) ==> final(self).blocked_by_process
                == old(self).blocked_by_process,
            blocked is DetectionDisabled && old(self).blocked_globally < u64::MAX
                ==> final(self).blocked_globally == old(self).blocked_globally + 1,
            blocked is DetectorDisabled && old(self).blocked_by_detector < u64::MAX
                ==> final(self).blocked_by_detector == old(self).blocked_by_detector + 1,
            blocked is SuppressedForProcess && old(self).blocked_by_process < u64::MAX
                ==> final(self).blocked_by_process == old(self).blocked_by_process + 1,
            *final(self) == (match blocked {
                Blocked::DetectionDisabled => SuppressionCounters {
                    blocked_globally: one_more(old(self).blocked_globally),
                    ..*old(self)
                },
                Blocked::DetectorDisabled { .. } => SuppressionCounters {
                    blocked_by_detector: one_more(old(self).blocked_by_detector),
                    ..*old(self)
                },
                Blocked::SuppressedForProcess { .. } => SuppressionCounters {
                    blocked_by_process: one_more(old(self).blocked_by_process),
                    ..*old(self)
                },
            }),
    {
        match blocked {
            Blocked::DetectionDisabled => {
                self.blocked_globally = self.blocked_globally.saturating_add(1);
            },
            Blocked::DetectorDisabled { .. } => {
                self.blocked_by_detector = self.blocked_by_detector.saturating_add(1);
            },
            Blocked::SuppressedForProcess { .. } => {
                self.blocked_by_process = self.blocked_by_process.saturating_add(1);
            },
        }
    }
}

/// Daemon-wide tuning configuration.
#[derive(Debug, Clone, PartialEq)]
pub struct TuningConfig {
    /// Master switch. `true` produces no findings at all.
    pub detection_disabled: bool,
    /// Detectors disabled for every process, by wire name.
    pub disabled_detectors: OrderedMap<String, ()>,
    /// Per-process, per-detector suppressions, keyed by process then detector wire name.
    pub suppressions: OrderedMap<String, OrderedMap<String, Suppression>>,
    /// Per-process threshold overrides.
    pub thresholds: OrderedMap<String, ProcessThresholds>,
}

impl Default for TuningConfig {
    /// Everything enabled and nothing suppressed.
    fn default() -> (config: Self)
        ensures
            !config.detection_disabled,
            config.disabled_detectors@ == Map::<Seq<char>, ()>::empty(),
            config.suppressions@ == Map::<Seq<char>, OrderedMap<String, Suppression>>::empty(),
            config.thresholds@ == Map::<Seq<char>, ProcessThresholds>::empty(),
    {
        TuningConfig {
            detection_disabled: false,
            disabled_detectors: OrderedMap::new(),
            suppressions: OrderedMap::new(),
            thresholds: OrderedMap::new(),
        }
    }
}

/// The fallback of an unusable departure threshold, if it is one.
pub open spec fn departure_fallback(process: Seq<char>, value: Option<Figure>) -> Seq<FallbackView> {
    match value {
        Some(figure) => if figure.reading.finite() && Reading::of(0).below(figure.reading) {
            Seq::empty()
        } else {
            seq![
                FallbackView {
                    setting: "departure_z"@,
                    process: Some(process),
                    problem: if figure.reading.finite() {
                        figure.text@ + " is not positive"@
                    } else {
                        "not a finite number"@
                    },
                    applied: "3.5"@,
                },
            ]
        },
        None => Seq::empty(),
    }
}

/// The fallback of a sample requirement of zero, if it is zero.
pub open spec fn count_fallback(
    process: Seq<char>,
    setting: Seq<char>,
    value: Option<u32>,
    problem: Seq<char>,
    default: u32,
) -> Seq<FallbackView> {
    match value {
        Some(count) => if count > 0 {
            Seq::empty()
        } else {
            seq![
                FallbackView {
                    setting,
                    process: Some(process),
                    problem,
                    applied: decimal(default as nat),
                },
            ]
        },
        None => Seq::empty(),
    }
}

/// A configured requirement, or its default when it is absent or zero.
pub open spec fn usable_count(value: Option<u32>, default: u32) -> u32 {
    match value {
        Some(count) => if count > 0 {
            count
        } else {
            default
        },
        None => default,
    }
}

/// What fallbacks say.
pub open spec fn fallback_views(fallbacks: Seq<Fallback>) -> Seq<FallbackView> {
    fallbacks.map_values(|fallback: Fallback| fallback@)
}

fn push_fallback(
    fallbacks: &mut Vec<Fallback>,
    process: &str,
    setting: &str,
    problem: String,
    applied: String,
)
    ensures
        fallback_views(final(fallbacks)@) == fallback_views(old(fallbacks)@) + seq![
            FallbackView {
                setting: setting@,
                process: Some(process@),
                problem: problem@,
                applied: applied@,
            },
        ],
{
    fallbacks.push(
        Fallback {
            setting: setting.to_owned(),
            process: Some(process.to_owned()),
            problem,
            applied,
        },
    );
    assert(fallback_views(fallbacks@) =~= fallback_views(old(fallbacks)@) + seq![
        FallbackView {
            setting: setting@,
            process: Some(process@),
            problem: problem@,
            applied: applied@,
        },
    ]);
}

/// Applies a sample requirement, falling back to its default when it is zero.
fn resolve_count(
    fallbacks: &mut Vec<Fallback>,
    process: &str,
    setting: &str,
    value: Option<u32>,
    problem: &str,
    default: u32,
) -> (count: u32)
    ensures
        count == usable_count(value, default),
        fallback_views(final(fallbacks)@) == fallback_views(old(fallbacks)@) + count_fallback(
            process@,
            setting@,
            value,
            problem@,
            default,
        ),
{
    assert(fallback_views(fallbacks@) + Seq::<FallbackView>::empty() =~= fallback_views(
        fallbacks@,
    ));
    match value {
        Some(count) => if count > 0 {
            count
        } else {
            push_fallback(
                fallbacks,
                process,
                setting,
                problem.to_owned(),
                crate::text::decimal_text(default as u64),
            );
            default
        },
        None => default,
    }
}

impl TuningConfig {
    /// The suppression of a detector for a process.
    pub open spec fn suppression(&self, process: Seq<char>, detector: Seq<char>) -> Option<
        Suppression,
    > {
        if self.suppressions@.contains_key(process) && self.suppressions@[process]@.contains_key(
            detector,
        ) {
            Some(self.suppressions@[process]@[detector])
        } else {
            None
        }
    }

    /// Whether anything keeps a detector from running for a process.
    pub open spec fn blocks(&self, process: Seq<char>, detector: Seq<char>) -> bool {
        self.detection_disabled || self.disabled_detectors@.contains_key(detector)
            || self.suppression(process, detector) is Some
    }

    /// Whether a verdict is the right one: the widest scope that blocks is the one reported.
    pub open spec fn verdict(&self, process: Seq<char>, detector: Detector, gate: Gate) -> bool {
        if self.detection_disabled {
            gate == Gate::Blocked(Blocked::DetectionDisabled)
        } else if self.disabled_detectors@.contains_key(detector@.name) {
            gate == Gate::Blocked(Blocked::DetectorDisabled { detector })
        } else {
            match self.suppression(process, detector@.name) {
                Some(suppression) => {
                    gate matches Gate::Blocked(
                        Blocked::SuppressedForProcess { detector: named, process: scope, note },
                    ) && named == detector && scope@ == process && note == suppression.note
                },
                None => gate is Allowed,
            }
        }
    }

    /// The detectors disabled for every process, as a predicate.
    pub open spec fn disabled_everywhere(&self) -> spec_fn(Detector) -> bool {
        |detector: Detector| self.disabled_detectors@.contains_key(detector@.name)
    }

    /// The detectors that only a suppression for one process blocks, as a predicate.
    pub open spec fn suppressed_only_for(&self, process: Seq<char>) -> spec_fn(Detector) -> bool {
        |detector: Detector|
            !self.disabled_detectors@.contains_key(detector@.name) && self.suppression(
                process,
                detector@.name,
            ) is Some
    }

    /// The suppressions declared for a process, by detector. Empty when it has none.
    pub open spec fn declared_for(&self, process: Seq<char>) -> Map<Seq<char>, Suppression> {
        if self.suppressions@.contains_key(process) {
            self.suppressions@[process]@
        } else {
            Map::empty()
        }
    }

    /// Whether a process that is listed has a suppression to be listed for.
    pub open spec fn pruned(&self, process: Seq<char>) -> bool {
        self.suppressions@.contains_key(process) ==> self.declared_for(process) != Map::<
            Seq<char>,
            Suppression,
        >::empty()
    }

    /// Whether nothing but the suppressions of one process differs from another configuration.
    pub open spec fn differs_only_for(&self, other: &Self, process: Seq<char>) -> bool {
        &&& self.detection_disabled == other.detection_disabled
        &&& self.disabled_detectors == other.disabled_detectors
        &&& self.thresholds == other.thresholds
        &&& self.suppressions@.remove(process) == other.suppressions@.remove(process)
    }

    /// Whether two configurations say the same: the same switches and thresholds, the same
    /// processes listed, and the same suppressions declared for each.
    pub open spec fn says_the_same(&self, other: &Self) -> bool {
        &&& self.detection_disabled == other.detection_disabled
        &&& self.disabled_detectors == other.disabled_detectors
        &&& self.thresholds == other.thresholds
        &&& self.suppressions@.dom() == other.suppressions@.dom()
        &&& forall|p: Seq<char>| #[trigger]
            self.suppressions@.contains_key(p) ==> self.suppressions@[p]@
                == other.suppressions@[p]@
    }

    /// What suppressing a detector for a process makes of a configuration.
    pub open spec fn suppresses(
        &self,
        before: &Self,
        process: Seq<char>,
        detector: Seq<char>,
        suppression: Suppression,
    ) -> bool {
        &&& self.differs_only_for(before, process)
        &&& self.suppressions@.contains_key(process)
        &&& self.declared_for(process) == before.declared_for(process).insert(
            detector,
            suppression,
        )
    }

    /// What lifting a suppression makes of a configuration: a process left without suppressions is
    /// no longer listed.
    pub open spec fn lifts(&self, before: &Self, process: Seq<char>, detector: Seq<char>) -> bool {
        &&& self.differs_only_for(before, process)
        &&& self.declared_for(process) == before.declared_for(process).remove(detector)
        &&& self.pruned(process)
    }

    /// Whether `detector` may produce findings for `process`, and why not.
    pub fn gate(&self, process: &str, detector: &Detector) -> (gate: Gate)
        ensures
            self.verdict(process@, *detector, gate),
            gate is Allowed == !self.blocks(process@, detector@.name),
    {
        if self.detection_disabled {
            return Gate::Blocked(Blocked::DetectionDisabled);
        }
        let wire = detector.as_wire().to_owned();
        if self.disabled_detectors.contains(&wire) {
            return Gate::Blocked(Blocked::DetectorDisabled { detector: detector.clone() });
        }
        if let Some(per_detector) = self.suppressions.get(&process.to_owned()) {
            if let Some(suppression) = per_detector.get(&wire) {
                return Gate::Blocked(
                    Blocked::SuppressedForProcess {
                        detector: detector.clone(),
                        process: process.to_owned(),
                        note: copy_optional(&suppression.note),
                    },
                );
            }
        }
        Gate::Allowed
    }

    /// Every suppression in effect for one process, widest scope first: one entry for a
    /// daemon-wide disable, otherwise one for each detector disabled everywhere and then one for
    /// each that is suppressed for the process alone, each group in the order given.
    pub fn suppressions_for(&self, process: &str, detectors: &[Detector]) -> (found: Vec<Blocked>)
        ensures
            if self.detection_disabled {
                found@ == seq![Blocked::DetectionDisabled]
            } else {
                let wide = detectors@.filter(self.disabled_everywhere());
                let narrow = detectors@.filter(self.suppressed_only_for(process@));
                &&& found@.len() == (wide + narrow).len()
                &&& forall|i: int|
                    0 <= i < found@.len() ==> self.verdict(
                        process@,
                        (wide + narrow)[i],
                        Gate::Blocked(#[trigger] found@[i]),
                    )
                &&& forall|i: int|
                    0 <= i < found@.len() ==> (#[trigger] found@[i] is DetectorDisabled) == (i
                        < wide.len())
            },
    {
        let mut found: Vec<Blocked> = Vec::new();
        if self.detection_disabled {
            found.push(Blocked::DetectionDisabled);
            assert(found@ =~= seq![Blocked::DetectionDisabled]);
            return found;
        }
        let ghost everywhere = self.disabled_everywhere();
        let ghost alone = self.suppressed_only_for(process@);
        let ghost wide = detectors@.filter(everywhere);
        proof {
            lemma_filter_ends(detectors@, everywhere);
            lemma_filter_ends(detectors@, alone);
        }
        let mut i: usize = 0;
        while i < detectors.len()
            invariant
                i <= detectors.len(),
                !self.detection_disabled,
                everywhere == self.disabled_everywhere(),
                found@.len() == detectors@.take(i as int).filter(everywhere).len(),
                forall|j: int|
                    0 <= j < found@.len() ==> self.verdict(
                        process@,
                        detectors@.take(i as int).filter(everywhere)[j],
                        Gate::Blocked(#[trigger] found@[j]),
                    ) && found@[j] is DetectorDisabled,
            decreases detectors.len() - i,
        {
            proof {
                lemma_filter_step(detectors@, i as int, everywhere);
            }
            if let Gate::Blocked(reason) = self.gate(process, &detectors[i]) {
                if let Blocked::DetectorDisabled { .. } = &reason {
                    found.push(reason);
                }
            }
            i = i + 1;
        }
        let mut k: usize = 0;
        assert(wide + Seq::<Detector>::empty() =~= wide);
        while k < detectors.len()
            invariant
                k <= detectors.len(),
                !self.detection_disabled,
                alone == self.suppressed_only_for(process@),
                found@.len() == (wide + detectors@.take(k as int).filter(alone)).len(),
                forall|j: int|
                    0 <= j < found@.len() ==> self.verdict(
                        process@,
                        (wide + detectors@.take(k as int).filter(alone))[j],
                        Gate::Blocked(#[trigger] found@[j]),
                    ) && (found@[j] is DetectorDisabled) == (j < wide.len()),
            decreases detectors.len() - k,
        {
            proof {
                lemma_filter_step(detectors@, k as int, alone);
                assert(wide + detectors@.take(k as int).filter(alone).push(detectors@[k as int])
                    =~= (wide + detectors@.take(k as int).filter(alone)).push(
                    detectors@[k as int],
                ));
            }
            if let Gate::Blocked(reason) = self.gate(process, &detectors[k]) {
                if let Blocked::SuppressedForProcess { .. } = &reason {
                    found.push(reason);
                }
            }
            k = k + 1;
        }
        found
    }

    /// Whether a detector is blocked for a process.
    pub fn is_suppressed(&self, process: &str, detector: &Detector) -> (suppressed: bool)
        ensures
            suppressed == self.blocks(process@, detector@.name),
    {
        !self.gate(process, detector).is_allowed()
    }

    /// Suppresses one detector for one process.
    pub fn suppress(&mut self, process: &str, detector: &Detector, note: Option<String>)
        ensures
            final(self).suppresses(old(self), process@, detector@.name, (Suppression { note })),
            final(self).suppression(process@, detector@.name) == Some(Suppression { note }),
            forall|p: Seq<char>, d: Seq<char>|
                !(p == process@ && d == detector@.name) ==> #[trigger] final(self).suppression(p, d)
                    == old(self).suppression(p, d),
    {
        let name = process.to_owned();
        let mut per_detector = match self.suppressions.remove(&name) {
            Some(existing) => existing,
            None => OrderedMap::new(),
        };
        per_detector.insert(detector.as_wire().to_owned(), Suppression { note });
        self.suppressions.insert(name, per_detector);
        assert(self.suppressions@.remove(process@) =~= old(self).suppressions@.remove(process@));
    }

    /// Lifts a suppression. Reports whether one was in effect. A process left without suppressions
    /// is dropped from the configuration.
    pub fn unsuppress(&mut self, process: &str, detector: &Detector) -> (lifted: bool)
        ensures
            final(self).lifts(old(self), process@, detector@.name),
            lifted == (old(self).suppression(process@, detector@.name) is Some),
            final(self).suppression(process@, detector@.name) is None,
            forall|p: Seq<char>, d: Seq<char>|
                !(p == process@ && d == detector@.name) ==> #[trigger] final(self).suppression(p, d)
                    == old(self).suppression(p, d),
    {
        let name = process.to_owned();
        let mut per_detector = match self.suppressions.remove(&name) {
            Some(existing) => existing,
            None => {
                assert(self.declared_for(process@) =~= old(self).declared_for(process@).remove(
                    detector@.name,
                ));
                assert(self.suppressions@.remove(process@) =~= old(self).suppressions@.remove(
                    process@,
                ));
                return false;
            },
        };
        let lifted: bool = per_detector.remove(&detector.as_wire().to_owned()).is_some();
        let ghost left = per_detector@;
        if !per_detector.is_empty() {
            self.suppressions.insert(name, per_detector);
        }
        proof {
            assert(self.declared_for(process@) =~= left);
            assert(self.suppressions@.remove(process@) =~= old(self).suppressions@.remove(
                process@,
            ));
            assert forall|d: Seq<char>| d != detector@.name implies #[trigger] self.suppression(
                process@,
                d,
            ) == old(self).suppression(process@, d) by {
                assert(left.contains_key(d) == old(self).declared_for(process@).contains_key(d));
            }
        }
        lifted
    }

    /// Drops a process's tuning, for a delete.
    pub fn forget(&mut self, process: &str)
        ensures
            final(self).detection_disabled == old(self).detection_disabled,
            final(self).disabled_detectors == old(self).disabled_detectors,
            final(self).suppressions@ == old(self).suppressions@.remove(process@),
            final(self).thresholds@ == old(self).thresholds@.remove(process@),
    {
        let name = process.to_owned();
        let _ = self.suppressions.remove(&name);
        let _ = self.thresholds.remove(&name);
    }

    /// The overrides of a process, all absent when it has none.
    pub open spec fn overrides(&self, process: Seq<char>) -> ProcessThresholds {
        if self.thresholds@.contains_key(process) {
            self.thresholds@[process]
        } else {
            ProcessThresholds {
                departure_z: None,
                min_consecutive_samples: None,
                min_baseline_samples: None,
            }
        }
    }

    /// Whether resolved thresholds are those of a process: each configured value that is usable,
    /// the documented default for any other, and a fallback for each that is not.
    pub open spec fn resolves(&self, process: Seq<char>, resolved: ResolvedThresholds) -> bool {
        let overrides = self.overrides(process);
        &&& resolved.departure_z == (match overrides.departure_z {
            Some(figure) => if figure.reading.finite() && Reading::of(0).below(
                figure.reading,
            ) {
                figure.reading
            } else {
                Reading::of(DEFAULT_DEPARTURE_Z)
            },
            None => Reading::of(DEFAULT_DEPARTURE_Z),
        })
        &&& resolved.min_consecutive_samples == usable_count(
            overrides.min_consecutive_samples,
            DEFAULT_MIN_CONSECUTIVE_SAMPLES,
        )
        &&& resolved.min_baseline_samples == usable_count(
            overrides.min_baseline_samples,
            DEFAULT_MIN_BASELINE_SAMPLES,
        )
        &&& fallback_views(resolved.fallbacks@) == departure_fallback(
            process,
            overrides.departure_z,
        ) + count_fallback(
            process,
            "min_consecutive_samples"@,
            overrides.min_consecutive_samples,
            "0 would report on a single sample"@,
            DEFAULT_MIN_CONSECUTIVE_SAMPLES,
        ) + count_fallback(
            process,
            "min_baseline_samples"@,
            overrides.min_baseline_samples,
            "0 would fire against an unestablished baseline"@,
            DEFAULT_MIN_BASELINE_SAMPLES,
        )
    }

    /// Resolves thresholds for one process, applying documented defaults where a configured value
    /// is absent or unusable. Unusable values are reported.
    pub fn resolve_thresholds(&self, process: &str) -> (resolved: ResolvedThresholds)
        ensures
            self.resolves(process@, resolved),
            resolved.min_consecutive_samples > 0,
            resolved.min_baseline_samples > 0,
    {
        let overrides = match self.thresholds.get(&process.to_owned()) {
            Some(overrides) => overrides.clone(),
            None => ProcessThresholds::default(),
        };
        assert(overrides == self.overrides(process@));
        let mut fallbacks: Vec<Fallback> = Vec::new();
        assert(fallback_views(fallbacks@) =~= Seq::<FallbackView>::empty());
        let mut departure_z = Reading { bits: DEFAULT_DEPARTURE_Z };
        if let Some(figure) = &overrides.departure_z {
            if figure.reading.is_finite() && figure.reading.is_positive() {
                departure_z = figure.reading;
            } else {
                let problem = if figure.reading.is_finite() {
                    let mut text = figure.text.clone();
                    text.append(" is not positive");
                    text
                } else {
                    "not a finite number".to_owned()
                };
                push_fallback(&mut fallbacks, process, "departure_z", problem, "3.5".to_owned());
            }
        }
        assert(fallback_views(fallbacks@) =~= departure_fallback(process@, overrides.departure_z));
        let min_consecutive_samples = resolve_count(
            &mut fallbacks,
            process,
            "min_consecutive_samples",
            overrides.min_consecutive_samples,
            "0 would report on a single sample",
            DEFAULT_MIN_CONSECUTIVE_SAMPLES,
        );
        let min_baseline_samples = resolve_count(
            &mut fallbacks,
            process,
            "min_baseline_samples",
            overrides.min_baseline_samples,
            "0 would fire against an unestablished baseline",
            DEFAULT_MIN_BASELINE_SAMPLES,
        );
        ResolvedThresholds {
            departure_z,
            min_consecutive_samples,
            min_baseline_samples,
            fallbacks,
        }
    }
}

/// Suppressing a detector for a process blocks that pair, and every pair of another process or
/// another detector keeps its verdict.
pub proof fn suppression_is_scoped_to_its_pair(
    before: &TuningConfig,
    after: &TuningConfig,
    process: Seq<char>,
    detector: Seq<char>,
    other_process: Seq<char>,
    other: Detector,
    gate: Gate,
)
    requires
        after.detection_disabled == before.detection_disabled,
        after.disabled_detectors == before.disabled_detectors,
        after.suppression(process, detector) is Some,
        forall|p: Seq<char>, d: Seq<char>|
            !(p == process && d == detector) ==> #[trigger] after.suppression(p, d)
                == before.suppression(p, d),
        !(other_process == process && other@.name == detector),
    ensures
        after.blocks(process, detector),
        after.verdict(other_process, other, gate) == before.verdict(other_process, other, gate),
{
}

/// Lifting a suppression that was just declared gives back the configuration there was before it:
/// the same processes listed, the same suppressions, and so every verdict. A process that was
/// listed without a suppression is left out: lifting stops listing it.
pub proof fn lifting_undoes_suppressing(
    before: &TuningConfig,
    suppressed: &TuningConfig,
    lifted: &TuningConfig,
    process: Seq<char>,
    detector: Seq<char>,
    suppression: Suppression,
    any_process: Seq<char>,
    any: Detector,
    gate: Gate,
)
    requires
        before.suppression(process, detector) is None,
        before.pruned(process),
        suppressed.suppresses(before, process, detector, suppression),
        lifted.lifts(suppressed, process, detector),
    ensures
        suppressed.suppression(process, detector) == Some(suppression),
        lifted.says_the_same(before),
        lifted.verdict(any_process, any, gate) == before.verdict(any_process, any, gate),
{
    assert(lifted.declared_for(process) =~= before.declared_for(process));
    lemma_same_suppressions(lifted, before, process);
}

/// Lifting where nothing is suppressed changes nothing, so that lifting twice is lifting once.
pub proof fn lifting_nothing_changes_nothing(
    before: &TuningConfig,
    after: &TuningConfig,
    process: Seq<char>,
    detector: Seq<char>,
)
    requires
        before.suppression(process, detector) is None,
        before.pruned(process),
        after.lifts(before, process, detector),
    ensures
        after.says_the_same(before),
{
    assert(after.declared_for(process) =~= before.declared_for(process));
    lemma_same_suppressions(after, before, process);
}

proof fn lemma_same_suppressions(a: &TuningConfig, b: &TuningConfig, process: Seq<char>)
    requires
        a.differs_only_for(b, process),
        a.declared_for(process) == b.declared_for(process),
        a.pruned(process),
        b.pruned(process),
    ensures
        a.says_the_same(b),
        forall|p: Seq<char>, d: Seq<char>| #[trigger] a.suppression(p, d) == b.suppression(p, d),
{
    assert forall|p: Seq<char>| p != process implies #[trigger] a.suppressions@.contains_key(p)
        == b.suppressions@.contains_key(p) && (a.suppressions@.contains_key(p)
        ==> a.suppressions@[p] == b.suppressions@[p]) by {
        assert(a.suppressions@.remove(process).contains_key(p) == b.suppressions@.remove(
            process,
        ).contains_key(p));
        assert(a.suppressions@.contains_key(p) ==> a.suppressions@.remove(process)[p]
            == b.suppressions@.remove(process)[p]);
    }
    assert(a.suppressions@.dom() =~= b.suppressions@.dom());
}

/// Forgetting a process leaves the verdicts and thresholds of every other process as they were.
pub proof fn forgetting_a_process_keeps_the_others(
    before: &TuningConfig,
    after: &TuningConfig,
    process: Seq<char>,
    other: Seq<char>,
    detector: Detector,
    gate: Gate,
)
    requires
        other != process,
        after.detection_disabled == before.detection_disabled,
        after.disabled_detectors == before.disabled_detectors,
        after.suppressions@ == before.suppressions@.remove(process),
        after.thresholds@ == before.thresholds@.remove(process),
    ensures
        after.verdict(other, detector, gate) == before.verdict(other, detector, gate),
        after.overrides(other) == before.overrides(other),
        after.suppression(process, detector@.name) is None,
{
}

/// A configured sample requirement greater than zero is the resolved one, whatever the default is;
/// a zero or an absent one gives the documented default. A positive finite departure is the
/// resolved one too.
pub proof fn usable_values_are_applied_as_configured(
    config: &TuningConfig,
    process: Seq<char>,
    resolved: ResolvedThresholds,
)
    requires
        config.resolves(process, resolved),
        config.thresholds@.contains_key(process),
    ensures
        config.thresholds@[process].min_consecutive_samples matches Some(count) ==> (count > 0
            ==> resolved.min_consecutive_samples == count),
        config.thresholds@[process].min_baseline_samples matches Some(count) ==> (count > 0
            ==> resolved.min_baseline_samples == count),
        config.thresholds@[process].departure_z matches Some(figure) ==> (0 < figure.reading.bits
            < 0x7ff0_0000_0000_0000 ==> resolved.departure_z == figure.reading),
        config.thresholds@[process].min_consecutive_samples is None
            || config.thresholds@[process].min_consecutive_samples == Some(0u32)
            ==> resolved.min_consecutive_samples == 3,
        config.thresholds@[process].min_baseline_samples is None
            || config.thresholds@[process].min_baseline_samples == Some(0u32)
            ==> resolved.min_baseline_samples == 30,
        config.thresholds@[process].departure_z is None ==> resolved.departure_z.bits
            == 0x400c_0000_0000_0000,
        resolved.departure_z.finite() && resolved.departure_z.bits > 0
            && resolved.min_consecutive_samples > 0 && resolved.min_baseline_samples > 0,
{
}

/// Whether a fallback names a setting of a process.
pub open spec fn falls_back(
    resolved: ResolvedThresholds,
    process: Seq<char>,
    setting: Seq<char>,
) -> bool {
    exists|i: int|
        0 <= i < resolved.fallbacks@.len() && (#[trigger] resolved.fallbacks@[i])@.setting
            == setting && resolved.fallbacks@[i]@.process == Some(process)
}

/// Whenever the resolved value differs from a configured one, a fallback names that setting, and
/// no fallback names a setting whose configured value was applied.
pub proof fn a_replaced_value_is_reported(
    config: &TuningConfig,
    process: Seq<char>,
    resolved: ResolvedThresholds,
)
    requires
        config.resolves(process, resolved),
        config.thresholds@.contains_key(process),
    ensures
        config.thresholds@[process].min_consecutive_samples matches Some(count) ==> (
        resolved.min_consecutive_samples != count <==> falls_back(
            resolved,
            process,
            "min_consecutive_samples"@,
        )),
        config.thresholds@[process].min_baseline_samples matches Some(count) ==> (
        resolved.min_baseline_samples != count <==> falls_back(
            resolved,
            process,
            "min_baseline_samples"@,
        )),
        config.thresholds@[process].departure_z matches Some(figure) ==> (resolved.departure_z
            != figure.reading <==> falls_back(resolved, process, "departure_z"@)),
{
    reveal_strlit("departure_z");
    reveal_strlit("min_consecutive_samples");
    reveal_strlit("min_baseline_samples");
    assert("departure_z"@.len() == 11);
    assert("min_consecutive_samples"@.len() == 23);
    assert("min_baseline_samples"@.len() == 20);
    let overrides = config.overrides(process);
    let first = departure_fallback(process, overrides.departure_z);
    let second = count_fallback(
        process,
        "min_consecutive_samples"@,
        overrides.min_consecutive_samples,
        "0 would report on a single sample"@,
        DEFAULT_MIN_CONSECUTIVE_SAMPLES,
    );
    let third = count_fallback(
        process,
        "min_baseline_samples"@,
        overrides.min_baseline_samples,
        "0 would fire against an unestablished baseline"@,
        DEFAULT_MIN_BASELINE_SAMPLES,
    );
    let all = fallback_views(resolved.fallbacks@);
    assert(all == first + second + third);
    assert(forall|i: int|
        0 <= i < all.len() ==> all[i] == (#[trigger] resolved.fallbacks@[i])@);
    assert(forall|i: int| 0 <= i < first.len() ==> #[trigger] all[i] == first[i]);
    assert(forall|i: int|
        first.len() <= i < first.len() + second.len() ==> #[trigger] all[i] == second[i
            - first.len()]);
    assert(forall|i: int|
        first.len() + second.len() <= i < all.len() ==> #[trigger] all[i] == third[i - first.len()
            - second.len()]);
    if first.len() > 0 {
        assert(resolved.fallbacks@[0]@ == first[0]);
    }
    if second.len() > 0 {
        let i = first.len() as int;
        assert(all[i] == second[0]);
        assert(resolved.fallbacks@[i]@ == second[0]);
    }
    if third.len() > 0 {
        let i = (first.len() + second.len()) as int;
        assert(all[i] == third[0]);
        assert(resolved.fallbacks@[i]@ == third[0]);
    }
}

/// Thresholds without a fallback are those that were configured, and a process that configures
/// none has the documented defaults and nothing to report.
pub proof fn nothing_is_reported_without_a_reason(
    config: &TuningConfig,
    process: Seq<char>,
    resolved: ResolvedThresholds,
)
    requires
        config.resolves(process, resolved),
    ensures
        !config.thresholds@.contains_key(process) ==> resolved.fallbacks@.len() == 0
            && resolved.min_consecutive_samples == 3 && resolved.min_baseline_samples == 30
            && resolved.departure_z.bits == 0x400c_0000_0000_0000,
        config.thresholds@.contains_key(process) && resolved.fallbacks@.len() == 0
            && config.thresholds@[process].min_consecutive_samples is Some ==> Some(
            resolved.min_consecutive_samples,
        ) == config.thresholds@[process].min_consecutive_samples,
        config.thresholds@.contains_key(process) && resolved.fallbacks@.len() == 0
            && config.thresholds@[process].min_baseline_samples is Some ==> Some(
            resolved.min_baseline_samples,
        ) == config.thresholds@[process].min_baseline_samples,
{
    assert(fallback_views(resolved.fallbacks@).len() == resolved.fallbacks@.len());
}

/// A fallback says what was applied in place of the value: the resolved requirement, in decimal.
pub proof fn a_fallback_says_what_was_applied(
    config: &TuningConfig,
    process: Seq<char>,
    resolved: ResolvedThresholds,
    at: int,
)
    requires
        config.resolves(process, resolved),
        0 <= at < resolved.fallbacks@.len(),
    ensures
        resolved.fallbacks@[at]@.process == Some(process),
        resolved.fallbacks@[at]@.setting == "min_consecutive_samples"@
            ==> resolved.fallbacks@[at]@.applied == decimal(
            resolved.min_consecutive_samples as nat,
        ),
        resolved.fallbacks@[at]@.setting == "min_baseline_samples"@
            ==> resolved.fallbacks@[at]@.applied == decimal(resolved.min_baseline_samples as nat),
        resolved.fallbacks@[at]@.setting == "departure_z"@ ==> resolved.fallbacks@[at]@.applied
            == "3.5"@,
        resolved.fallbacks@[at]@.setting == "min_consecutive_samples"@
            || resolved.fallbacks@[at]@.setting == "min_baseline_samples"@
            || resolved.fallbacks@[at]@.setting == "departure_z"@,
{
    reveal_strlit("departure_z");
    reveal_strlit("min_consecutive_samples");
    reveal_strlit("min_baseline_samples");
    assert("departure_z"@.len() == 11);
    assert("min_consecutive_samples"@.len() == 23);
    assert("min_baseline_samples"@.len() == 20);
    let overrides = config.overrides(process);
    let first = departure_fallback(process, overrides.departure_z);
    let second = count_fallback(
        process,
        "min_consecutive_samples"@,
        overrides.min_consecutive_samples,
        "0 would report on a single sample"@,
        DEFAULT_MIN_CONSECUTIVE_SAMPLES,
    );
    let third = count_fallback(
        process,
        "min_baseline_samples"@,
        overrides.min_baseline_samples,
        "0 would fire against an unestablished baseline"@,
        DEFAULT_MIN_BASELINE_SAMPLES,
    );
    let all = fallback_views(resolved.fallbacks@);
    assert(all == first + second + third);
    assert(forall|i: int|
        0 <= i < all.len() ==> all[i] == (#[trigger] resolved.fallbacks@[i])@);
    assert(forall|i: int| 0 <= i < first.len() ==> #[trigger] all[i] == first[i]);
    assert(forall|i: int|
        first.len() <= i < first.len() + second.len() ==> #[trigger] all[i] == second[i
            - first.len()]);
    assert(forall|i: int|
        first.len() + second.len() <= i < all.len() ==> #[trigger] all[i] == third[i - first.len()
            - second.len()]);
    assert(all[at] == resolved.fallbacks@[at]@);
    assert(all.len() == first.len() + second.len() + third.len());
    if at < first.len() {
        assert(all[at] == first[at]);
    } else if at < first.len() + second.len() {
        assert(all[at] == second[at - first.len()]);
    } else {
        assert(all[at] == third[at - first.len() - second.len()]);
    }
}

/// A detector is kept from running by the widest scope that blocks it: the master switch, then the
/// detector's own, then a suppression for the process, whose note is passed on. Otherwise it runs.
pub proof fn the_widest_scope_blocks(
    config: &TuningConfig,
    process: Seq<char>,
    detector: Detector,
    gate: Gate,
)
    requires
        config.verdict(process, detector, gate),
    ensures
        config.detection_disabled <==> gate == Gate::Blocked(Blocked::DetectionDisabled),
        gate matches Gate::Blocked(Blocked::DetectorDisabled { detector: named })
            ==> named == detector,
        gate matches Gate::Blocked(Blocked::DetectorDisabled { detector: named })
            <==> !config.detection_disabled && config.disabled_detectors@.contains_key(
            detector@.name,
        ),
        gate is Allowed <==> !config.detection_disabled
            && !config.disabled_detectors@.contains_key(detector@.name) && !(
        config.suppressions@.contains_key(process) && config.suppressions@[process]@.contains_key(
            detector@.name,
        )),
        gate matches Gate::Blocked(
            Blocked::SuppressedForProcess { detector: named, process: scope, note },
        ) ==> named == detector && scope@ == process && note
            == config.suppressions@[process]@[detector@.name].note,
        gate is Allowed <==> !config.blocks(process, detector@.name),
{
}

/// Counting never wraps: one more is the next number, and the largest stays.
pub proof fn counting_stops_at_the_largest(count: u64)
    ensures
        count < 0xffff_ffff_ffff_ffff ==> one_more(count) == count + 1,
        count == 0xffff_ffff_ffff_ffff ==> one_more(count) == count,
{
}

/// The total is the sum of the three counts, and the largest number where that does not fit; a
/// block is named by its scope.
pub proof fn blocks_add_up(
    counters: &SuppressionCounters,
    total: u64,
    blocked: &Blocked,
    scope: &'static str,
)
    requires
        call_ensures(SuppressionCounters::total, (counters,), total),
        call_ensures(Blocked::scope, (blocked,), scope),
    ensures
        counters.blocked_globally + counters.blocked_by_detector + counters.blocked_by_process
            <= u64::MAX ==> total == counters.blocked_globally + counters.blocked_by_detector
            + counters.blocked_by_process,
        counters.blocked_globally + counters.blocked_by_detector + counters.blocked_by_process
            > u64::MAX ==> total == u64::MAX,
        blocked is DetectionDisabled ==> scope@ == "global"@,
        blocked is DetectorDisabled ==> scope@ == "detector"@,
        blocked is SuppressedForProcess ==> scope@ == "process"@,
{
}

/// A detector is suppressed for a process exactly when it is kept from running for it.
pub proof fn a_suppressed_detector_does_not_run(
    config: &TuningConfig,
    process: &str,
    detector: &Detector,
    gate: Gate,
    suppressed: bool,
    allowed: bool,
)
    requires
        call_ensures(TuningConfig::gate, (config, process, detector), gate),
        call_ensures(TuningConfig::is_suppressed, (config, process, detector), suppressed),
        call_ensures(Gate::is_allowed, (&gate,), allowed),
    ensures
        suppressed <==> gate is Blocked,
        allowed <==> !suppressed,
        config.detection_disabled ==> suppressed,
        config.disabled_detectors@.contains_key(detector@.name) ==> suppressed,
{
}

/// A listing of what is suppressed names each detector that is blocked, those blocked everywhere
/// first, and none that is not; a daemon with detection disabled lists that alone.
pub proof fn a_listing_names_what_is_blocked(
    config: &TuningConfig,
    process: &str,
    detectors: &[Detector],
    found: Vec<Blocked>,
    i: int,
    at: int,
)
    requires
        call_ensures(TuningConfig::suppressions_for, (config, process, detectors), found),
    ensures
        config.detection_disabled ==> found@.len() == 1 && found@[0] is DetectionDisabled,
        !config.detection_disabled && 0 <= i < found@.len() ==> !(found@[i] is DetectionDisabled),
        !config.detection_disabled && 0 <= i < at < found@.len() && found@[at] is DetectorDisabled
            ==> found@[i] is DetectorDisabled,
        !config.detection_disabled && 0 <= at < detectors@.len() && config.blocks(
            process@,
            detectors@[at]@.name,
        ) ==> found@.len() > 0,
{
    broadcast use vstd::seq_lib::group_filter_ensures;

    if !config.detection_disabled {
        let wide = detectors@.filter(config.disabled_everywhere());
        let narrow = detectors@.filter(config.suppressed_only_for(process@));
        if 0 <= i < found@.len() {
            assert(config.verdict(process@, (wide + narrow)[i], Gate::Blocked(found@[i])));
        }
        if 0 <= i < at < found@.len() {
            assert((found@[at] is DetectorDisabled) == (at < wide.len()));
            assert((found@[i] is DetectorDisabled) == (i < wide.len()));
        }
        if 0 <= at < detectors@.len() && config.blocks(process@, detectors@[at]@.name) {
            let one = detectors@[at];
            assert(detectors@.contains(one));
            if config.disabled_everywhere()(one) {
                assert(wide.contains(one));
            } else {
                assert(config.suppressed_only_for(process@)(one));
                assert(narrow.contains(one));
            }
        }
    }
}

/// A reason names what was blocked, and for whom where that is one process, with the operator's
/// note behind it.
pub proof fn a_reason_names_what_was_blocked(detector: Detector, process: String, note: String)
    ensures
        Blocked::DetectionDisabled.reason_text() == "detection is disabled"@,
        (Blocked::DetectorDisabled { detector }).reason_text() == "detector "@ + detector@.name
            + " is disabled"@,
        (Blocked::SuppressedForProcess { detector, process, note: None }).reason_text()
            == "detector "@ + detector@.name + " is suppressed for "@ + process@,
        (Blocked::SuppressedForProcess { detector, process, note: Some(note) }).reason_text()
            == "detector "@ + detector@.name + " is suppressed for "@ + process@ + ": "@ + note@,
{
}

/// A departure that cannot be used is reported with its problem: not finite, or not positive and
/// then as it was written.
pub proof fn an_unusable_departure_is_explained(process: Seq<char>, figure: Figure)
    ensures
        !figure.reading.finite() ==> departure_fallback(process, Some(figure)).len() == 1
            && departure_fallback(process, Some(figure))[0].problem == "not a finite number"@,
        figure.reading.finite() && (figure.reading.bits == 0 || figure.reading.bits
            >= 0x8000_0000_0000_0000) ==> departure_fallback(process, Some(figure)).len() == 1
            && departure_fallback(process, Some(figure))[0].problem == figure.text@
            + " is not positive"@,
        departure_fallback(process, None).len() == 0,
{
}

/// A fallback says for which setting, for whom and why it was applied, and what was.
pub proof fn a_fallback_says_why_it_was_applied(fallback: &Fallback, text: String)
    requires
        call_ensures(Fallback::reason, (fallback,), text),
    ensures
        fallback.process is None ==> text@ == fallback.setting@ + " is unusable ("@
            + fallback.problem@ + "); applied the default "@ + fallback.applied@,
        fallback.process matches Some(process) ==> text@ == fallback.setting@ + ": "@
            + fallback.setting@ + " for "@ + process@ + " is unusable ("@ + fallback.problem@
            + "); applied the default "@ + fallback.applied@,
{
}

/// A detector that is suppressed for a process alone is one that no wider scope blocks.
pub proof fn a_narrow_suppression_is_not_a_wide_one(
    config: &TuningConfig,
    process: Seq<char>,
    detector: Detector,
)
    ensures
        (config.suppressed_only_for(process))(detector) <==> !(config.disabled_everywhere())(
            detector,
        ) && config.suppressions@.contains_key(process)
            && config.suppressions@[process]@.contains_key(detector@.name),
        (config.disabled_everywhere())(detector) <==> config.disabled_detectors@.contains_key(
            detector@.name,
        ),
{
}

} // verus!
