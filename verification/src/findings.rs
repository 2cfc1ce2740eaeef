//! Findings: the evidence behind a condition, its lifecycle, and the registry that holds it.
//!
//! A finding is built only from evidence that can be checked by hand. The registry decides whether
//! an observation starts an episode or continues one: identity, start time and episode number never
//! move while a condition holds.

use crate::identity::{key_before, key_text, optional_text, KeyView};
use crate::numeric::{compact_duration, format_duration_compact};
use crate::ordered_map::{lemma_map_of_entry, sorted_by_key, OrderedKey, OrderedMap};
use crate::reading::{non_finite_name, Reading};
use crate::sequences::{lemma_filter_ends, lemma_filter_step};
use crate::text::{decimal, push_decimal, same_text, texts};
use vstd::prelude::*;

pub use crate::identity::{Detector, FindingKey, Metric};

verus! {

/// Why a finding could not be constructed.
#[derive(Debug, Clone, Copy, PartialEq, Eq)]
pub enum FindingError {
    /// No samples were referenced.
    NoSamples,
    /// A window that is not one, or a baseline that is not ready.
    InvalidWindow { reason: &'static str },
    /// A field that is compared or ranked is not finite.
    NonFinite { field: &'static str, value: Reading },
    /// A threshold that cannot be exceeded by a factor.
    NonPositiveThreshold { threshold: Reading },
}

impl FindingError {
    /// The message, in characters. `shown` is the printed form of a rejected threshold.
    pub open spec fn message_text(self, shown: Seq<char>) -> Seq<char> {
        match self {
            FindingError::NoSamples =>
                "evidence references no samples: a finding must name the samples it was derived from"@,
            FindingError::InvalidWindow { reason } => "evidence window is not a real window: "@
                + reason@,
            FindingError::NonFinite { field, value } => "evidence field `"@ + field@
                + "` is not finite: "@ + (if value.finite() {
                shown
            } else {
                non_finite_name(value)
            }),
            FindingError::NonPositiveThreshold { threshold } =>
                "evidence threshold must be positive, got "@ + shown,
        }
    }

    /// The message. `shown` is the printed form of the number that was rejected, for the errors
    /// that name a finite one.
    pub fn message(&self, shown: &str) -> (text: String)
        ensures
            text@ == self.message_text(shown@),
    {
        match self {
            FindingError::NoSamples => {
                "evidence references no samples: a finding must name the samples it was derived from".to_owned()
            },
            FindingError::InvalidWindow { reason } => {
                let mut text = "evidence window is not a real window: ".to_owned();
                text.append(reason);
                text
            },
            FindingError::NonFinite { field, value } => {
                let mut text = "evidence field `".to_owned();
                text.append(field);
                text.append("` is not finite: ");
                match value.non_finite_text() {
                    Some(name) => text.append(name),
                    None => text.append(shown),
                }
                text
            },
            FindingError::NonPositiveThreshold { threshold: _ } => {
                let mut text = "evidence threshold must be positive, got ".to_owned();
                text.append(shown);
                text
            },
        }
    }
}

/// Which way the metric moved relative to what was expected.
#[derive(Debug, Clone, Copy, PartialEq, Eq, PartialOrd, Ord, Hash, Structural)]
pub enum Direction {
    Above,
    Below,
}

/// The span of history a detector examined, in Unix seconds.
#[derive(Debug, Clone, Copy, PartialEq, Eq, Structural)]
pub struct EvidenceWindow {
    pub start_unix: u64,
    pub end_unix: u64,
    pub sample_count: u32,
}

/// One sample behind a finding.
#[derive(Debug, Clone, Copy, PartialEq, Eq, Structural)]
pub struct SampleRef {
    pub at_unix: u64,
    pub value: Reading,
}

impl SampleRef {
    pub fn new(at_unix: u64, value: Reading) -> (sample: Self)
        ensures
            sample.at_unix == at_unix,
            sample.value == value,
    {
        SampleRef { at_unix, value }
    }
}

/// The baseline state the comparison was made against.
#[derive(Debug, Clone, Copy, PartialEq, Eq, Structural)]
pub struct BaselineSummary {
    /// Robust centre.
    pub center: Reading,
    /// Robust spread.
    pub spread: Reading,
    /// Samples the baseline has observed.
    pub sample_count: u32,
    /// Samples required before the baseline is trusted.
    pub min_samples: u32,
}

impl BaselineSummary {
    /// Whether enough samples were observed, some being required at all.
    pub open spec fn ready(self) -> bool {
        self.min_samples > 0 && self.sample_count >= self.min_samples
    }

    /// Whether the baseline has observed enough samples to be trusted.
    pub fn is_ready(&self) -> (ready: bool)
        ensures
            ready == self.ready(),
    {
        self.min_samples > 0 && self.sample_count >= self.min_samples
    }
}

/// The fitted trend behind a leak or forecast.
#[derive(Debug, Clone, Copy, PartialEq, Eq)]
pub struct TrendFit {
    /// Slope in metric units per second.
    pub slope_per_second: Reading,
    /// How well the line describes the data, 0 to 1.
    pub fit_quality: Reading,
    /// Fraction of deltas that are non-negative. `None` when not computed.
    pub monotonicity_ratio: Option<Reading>,
    /// Standard error of the slope. `None` when not computed.
    pub slope_std_error: Option<Reading>,
}

/// What a forecast is conditional on.
#[derive(Debug, Clone, Copy, PartialEq, Eq, Structural)]
pub enum ForecastAssumption {
    /// The currently fitted trend continues unchanged.
    CurrentTrendContinues,
}

/// Time until the fitted trend would reach a threshold.
#[derive(Debug, Clone, Copy, PartialEq, Eq, Structural)]
pub struct ThresholdForecast {
    /// The threshold being approached, in metric units.
    pub threshold_value: Reading,
    /// Seconds until the fitted line reaches it.
    pub eta_seconds: Reading,
    /// `eta_seconds` in whole seconds: 0 for a negative one or one too large to be a duration.
    pub eta_whole_seconds: u64,
    /// Earliest and latest arrival across the prediction interval.
    pub interval_low_seconds: Reading,
    pub interval_high_seconds: Reading,
    pub assumes: ForecastAssumption,
}

/// How many consecutive samples agreed with the condition, against how many were required.
#[derive(Debug, Clone, Copy, PartialEq, Eq, Structural)]
pub struct Agreement {
    pub consecutive_samples: u32,
    pub required_samples: u32,
}

/// Everything needed to check a finding by hand.
#[derive(Debug, Clone, PartialEq)]
pub struct Evidence {
    /// The window of history examined.
    pub window: EvidenceWindow,
    /// The value the detector fired on, in metric units.
    pub observed: Reading,
    /// What was expected instead, in metric units.
    pub expected: Reading,
    /// The detector's own test statistic.
    pub statistic: Reading,
    /// The value of `statistic` at which the detector fires. Must be positive.
    pub threshold: Reading,
    /// Which way the metric moved, where that is meaningful.
    pub direction: Option<Direction>,
    /// Consecutive-sample agreement. `None` for a detector with no persistence requirement.
    pub agreement: Option<Agreement>,
    /// The baseline compared against. `None` for a detector that uses none.
    pub baseline: Option<BaselineSummary>,
    /// The fitted trend, where one applies.
    pub trend: Option<TrendFit>,
    /// Time-to-threshold, where the fit supports it.
    pub forecast: Option<ThresholdForecast>,
    /// The samples the finding rests on. Never empty in a finding.
    pub samples: Vec<SampleRef>,
    /// Detector-specific extras.
    pub extra: OrderedMap<String, Reading>,
}

/// The value of the first sample that is not finite.
pub open spec fn first_broken_sample(samples: Seq<SampleRef>) -> Option<Reading>
    decreases samples.len(),
{
    if samples.len() == 0 {
        None
    } else if !samples[0].value.finite() {
        Some(samples[0].value)
    } else {
        first_broken_sample(samples.drop_first())
    }
}

fn check_finite(field: &'static str, value: Reading) -> (outcome: Result<(), FindingError>)
    ensures
        outcome == (if value.finite() {
            Ok::<(), FindingError>(())
        } else {
            Err(FindingError::NonFinite { field, value })
        }),
{
    if value.is_finite() {
        Ok(())
    } else {
        Err(FindingError::NonFinite { field, value })
    }
}

impl Evidence {
    /// The first thing wrong with the evidence, in the order in which it is checked: samples,
    /// window, the compared values, the threshold, every sample, the trend, the forecast.
    pub open spec fn defect(self) -> Option<FindingError> {
        if self.samples@.len() == 0 {
            Some(FindingError::NoSamples)
        } else if self.window.sample_count == 0 {
            Some(FindingError::InvalidWindow { reason: "window covers no samples" })
        } else if self.window.end_unix < self.window.start_unix {
            Some(FindingError::InvalidWindow { reason: "window ends before it starts" })
        } else if !self.observed.finite() {
            Some(FindingError::NonFinite { field: "observed", value: self.observed })
        } else if !self.expected.finite() {
            Some(FindingError::NonFinite { field: "expected", value: self.expected })
        } else if !self.statistic.finite() {
            Some(FindingError::NonFinite { field: "statistic", value: self.statistic })
        } else if !self.threshold.finite() {
            Some(FindingError::NonFinite { field: "threshold", value: self.threshold })
        } else if !Reading::of(0).below(self.threshold) {
            Some(FindingError::NonPositiveThreshold { threshold: self.threshold })
        } else if first_broken_sample(self.samples@) is Some {
            Some(
                FindingError::NonFinite {
                    field: "samples[].value",
                    value: first_broken_sample(self.samples@)->0,
                },
            )
        } else if self.trend matches Some(trend) && !trend.slope_per_second.finite() {
            Some(
                FindingError::NonFinite {
                    field: "trend.slope_per_second",
                    value: self.trend->0.slope_per_second,
                },
            )
        } else if self.trend matches Some(trend) && !trend.fit_quality.finite() {
            Some(
                FindingError::NonFinite {
                    field: "trend.fit_quality",
                    value: self.trend->0.fit_quality,
                },
            )
        } else if self.forecast matches Some(forecast) && !forecast.eta_seconds.finite() {
            Some(
                FindingError::NonFinite {
                    field: "forecast.eta_seconds",
                    value: self.forecast->0.eta_seconds,
                },
            )
        } else {
            None
        }
    }

    /// Rejects evidence that cannot be checked by hand, naming the first defect.
    pub fn validate(&self) -> (outcome: Result<(), FindingError>)
        ensures
            match self.defect() {
                None => outcome is Ok,
                Some(defect) => outcome == Err::<(), FindingError>(defect),
            },
    {
        if self.samples.len() == 0 {
            return Err(FindingError::NoSamples);
        }
        if self.window.sample_count == 0 {
            return Err(FindingError::InvalidWindow { reason: "window covers no samples" });
        }
        if self.window.end_unix < self.window.start_unix {
            return Err(FindingError::InvalidWindow { reason: "window ends before it starts" });
        }
        check_finite("observed", self.observed)?;
        check_finite("expected", self.expected)?;
        check_finite("statistic", self.statistic)?;
        check_finite("threshold", self.threshold)?;
        if !self.threshold.is_positive() {
            return Err(FindingError::NonPositiveThreshold { threshold: self.threshold });
        }
        assert(self.samples@.subrange(0, self.samples@.len() as int) =~= self.samples@);
        let mut i: usize = 0;
        while i < self.samples.len()
            invariant
                i <= self.samples.len(),
                first_broken_sample(self.samples@) == first_broken_sample(
                    self.samples@.subrange(i as int, self.samples@.len() as int),
                ),
                self.defect() == Some(
                    FindingError::NonFinite {
                        field: "samples[].value",
                        value: first_broken_sample(self.samples@)->0,
                    },
                ) || first_broken_sample(self.samples@) is None,
            decreases self.samples.len() - i,
        {
            assert(self.samples@.subrange(i as int, self.samples@.len() as int).drop_first()
                =~= self.samples@.subrange(i + 1, self.samples@.len() as int));
            check_finite("samples[].value", self.samples[i].value)?;
            i = i + 1;
        }
        if let Some(trend) = &self.trend {
            check_finite("trend.slope_per_second", trend.slope_per_second)?;
            check_finite("trend.fit_quality", trend.fit_quality)?;
        }
        if let Some(forecast) = &self.forecast {
            check_finite("forecast.eta_seconds", forecast.eta_seconds)?;
        }
        Ok(())
    }
}

/// The named terms behind a confidence score, each in 0..=1. A term that does not apply to the
/// detector is absent rather than zero.
#[derive(Debug, Clone, Copy, PartialEq, Eq)]
pub struct ConfidenceTerms {
    /// How far past threshold the statistic sat.
    pub exceedance: Reading,
    /// Consecutive agreement against what was required.
    pub agreement: Option<Reading>,
    /// Baseline samples against the minimum.
    pub maturity: Option<Reading>,
    /// Fit quality of the trend.
    pub fit: Option<Reading>,
}

/// A confidence score in 0..=1 with the terms that produced it.
#[derive(Debug, Clone, Copy, PartialEq, Eq)]
pub struct Confidence {
    /// The score.
    pub score: Reading,
    /// The contributing terms.
    pub terms: ConfidenceTerms,
}

/// What each confidence term of a finding is computed from. A ratio that does not apply is absent,
/// so that it is left out of the weighted mean instead of being scored zero.
#[derive(Debug, Clone, Copy, PartialEq, Eq)]
pub struct ConfidenceBasis {
    /// The statistic and the threshold it is divided by.
    pub exceedance: (Reading, Reading),
    /// Agreeing and required samples, when some were required.
    pub agreement: Option<(u32, u32)>,
    /// Observed and required baseline samples, when there is a baseline that requires some.
    pub maturity: Option<(u32, u32)>,
    /// The trend's fit quality, when one was fitted.
    pub fit: Option<Reading>,
}

impl ConfidenceBasis {
    /// Selects the inputs of the confidence score from evidence.
    pub fn from_evidence(evidence: &Evidence) -> (basis: Self)
        ensures
            basis.exceedance == (evidence.statistic, evidence.threshold),
            basis.agreement == (match evidence.agreement {
                Some(agreement) => if agreement.required_samples == 0 {
                    None
                } else {
                    Some((agreement.consecutive_samples, agreement.required_samples))
                },
                None => None,
            }),
            basis.maturity == (match evidence.baseline {
                Some(baseline) => if baseline.min_samples == 0 {
                    None
                } else {
                    Some((baseline.sample_count, baseline.min_samples))
                },
                None => None,
            }),
            basis.fit == (match evidence.trend {
                Some(trend) => Some(trend.fit_quality),
                None => None,
            }),
    {
        let agreement = match &evidence.agreement {
            Some(agreement) => if agreement.required_samples == 0 {
                None
            } else {
                Some((agreement.consecutive_samples, agreement.required_samples))
            },
            None => None,
        };
        let maturity = match &evidence.baseline {
            Some(baseline) => if baseline.min_samples == 0 {
                None
            } else {
                Some((baseline.sample_count, baseline.min_samples))
            },
            None => None,
        };
        let fit = match &evidence.trend {
            Some(trend) => Some(trend.fit_quality),
            None => None,
        };
        ConfidenceBasis {
            exceedance: (evidence.statistic, evidence.threshold),
            agreement,
            maturity,
            fit,
        }
    }
}

/// Numeric equality of optional readings: both absent, or both present and numerically equal.
pub open spec fn optional_equal(a: Option<Reading>, b: Option<Reading>) -> bool {
    match (a, b) {
        (None, None) => true,
        (Some(x), Some(y)) => x.equal(y),
        _ => false,
    }
}

fn optional_same(a: Option<Reading>, b: Option<Reading>) -> (same: bool)
    ensures
        same == optional_equal(a, b),
{
    match (a, b) {
        (None, None) => true,
        (Some(x), Some(y)) => x.is_equal(y),
        _ => false,
    }
}

impl Confidence {
    /// Numeric equality of the score and of every term.
    pub open spec fn agrees(self, other: Self) -> bool {
        &&& self.score.equal(other.score)
        &&& self.terms.exceedance.equal(other.terms.exceedance)
        &&& optional_equal(self.terms.agreement, other.terms.agreement)
        &&& optional_equal(self.terms.maturity, other.terms.maturity)
        &&& optional_equal(self.terms.fit, other.terms.fit)
    }

    /// Whether two confidences are numerically equal, term by term.
    pub fn agrees_with(&self, other: &Self) -> (agrees: bool)
        ensures
            agrees == self.agrees(*other),
    {
        self.score.is_equal(other.score) && self.terms.exceedance.is_equal(other.terms.exceedance)
            && optional_same(self.terms.agreement, other.terms.agreement) && optional_same(
            self.terms.maturity,
            other.terms.maturity,
        ) && optional_same(self.terms.fit, other.terms.fit)
    }
}

/// Where a finding is in its lifecycle.
#[derive(Debug, Clone, Copy, PartialEq, Eq, Structural)]
pub enum FindingStatus {
    /// The condition holds now.
    Active,
    /// The condition no longer holds.
    Cleared,
}

/// A single finding: one condition, one episode.
#[derive(Debug, Clone, PartialEq)]
pub struct Finding {
    /// The key's text, `#`, and the occurrence.
    pub id: String,
    /// The stable identity of the underlying condition.
    pub key: FindingKey,
    /// Which episode of this condition, from 1.
    pub occurrence: u32,
    pub status: FindingStatus,
    /// When this episode was first raised.
    pub raised_at_unix: u64,
    /// When the condition was last observed to hold.
    pub last_seen_unix: u64,
    /// When the condition stopped holding. `None` while active.
    pub cleared_at_unix: Option<u64>,
    /// How many evaluations have observed this episode.
    pub observation_count: u32,
    pub confidence: Confidence,
    /// The evidence from the most recent observation.
    pub evidence: Evidence,
    /// A short operator-facing sentence.
    pub summary: Option<String>,
}

/// The identifier of an episode.
pub open spec fn episode_id(key: KeyView, occurrence: u32) -> Seq<char> {
    key_text(key) + "#"@ + decimal(occurrence as nat)
}

impl Finding {
    /// Whether the condition holds now.
    pub open spec fn active(self) -> bool {
        self.status == FindingStatus::Active
    }

    /// A finding whose condition has ended at the given time, or at its last observation if later.
    pub open spec fn ended(self, at_unix: u64) -> Finding {
        Finding {
            status: FindingStatus::Cleared,
            cleared_at_unix: Some(
                if at_unix >= self.last_seen_unix {
                    at_unix
                } else {
                    self.last_seen_unix
                },
            ),
            ..self
        }
    }

    /// A finding whose condition was observed once more.
    pub open spec fn continued(
        self,
        at_unix: u64,
        evidence: Evidence,
        confidence: Confidence,
    ) -> Finding {
        Finding {
            last_seen_unix: if at_unix >= self.last_seen_unix {
                at_unix
            } else {
                self.last_seen_unix
            },
            observation_count: if self.observation_count < u32::MAX {
                (self.observation_count + 1) as u32
            } else {
                u32::MAX
            },
            confidence,
            evidence,
            ..self
        }
    }

    /// Starts a builder. `confidence` is the score derived from the evidence.
    pub fn builder(
        key: FindingKey,
        at_unix: u64,
        evidence: Evidence,
        confidence: Confidence,
    ) -> (builder: FindingBuilder)
        ensures
            builder == (FindingBuilder {
                key,
                at_unix,
                evidence,
                confidence,
                occurrence: 1,
                summary: None,
            }),
    {
        FindingBuilder { key, at_unix, evidence, confidence, occurrence: 1, summary: None }
    }

    /// Whether the condition holds now.
    pub fn is_active(&self) -> (active: bool)
        ensures
            active == self.active(),
    {
        match self.status {
            FindingStatus::Active => true,
            FindingStatus::Cleared => false,
        }
    }

    /// Whether this is a further episode of its condition.
    pub fn is_recurrence(&self) -> (recurrence: bool)
        ensures
            recurrence == (self.occurrence > 1),
    {
        self.occurrence > 1
    }

    /// Seconds the condition has been held, from raise to last observation.
    pub fn duration_seconds(&self) -> (seconds: u64)
        ensures
            seconds == (if self.last_seen_unix >= self.raised_at_unix {
                self.last_seen_unix - self.raised_at_unix
            } else {
                0
            }),
    {
        self.last_seen_unix.saturating_sub(self.raised_at_unix)
    }

    /// Whether the stored confidence is the one recomputed from the carried evidence.
    pub fn confidence_is_reproducible(&self, recomputed: &Confidence) -> (reproducible: bool)
        ensures
            reproducible == recomputed.agrees(self.confidence),
    {
        recomputed.agrees_with(&self.confidence)
    }

    fn clear(&mut self, at_unix: u64)
        ensures
            *final(self) == old(self).ended(at_unix),
    {
        let last_seen_unix: u64 = self.last_seen_unix;
        self.status = FindingStatus::Cleared;
        self.cleared_at_unix = Some(
            if at_unix >= last_seen_unix {
                at_unix
            } else {
                last_seen_unix
            },
        );
    }

    fn hold(&mut self, at_unix: u64, evidence: Evidence, confidence: Confidence)
        ensures
            *final(self) == old(self).continued(at_unix, evidence, confidence),
    {
        if at_unix >= self.last_seen_unix {
            self.last_seen_unix = at_unix;
        }
        self.observation_count = self.observation_count.saturating_add(1);
        self.confidence = confidence;
        self.evidence = evidence;
    }
}

/// Builds a [`Finding`], validating the evidence.
#[derive(Debug)]
pub struct FindingBuilder {
    pub key: FindingKey,
    pub at_unix: u64,
    pub evidence: Evidence,
    pub confidence: Confidence,
    pub occurrence: u32,
    pub summary: Option<String>,
}

/// Why a builder would refuse: the evidence is defective, or it rests on a baseline that is not
/// ready. Evidence without a baseline is not baseline-derived and passes.
pub open spec fn build_defect(evidence: Evidence) -> Option<FindingError> {
    if evidence.defect() is Some {
        evidence.defect()
    } else if evidence.baseline matches Some(baseline) && !baseline.ready() {
        Some(
            FindingError::InvalidWindow {
                reason: "baseline is not ready: no baseline-dependent finding may be raised",
            },
        )
    } else {
        None
    }
}

impl FindingBuilder {
    /// Sets the episode number, which is at least 1.
    pub fn occurrence(self, occurrence: u32) -> (builder: Self)
        ensures
            builder == (FindingBuilder {
                occurrence: if occurrence == 0 {
                    1
                } else {
                    occurrence
                },
                ..self
            }),
    {
        FindingBuilder {
            occurrence: if occurrence == 0 {
                1
            } else {
                occurrence
            },
            ..self
        }
    }

    /// Sets the operator-facing sentence.
    pub fn summary(self, summary: String) -> (builder: Self)
        ensures
            builder == (FindingBuilder { summary: Some(summary), ..self }),
    {
        FindingBuilder { summary: Some(summary), ..self }
    }

    /// What the builder produces from sound evidence.
    pub open spec fn produces(self, finding: Finding) -> bool {
        &&& finding.id@ == episode_id(self.key@, self.occurrence)
        &&& finding == Finding {
            id: finding.id,
            key: self.key,
            occurrence: self.occurrence,
            status: FindingStatus::Active,
            raised_at_unix: self.at_unix,
            last_seen_unix: self.at_unix,
            cleared_at_unix: None,
            observation_count: 1,
            confidence: self.confidence,
            evidence: self.evidence,
            summary: self.summary,
        }
    }

    /// Validates the evidence and produces the finding.
    pub fn build(self) -> (outcome: Result<Finding, FindingError>)
        ensures
            match build_defect(self.evidence) {
                Some(defect) => outcome == Err::<Finding, FindingError>(defect),
                None => outcome matches Ok(finding) && self.produces(finding),
            },
    {
        match self.evidence.validate() {
            Err(error) => {
                return Err(error);
            },
            Ok(()) => {},
        }
        if let Some(baseline) = &self.evidence.baseline {
            if !baseline.is_ready() {
                return Err(
                    FindingError::InvalidWindow {
                        reason: "baseline is not ready: no baseline-dependent finding may be raised",
                    },
                );
            }
        }
        let mut id = self.key.as_string();
        id.append("#");
        push_decimal(&mut id, self.occurrence as u64);
        Ok(
            Finding {
                id,
                key: self.key,
                occurrence: self.occurrence,
                status: FindingStatus::Active,
                raised_at_unix: self.at_unix,
                last_seen_unix: self.at_unix,
                cleared_at_unix: None,
                observation_count: 1,
                confidence: self.confidence,
                evidence: self.evidence,
                summary: self.summary,
            },
        )
    }
}

/// No finding carries evidence that fails validation or rests on an unready baseline.
pub proof fn built_findings_carry_sound_evidence(builder: FindingBuilder, finding: Finding)
    requires
        build_defect(builder.evidence) is None,
        builder.produces(finding),
    ensures
        finding.evidence.defect() is None,
        finding.evidence.samples@.len() > 0,
        finding.evidence.baseline matches Some(baseline) ==> baseline.ready(),
{
}

/// What an observation did to the registry.
#[derive(Debug, PartialEq, Eq)]
pub enum Transition {
    /// A first episode of this condition.
    Raised { id: String },
    /// A further episode after the previous one cleared.
    ReRaised { id: String, occurrence: u32 },
    /// The same condition observed again.
    Held { id: String },
    /// The condition stopped holding.
    Cleared { id: String },
}

impl Transition {
    /// The finding id this transition concerns, in characters.
    pub open spec fn episode(self) -> Seq<char> {
        match self {
            Transition::Raised { id } => id@,
            Transition::ReRaised { id, occurrence } => id@,
            Transition::Held { id } => id@,
            Transition::Cleared { id } => id@,
        }
    }

    /// The finding id this transition concerns.
    pub fn id(&self) -> (id: &str)
        ensures
            id@ == self.episode(),
    {
        match self {
            Transition::Raised { id } => id.as_str(),
            Transition::ReRaised { id, occurrence: _ } => id.as_str(),
            Transition::Held { id } => id.as_str(),
            Transition::Cleared { id } => id.as_str(),
        }
    }

    /// Whether this transition started an episode, first or repeat.
    pub fn is_new_episode(&self) -> (fresh: bool)
        ensures
            fresh == (self is Raised || self is ReRaised),
    {
        match self {
            Transition::Raised { id: _ } => true,
            Transition::ReRaised { id: _, occurrence: _ } => true,
            _ => false,
        }
    }
}

/// Removes every entry that concerns a process, and says how many there were.
fn drop_process<V>(map: &mut OrderedMap<FindingKey, V>, process: &str) -> (dropped: usize)
    ensures
        old(map)@.dom().finite(),
        dropped == old(map)@.len() - final(map)@.len(),
        final(map)@ == without_process(old(map)@, process@),
        sorted_by_key(final(map).listed()),
{
    let count: usize = map.len();
    let mut i: usize = 0;
    let ghost before = map@;
    while i < map.len()
        invariant
            i <= map.listed().len() <= count,
            count == old(map)@.len(),
            old(map)@.dom().finite(),
            before == old(map)@,
            forall|k: KeyView| #[trigger]
                map@.contains_key(k) ==> before.contains_key(k) && map@[k] == before[k],
            forall|k: KeyView| #[trigger]
                before.contains_key(k) && k.process != process@ ==> map@.contains_key(k),
            forall|j: int| 0 <= j < i ==> (#[trigger] map.listed()[j]).0@.process != process@,
        decreases map.listed().len() - i,
    {
        let (key, _value) = map.entry_at(i);
        if same_text(key.process.as_str(), process) {
            let _ = map.remove_at(i);
        } else {
            i = i + 1;
        }
    }
    let kept: usize = map.len();
    proof {
        assert forall|k: KeyView| #[trigger] map@.contains_key(k) implies k.process != process@ by {
            let j = choose|j: int| 0 <= j < map.listed().len() && (#[trigger] map.listed()[j]).0@ == k;
            assert(map.listed()[j].0@.process != process@);
        }
        assert(map@ =~= without_process(before, process@));
    }
    count - kept
}

/// The part of a map that does not concern a process.
pub open spec fn without_process<V>(map: Map<KeyView, V>, process: Seq<char>) -> Map<KeyView, V> {
    map.restrict(Set::new(|k: KeyView| k.process != process))
}

/// Holds findings across evaluations and applies the raise, hold and clear lifecycle.
///
/// The number of episodes of a key outlives each episode, so a condition that recurs long after
/// clearing is still numbered as a recurrence.
#[derive(Debug, Clone)]
pub struct FindingRegistry {
    findings: OrderedMap<FindingKey, Finding>,
    occurrences: OrderedMap<FindingKey, u32>,
}

/// Findings in which the condition of one process holds.
pub open spec fn active_of(process: Seq<char>) -> spec_fn(Finding) -> bool {
    |finding: Finding| finding.active() && finding.key.process@ == process
}

/// Findings whose condition holds.
pub open spec fn active_any() -> spec_fn(Finding) -> bool {
    |finding: Finding| finding.active()
}

/// Whether a key is among some keys.
pub open spec fn names_key(keys: Seq<FindingKey>, key: KeyView) -> bool {
    exists|i: int| 0 <= i < keys.len() && (#[trigger] keys[i])@ == key
}

/// Active findings of a process whose condition was not reported as still holding.
pub open spec fn stale_of(process: Seq<char>, holding: Seq<FindingKey>) -> spec_fn(Finding) -> bool {
    |finding: Finding|
        finding.active() && finding.key.process@ == process && !names_key(holding, finding.key@)
}

impl FindingRegistry {
    /// The findings held, by key.
    pub closed spec fn held(&self) -> Map<KeyView, Finding> {
        self.findings@
    }

    /// How many episodes each key has had.
    pub closed spec fn episodes(&self) -> Map<KeyView, u32> {
        self.occurrences@
    }

    /// The findings held, in key order.
    pub closed spec fn listed(&self) -> Seq<Finding> {
        Seq::new(self.findings.listed().len(), |i: int| self.findings.listed()[i].1)
    }

    /// Every finding is stored under its own key, is the latest episode of that key, and carries
    /// the id that names the episode.
    pub open spec fn numbered(&self) -> bool {
        forall|k: KeyView| #[trigger]
            self.held().contains_key(k) ==> {
                &&& self.held()[k].key@ == k
                &&& self.episodes().contains_key(k)
                &&& self.episodes()[k] >= 1
                &&& self.held()[k].occurrence == self.episodes()[k]
                &&& self.held()[k].id@ == episode_id(k, self.episodes()[k])
            }
    }

    /// The findings are numbered, and listing them shows each once, in key order.
    pub open spec fn wf(&self) -> bool {
        self.numbered() && lists(self.listed(), self.held())
    }

    /// How many episodes a key has had.
    pub open spec fn episode_count(&self, key: KeyView) -> u32 {
        if self.episodes().contains_key(key) {
            self.episodes()[key]
        } else {
            0
        }
    }

    /// The number of the episode that the next raise of a key starts.
    pub open spec fn next_episode(&self, key: KeyView) -> u32 {
        if self.episode_count(key) < u32::MAX {
            (self.episode_count(key) + 1) as u32
        } else {
            u32::MAX
        }
    }

    /// Whether the condition of a key holds now.
    pub open spec fn holds(&self, key: KeyView) -> bool {
        self.held().contains_key(key) && self.held()[key].active()
    }

    /// An empty registry.
    pub fn new() -> (registry: Self)
        ensures
            registry.wf(),
            registry.held() == Map::<KeyView, Finding>::empty(),
            registry.episodes() == Map::<KeyView, u32>::empty(),
            registry.listed() == Seq::<Finding>::empty(),
    {
        let registry = FindingRegistry {
            findings: OrderedMap::new(),
            occurrences: OrderedMap::new(),
        };
        assert(registry.listed() =~= Seq::<Finding>::empty());
        assert(registry.held() =~= Map::<KeyView, Finding>::empty());
        registry
    }

    /// Records that a condition holds, and reports what that did.
    ///
    /// A sighting while active holds: identity, start and episode number stay, the rest is
    /// refreshed. Any other sighting raises the next episode. Unusable evidence is an error and
    /// changes nothing.
    pub fn observe(
        &mut self,
        key: FindingKey,
        at_unix: u64,
        evidence: Evidence,
        confidence: Confidence,
    ) -> (outcome: Result<Transition, FindingError>)
        requires
            old(self).wf(),
        ensures
            final(self).wf(),
            outcome is Err ==> final(self).held() == old(self).held() && final(self).episodes()
                == old(self).episodes(),
            old(self).holds(key@) ==> match evidence.defect() {
                Some(defect) => outcome == Err::<Transition, FindingError>(defect),
                None => {
                    &&& outcome matches Ok(Transition::Held { id }) && id@
                        == old(self).held()[key@].id@
                    &&& final(self).held() == old(self).held().insert(
                        key@,
                        old(self).held()[key@].continued(at_unix, evidence, confidence),
                    )
                    &&& final(self).episodes() == old(self).episodes()
                },
            },
            outcome is Ok ==> final(self).holds(key@) && final(self).held()[key@].evidence
                == evidence && final(self).held()[key@].confidence == confidence
                && final(self).held()[key@].last_seen_unix >= at_unix,
            outcome is Ok && !old(self).holds(key@) ==> final(self).held()[key@].raised_at_unix
                == at_unix && final(self).held()[key@].observation_count == 1,
            forall|k: KeyView|
                k != key@ ==> #[trigger] final(self).held().contains_key(k)
                    == old(self).held().contains_key(k) && final(self).held()[k]
                    == old(self).held()[k],
            !old(self).holds(key@) ==> match build_defect(evidence) {
                Some(defect) => outcome == Err::<Transition, FindingError>(defect),
                None => {
                    let occurrence = old(self).next_episode(key@);
                    &&& final(self).held().contains_key(key@)
                    &&& (FindingBuilder {
                        key: final(self).held()[key@].key,
                        at_unix,
                        evidence,
                        confidence,
                        occurrence,
                        summary: None,
                    }).produces(final(self).held()[key@])
                    &&& final(self).held() == old(self).held().insert(
                        key@,
                        final(self).held()[key@],
                    )
                    &&& final(self).episodes() == old(self).episodes().insert(key@, occurrence)
                    &&& if occurrence > 1 {
                        outcome matches Ok(Transition::ReRaised { id, occurrence: episode })
                            && episode == occurrence && id@ == episode_id(key@, occurrence)
                    } else {
                        outcome matches Ok(Transition::Raised { id }) && id@ == episode_id(
                            key@,
                            occurrence,
                        )
                    }
                },
            },
    {
        if let Some(i) = self.findings.position(&key) {
            let active: bool = self.findings.entry_at(i).1.is_active();
            if active {
                match evidence.validate() {
                    Err(error) => {
                        return Err(error);
                    },
                    Ok(()) => {},
                }
                let mut finding = self.findings.remove_at(i);
                let id = finding.id.clone();
                finding.hold(at_unix, evidence, confidence);
                self.findings.insert(key, finding);
                assert(self.findings@ =~= old(self).findings@.insert(
                    key@,
                    old(self).held()[key@].continued(at_unix, evidence, confidence),
                ));
                proof {
                    lemma_lists(self);
                }
                return Ok(Transition::Held { id });
            }
        }
        let previous: u32 = match self.occurrences.get(&key) {
            Some(count) => *count,
            None => 0,
        };
        let occurrence: u32 = previous.saturating_add(1);
        let finding = match Finding::builder(key.clone(), at_unix, evidence, confidence).occurrence(
            occurrence,
        ).build() {
            Ok(finding) => finding,
            Err(error) => {
                return Err(error);
            },
        };
        let id = finding.id.clone();
        self.occurrences.insert(key.clone(), occurrence);
        self.findings.insert(key, finding);
        proof {
            lemma_lists(self);
        }
        if occurrence > 1 {
            Ok(Transition::ReRaised { id, occurrence })
        } else {
            Ok(Transition::Raised { id })
        }
    }

    /// Records that a condition no longer holds. `None` when there was nothing active to clear.
    pub fn clear(&mut self, key: &FindingKey, at_unix: u64) -> (cleared: Option<Transition>)
        requires
            old(self).wf(),
        ensures
            final(self).wf(),
            final(self).episodes() == old(self).episodes(),
            !final(self).holds(key@),
            old(self).holds(key@) ==> (final(self).held()[key@].cleared_at_unix matches Some(at)
                && at >= at_unix && at >= old(self).held()[key@].last_seen_unix && (at == at_unix
                || at == old(self).held()[key@].last_seen_unix)),
            if old(self).holds(key@) {
                &&& cleared matches Some(Transition::Cleared { id }) && id@
                    == old(self).held()[key@].id@
                &&& final(self).held() == old(self).held().insert(
                    key@,
                    old(self).held()[key@].ended(at_unix),
                )
            } else {
                &&& cleared is None
                &&& final(self).held() == old(self).held()
            },
    {
        let i: usize = match self.findings.position(key) {
            Some(i) => i,
            None => {
                return None;
            },
        };
        let active: bool = self.findings.entry_at(i).1.is_active();
        if !active {
            return None;
        }
        let mut finding = self.findings.remove_at(i);
        let id = finding.id.clone();
        finding.clear(at_unix);
        self.findings.insert(key.clone(), finding);
        assert(self.findings@ =~= old(self).findings@.insert(
            key@,
            old(self).held()[key@].ended(at_unix),
        ));
        proof {
            lemma_lists(self);
        }
        Some(Transition::Cleared { id })
    }

    /// Drops every finding of a process and its episode history. Returns how many findings went.
    pub fn clear_process(&mut self, process: &str) -> (dropped: usize)
        requires
            old(self).wf(),
        ensures
            final(self).wf(),
            forall|k: KeyView| #[trigger]
                final(self).held().contains_key(k) <==> old(self).held().contains_key(k)
                    && k.process != process@,
            final(self).held() == without_process(old(self).held(), process@),
            final(self).episodes() == without_process(old(self).episodes(), process@),
            old(self).held().dom().finite(),
            dropped == old(self).held().len() - final(self).held().len(),
    {
        let dropped = drop_process(&mut self.findings, process);
        let _ = drop_process(&mut self.occurrences, process);
        proof {
            lemma_lists(self);
        }
        dropped
    }

    /// Forgets cleared findings that cleared at or before a time, leaving their episode counts.
    /// Returns how many findings went.
    pub fn forget_cleared(&mut self, before_unix: u64) -> (dropped: usize)
        requires
            old(self).wf(),
        ensures
            final(self).wf(),
            forall|k: KeyView| #[trigger]
                final(self).held().contains_key(k) <==> old(self).held().contains_key(k) && !(
                old(self).held()[k].cleared_at_unix matches Some(at) && at <= before_unix),
            final(self).episodes() == old(self).episodes(),
            final(self).held() == old(self).held().restrict(
                Set::new(|k: KeyView| outlasts(old(self).held()[k], before_unix)),
            ),
            old(self).held().dom().finite(),
            dropped == old(self).held().len() - final(self).held().len(),
    {
        let count: usize = self.findings.len();
        let mut i: usize = 0;
        let ghost before = self.held();
        while i < self.findings.len()
            invariant
                i <= self.findings.listed().len() <= count,
                before == old(self).held(),
                old(self).wf(),
                count == old(self).held().len(),
                old(self).held().dom().finite(),
                self.episodes() == old(self).episodes(),
                forall|k: KeyView| #[trigger]
                    self.findings@.contains_key(k) ==> before.contains_key(k) && self.findings@[k]
                        == before[k],
                forall|k: KeyView| #[trigger]
                    before.contains_key(k) && outlasts(before[k], before_unix)
                        ==> self.findings@.contains_key(k),
                forall|j: int|
                    0 <= j < i ==> outlasts((#[trigger] self.findings.listed()[j]).1, before_unix),
            decreases self.findings.listed().len() - i,
        {
            let (_key, finding) = self.findings.entry_at(i);
            let expired: bool = match finding.cleared_at_unix {
                Some(cleared_at) => cleared_at <= before_unix,
                None => false,
            };
            if expired {
                let _ = self.findings.remove_at(i);
            } else {
                i = i + 1;
            }
        }
        let kept: usize = self.findings.len();
        proof {
            assert forall|k: KeyView| #[trigger] self.findings@.contains_key(k) implies outlasts(
                before[k],
                before_unix,
            ) by {
                let j = choose|j: int|
                    0 <= j < self.findings.listed().len() && (
                    #[trigger] self.findings.listed()[j]).0@ == k;
                lemma_map_of_entry(self.findings.listed(), j);
            }
            assert(self.held() =~= before.restrict(
                Set::new(|k: KeyView| outlasts(before[k], before_unix)),
            ));
            lemma_lists(self);
        }
        count - kept
    }

    /// The finding for a key, active or cleared.
    pub fn get(&self, key: &FindingKey) -> (found: Option<&Finding>)
        ensures
            match found {
                Some(finding) => self.held().contains_key(key@) && self.held()[key@] == *finding,
                None => !self.held().contains_key(key@),
            },
    {
        self.findings.get(key)
    }

    /// How many episodes a key has had, including the current one.
    pub fn occurrence_count(&self, key: &FindingKey) -> (count: u32)
        ensures
            count == self.episode_count(key@),
    {
        match self.occurrences.get(key) {
            Some(count) => *count,
            None => 0,
        }
    }

    /// Every active finding, in key order.
    pub fn active(&self) -> (found: Vec<&Finding>)
        ensures
            refer_to(found@, self.listed().filter(active_any())),
    {
        let mut found: Vec<&Finding> = Vec::new();
        let mut i: usize = 0;
        proof {
            lemma_filter_ends(self.listed(), active_any());
        }
        while i < self.findings.len()
            invariant
                i <= self.findings.listed().len(),
                refer_to(found@, self.listed().take(i as int).filter(active_any())),
            decreases self.findings.listed().len() - i,
        {
            proof {
                lemma_filter_step(self.listed(), i as int, active_any());
            }
            let (_key, finding) = self.findings.entry_at(i);
            if finding.is_active() {
                found.push(finding);
            }
            i = i + 1;
        }
        found
    }

    /// Every active finding for one process, in key order.
    pub fn active_for(&self, process: &str) -> (found: Vec<&Finding>)
        ensures
            refer_to(found@, self.listed().filter(active_of(process@))),
    {
        let mut found: Vec<&Finding> = Vec::new();
        let mut i: usize = 0;
        proof {
            lemma_filter_ends(self.listed(), active_of(process@));
        }
        while i < self.findings.len()
            invariant
                i <= self.findings.listed().len(),
                refer_to(found@, self.listed().take(i as int).filter(active_of(process@))),
            decreases self.findings.listed().len() - i,
        {
            proof {
                lemma_filter_step(self.listed(), i as int, active_of(process@));
            }
            let (_key, finding) = self.findings.entry_at(i);
            if finding.is_active() && same_text(finding.key.process.as_str(), process) {
                found.push(finding);
            }
            i = i + 1;
        }
        found
    }

    /// Every finding held, active or cleared, in key order.
    pub fn all(&self) -> (found: Vec<&Finding>)
        ensures
            refer_to(found@, self.listed()),
    {
        let mut found: Vec<&Finding> = Vec::new();
        let mut i: usize = 0;
        while i < self.findings.len()
            invariant
                i <= self.findings.listed().len(),
                refer_to(found@, self.listed().take(i as int)),
            decreases self.findings.listed().len() - i,
        {
            assert(self.listed().take(i + 1) =~= self.listed().take(i as int).push(
                self.listed()[i as int],
            ));
            found.push(self.findings.entry_at(i).1);
            i = i + 1;
        }
        assert(self.listed().take(i as int) =~= self.listed());
        found
    }

    /// Clears every active finding of a process whose key is not in `still_holding`, and reports
    /// each, in key order.
    pub fn sweep(
        &mut self,
        process: &str,
        still_holding: &[FindingKey],
        at_unix: u64,
    ) -> (cleared: Vec<Transition>)
        requires
            old(self).wf(),
        ensures
            final(self).wf(),
            final(self).episodes() == old(self).episodes(),
            final(self).held() == swept(
                old(self).held(),
                stale_of(process@, still_holding@),
                at_unix,
            ),
            reports_cleared(
                cleared@,
                old(self).listed().filter(stale_of(process@, still_holding@)),
            ),
    {
        let mut stale: Vec<FindingKey> = Vec::new();
        let ghost wanted = stale_of(process@, still_holding@);
        let ghost before = self.listed();
        let mut i: usize = 0;
        proof {
            lemma_filter_ends(before, wanted);
        }
        while i < self.findings.len()
            invariant
                i <= self.findings.listed().len(),
                before == self.listed(),
                wanted == stale_of(process@, still_holding@),
                *self == *old(self),
                stale@.len() == before.take(i as int).filter(wanted).len(),
                forall|j: int|
                    0 <= j < stale@.len() ==> (#[trigger] stale@[j])@ == before.take(
                        i as int,
                    ).filter(wanted)[j].key@,
            decreases self.findings.listed().len() - i,
        {
            proof {
                lemma_filter_step(before, i as int, wanted);
            }
            let (_key, finding) = self.findings.entry_at(i);
            if finding.is_active() && same_text(finding.key.process.as_str(), process)
                && !contains_key(still_holding, &finding.key) {
                stale.push(finding.key.clone());
            }
            i = i + 1;
        }
        let ghost selected = before.filter(wanted);
        proof {
            lemma_registry_selection(self, wanted);
        }
        let mut cleared: Vec<Transition> = Vec::new();
        let mut j: usize = 0;
        while j < stale.len()
            invariant
                j <= stale.len(),
                self.wf(),
                self.episodes() == old(self).episodes(),
                selected == old(self).listed().filter(wanted),
                stale@.len() == selected.len(),
                forall|m: int|
                    0 <= m < stale@.len() ==> (#[trigger] stale@[m])@ == selected[m].key@,
                registry_selects(old(self), wanted, selected),
                forall|k: KeyView| #[trigger]
                    self.held().contains_key(k) == old(self).held().contains_key(k),
                forall|k: KeyView| #[trigger]
                    old(self).held().contains_key(k) ==> self.held()[k] == (if exists|m: int|
                        0 <= m < j && #[trigger] selected[m].key@ == k {
                        old(self).held()[k].ended(at_unix)
                    } else {
                        old(self).held()[k]
                    }),
                wanted == stale_of(process@, still_holding@),
                reports_cleared(cleared@, selected.take(j as int)),
            decreases stale.len() - j,
        {
            let ghost earlier = *self;
            let ghost key = stale@[j as int]@;
            proof {
                assert(selected[j as int].key@ == key);
                assert(old(self).held().contains_key(key));
                if exists|m: int| 0 <= m < j && #[trigger] selected[m].key@ == key {
                    let m = choose|m: int| 0 <= m < j && #[trigger] selected[m].key@ == key;
                    assert(false);
                }
            }
            let transition = self.clear(&stale[j], at_unix);
            if let Some(transition) = transition {
                cleared.push(transition);
            }
            proof {
                assert forall|k: KeyView| #[trigger]
                    old(self).held().contains_key(k) implies self.held()[k] == (if exists|m: int|
                    0 <= m < j + 1 && #[trigger] selected[m].key@ == k {
                    old(self).held()[k].ended(at_unix)
                } else {
                    old(self).held()[k]
                }) by {
                    if k != key {
                        if exists|m: int| 0 <= m < j + 1 && #[trigger] selected[m].key@ == k {
                            let m = choose|m: int|
                                0 <= m < j + 1 && #[trigger] selected[m].key@ == k;
                            assert(m != j);
                            assert(0 <= m < j && selected[m].key@ == k);
                        }
                        assert(self.held()[k] == earlier.held()[k]);
                    } else {
                        assert(0 <= j < j + 1 && selected[j as int].key@ == k);
                    }
                }
                assert(selected.take(j + 1) =~= selected.take(j as int).push(selected[j as int]));
            }
            j = j + 1;
        }
        proof {
            assert(selected.take(j as int) =~= selected);
            let target = swept(old(self).held(), wanted, at_unix);
            assert forall|k: KeyView| #[trigger]
                self.held().contains_key(k) implies self.held()[k] == target[k] by {
                assert(old(self).held().contains_key(k));
            }
            assert(self.held() =~= target);
        }
        cleared
    }
}

/// Not cleared at or before a time.
pub open spec fn outlasts(finding: Finding, before_unix: u64) -> bool {
    finding.cleared_at_unix matches Some(at) ==> at > before_unix
}

/// Whether every reference is to the finding at the same place of a sequence.
pub open spec fn refer_to(found: Seq<&Finding>, listed: Seq<Finding>) -> bool {
    &&& found.len() == listed.len()
    &&& forall|i: int| 0 <= i < found.len() ==> *(#[trigger] found[i]) == listed[i]
}

/// The findings of a map, those selected being ended.
pub open spec fn swept(
    held: Map<KeyView, Finding>,
    stale: spec_fn(Finding) -> bool,
    at_unix: u64,
) -> Map<KeyView, Finding> {
    Map::new(
        |k: KeyView| held.contains_key(k),
        |k: KeyView|
            if stale(held[k]) {
                held[k].ended(at_unix)
            } else {
                held[k]
            },
    )
}

/// One `Cleared` transition for each finding, in order.
pub open spec fn reports_cleared(cleared: Seq<Transition>, findings: Seq<Finding>) -> bool {
    &&& cleared.len() == findings.len()
    &&& forall|i: int|
        0 <= i < cleared.len() ==> (#[trigger] cleared[i] matches Transition::Cleared { id } && id@
            == findings[i].id@)
}

/// A selection holds each selected finding of the registry once.
spec fn registry_selects(
    registry: &FindingRegistry,
    wanted: spec_fn(Finding) -> bool,
    selected: Seq<Finding>,
) -> bool {
    &&& forall|m: int|
        0 <= m < selected.len() ==> registry.held().contains_key(
            (#[trigger] selected[m]).key@,
        ) && registry.held()[selected[m].key@] == selected[m] && wanted(selected[m])
    &&& forall|m: int, n: int|
        0 <= m < n < selected.len() ==> (#[trigger] selected[m]).key@ != (
        #[trigger] selected[n]).key@
    &&& forall|k: KeyView| #[trigger]
        registry.held().contains_key(k) && wanted(registry.held()[k]) ==> exists|m: int|
            0 <= m < selected.len() && #[trigger] selected[m].key@ == k
}

proof fn lemma_registry_selection(registry: &FindingRegistry, wanted: spec_fn(Finding) -> bool)
    requires
        registry.wf(),
        sorted_by_key(registry.findings.listed()),
    ensures
        registry_selects(registry, wanted, registry.listed().filter(wanted)),
{
    let entries = registry.findings.listed();
    let listed = registry.listed();
    assert forall|i: int| 0 <= i < listed.len() implies registry.held().contains_key(
        (#[trigger] listed[i]).key@,
    ) && registry.held()[listed[i].key@] == listed[i] && listed[i].key@ == entries[i].0@ by {
        lemma_map_of_entry(entries, i);
        assert(registry.held().contains_key(entries[i].0@));
    }
    lemma_filter_keeps_distinct(listed, wanted);
    assert forall|k: KeyView| #[trigger]
        registry.held().contains_key(k) && wanted(registry.held()[k]) implies exists|m: int|
        0 <= m < listed.filter(wanted).len() && #[trigger] listed.filter(wanted)[m].key@ == k by {
        let i = choose|i: int| 0 <= i < entries.len() && (#[trigger] entries[i]).0@ == k;
        assert(listed[i].key@ == k);
        broadcast use vstd::seq_lib::group_filter_ensures;
        assert(listed.filter(wanted).contains(listed[i]));
    }
    assert forall|m: int, n: int| 0 <= m < n < listed.len() implies (#[trigger] listed[m]).key@
        != (#[trigger] listed[n]).key@ by {
        FindingKey::order_laws(entries[m].0@, entries[m].0@, entries[m].0@);
        assert(key_before(entries[m].0@, entries[n].0@));
    }
}

/// Findings in strictly increasing key order.
pub open spec fn keys_in_order(listed: Seq<Finding>) -> bool {
    forall|i: int, j: int|
        0 <= i < j < listed.len() ==> key_before((#[trigger] listed[i]).key@, (
        #[trigger] listed[j]).key@)
}

/// Whether a sequence shows each finding of a map once, in key order.
pub open spec fn lists(listed: Seq<Finding>, held: Map<KeyView, Finding>) -> bool {
    &&& keys_in_order(listed)
    &&& forall|i: int|
        0 <= i < listed.len() ==> held.contains_key((#[trigger] listed[i]).key@)
            && held[listed[i].key@] == listed[i]
    &&& forall|k: KeyView| #[trigger]
        held.contains_key(k) ==> exists|i: int|
            0 <= i < listed.len() && #[trigger] listed[i].key@ == k
}

proof fn lemma_lists(registry: &FindingRegistry)
    requires
        registry.numbered(),
        sorted_by_key(registry.findings.listed()),
    ensures
        lists(registry.listed(), registry.held()),
{
    let entries = registry.findings.listed();
    let listed = registry.listed();
    assert forall|i: int| 0 <= i < listed.len() implies registry.held().contains_key(
        (#[trigger] listed[i]).key@,
    ) && registry.held()[listed[i].key@] == listed[i] && listed[i].key@ == entries[i].0@ by {
        lemma_map_of_entry(entries, i);
        assert(registry.held().contains_key(entries[i].0@));
    }
    assert forall|i: int, j: int| 0 <= i < j < listed.len() implies key_before(
        (#[trigger] listed[i]).key@,
        (#[trigger] listed[j]).key@,
    ) by {
        assert(key_before(entries[i].0@, entries[j].0@));
    }
    assert forall|k: KeyView| #[trigger] registry.held().contains_key(k) implies exists|i: int|
        0 <= i < listed.len() && #[trigger] listed[i].key@ == k by {
        let i = choose|i: int| 0 <= i < entries.len() && (#[trigger] entries[i]).0@ == k;
        assert(listed[i].key@ == k);
    }
}

/// Two listings of the same findings agree wherever both reach.
proof fn lemma_listings_agree(
    a: Seq<Finding>,
    b: Seq<Finding>,
    held: Map<KeyView, Finding>,
    count: int,
)
    requires
        lists(a, held),
        lists(b, held),
        0 <= count <= a.len(),
        count <= b.len(),
    ensures
        forall|i: int| 0 <= i < count ==> a[i] == b[i],
    decreases count,
{
    if count > 0 {
        let i = count - 1;
        lemma_listings_agree(a, b, held, i);
        let p = a[i].key@;
        let q = b[i].key@;
        let in_b = choose|j: int| 0 <= j < b.len() && #[trigger] b[j].key@ == p;
        let in_a = choose|j: int| 0 <= j < a.len() && #[trigger] a[j].key@ == q;
        FindingKey::order_laws(p, q, p);
        FindingKey::order_laws(q, p, q);
        if in_b < i {
            assert(a[in_b] == b[in_b]);
            assert(key_before(a[in_b].key@, a[i].key@));
        }
        if in_a < i {
            assert(a[in_a] == b[in_a]);
            assert(key_before(b[in_a].key@, b[i].key@));
        }
        if in_b > i && in_a > i {
            assert(key_before(b[i].key@, b[in_b].key@));
            assert(key_before(a[i].key@, a[in_a].key@));
        }
        assert(p == q);
        assert(held[p] == a[i] && held[q] == b[i]);
    }
}

/// What is held decides how it is listed: two registries that hold the same findings list them in
/// the same order.
pub proof fn equal_registries_list_alike(a: &FindingRegistry, b: &FindingRegistry)
    requires
        a.wf(),
        b.wf(),
        a.held() == b.held(),
    ensures
        a.listed() == b.listed(),
{
    let s = a.listed();
    let t = b.listed();
    let shorter = if s.len() <= t.len() {
        s.len() as int
    } else {
        t.len() as int
    };
    lemma_listings_agree(s, t, a.held(), shorter);
    if s.len() < t.len() {
        let k = t[shorter].key@;
        FindingKey::order_laws(k, k, k);
        let i = choose|i: int| 0 <= i < s.len() && #[trigger] s[i].key@ == k;
        assert(key_before(t[i].key@, t[shorter].key@));
    }
    if t.len() < s.len() {
        let k = s[shorter].key@;
        FindingKey::order_laws(k, k, k);
        let i = choose|i: int| 0 <= i < t.len() && #[trigger] t[i].key@ == k;
        assert(key_before(s[i].key@, s[shorter].key@));
    }
    assert(s =~= t);
}

/// Holding a finding never changes what it is: its id, key, episode number, start and status stay.
pub proof fn holding_keeps_identity(
    finding: Finding,
    at_unix: u64,
    evidence: Evidence,
    confidence: Confidence,
)
    ensures
        finding.continued(at_unix, evidence, confidence).id == finding.id,
        finding.continued(at_unix, evidence, confidence).key == finding.key,
        finding.continued(at_unix, evidence, confidence).occurrence == finding.occurrence,
        finding.continued(at_unix, evidence, confidence).raised_at_unix == finding.raised_at_unix,
        finding.continued(at_unix, evidence, confidence).status == finding.status,
        finding.continued(at_unix, evidence, confidence).last_seen_unix >= finding.last_seen_unix,
{
}

/// Once a condition has been cleared it no longer holds, so that clearing it again does nothing,
/// and the next sighting of it is numbered as a recurrence.
pub proof fn a_cleared_condition_recurs_as_a_new_episode(
    before: &FindingRegistry,
    after: &FindingRegistry,
    key: KeyView,
    at_unix: u64,
)
    requires
        before.wf(),
        before.holds(key),
        after.held() == before.held().insert(key, before.held()[key].ended(at_unix)),
        after.episodes() == before.episodes(),
    ensures
        !after.holds(key),
        after.next_episode(key) > 1,
        before.episode_count(key) < u32::MAX ==> after.next_episode(key)
            == before.held()[key].occurrence + 1,
{
}

/// A condition never seen before starts at episode 1.
pub proof fn a_first_sighting_is_episode_one(registry: &FindingRegistry, key: KeyView)
    requires
        !registry.episodes().contains_key(key),
    ensures
        registry.next_episode(key) == 1,
{
}

/// Deleting a process forgets its episode counts, so that a later process of the same name starts
/// at episode 1, and leaves what concerns every other process as it was.
pub proof fn deletion_forgets_one_process_only(
    before: &FindingRegistry,
    after: &FindingRegistry,
    process: Seq<char>,
    key: KeyView,
)
    requires
        after.held() == without_process(before.held(), process),
        after.episodes() == without_process(before.episodes(), process),
    ensures
        key.process == process ==> !after.held().contains_key(key) && after.next_episode(key) == 1,
        key.process != process ==> after.held().contains_key(key) == before.held().contains_key(key)
            && (before.held().contains_key(key) ==> after.held()[key] == before.held()[key])
            && after.next_episode(key) == before.next_episode(key),
{
}

/// A sweep ends the stale findings of its process and leaves every other finding as it was.
pub proof fn a_sweep_is_scoped_to_its_process(
    held: Map<KeyView, Finding>,
    process: Seq<char>,
    holding: Seq<FindingKey>,
    at_unix: u64,
    key: KeyView,
)
    requires
        held.contains_key(key),
        held[key].key@ == key,
        key.process != process || names_key(holding, key) || !held[key].active(),
    ensures
        swept(held, stale_of(process, holding), at_unix).contains_key(key),
        swept(held, stale_of(process, holding), at_unix)[key] == held[key],
{
}

/// Filtering a sequence of findings keeps only its elements, that satisfy the predicate, and keeps
/// distinct keys distinct.
proof fn lemma_filter_keeps_distinct(listed: Seq<Finding>, wanted: spec_fn(Finding) -> bool)
    ensures
        forall|m: int|
            0 <= m < listed.filter(wanted).len() ==> wanted(#[trigger] listed.filter(wanted)[m])
                && listed.contains(listed.filter(wanted)[m]),
        (forall|m: int, n: int|
            0 <= m < n < listed.len() ==> (#[trigger] listed[m]).key@ != (
            #[trigger] listed[n]).key@) ==> (forall|m: int, n: int|
            0 <= m < n < listed.filter(wanted).len() ==> (
            #[trigger] listed.filter(wanted)[m]).key@ != (#[trigger] listed.filter(
                wanted,
            )[n]).key@),
    decreases listed.len(),
{
    reveal(Seq::filter);
    if listed.len() > 0 {
        let rest = listed.drop_last();
        lemma_filter_keeps_distinct(rest, wanted);
        assert forall|m: int| 0 <= m < listed.filter(wanted).len() implies wanted(
            #[trigger] listed.filter(wanted)[m],
        ) && listed.contains(listed.filter(wanted)[m]) by {
            if m < rest.filter(wanted).len() {
                let x = rest.filter(wanted)[m];
                assert(rest.contains(x));
                let i = choose|i: int| 0 <= i < rest.len() && rest[i] == x;
                assert(listed[i] == x);
            } else {
                assert(listed[listed.len() - 1] == listed.last());
            }
        }
        if forall|m: int, n: int|
            0 <= m < n < listed.len() ==> (#[trigger] listed[m]).key@ != (
            #[trigger] listed[n]).key@ {
            assert forall|m: int, n: int| 0 <= m < n < rest.len() implies (
            #[trigger] rest[m]).key@ != (#[trigger] rest[n]).key@ by {
                assert(listed[m].key@ != listed[n].key@);
            }
            assert forall|m: int, n: int| 0 <= m < n < listed.filter(wanted).len() implies (
            #[trigger] listed.filter(wanted)[m]).key@ != (#[trigger] listed.filter(
                wanted,
            )[n]).key@ by {
                let kept = rest.filter(wanted);
                if n < kept.len() {
                    assert(kept[m].key@ != kept[n].key@);
                } else {
                    assert(rest.contains(kept[m]));
                    let i = choose|i: int| 0 <= i < rest.len() && rest[i] == kept[m];
                    assert(listed[i].key@ != listed[listed.len() - 1].key@);
                }
            }
        }
    }
}

/// Whether a key is among some keys.
fn contains_key(keys: &[FindingKey], key: &FindingKey) -> (found: bool)
    ensures
        found == names_key(keys@, key@),
{
    let mut i: usize = 0;
    while i < keys.len()
        invariant
            i <= keys.len(),
            forall|j: int| 0 <= j < i ==> (#[trigger] keys@[j])@ != key@,
        decreases keys.len() - i,
    {
        if keys[i].same(key) {
            return true;
        }
        i = i + 1;
    }
    false
}

/// The steps offered to an operator for a leak.
pub open spec fn leak_steps(forecast: Option<ThresholdForecast>) -> Seq<Seq<char>> {
    seq![
        "Growth is monotonic and well-fitted, which distinguishes a leak from load: load falls back, a leak does not."@,
        "Compare against a restart — if usage returns to its old level and climbs again at the same rate, it is retention rather than demand."@,
        match forecast {
            Some(forecast) => if forecast.eta_seconds.finite() {
                "At the current rate the configured limit is reached in about "@ + compact_duration(
                    forecast.eta_whole_seconds as nat,
                ) + ", if the trend continues unchanged."@
            } else {
                "No arrival time is projected: either no memory limit is configured for this process, or the target is too far out to extrapolate honestly."@
            },
            None =>
                "No arrival time is projected: either no memory limit is configured for this process, or the target is too far out to extrapolate honestly."@,
        },
        "A memory limit turns an unbounded leak into a bounded restart. Set one if this process has none."@,
    ]
}

/// The steps offered for a level departure, by direction and kind of metric.
pub open spec fn departure_steps(below: bool, is_memory: bool) -> Seq<Seq<char>> {
    if below {
        seq![
            "This metric has dropped well below its own baseline, which is unusual rather than bad — "@
                + (if is_memory {
                "a memory drop"@
            } else {
                "an idle CPU"@
            }) + " can mean work stopped arriving."@,
            "Check whether upstream traffic, a queue, or a scheduled job has stopped feeding this process."@,
            "If the process was deliberately quietened, the baseline will re-learn the new level and the finding clears itself."@,
        ]
    } else {
        seq![
            "This metric sits well above the level this process itself established, sustained across consecutive samples rather than a single spike."@,
            if is_memory {
                "Check for a workload change first: more concurrent requests, a larger payload, or a cache that has just filled."@
            } else {
                "Check for a workload change first: request volume, a retry storm, or a newly enabled feature."@
            },
            "Compare against its own history rather than against other processes — the baseline is per-process for exactly this reason."@,
            "If this is the new normal, the baseline re-learns it and the finding clears; if it keeps climbing, look for a leak or an unbounded queue."@,
        ]
    }
}

/// Whether a finding reports a metric below its baseline: the evidence says so, or it says nothing
/// and the key's variant does.
pub open spec fn reports_below(finding: Finding) -> bool {
    match finding.evidence.direction {
        Some(direction) => direction == Direction::Below,
        None => optional_text(finding.key.variant) == Some("below"@),
    }
}

/// The guidance for a finding, by the name of its detector. Detectors without guidance have none.
pub open spec fn guidance(finding: Finding) -> Option<Seq<Seq<char>>> {
    let detector = finding.key.detector@.name;
    if detector == "resource_leak"@ {
        Some(leak_steps(finding.evidence.forecast))
    } else if detector == "level_departure"@ {
        Some(
            departure_steps(reports_below(finding), finding.key.metric@.name == "memory_bytes"@),
        )
    } else if detector == "drift"@ || detector == "sustained_shift"@ || detector
        == "change_point"@ {
        Some(
            seq![
                "The change is gradual or stepwise rather than a spike, so it is easy to miss and rarely urgent."@,
                "Correlate with a deploy, a configuration change, or a traffic pattern shift around the window shown in the evidence."@,
                "No action is implied. This is a note that behaviour changed, not that anything is wrong."@,
            ],
        )
    } else if detector == "crash_loop"@ {
        Some(
            seq![
                "Process is restarting faster than the configured threshold."@,
                "Check logs for initialization errors, missing config, or immediate crashes at startup."@,
            ],
        )
    } else if detector == "restart_acceleration"@ {
        Some(
            seq![
                "Restart frequency is increasing, suggesting a degrading system or resource exhaustion."@,
                "Check if startup latency is growing or if dependencies are becoming slower."@,
            ],
        )
    } else if detector == "repeated_exit"@ {
        Some(
            seq![
                "Process is exiting with the same error code repeatedly, indicating a deterministic failure."@,
                "Check exit logs for common patterns like segmentation faults or specific library errors."@,
            ],
        )
    } else if detector == "restart_storm"@ {
        Some(
            seq![
                "Multiple processes in this namespace are failing simultaneously."@,
                "Check for a shared dependency update, configuration change, or resource limit trigger (e.g., node pressure)."@,
            ],
        )
    } else if detector == "dependency_correlation"@ {
        Some(
            seq![
                "This process failure correlates with a dependency failure."@,
                "Check the health of the implicated dependencies listed in the findings evidence."@,
            ],
        )
    } else {
        None
    }
}

fn leak_guidance(forecast: &Option<ThresholdForecast>) -> (steps: Vec<String>)
    ensures
        texts(steps@) == leak_steps(*forecast),
{
    let mut steps: Vec<String> = Vec::new();
    steps.push(
        "Growth is monotonic and well-fitted, which distinguishes a leak from load: load falls back, a leak does not.".to_owned(),
    );
    steps.push(
        "Compare against a restart — if usage returns to its old level and climbs again at the same rate, it is retention rather than demand.".to_owned(),
    );
    let mut arrival =
        "No arrival time is projected: either no memory limit is configured for this process, or the target is too far out to extrapolate honestly.".to_owned();
    if let Some(forecast) = forecast {
        if forecast.eta_seconds.is_finite() {
            arrival = "At the current rate the configured limit is reached in about ".to_owned();
            arrival.append(format_duration_compact(forecast.eta_whole_seconds).as_str());
            arrival.append(", if the trend continues unchanged.");
        }
    }
    steps.push(arrival);
    steps.push(
        "A memory limit turns an unbounded leak into a bounded restart. Set one if this process has none.".to_owned(),
    );
    assert(texts(steps@) =~= leak_steps(*forecast));
    steps
}

fn departure_guidance(below: bool, is_memory: bool) -> (steps: Vec<String>)
    ensures
        texts(steps@) == departure_steps(below, is_memory),
{
    let mut steps: Vec<String> = Vec::new();
    if below {
        let mut first =
            "This metric has dropped well below its own baseline, which is unusual rather than bad — ".to_owned();
        if is_memory {
            first.append("a memory drop");
        } else {
            first.append("an idle CPU");
        }
        first.append(" can mean work stopped arriving.");
        steps.push(first);
        steps.push(
            "Check whether upstream traffic, a queue, or a scheduled job has stopped feeding this process.".to_owned(),
        );
        steps.push(
            "If the process was deliberately quietened, the baseline will re-learn the new level and the finding clears itself.".to_owned(),
        );
    } else {
        steps.push(
            "This metric sits well above the level this process itself established, sustained across consecutive samples rather than a single spike.".to_owned(),
        );
        if is_memory {
            steps.push(
                "Check for a workload change first: more concurrent requests, a larger payload, or a cache that has just filled.".to_owned(),
            );
        } else {
            steps.push(
                "Check for a workload change first: request volume, a retry storm, or a newly enabled feature.".to_owned(),
            );
        }
        steps.push(
            "Compare against its own history rather than against other processes — the baseline is per-process for exactly this reason.".to_owned(),
        );
        steps.push(
            "If this is the new normal, the baseline re-learns it and the finding clears; if it keeps climbing, look for a leak or an unbounded queue.".to_owned(),
        );
    }
    assert(texts(steps@) =~= departure_steps(below, is_memory));
    steps
}

fn two_steps(first: &str, second: &str) -> (steps: Vec<String>)
    ensures
        texts(steps@) == seq![first@, second@],
{
    let mut steps: Vec<String> = Vec::new();
    steps.push(first.to_owned());
    steps.push(second.to_owned());
    assert(texts(steps@) =~= seq![first@, second@]);
    steps
}

/// Steps for an operator to act on a finding, or `None` when there is no guidance for it.
pub fn guidance_for(finding: &Finding) -> (steps: Option<Vec<String>>)
    ensures
        match guidance(*finding) {
            Some(lines) => steps matches Some(steps) && texts(steps@) == lines,
            None => steps is None,
        },
{
    let detector = finding.key.detector.as_wire();
    if same_text(detector, "resource_leak") {
        return Some(leak_guidance(&finding.evidence.forecast));
    }
    if same_text(detector, "level_departure") {
        let below: bool = match &finding.evidence.direction {
            Some(Direction::Below) => true,
            Some(Direction::Above) => false,
            None => match &finding.key.variant {
                Some(variant) => same_text(variant.as_str(), "below"),
                None => false,
            },
        };
        let is_memory: bool = same_text(finding.key.metric.as_wire(), "memory_bytes");
        return Some(departure_guidance(below, is_memory));
    }
    if same_text(detector, "drift") || same_text(detector, "sustained_shift") || same_text(
        detector,
        "change_point",
    ) {
        let mut steps: Vec<String> = Vec::new();
        steps.push(
            "The change is gradual or stepwise rather than a spike, so it is easy to miss and rarely urgent.".to_owned(),
        );
        steps.push(
            "Correlate with a deploy, a configuration change, or a traffic pattern shift around the window shown in the evidence.".to_owned(),
        );
        steps.push(
            "No action is implied. This is a note that behaviour changed, not that anything is wrong.".to_owned(),
        );
        assert(texts(steps@) =~= guidance(*finding)->0);
        return Some(steps);
    }
    if same_text(detector, "crash_loop") {
        return Some(
            two_steps(
                "Process is restarting faster than the configured threshold.",
                "Check logs for initialization errors, missing config, or immediate crashes at startup.",
            ),
        );
    }
    if same_text(detector, "restart_acceleration") {
        return Some(
            two_steps(
                "Restart frequency is increasing, suggesting a degrading system or resource exhaustion.",
                "Check if startup latency is growing or if dependencies are becoming slower.",
            ),
        );
    }
    if same_text(detector, "repeated_exit") {
        return Some(
            two_steps(
                "Process is exiting with the same error code repeatedly, indicating a deterministic failure.",
                "Check exit logs for common patterns like segmentation faults or specific library errors.",
            ),
        );
    }
    if same_text(detector, "restart_storm") {
        return Some(
            two_steps(
                "Multiple processes in this namespace are failing simultaneously.",
                "Check for a shared dependency update, configuration change, or resource limit trigger (e.g., node pressure).",
            ),
        );
    }
    if same_text(detector, "dependency_correlation") {
        return Some(
            two_steps(
                "This process failure correlates with a dependency failure.",
                "Check the health of the implicated dependencies listed in the findings evidence.",
            ),
        );
    }
    None
}

/// A condition observed again while it holds is known as it was observed last: the stored finding
/// has the confidence and the evidence of that observation, one observation more, and was last
/// seen no earlier than at it. Nothing is said of any other key.
pub proof fn observing_again_refreshes_what_is_known(
    before: &FindingRegistry,
    after: &FindingRegistry,
    key: KeyView,
    at_unix: u64,
    evidence: Evidence,
    confidence: Confidence,
    other: KeyView,
)
    requires
        before.holds(key),
        evidence.defect() is None,
        after.held() == before.held().insert(
            key,
            before.held()[key].continued(at_unix, evidence, confidence),
        ),
    ensures
        after.holds(key),
        after.held()[key].confidence == confidence,
        after.held()[key].evidence == evidence,
        after.held()[key].last_seen_unix >= at_unix,
        after.held()[key].last_seen_unix >= before.held()[key].last_seen_unix,
        after.held()[key].last_seen_unix == at_unix || after.held()[key].last_seen_unix
            == before.held()[key].last_seen_unix,
        before.held()[key].observation_count < u32::MAX ==> after.held()[key].observation_count
            == before.held()[key].observation_count + 1,
        before.held()[key].observation_count == u32::MAX ==> after.held()[key].observation_count
            == u32::MAX,
        after.held()[key].id == before.held()[key].id,
        after.held()[key].key == before.held()[key].key,
        after.held()[key].occurrence == before.held()[key].occurrence,
        after.held()[key].raised_at_unix == before.held()[key].raised_at_unix,
        after.held()[key].cleared_at_unix == before.held()[key].cleared_at_unix,
        after.held()[key].summary == before.held()[key].summary,
        other != key ==> after.held().contains_key(other) == before.held().contains_key(other)
            && after.held()[other] == before.held()[other],
{
}

/// Clearing an episode ends it: it is cleared at the given time, or where that lies before its
/// last sighting at that sighting, and everything else of it stays.
pub proof fn clearing_ends_an_episode(
    before: &FindingRegistry,
    after: &FindingRegistry,
    key: KeyView,
    at_unix: u64,
)
    requires
        before.holds(key),
        after.held() == before.held().insert(key, before.held()[key].ended(at_unix)),
    ensures
        after.held()[key].status is Cleared,
        after.held()[key].cleared_at_unix is Some,
        at_unix >= before.held()[key].last_seen_unix ==> after.held()[key].cleared_at_unix == Some(
            at_unix,
        ),
        at_unix < before.held()[key].last_seen_unix ==> after.held()[key].cleared_at_unix == Some(
            before.held()[key].last_seen_unix,
        ),
        after.held()[key].id == before.held()[key].id,
        after.held()[key].key == before.held()[key].key,
        after.held()[key].occurrence == before.held()[key].occurrence,
        after.held()[key].raised_at_unix == before.held()[key].raised_at_unix,
        after.held()[key].last_seen_unix == before.held()[key].last_seen_unix,
        after.held()[key].observation_count == before.held()[key].observation_count,
        after.held()[key].confidence == before.held()[key].confidence,
        after.held()[key].evidence == before.held()[key].evidence,
        after.held()[key].summary == before.held()[key].summary,
{
}

/// A finding that is raised holds from the time of its first observation, which it has seen once,
/// and carries what it was built from.
pub proof fn raising_starts_an_episode(builder: FindingBuilder, finding: Finding)
    requires
        builder.produces(finding),
    ensures
        finding.status is Active,
        finding.active(),
        finding.key == builder.key,
        finding.occurrence == builder.occurrence,
        finding.raised_at_unix == builder.at_unix,
        finding.last_seen_unix == builder.at_unix,
        finding.cleared_at_unix is None,
        finding.observation_count == 1,
        finding.confidence == builder.confidence,
        finding.evidence == builder.evidence,
        finding.summary == builder.summary,
        finding.id@ == key_text(builder.key@) + "#"@ + decimal(builder.occurrence as nat),
{
}

/// Two episodes of one condition never share an id.
pub proof fn episodes_have_ids_of_their_own(key: KeyView, first: u32, second: u32)
    ensures
        episode_id(key, first) == episode_id(key, second) <==> first == second,
{
    let head = key_text(key) + "#"@;
    let a = episode_id(key, first);
    let b = episode_id(key, second);
    if a == b {
        assert(a.skip(head.len() as int) =~= decimal(first as nat));
        assert(b.skip(head.len() as int) =~= decimal(second as nat));
        crate::text::decimals_tell_numbers_apart(first as nat, second as nat);
    }
}

/// The episodes of a condition are counted one by one.
pub proof fn episodes_are_counted_one_by_one(registry: &FindingRegistry, key: KeyView)
    ensures
        registry.episodes().contains_key(key) && registry.episodes()[key] < u32::MAX
            ==> registry.next_episode(key) == registry.episodes()[key] + 1,
        registry.episodes().contains_key(key) ==> registry.next_episode(key)
            >= registry.episodes()[key],
        registry.next_episode(key) >= 1,
        registry.held().contains_key(key) && registry.held()[key].status is Active
            <==> registry.holds(key),
{
}

/// Forgetting drops what was cleared at or before the given time and nothing else: a finding that
/// holds, or was cleared later, is kept as it was.
pub proof fn only_old_cleared_findings_are_forgotten(
    before: &FindingRegistry,
    after: &FindingRegistry,
    before_unix: u64,
    key: KeyView,
)
    requires
        before.held().contains_key(key),
        after.held() == before.held().restrict(
            Set::new(|k: KeyView| outlasts(before.held()[k], before_unix)),
        ),
    ensures
        match before.held()[key].cleared_at_unix {
            None => after.held().contains_key(key),
            Some(at) => after.held().contains_key(key) <==> before_unix < at,
        },
        after.held().contains_key(key) ==> after.held()[key] == before.held()[key],
{
}

/// A sweep of a process ends each of its findings that held and was not reported as holding, and
/// reports exactly those, each by its id.
pub proof fn a_sweep_ends_what_was_not_reported(
    held: Map<KeyView, Finding>,
    process: Seq<char>,
    holding: Seq<FindingKey>,
    at_unix: u64,
    key: KeyView,
)
    requires
        held.contains_key(key),
        held[key].key@ == key,
        key.process == process,
        held[key].status is Active,
        forall|i: int| 0 <= i < holding.len() ==> (#[trigger] holding[i])@ != key,
    ensures
        swept(held, stale_of(process, holding), at_unix).contains_key(key),
        swept(held, stale_of(process, holding), at_unix)[key].status is Cleared,
        swept(held, stale_of(process, holding), at_unix)[key].cleared_at_unix matches Some(at)
            && at >= at_unix && at >= held[key].last_seen_unix,
        swept(held, stale_of(process, holding), at_unix)[key].id == held[key].id,
{
    assert(!names_key(holding, key));
    assert(stale_of(process, holding)(held[key]));
}

/// What a sweep reports is a cleared episode of its process for each finding it ended, in order.
pub proof fn a_sweep_reports_what_it_ended(
    listed: Seq<Finding>,
    process: Seq<char>,
    holding: Seq<FindingKey>,
    cleared: Seq<Transition>,
    i: int,
)
    requires
        reports_cleared(cleared, listed.filter(stale_of(process, holding))),
        0 <= i < cleared.len(),
    ensures
        cleared[i] is Cleared,
        exists|j: int|
            0 <= j < listed.len() && #[trigger] listed[j].id@ == cleared[i].episode()
                && listed[j].status is Active && listed[j].key.process@ == process && (forall|k: int|
                0 <= k < holding.len() ==> (#[trigger] holding[k])@ != listed[j].key@),
{
    crate::sequences::lemma_filter_element(listed, stale_of(process, holding), i);
    let ended = listed.filter(stale_of(process, holding));
    let j = choose|j: int| 0 <= j < listed.len() && listed[j] == ended[i];
    assert(cleared[i] matches Transition::Cleared { id } && id@ == ended[i].id@);
    assert(listed[j].id@ == cleared[i].episode());
    assert forall|k: int| 0 <= k < holding.len() implies (#[trigger] holding[k])@
        != listed[j].key@ by {
        if holding[k]@ == listed[j].key@ {
            assert(names_key(holding, listed[j].key@));
        }
    }
}

/// Whether evidence can be checked by hand: it names samples, covers a real window, every number
/// that is compared or ranked is finite, and the threshold is positive.
pub open spec fn checkable(evidence: Evidence) -> bool {
    &&& evidence.samples@.len() >= 1
    &&& evidence.window.sample_count >= 1
    &&& evidence.window.start_unix <= evidence.window.end_unix
    &&& evidence.observed.finite()
    &&& evidence.expected.finite()
    &&& evidence.statistic.finite()
    &&& 0 < evidence.threshold.bits < 0x7ff0_0000_0000_0000
    &&& forall|i: int|
        0 <= i < evidence.samples@.len() ==> (#[trigger] evidence.samples@[i]).value.finite()
    &&& evidence.trend matches Some(trend) ==> trend.slope_per_second.finite()
        && trend.fit_quality.finite()
    &&& evidence.forecast matches Some(forecast) ==> forecast.eta_seconds.finite()
}

/// Evidence is accepted exactly when it can be checked by hand, and a finding is built from it
/// exactly when moreover its baseline, where it has one, has observed as many samples as it
/// requires, and requires some.
pub proof fn evidence_is_accepted_when_it_can_be_checked(evidence: Evidence)
    ensures
        evidence.defect() is None <==> checkable(evidence),
        build_defect(evidence) is None <==> checkable(evidence) && (evidence.baseline matches Some(
            baseline,
        ) ==> 0 < baseline.min_samples <= baseline.sample_count),
{
    lemma_first_broken_sample(evidence.samples@);
}

proof fn lemma_first_broken_sample(samples: Seq<SampleRef>)
    ensures
        match first_broken_sample(samples) {
            None => forall|i: int| 0 <= i < samples.len() ==> (#[trigger] samples[i]).value.finite(),
            Some(value) => exists|i: int|
                0 <= i < samples.len() && (#[trigger] samples[i]).value == value && !value.finite()
                    && (forall|j: int| 0 <= j < i ==> (#[trigger] samples[j]).value.finite()),
        },
    decreases samples.len(),
{
    if samples.len() > 0 && samples[0].value.finite() {
        let rest = samples.drop_first();
        lemma_first_broken_sample(rest);
        match first_broken_sample(rest) {
            None => {
                assert forall|i: int| 0 <= i < samples.len() implies (
                #[trigger] samples[i]).value.finite() by {
                    if i > 0 {
                        assert(rest[i - 1] == samples[i]);
                    }
                }
            },
            Some(value) => {
                let i = choose|i: int|
                    0 <= i < rest.len() && (#[trigger] rest[i]).value == value && !value.finite()
                        && (forall|j: int| 0 <= j < i ==> (#[trigger] rest[j]).value.finite());
                assert(samples[i + 1].value == value);
                assert forall|j: int| 0 <= j < i + 1 implies (
                #[trigger] samples[j]).value.finite() by {
                    if j > 0 {
                        assert(rest[j - 1] == samples[j]);
                    }
                }
            },
        }
    } else if samples.len() > 0 {
        assert(samples[0].value == first_broken_sample(samples)->0);
    }
}

/// A defect is what it says: no samples are named, the window is empty or reversed, the number
/// given is not finite, or the threshold is finite and not positive.
pub proof fn a_defect_is_what_it_says(evidence: Evidence)
    ensures
        evidence.defect() == Some(FindingError::NoSamples) <==> evidence.samples@.len() == 0,
        evidence.defect() matches Some(FindingError::NonFinite { field, value }) ==> !value.finite(),
        evidence.defect() matches Some(FindingError::NonPositiveThreshold { threshold })
            ==> threshold == evidence.threshold && threshold.finite() && !Reading::of(0).below(
            threshold,
        ),
        evidence.samples@.len() > 0 && (evidence.window.sample_count == 0
            || evidence.window.end_unix < evidence.window.start_unix) <==> (
        evidence.defect() matches Some(FindingError::InvalidWindow { reason })),
{
    lemma_first_broken_sample(evidence.samples@);
}

/// Confidences agree when every number in them is the same number: agreement is symmetric, holds
/// of a confidence and itself where all its numbers are numbers, and fails where a score, or a
/// term that either carries, differs.
pub proof fn agreement_compares_every_number(a: Confidence, b: Confidence)
    ensures
        a.agrees(b) <==> b.agrees(a),
        a.agrees(b) ==> a.score.equal(b.score) && a.terms.exceedance.equal(b.terms.exceedance),
        a.agrees(b) ==> (a.terms.agreement is Some <==> b.terms.agreement is Some),
        a.agrees(b) ==> (a.terms.maturity is Some <==> b.terms.maturity is Some),
        a.agrees(b) ==> (a.terms.fit is Some <==> b.terms.fit is Some),
        a.agrees(b) && a.terms.agreement is Some ==> (a.terms.agreement->0).equal(
            b.terms.agreement->0,
        ),
        a.agrees(b) && a.terms.maturity is Some ==> (a.terms.maturity->0).equal(
            b.terms.maturity->0,
        ),
        a.agrees(b) && a.terms.fit is Some ==> (a.terms.fit->0).equal(b.terms.fit->0),
        a == b && !a.score.nan() && !a.terms.exceedance.nan() && (a.terms.agreement is Some
            ==> !(a.terms.agreement->0).nan()) && (a.terms.maturity is Some
            ==> !(a.terms.maturity->0).nan()) && (a.terms.fit is Some ==> !(a.terms.fit->0).nan())
            ==> a.agrees(b),
{
}

/// The direction of a finding is what its evidence says; only evidence that says nothing leaves it
/// to the variant of the key, and then anything but `below` counts as above.
pub proof fn evidence_decides_the_direction(finding: Finding)
    ensures
        finding.evidence.direction == Some(Direction::Below) ==> reports_below(finding),
        finding.evidence.direction == Some(Direction::Above) ==> !reports_below(finding),
        finding.evidence.direction is None && finding.key.variant is None ==> !reports_below(
            finding,
        ),
        finding.evidence.direction is None && finding.key.variant is Some ==> (reports_below(
            finding,
        ) <==> (finding.key.variant->0)@ == "below"@),
{
}

/// Whether evidence gets as far as having its numbers looked at.
pub open spec fn window_is_real(evidence: Evidence) -> bool {
    evidence.samples@.len() > 0 && evidence.window.sample_count > 0 && evidence.window.start_unix
        <= evidence.window.end_unix
}

/// A number that is not finite is rejected under the name of the field that holds it; the compared
/// values come before the threshold, and the threshold before the samples.
pub proof fn a_rejected_number_is_named(evidence: Evidence)
    requires
        window_is_real(evidence),
    ensures
        !evidence.observed.finite() ==> evidence.defect() == Some(
            (FindingError::NonFinite { field: "observed", value: evidence.observed }),
        ),
        evidence.observed.finite() && !evidence.expected.finite() ==> evidence.defect() == Some(
            (FindingError::NonFinite { field: "expected", value: evidence.expected }),
        ),
        evidence.observed.finite() && evidence.expected.finite() && !evidence.statistic.finite()
            ==> evidence.defect() == Some(
            (FindingError::NonFinite { field: "statistic", value: evidence.statistic }),
        ),
        evidence.observed.finite() && evidence.expected.finite() && evidence.statistic.finite()
            && !evidence.threshold.finite() ==> evidence.defect() == Some(
            (FindingError::NonFinite { field: "threshold", value: evidence.threshold }),
        ),
        evidence.observed.finite() && evidence.expected.finite() && evidence.statistic.finite()
            && evidence.threshold.finite() && (evidence.threshold.bits == 0
            || evidence.threshold.bits >= 0x8000_0000_0000_0000) ==> evidence.defect() == Some(
            (FindingError::NonPositiveThreshold { threshold: evidence.threshold }),
        ),
{
}

/// Guidance goes by detector and by what the evidence says: a leak with a finite forecast is told
/// how long it takes, one without is not; a departure below its baseline is not read as one above
/// it, and memory is not read as processor time.
pub proof fn guidance_follows_the_evidence(finding: Finding, other: Finding)
    requires
        finding.key == other.key,
    ensures
        finding.key.detector@.name == "resource_leak"@ && finding.evidence.forecast
            == other.evidence.forecast ==> guidance(finding) == guidance(other),
        finding.key.detector@.name == "resource_leak"@ ==> (guidance(finding) matches Some(steps)
            && steps.len() == 4),
        finding.key.detector@.name == "resource_leak"@ && finding.evidence.forecast is Some && (
        finding.evidence.forecast->0).eta_seconds.finite() ==> (guidance(finding)->0)[2]
            == "At the current rate the configured limit is reached in about "@ + compact_duration(
            (finding.evidence.forecast->0).eta_whole_seconds as nat,
        ) + ", if the trend continues unchanged."@,
        finding.key.detector@.name == "level_departure"@ ==> (guidance(finding) matches Some(steps)
            && steps.len() == (if reports_below(finding) {
            3nat
        } else {
            4nat
        })),
        finding.key.detector@.name == "level_departure"@ && reports_below(finding)
            == reports_below(other) ==> guidance(finding) == guidance(other),
        finding.key.detector@.name != "resource_leak"@ && finding.key.detector@.name
            != "level_departure"@ ==> guidance(finding) == guidance(other),
{
    reveal_strlit("resource_leak");
    reveal_strlit("level_departure");
    assert("resource_leak"@.len() != "level_departure"@.len());
}

/// A finding is held from its raise to its last observation, and for no time where the clock went
/// back between them.
pub proof fn a_finding_is_held_to_its_last_observation(finding: &Finding, seconds: u64)
    requires
        call_ensures(Finding::duration_seconds, (finding,), seconds),
    ensures
        finding.raised_at_unix <= finding.last_seen_unix ==> finding.raised_at_unix + seconds
            == finding.last_seen_unix,
        finding.raised_at_unix > finding.last_seen_unix ==> seconds == 0,
{
}

/// An episode number is at least one, and nothing else of a builder changes with it; a builder
/// starts at the first episode, without a sentence.
pub proof fn an_episode_number_is_at_least_one(
    builder: FindingBuilder,
    occurrence: u32,
    numbered: FindingBuilder,
    sentence: String,
    worded: FindingBuilder,
)
    requires
        call_ensures(FindingBuilder::occurrence, (builder, occurrence), numbered),
        call_ensures(FindingBuilder::summary, (builder, sentence), worded),
    ensures
        occurrence > 0 ==> numbered.occurrence == occurrence,
        occurrence == 0 ==> numbered.occurrence == 1,
        numbered.key == builder.key && numbered.at_unix == builder.at_unix && numbered.evidence
            == builder.evidence && numbered.confidence == builder.confidence && numbered.summary
            == builder.summary,
        worded.summary == Some(sentence),
        worded.occurrence == builder.occurrence && worded.key == builder.key && worded.evidence
            == builder.evidence && worded.confidence == builder.confidence && worded.at_unix
            == builder.at_unix,
{
}

/// What confidence is computed from is taken from the evidence: a ratio is there exactly when there
/// is something to divide by, numerator first, and is never divided by zero.
pub proof fn confidence_rests_on_the_evidence(evidence: &Evidence, basis: ConfidenceBasis)
    requires
        call_ensures(ConfidenceBasis::from_evidence, (evidence,), basis),
    ensures
        basis.exceedance.0 == evidence.statistic,
        basis.exceedance.1 == evidence.threshold,
        basis.agreement matches Some(ratio) ==> ratio.1 > 0 && evidence.agreement is Some
            && ratio.0 == (evidence.agreement->0).consecutive_samples && ratio.1 == (
        evidence.agreement->0).required_samples,
        basis.agreement is None <==> evidence.agreement is None || (
        evidence.agreement->0).required_samples == 0,
        basis.maturity matches Some(ratio) ==> ratio.1 > 0 && evidence.baseline is Some && ratio.0
            == (evidence.baseline->0).sample_count && ratio.1 == (
        evidence.baseline->0).min_samples,
        basis.maturity is None <==> evidence.baseline is None || (
        evidence.baseline->0).min_samples == 0,
        basis.fit is Some <==> evidence.trend is Some,
        evidence.trend matches Some(trend) ==> basis.fit == Some(trend.fit_quality),
{
}

/// A baseline is ready once it has observed as many samples as it requires, and never where it
/// requires none; a finding is a recurrence from its second episode on.
pub proof fn readiness_and_recurrence_are_counted(
    baseline: &BaselineSummary,
    ready: bool,
    finding: &Finding,
    recurrence: bool,
)
    requires
        call_ensures(BaselineSummary::is_ready, (baseline,), ready),
        call_ensures(Finding::is_recurrence, (finding,), recurrence),
    ensures
        ready <==> 0 < baseline.min_samples <= baseline.sample_count,
        recurrence <==> finding.occurrence >= 2,
{
}

/// The findings of a process are those that hold and are about it, each once, in key order; the
/// listing of all findings leaves none out.
pub proof fn the_findings_of_a_process_hold_and_are_about_it(
    registry: &FindingRegistry,
    process: &str,
    found: Vec<&Finding>,
    holding: Vec<&Finding>,
    all: Vec<&Finding>,
    i: int,
    key: KeyView,
)
    requires
        registry.wf(),
        call_ensures(FindingRegistry::active_for, (registry, process), found),
        call_ensures(FindingRegistry::active, (registry,), holding),
        call_ensures(FindingRegistry::all, (registry,), all),
    ensures
        0 <= i < found@.len() ==> found@[i].status is Active && found@[i].key.process@ == process@
            && registry.held().contains_key(found@[i].key@),
        0 <= i < holding@.len() ==> holding@[i].status is Active && registry.held().contains_key(
            holding@[i].key@,
        ),
        registry.held().contains_key(key) && registry.held()[key].status is Active ==> exists|j: int|
            0 <= j < holding@.len() && *(#[trigger] holding@[j]) == registry.held()[key],
        registry.held().contains_key(key) && registry.held()[key].status is Active && key.process
            == process@ ==> exists|j: int|
            0 <= j < found@.len() && *(#[trigger] found@[j]) == registry.held()[key],
        registry.held().contains_key(key) ==> exists|j: int|
            0 <= j < all@.len() && *(#[trigger] all@[j]) == registry.held()[key],
        0 <= i < all@.len() - 1 ==> key_before(all@[i].key@, all@[i + 1].key@),
{
    broadcast use vstd::seq_lib::group_filter_ensures;

    let listed = registry.listed();
    let own = listed.filter(active_of(process@));
    let any = listed.filter(active_any());
    if 0 <= i < found@.len() {
        crate::sequences::lemma_filter_element(listed, active_of(process@), i);
        let j = choose|j: int| 0 <= j < listed.len() && listed[j] == own[i];
        assert(held_at(registry, j));
        assert(*found@[i] == own[i]);
    }
    if 0 <= i < holding@.len() {
        crate::sequences::lemma_filter_element(listed, active_any(), i);
        let j = choose|j: int| 0 <= j < listed.len() && listed[j] == any[i];
        assert(held_at(registry, j));
        assert(*holding@[i] == any[i]);
    }
    if registry.held().contains_key(key) {
        let at = choose|at: int| 0 <= at < listed.len() && #[trigger] listed[at].key@ == key;
        assert(held_at(registry, at));
        assert(*all@[at] == listed[at]);
        assert(listed.contains(listed[at]));
        if registry.held()[key].status is Active {
            assert(active_any()(listed[at]));
            assert(any.contains(listed[at]));
            let j = choose|j: int| 0 <= j < any.len() && any[j] == listed[at];
            assert(*holding@[j] == any[j]);
            if key.process == process@ {
                assert(active_of(process@)(listed[at]));
                assert(own.contains(listed[at]));
                let k = choose|k: int| 0 <= k < own.len() && own[k] == listed[at];
                assert(*found@[k] == own[k]);
            }
        }
    }
    if 0 <= i < all@.len() - 1 {
        assert(*all@[i] == listed[i] && *all@[i + 1] == listed[i + 1]);
        assert(key_before(listed[i].key@, listed[i + 1].key@));
    }
}

/// The finding at a place of the listing is held under its key.
spec fn held_at(registry: &FindingRegistry, i: int) -> bool {
    let listed = registry.listed();
    registry.held().contains_key(listed[i].key@) && registry.held()[listed[i].key@] == listed[i]
}

/// A departure is explained by its direction and by what it is of: a drop by work that stopped
/// arriving, a rise by a change of load, memory and processor time each in their own words.
pub proof fn a_departure_is_explained_by_its_direction()
    ensures
        departure_steps(true, true)[0]
            == "This metric has dropped well below its own baseline, which is unusual rather than bad — "@
            + "a memory drop"@ + " can mean work stopped arriving."@,
        departure_steps(true, false)[0]
            == "This metric has dropped well below its own baseline, which is unusual rather than bad — "@
            + "an idle CPU"@ + " can mean work stopped arriving."@,
        departure_steps(false, true)[0]
            == "This metric sits well above the level this process itself established, sustained across consecutive samples rather than a single spike."@,
        departure_steps(false, false)[0] == departure_steps(false, true)[0],
        departure_steps(false, true)[1]
            == "Check for a workload change first: more concurrent requests, a larger payload, or a cache that has just filled."@,
        departure_steps(false, false)[1]
            == "Check for a workload change first: request volume, a retry storm, or a newly enabled feature."@,
        departure_steps(true, true)[1] == departure_steps(true, false)[1],
        departure_steps(true, true)[2] == departure_steps(true, false)[2],
        departure_steps(false, true)[2] == departure_steps(false, false)[2],
        departure_steps(false, true)[3] == departure_steps(false, false)[3],
{
}

/// A leak whose arrival was not projected is told so, and one whose arrival was is not; the other
/// steps do not depend on it.
pub proof fn a_leak_without_a_forecast_is_told_so(
    forecast: ThresholdForecast,
    other: Option<ThresholdForecast>,
)
    ensures
        leak_steps(None)[2]
            == "No arrival time is projected: either no memory limit is configured for this process, or the target is too far out to extrapolate honestly."@,
        !forecast.eta_seconds.finite() ==> leak_steps(Some(forecast)) == leak_steps(None),
        forecast.eta_seconds.finite() ==> leak_steps(Some(forecast))[2]
            == "At the current rate the configured limit is reached in about "@ + compact_duration(
            forecast.eta_whole_seconds as nat,
        ) + ", if the trend continues unchanged."@,
        leak_steps(other)[0] == leak_steps(None)[0] && leak_steps(other)[1] == leak_steps(None)[1]
            && leak_steps(other)[3] == leak_steps(None)[3] && leak_steps(other).len() == 4,
{
    if !forecast.eta_seconds.finite() {
        assert(leak_steps(Some(forecast)) =~= leak_steps(None));
    }
}

/// Each detector of failures has guidance of its own, the detectors of change share one, and a
/// detector that is not known has none.
pub proof fn guidance_is_by_detector(finding: Finding)
    ensures
        finding.key.detector is CrashLoop ==> (guidance(finding) matches Some(steps) && steps[0]
            == "Process is restarting faster than the configured threshold."@),
        finding.key.detector is RestartAcceleration ==> (guidance(finding) matches Some(steps)
            && steps[0]
            == "Restart frequency is increasing, suggesting a degrading system or resource exhaustion."@),
        finding.key.detector is RepeatedExit ==> (guidance(finding) matches Some(steps) && steps[0]
            == "Process is exiting with the same error code repeatedly, indicating a deterministic failure."@),
        finding.key.detector is RestartStorm ==> (guidance(finding) matches Some(steps) && steps[0]
            == "Multiple processes in this namespace are failing simultaneously."@),
        finding.key.detector is DependencyCorrelation ==> (guidance(finding) matches Some(steps)
            && steps[0] == "This process failure correlates with a dependency failure."@),
        finding.key.detector is Drift || finding.key.detector is SustainedShift
            || finding.key.detector is ChangePoint ==> (guidance(finding) matches Some(steps)
            && steps.len() == 3 && steps[0]
            == "The change is gradual or stepwise rather than a spike, so it is easy to miss and rarely urgent."@),
        finding.key.detector is ResourceLeak ==> guidance(finding) == Some(
            leak_steps(finding.evidence.forecast),
        ),
        finding.key.detector is LevelDeparture && finding.key.metric is MemoryBytes ==> guidance(
            finding,
        ) == Some(departure_steps(reports_below(finding), true)),
        finding.key.detector is LevelDeparture && finding.key.metric is CpuPercent ==> guidance(
            finding,
        ) == Some(departure_steps(reports_below(finding), false)),
{
    reveal_strlit("resource_leak");
    reveal_strlit("level_departure");
    reveal_strlit("drift");
    reveal_strlit("sustained_shift");
    reveal_strlit("change_point");
    reveal_strlit("crash_loop");
    reveal_strlit("restart_acceleration");
    reveal_strlit("repeated_exit");
    reveal_strlit("restart_storm");
    reveal_strlit("dependency_correlation");
    reveal_strlit("memory_bytes");
    reveal_strlit("cpu_percent");
    assert("memory_bytes"@.len() == 12 && "cpu_percent"@.len() == 11);
    assert("level_departure"@.len() == 15 && "drift"@.len() == 5 && "sustained_shift"@.len() == 15
        && "change_point"@.len() == 12 && "resource_leak"@.len() == 13 && "crash_loop"@.len() == 10
        && "restart_acceleration"@.len() == 20 && "repeated_exit"@.len() == 13
        && "restart_storm"@.len() == 13 && "dependency_correlation"@.len() == 22);
    assert("level_departure"@[0] == 'l' && "sustained_shift"@[0] == 's');
    assert("resource_leak"@[2] == 's' && "repeated_exit"@[2] == 'p' && "restart_storm"@[2] == 's');
    assert("resource_leak"@[3] == 'o' && "restart_storm"@[3] == 't');
}

/// The message of a rejected number names its field and the number: as it is printed where it is
/// finite, and by what it is where it is not.
pub proof fn a_message_names_the_rejected_number(
    field: &'static str,
    value: Reading,
    reason: &'static str,
    shown: Seq<char>,
)
    ensures
        value.finite() ==> (FindingError::NonFinite { field, value }).message_text(shown)
            == "evidence field `"@ + field@ + "` is not finite: "@ + shown,
        value.nan() ==> (FindingError::NonFinite { field, value }).message_text(shown)
            == "evidence field `"@ + field@ + "` is not finite: "@ + "NaN"@,
        value.bits == 0x7ff0_0000_0000_0000 ==> (FindingError::NonFinite {
            field,
            value,
        }).message_text(shown) == "evidence field `"@ + field@ + "` is not finite: "@ + "inf"@,
        (FindingError::InvalidWindow { reason }).message_text(shown)
            == "evidence window is not a real window: "@ + reason@,
        (FindingError::NonPositiveThreshold { threshold: value }).message_text(shown)
            == "evidence threshold must be positive, got "@ + shown,
        FindingError::NoSamples.message_text(shown)
            == "evidence references no samples: a finding must name the samples it was derived from"@,
{
}

/// A finding is cleared at the later of the given time and its last sighting, and seen at the later
/// of its last sighting and the new one; clearing or holding twice at the same time changes the
/// times no further.
pub proof fn times_never_run_backwards(
    finding: Finding,
    at_unix: u64,
    evidence: Evidence,
    confidence: Confidence,
)
    ensures
        finding.ended(at_unix).ended(at_unix) == finding.ended(at_unix),
        finding.continued(at_unix, evidence, confidence).continued(
            at_unix,
            evidence,
            confidence,
        ).last_seen_unix == finding.continued(at_unix, evidence, confidence).last_seen_unix,
        finding.continued(at_unix, evidence, confidence).ended(at_unix).cleared_at_unix == Some(
            finding.continued(at_unix, evidence, confidence).last_seen_unix,
        ),
{
}

} // verus!
