//! What a finding is about: the detector, the metric, and the key naming one condition.
//!
//! A key names a condition and nothing else. No timestamp, observed value or counter is part of
//! it, so observing one condition twice lands on the same key.

use crate::ordered_map::OrderedKey;
use crate::text::{compare_text, lemma_text_order, same_text, text_before, Rank};
use vstd::prelude::*;

verus! {

/// What a detector or metric denotes: its place among the declared ones, and its wire name.
pub struct WireName {
    pub rank: nat,
    pub name: Seq<char>,
}

/// Order of declaration first, then the name.
pub open spec fn wire_before(a: WireName, b: WireName) -> bool {
    a.rank < b.rank || (a.rank == b.rank && text_before(a.name, b.name))
}

proof fn lemma_wire_order(a: WireName, b: WireName, c: WireName)
    ensures
        !wire_before(a, a),
        wire_before(a, b) && wire_before(b, c) ==> wire_before(a, c),
        a == b || wire_before(a, b) || wire_before(b, a),
{
    lemma_text_order(a.name, b.name, c.name);
}

/// Which detector produced a finding.
///
/// `Other` keeps an unrecognised name verbatim: two unknown detectors never share an identity.
/// Construct through [`Detector::from_wire`] so that a known name becomes its own variant.
#[derive(Debug, PartialEq, Eq, PartialOrd, Ord, Hash)]
pub enum Detector {
    /// The metric sits far from its baseline centre for consecutive samples.
    LevelDeparture,
    /// Gradual movement that a windowed baseline would absorb.
    Drift,
    /// A shift too small to depart, sustained long enough to matter.
    SustainedShift,
    /// A step to a new sustained regime.
    ChangePoint,
    /// Well-fitted, predominantly monotonic growth.
    ResourceLeak,
    /// Repeated failing exits inside the crash-loop window.
    CrashLoop,
    /// Failures coming faster in the recent half of the window.
    RestartAcceleration,
    /// The same failing exit status, repeatedly.
    RepeatedExit,
    /// Several distinct processes failing together.
    RestartStorm,
    /// A declared dependency failed shortly before. Not a causal claim.
    DependencyCorrelation,
    /// A detector this build does not know, kept under its own name.
    Other(String),
}

/// How many detectors are declared by name.
pub const KNOWN_DETECTORS: usize = 10;

/// The place of a detector name among the declared ones; every other name shares the last place.
pub open spec fn detector_rank(name: Seq<char>) -> nat {
    if name == "level_departure"@ {
        0
    } else if name == "drift"@ {
        1
    } else if name == "sustained_shift"@ {
        2
    } else if name == "change_point"@ {
        3
    } else if name == "resource_leak"@ {
        4
    } else if name == "crash_loop"@ {
        5
    } else if name == "restart_acceleration"@ {
        6
    } else if name == "repeated_exit"@ {
        7
    } else if name == "restart_storm"@ {
        8
    } else if name == "dependency_correlation"@ {
        9
    } else {
        KNOWN_DETECTORS as nat
    }
}

impl View for Detector {
    type V = WireName;

    open spec fn view(&self) -> WireName {
        match self {
            Detector::LevelDeparture => WireName { rank: 0, name: "level_departure"@ },
            Detector::Drift => WireName { rank: 1, name: "drift"@ },
            Detector::SustainedShift => WireName { rank: 2, name: "sustained_shift"@ },
            Detector::ChangePoint => WireName { rank: 3, name: "change_point"@ },
            Detector::ResourceLeak => WireName { rank: 4, name: "resource_leak"@ },
            Detector::CrashLoop => WireName { rank: 5, name: "crash_loop"@ },
            Detector::RestartAcceleration => WireName { rank: 6, name: "restart_acceleration"@ },
            Detector::RepeatedExit => WireName { rank: 7, name: "repeated_exit"@ },
            Detector::RestartStorm => WireName { rank: 8, name: "restart_storm"@ },
            Detector::DependencyCorrelation => WireName {
                rank: 9,
                name: "dependency_correlation"@,
            },
            Detector::Other(name) => WireName { rank: KNOWN_DETECTORS as nat, name: name@ },
        }
    }
}

impl Clone for Detector {
    fn clone(&self) -> (copy: Self)
        ensures
            copy == *self,
    {
        match self {
            Detector::LevelDeparture => Detector::LevelDeparture,
            Detector::Drift => Detector::Drift,
            Detector::SustainedShift => Detector::SustainedShift,
            Detector::ChangePoint => Detector::ChangePoint,
            Detector::ResourceLeak => Detector::ResourceLeak,
            Detector::CrashLoop => Detector::CrashLoop,
            Detector::RestartAcceleration => Detector::RestartAcceleration,
            Detector::RepeatedExit => Detector::RepeatedExit,
            Detector::RestartStorm => Detector::RestartStorm,
            Detector::DependencyCorrelation => Detector::DependencyCorrelation,
            Detector::Other(name) => Detector::Other(name.clone()),
        }
    }
}

impl Detector {
    /// The canonical wire name.
    pub fn as_wire(&self) -> (name: &str)
        ensures
            name@ == self@.name,
    {
        match self {
            Detector::LevelDeparture => "level_departure",
            Detector::Drift => "drift",
            Detector::SustainedShift => "sustained_shift",
            Detector::ChangePoint => "change_point",
            Detector::ResourceLeak => "resource_leak",
            Detector::CrashLoop => "crash_loop",
            Detector::RestartAcceleration => "restart_acceleration",
            Detector::RepeatedExit => "repeated_exit",
            Detector::RestartStorm => "restart_storm",
            Detector::DependencyCorrelation => "dependency_correlation",
            Detector::Other(name) => name.as_str(),
        }
    }

    /// Parses a wire name. A declared name becomes its variant; any other is kept verbatim.
    pub fn from_wire(raw: &str) -> (detector: Self)
        ensures
            detector@ == (WireName { rank: detector_rank(raw@), name: raw@ }),
    {
        if same_text(raw, "level_departure") {
            Detector::LevelDeparture
        } else if same_text(raw, "drift") {
            Detector::Drift
        } else if same_text(raw, "sustained_shift") {
            Detector::SustainedShift
        } else if same_text(raw, "change_point") {
            Detector::ChangePoint
        } else if same_text(raw, "resource_leak") {
            Detector::ResourceLeak
        } else if same_text(raw, "crash_loop") {
            Detector::CrashLoop
        } else if same_text(raw, "restart_acceleration") {
            Detector::RestartAcceleration
        } else if same_text(raw, "repeated_exit") {
            Detector::RepeatedExit
        } else if same_text(raw, "restart_storm") {
            Detector::RestartStorm
        } else if same_text(raw, "dependency_correlation") {
            Detector::DependencyCorrelation
        } else {
            Detector::Other(raw.to_owned())
        }
    }

    /// Whether this build declares the detector.
    pub fn is_known(&self) -> (known: bool)
        ensures
            known == !(self is Other),
    {
        match self {
            Detector::Other(_) => false,
            _ => true,
        }
    }

    fn declared_place(&self) -> (place: u8)
        ensures
            place == self@.rank,
    {
        match self {
            Detector::LevelDeparture => 0,
            Detector::Drift => 1,
            Detector::SustainedShift => 2,
            Detector::ChangePoint => 3,
            Detector::ResourceLeak => 4,
            Detector::CrashLoop => 5,
            Detector::RestartAcceleration => 6,
            Detector::RepeatedExit => 7,
            Detector::RestartStorm => 8,
            Detector::DependencyCorrelation => 9,
            Detector::Other(_) => 10,
        }
    }
}

/// Parsing a wire name and reading it back gives the same name, and a declared detector survives
/// the round trip as itself: a declared name never becomes an unknown detector.
pub proof fn detector_wire_round_trip(detector: Detector)
    requires
        !(detector is Other),
    ensures
        detector_rank(detector@.name) == detector@.rank,
{
    reveal_strlit("level_departure");
    reveal_strlit("drift");
    reveal_strlit("sustained_shift");
    reveal_strlit("change_point");
    reveal_strlit("resource_leak");
    reveal_strlit("crash_loop");
    reveal_strlit("restart_acceleration");
    reveal_strlit("repeated_exit");
    reveal_strlit("restart_storm");
    reveal_strlit("dependency_correlation");
    assert("level_departure"@[0] == 'l' && "drift"@[0] == 'd' && "sustained_shift"@[0] == 's'
        && "change_point"@[0] == 'c' && "crash_loop"@[0] == 'c' && "change_point"@[1] == 'h'
        && "crash_loop"@[1] == 'r' && "resource_leak"@.len() == 13
        && "restart_acceleration"@.len() == 20 && "repeated_exit"@.len() == 13
        && "resource_leak"@[2] == 's' && "repeated_exit"@[2] == 'p' && "restart_storm"@.len() == 13
        && "restart_storm"@[3] == 't' && "resource_leak"@[3] == 'o'
        && "dependency_correlation"@.len() == 22);
}

/// Which metric a finding is about. Unknown metrics keep their names, as detectors do.
#[derive(Debug, PartialEq, Eq, PartialOrd, Ord, Hash)]
pub enum Metric {
    CpuPercent,
    MemoryBytes,
    DiskReadBytes,
    DiskWriteBytes,
    RestartRate,
    /// A metric this build does not know, kept under its own name.
    Other(String),
}

/// How many metrics are declared by name.
pub const KNOWN_METRICS: usize = 5;

/// The place of a metric name among the declared ones; every other name shares the last place.
pub open spec fn metric_rank(name: Seq<char>) -> nat {
    if name == "cpu_percent"@ {
        0
    } else if name == "memory_bytes"@ {
        1
    } else if name == "disk_read_bytes"@ {
        2
    } else if name == "disk_write_bytes"@ {
        3
    } else if name == "restart_rate"@ {
        4
    } else {
        KNOWN_METRICS as nat
    }
}

impl View for Metric {
    type V = WireName;

    open spec fn view(&self) -> WireName {
        match self {
            Metric::CpuPercent => WireName { rank: 0, name: "cpu_percent"@ },
            Metric::MemoryBytes => WireName { rank: 1, name: "memory_bytes"@ },
            Metric::DiskReadBytes => WireName { rank: 2, name: "disk_read_bytes"@ },
            Metric::DiskWriteBytes => WireName { rank: 3, name: "disk_write_bytes"@ },
            Metric::RestartRate => WireName { rank: 4, name: "restart_rate"@ },
            Metric::Other(name) => WireName { rank: KNOWN_METRICS as nat, name: name@ },
        }
    }
}

impl Clone for Metric {
    fn clone(&self) -> (copy: Self)
        ensures
            copy == *self,
    {
        match self {
            Metric::CpuPercent => Metric::CpuPercent,
            Metric::MemoryBytes => Metric::MemoryBytes,
            Metric::DiskReadBytes => Metric::DiskReadBytes,
            Metric::DiskWriteBytes => Metric::DiskWriteBytes,
            Metric::RestartRate => Metric::RestartRate,
            Metric::Other(name) => Metric::Other(name.clone()),
        }
    }
}

impl Metric {
    /// The canonical wire name.
    pub fn as_wire(&self) -> (name: &str)
        ensures
            name@ == self@.name,
    {
        match self {
            Metric::CpuPercent => "cpu_percent",
            Metric::MemoryBytes => "memory_bytes",
            Metric::DiskReadBytes => "disk_read_bytes",
            Metric::DiskWriteBytes => "disk_write_bytes",
            Metric::RestartRate => "restart_rate",
            Metric::Other(name) => name.as_str(),
        }
    }

    /// Parses a wire name. A declared name becomes its variant; any other is kept verbatim.
    pub fn from_wire(raw: &str) -> (metric: Self)
        ensures
            metric@ == (WireName { rank: metric_rank(raw@), name: raw@ }),
    {
        if same_text(raw, "cpu_percent") {
            Metric::CpuPercent
        } else if same_text(raw, "memory_bytes") {
            Metric::MemoryBytes
        } else if same_text(raw, "disk_read_bytes") {
            Metric::DiskReadBytes
        } else if same_text(raw, "disk_write_bytes") {
            Metric::DiskWriteBytes
        } else if same_text(raw, "restart_rate") {
            Metric::RestartRate
        } else {
            Metric::Other(raw.to_owned())
        }
    }

    fn declared_place(&self) -> (place: u8)
        ensures
            place == self@.rank,
    {
        match self {
            Metric::CpuPercent => 0,
            Metric::MemoryBytes => 1,
            Metric::DiskReadBytes => 2,
            Metric::DiskWriteBytes => 3,
            Metric::RestartRate => 4,
            Metric::Other(_) => 5,
        }
    }
}

/// A declared metric survives the round trip through its wire name as itself.
pub proof fn metric_wire_round_trip(metric: Metric)
    requires
        !(metric is Other),
    ensures
        metric_rank(metric@.name) == metric@.rank,
{
    reveal_strlit("cpu_percent");
    reveal_strlit("memory_bytes");
    reveal_strlit("disk_read_bytes");
    reveal_strlit("disk_write_bytes");
    reveal_strlit("restart_rate");
    assert("cpu_percent"@.len() == 11 && "memory_bytes"@.len() == 12 && "disk_read_bytes"@.len()
        == 15 && "disk_write_bytes"@.len() == 16 && "restart_rate"@.len() == 12
        && "memory_bytes"@[0] == 'm' && "restart_rate"@[0] == 'r');
}

/// The stable identity of a condition: the process, the detector, the metric, and an optional
/// discriminator for a detector that can hold two conditions on one metric at once.
#[derive(Debug, PartialEq, Eq, PartialOrd, Ord, Hash)]
pub struct FindingKey {
    pub process: String,
    pub detector: Detector,
    pub metric: Metric,
    /// `None` when the detector can only hold one condition at a time.
    pub variant: Option<String>,
}

/// What a key denotes.
pub struct KeyView {
    pub process: Seq<char>,
    pub detector: WireName,
    pub metric: WireName,
    pub variant: Option<Seq<char>>,
}

/// What an optional string denotes.
pub open spec fn optional_text(text: Option<String>) -> Option<Seq<char>> {
    match text {
        Some(inner) => Some(inner@),
        None => None,
    }
}

impl View for FindingKey {
    type V = KeyView;

    open spec fn view(&self) -> KeyView {
        KeyView {
            process: self.process@,
            detector: self.detector@,
            metric: self.metric@,
            variant: optional_text(self.variant),
        }
    }
}

impl Clone for FindingKey {
    fn clone(&self) -> (copy: Self)
        ensures
            copy == *self,
    {
        FindingKey {
            process: self.process.clone(),
            detector: self.detector.clone(),
            metric: self.metric.clone(),
            variant: match &self.variant {
                Some(variant) => Some(variant.clone()),
                None => None,
            },
        }
    }
}

/// The key as a stable string: its parts, separated by slashes.
pub open spec fn key_text(key: KeyView) -> Seq<char> {
    let base = key.process + "/"@ + key.detector.name + "/"@ + key.metric.name;
    match key.variant {
        Some(variant) => base + "/"@ + variant,
        None => base,
    }
}

/// An absent variant comes first, then variants in dictionary order.
pub open spec fn variant_before(a: Option<Seq<char>>, b: Option<Seq<char>>) -> bool {
    match (a, b) {
        (None, Some(_)) => true,
        (Some(x), Some(y)) => text_before(x, y),
        _ => false,
    }
}

/// Keys are ordered by process, then detector, then metric, then variant.
pub open spec fn key_before(a: KeyView, b: KeyView) -> bool {
    if a.process != b.process {
        text_before(a.process, b.process)
    } else if a.detector != b.detector {
        wire_before(a.detector, b.detector)
    } else if a.metric != b.metric {
        wire_before(a.metric, b.metric)
    } else {
        variant_before(a.variant, b.variant)
    }
}

fn compare_places(a: u8, b: u8) -> (rank: Rank)
    ensures
        match rank {
            Rank::Before => a < b,
            Rank::Same => a == b,
            Rank::After => b < a,
        },
{
    if a < b {
        Rank::Before
    } else if a == b {
        Rank::Same
    } else {
        Rank::After
    }
}

fn compare_wire(a_place: u8, a_name: &str, b_place: u8, b_name: &str) -> (rank: Rank)
    ensures
        match rank {
            Rank::Before => wire_before(
                WireName { rank: a_place as nat, name: a_name@ },
                WireName { rank: b_place as nat, name: b_name@ },
            ),
            Rank::Same => a_place == b_place && a_name@ == b_name@,
            Rank::After => wire_before(
                WireName { rank: b_place as nat, name: b_name@ },
                WireName { rank: a_place as nat, name: a_name@ },
            ),
        },
{
    match compare_places(a_place, b_place) {
        Rank::Same => compare_text(a_name, b_name),
        other => other,
    }
}

fn compare_variants(a: &Option<String>, b: &Option<String>) -> (rank: Rank)
    ensures
        match rank {
            Rank::Before => variant_before(optional_text(*a), optional_text(*b)),
            Rank::Same => optional_text(*a) == optional_text(*b),
            Rank::After => variant_before(optional_text(*b), optional_text(*a)),
        },
{
    match (a, b) {
        (None, None) => Rank::Same,
        (None, Some(_)) => Rank::Before,
        (Some(_), None) => Rank::After,
        (Some(x), Some(y)) => compare_text(x.as_str(), y.as_str()),
    }
}

proof fn lemma_variant_order(a: Option<Seq<char>>, b: Option<Seq<char>>, c: Option<Seq<char>>)
    ensures
        !variant_before(a, a),
        variant_before(a, b) && variant_before(b, c) ==> variant_before(a, c),
        a == b || variant_before(a, b) || variant_before(b, a),
{
    let e = Seq::<char>::empty();
    lemma_text_order(
        if a is Some {
            a->0
        } else {
            e
        },
        if b is Some {
            b->0
        } else {
            e
        },
        if c is Some {
            c->0
        } else {
            e
        },
    );
}

impl OrderedKey for FindingKey {
    open spec fn before(a: KeyView, b: KeyView) -> bool {
        key_before(a, b)
    }

    proof fn order_laws(a: KeyView, b: KeyView, c: KeyView) {
        lemma_text_order(a.process, b.process, c.process);
        lemma_text_order(a.process, b.process, a.process);
        lemma_wire_order(a.detector, b.detector, c.detector);
        lemma_wire_order(a.metric, b.metric, c.metric);
        lemma_wire_order(a.detector, b.detector, a.detector);
        lemma_wire_order(a.metric, b.metric, a.metric);
        lemma_variant_order(a.variant, b.variant, c.variant);
    }

    fn rank_against(&self, other: &Self) -> (rank: Rank) {
        proof {
            lemma_text_order(self.process@, other.process@, self.process@);
            lemma_wire_order(self.detector@, other.detector@, self.detector@);
            lemma_wire_order(self.metric@, other.metric@, self.metric@);
        }
        match compare_text(self.process.as_str(), other.process.as_str()) {
            Rank::Same => match compare_wire(
                self.detector.declared_place(),
                self.detector.as_wire(),
                other.detector.declared_place(),
                other.detector.as_wire(),
            ) {
                Rank::Same => match compare_wire(
                    self.metric.declared_place(),
                    self.metric.as_wire(),
                    other.metric.declared_place(),
                    other.metric.as_wire(),
                ) {
                    Rank::Same => compare_variants(&self.variant, &other.variant),
                    rank => rank,
                },
                rank => rank,
            },
            rank => rank,
        }
    }

    fn copy_key(&self) -> (copy: Self) {
        self.clone()
    }
}

impl FindingKey {
    /// A key with no variant.
    pub fn new(process: String, detector: Detector, metric: Metric) -> (key: Self)
        ensures
            key.process == process,
            key.detector == detector,
            key.metric == metric,
            key.variant is None,
    {
        FindingKey { process, detector, metric, variant: None }
    }

    /// The same key with a variant discriminator.
    pub fn with_variant(self, variant: String) -> (key: Self)
        ensures
            key.process == self.process,
            key.detector == self.detector,
            key.metric == self.metric,
            key.variant == Some(variant),
    {
        FindingKey {
            process: self.process,
            detector: self.detector,
            metric: self.metric,
            variant: Some(variant),
        }
    }

    /// Whether two keys name the same condition.
    pub fn same(&self, other: &Self) -> (same: bool)
        ensures
            same == (self@ == other@),
    {
        proof {
            Self::order_laws(self@, other@, self@);
        }
        match self.rank_against(other) {
            Rank::Same => true,
            _ => false,
        }
    }

    /// The key rendered as a stable string.
    pub fn as_string(&self) -> (text: String)
        ensures
            text@ == key_text(self@),
    {
        let mut text = self.process.clone();
        text.append("/");
        text.append(self.detector.as_wire());
        text.append("/");
        text.append(self.metric.as_wire());
        match &self.variant {
            Some(variant) => {
                text.append("/");
                text.append(variant.as_str());
            },
            None => {},
        }
        text
    }
}

/// A declared name is read as the detector it names, and no other name is.
pub proof fn a_declared_name_is_its_detector(detector: Detector, name: Seq<char>)
    requires
        detector@ == (WireName { rank: detector_rank(name), name }),
    ensures
        name == "level_departure"@ <==> detector is LevelDeparture,
        name == "drift"@ <==> detector is Drift,
        name == "sustained_shift"@ <==> detector is SustainedShift,
        name == "change_point"@ <==> detector is ChangePoint,
        name == "resource_leak"@ <==> detector is ResourceLeak,
        name == "crash_loop"@ <==> detector is CrashLoop,
        name == "restart_acceleration"@ <==> detector is RestartAcceleration,
        name == "repeated_exit"@ <==> detector is RepeatedExit,
        name == "restart_storm"@ <==> detector is RestartStorm,
        name == "dependency_correlation"@ <==> detector is DependencyCorrelation,
        detector matches Detector::Other(kept) ==> kept@ == name,
{
    detector_wire_round_trip(Detector::LevelDeparture);
    detector_wire_round_trip(Detector::Drift);
    detector_wire_round_trip(Detector::SustainedShift);
    detector_wire_round_trip(Detector::ChangePoint);
    detector_wire_round_trip(Detector::ResourceLeak);
    detector_wire_round_trip(Detector::CrashLoop);
    detector_wire_round_trip(Detector::RestartAcceleration);
    detector_wire_round_trip(Detector::RepeatedExit);
    detector_wire_round_trip(Detector::RestartStorm);
    detector_wire_round_trip(Detector::DependencyCorrelation);
}

/// A declared name is read as the metric it names, and no other name is.
pub proof fn a_declared_name_is_its_metric(metric: Metric, name: Seq<char>)
    requires
        metric@ == (WireName { rank: metric_rank(name), name }),
    ensures
        name == "cpu_percent"@ <==> metric is CpuPercent,
        name == "memory_bytes"@ <==> metric is MemoryBytes,
        name == "disk_read_bytes"@ <==> metric is DiskReadBytes,
        name == "disk_write_bytes"@ <==> metric is DiskWriteBytes,
        name == "restart_rate"@ <==> metric is RestartRate,
        metric matches Metric::Other(kept) ==> kept@ == name,
{
    metric_wire_round_trip(Metric::CpuPercent);
    metric_wire_round_trip(Metric::MemoryBytes);
    metric_wire_round_trip(Metric::DiskReadBytes);
    metric_wire_round_trip(Metric::DiskWriteBytes);
    metric_wire_round_trip(Metric::RestartRate);
}

/// The text of a key begins with its process and names its detector and its metric; a variant adds
/// one part behind them, so that variants tell keys apart.
pub proof fn a_variant_is_the_last_part_of_a_key(
    key: KeyView,
    variant: Seq<char>,
    other: Seq<char>,
)
    ensures
        ({
            let bare = KeyView { variant: None, ..key };
            let own = KeyView { variant: Some(variant), ..key };
            let theirs = KeyView { variant: Some(other), ..key };
            &&& key_text(bare) == key.process + seq!['/'] + key.detector.name + seq!['/']
                + key.metric.name
            &&& key_text(own) == key_text(bare) + seq!['/'] + variant
            &&& key_text(own) != key_text(bare)
            &&& key_text(own) == key_text(theirs) <==> variant == other
        }),
{
    reveal_strlit("/");
    assert("/"@ =~= seq!['/']);
    let bare = KeyView { variant: None, ..key };
    let own = KeyView { variant: Some(variant), ..key };
    let theirs = KeyView { variant: Some(other), ..key };
    let n = key_text(bare).len() as int + 1;
    assert(key_text(own).skip(n) =~= variant);
    assert(key_text(theirs).skip(n) =~= other);
    assert(key_text(own).len() > key_text(bare).len());
}

/// Keys are ordered by process first; within a process by the order in which detectors are
/// declared, then metrics; and a key without a variant comes before every variant of it.
pub proof fn keys_are_ordered_part_by_part(a: KeyView, b: KeyView)
    ensures
        text_before(a.process, b.process) ==> key_before(a, b) && !key_before(b, a),
        a.process == b.process && a.detector.rank < b.detector.rank ==> key_before(a, b)
            && !key_before(b, a),
        a.process == b.process && a.detector == b.detector && a.metric.rank < b.metric.rank
            ==> key_before(a, b) && !key_before(b, a),
        a.process == b.process && a.detector == b.detector && a.metric == b.metric && a.variant
            is None && b.variant is Some ==> key_before(a, b) && !key_before(b, a),
        a.process == b.process && a.detector == b.detector && a.metric == b.metric && a.variant
            is Some && b.variant is Some && text_before(a.variant->0, b.variant->0) ==> key_before(
            a,
            b,
        ) && !key_before(b, a),
        !key_before(a, a),
{
    lemma_text_order(a.process, b.process, a.process);
    lemma_text_order(b.process, a.process, b.process);
    if a.variant is Some {
        lemma_text_order(a.variant->0, a.variant->0, a.variant->0);
        if b.variant is Some {
            lemma_text_order(a.variant->0, b.variant->0, a.variant->0);
        }
    }
}

} // verus!
