//! Typical resource usage, derived from a retained sample history.
//!
//! The median, not the mean: one startup spike moves a mean and then masks the next real
//! excursion. A typical value is withheld rather than computed from too few samples, and it never
//! stands in as zero for an absent one. The window travels with the value.

use crate::reading::Reading;
use vstd::prelude::*;
use vstd::relations::{sorted_by, total_ordering};

verus! {

/// The percentage of its denominator at which a reading becomes critical.
pub const DEFAULT_CRITICAL_PERCENT: u32 = 90;

/// The percentage at which a reading becomes a warning.
pub const DEFAULT_WARNING_PERCENT: u32 = 75;

/// The margin, in percentage points, a ratio must clear before a band change.
pub const DEFAULT_BAND_HYSTERESIS_PERCENT: u32 = 2;

/// The smallest number of retained samples from which a typical value is presented.
pub const MINIMUM_TYPICAL_SAMPLES: usize = 5;

/// The middle of an ordered history: one sample, or the pair whose mean is the median.
#[derive(Debug, Clone, Copy, PartialEq, Eq, Structural)]
pub enum Middle {
    Sample(Reading),
    Pair(Reading, Reading),
}

/// A typical value and the window it summarises.
#[derive(Debug, Clone, Copy, PartialEq, Eq, Structural)]
pub struct TypicalValue {
    /// The middle of the retained samples.
    pub median: Middle,
    /// The period the samples span.
    pub window_secs: u64,
    /// How many samples it was derived from.
    pub sample_count: usize,
}

/// Why no typical value could be derived.
#[derive(Debug, Clone, Copy, PartialEq, Eq, Structural)]
pub enum TypicalUnavailable {
    /// No history retained at all.
    NoHistory,
    /// Some history, but too little to call anything typical.
    NotEnoughSamples { retained: usize, required: usize },
    /// A sample was not a finite number.
    NonFiniteSample,
}

/// A typical value, or the reason there is none.
#[derive(Debug, Clone, Copy, PartialEq, Eq, Structural)]
pub enum Typical {
    Available(TypicalValue),
    Unavailable { reason: TypicalUnavailable },
}

impl Typical {
    /// The value, when there is one.
    pub fn value(self) -> (value: Option<TypicalValue>)
        ensures
            value == (match self {
                Typical::Available(value) => Some(value),
                Typical::Unavailable { .. } => None,
            }),
    {
        match self {
            Typical::Available(value) => Some(value),
            Typical::Unavailable { .. } => None,
        }
    }

    /// Whether there is no value.
    pub fn is_unavailable(self) -> (unavailable: bool)
        ensures
            unavailable == (self is Unavailable),
    {
        match self {
            Typical::Available(_) => false,
            Typical::Unavailable { .. } => true,
        }
    }
}

/// Not after, in the total order of doubles.
pub open spec fn rank_order() -> spec_fn(Reading, Reading) -> bool {
    |a: Reading, b: Reading| a.rank() <= b.rank()
}

/// Whether a sequence holds the given samples in order.
pub open spec fn orders(ordered: Seq<Reading>, samples: Seq<Reading>) -> bool {
    ordered.to_multiset() == samples.to_multiset() && sorted_by(ordered, rank_order())
}

/// The middle of an ordered sequence.
pub open spec fn middle_of(ordered: Seq<Reading>) -> Middle {
    let middle = ordered.len() as int / 2;
    if ordered.len() % 2 == 0 {
        Middle::Pair(ordered[middle - 1], ordered[middle])
    } else {
        Middle::Sample(ordered[middle])
    }
}

/// Whether a typical value is the right one for some samples over a window.
pub open spec fn is_typical(samples: Seq<Reading>, window_secs: u64, typical: Typical) -> bool {
    if samples.len() == 0 {
        typical == (Typical::Unavailable { reason: TypicalUnavailable::NoHistory })
    } else if samples.len() < MINIMUM_TYPICAL_SAMPLES {
        typical == (Typical::Unavailable {
            reason: TypicalUnavailable::NotEnoughSamples {
                retained: samples.len() as usize,
                required: MINIMUM_TYPICAL_SAMPLES,
            },
        })
    } else if exists|i: int| 0 <= i < samples.len() && !(#[trigger] samples[i]).finite() {
        typical == (Typical::Unavailable { reason: TypicalUnavailable::NonFiniteSample })
    } else {
        exists|ordered: Seq<Reading>|
            #![trigger orders(ordered, samples)]
            orders(ordered, samples) && typical == Typical::Available(
                TypicalValue {
                    median: middle_of(ordered),
                    window_secs,
                    sample_count: samples.len() as usize,
                },
            )
    }
}

fn insert_ordered(ordered: &mut Vec<Reading>, sample: Reading)
    requires
        sorted_by(old(ordered)@, rank_order()),
    ensures
        sorted_by(final(ordered)@, rank_order()),
        final(ordered)@.to_multiset() == old(ordered)@.to_multiset().insert(sample),
{
    broadcast use vstd::seq_lib::group_to_multiset_ensures;

    let mut at: usize = ordered.len();
    let ghost before = ordered@;
    while at > 0 && sample.ranks_before(ordered[at - 1])
        invariant
            at <= ordered.len(),
            ordered@ == before,
            sorted_by(before, rank_order()),
            forall|i: int| at <= i < before.len() ==> sample.rank() < (#[trigger] before[i]).rank(),
        decreases at,
    {
        at = at - 1;
    }
    ordered.insert(at, sample);
    proof {
        let after = ordered@;
        assert(after =~= before.insert(at as int, sample));
        assert forall|i: int| 0 <= i < at implies (#[trigger] before[i]).rank()
            <= sample.rank() by {
            if i < at - 1 {
                assert(rank_order()(before[i], before[at - 1]));
            }
        }
        assert forall|i: int, j: int| 0 <= i < j < after.len() implies #[trigger] rank_order()(
            after[i],
            after[j],
        ) by {
            let p = if i < at { i } else { i - 1 };
            let q = if j < at { j } else { j - 1 };
            if i != at && j != at {
                assert(rank_order()(before[p], before[q]));
            } else if i == at {
                assert(sample.rank() < before[q].rank());
            } else {
                assert(before[p].rank() <= sample.rank());
            }
        }
    }
}

/// The middle of the retained samples over a stated window, or the reason it is withheld.
pub fn typical_from_samples(samples: &[Reading], window_secs: u64) -> (typical: Typical)
    ensures
        is_typical(samples@, window_secs, typical),
{
    if samples.len() == 0 {
        return Typical::Unavailable { reason: TypicalUnavailable::NoHistory };
    }
    if samples.len() < MINIMUM_TYPICAL_SAMPLES {
        return Typical::Unavailable {
            reason: TypicalUnavailable::NotEnoughSamples {
                retained: samples.len(),
                required: MINIMUM_TYPICAL_SAMPLES,
            },
        };
    }
    let mut ordered: Vec<Reading> = Vec::new();
    let mut i: usize = 0;
    assert(samples@.take(0) =~= ordered@);
    while i < samples.len()
        invariant
            i <= samples.len(),
            samples@.len() >= MINIMUM_TYPICAL_SAMPLES,
            orders(ordered@, samples@.take(i as int)),
            forall|j: int| 0 <= j < i ==> (#[trigger] samples@[j]).finite(),
        decreases samples.len() - i,
    {
        if !samples[i].is_finite() {
            return Typical::Unavailable { reason: TypicalUnavailable::NonFiniteSample };
        }
        insert_ordered(&mut ordered, samples[i]);
        proof {
            assert(samples@.take(i + 1) =~= samples@.take(i as int).push(samples@[i as int]));
            vstd::seq_lib::to_multiset_build(samples@.take(i as int), samples@[i as int]);
        }
        i = i + 1;
    }
    proof {
        broadcast use vstd::seq_lib::group_to_multiset_ensures;

        assert(samples@.take(i as int) =~= samples@);
        assert(ordered@.len() == ordered@.to_multiset().len());
        assert(samples@.len() == samples@.to_multiset().len());
    }
    let middle: usize = ordered.len() / 2;
    let median = if ordered.len() % 2 == 0 {
        Middle::Pair(ordered[middle - 1], ordered[middle])
    } else {
        Middle::Sample(ordered[middle])
    };
    let typical = Typical::Available(
        TypicalValue { median, window_secs, sample_count: ordered.len() },
    );
    assert(orders(ordered@, samples@) && median == middle_of(ordered@));
    typical
}

/// The typical value depends on which samples were retained, not on their order.
pub proof fn typical_value_ignores_sample_order(
    a: Seq<Reading>,
    b: Seq<Reading>,
    window_secs: u64,
    first: Typical,
    second: Typical,
)
    requires
        a.to_multiset() == b.to_multiset(),
        is_typical(a, window_secs, first),
        is_typical(b, window_secs, second),
    ensures
        first == second,
{
    broadcast use vstd::seq_lib::group_to_multiset_ensures;

    assert(a.len() == a.to_multiset().len());
    assert(b.len() == b.to_multiset().len());
    if exists|i: int| 0 <= i < a.len() && !(#[trigger] a[i]).finite() {
        lemma_broken_sample_moves(a, b);
    }
    if exists|i: int| 0 <= i < b.len() && !(#[trigger] b[i]).finite() {
        lemma_broken_sample_moves(b, a);
    }
    if first is Available {
        let x = choose|x: Seq<Reading>|
            #![trigger orders(x, a)]
            orders(x, a) && first == Typical::Available(
                TypicalValue {
                    median: middle_of(x),
                    window_secs,
                    sample_count: a.len() as usize,
                },
            );
        let y = choose|y: Seq<Reading>|
            #![trigger orders(y, b)]
            orders(y, b) && second == Typical::Available(
                TypicalValue {
                    median: middle_of(y),
                    window_secs,
                    sample_count: b.len() as usize,
                },
            );
        let order = rank_order();
        assert forall|p: Reading, q: Reading|
            #[trigger] order(p, q) && #[trigger] order(q, p) implies p == q by {
            crate::reading::numeric_order_is_refined_by_rank(p, q);
        }
        assert(total_ordering(order));
        vstd::seq_lib::lemma_sorted_unique(x, y, order);
    }
}

proof fn lemma_broken_sample_moves(a: Seq<Reading>, b: Seq<Reading>)
    requires
        a.to_multiset() == b.to_multiset(),
        exists|i: int| 0 <= i < a.len() && !(#[trigger] a[i]).finite(),
    ensures
        exists|i: int| 0 <= i < b.len() && !(#[trigger] b[i]).finite(),
{
    broadcast use vstd::seq_lib::group_to_multiset_ensures;

    let i = choose|i: int| 0 <= i < a.len() && !(#[trigger] a[i]).finite();
    assert(a.contains(a[i]));
    assert(a.to_multiset().count(a[i]) > 0);
    assert(b.contains(a[i]));
    let j = choose|j: int| 0 <= j < b.len() && b[j] == a[i];
    assert(!b[j].finite());
}

/// A single extreme sample cannot be the middle one: among enough samples, at least two others
/// rank no higher than the middle and at least two rank no lower.
pub proof fn an_extreme_sample_is_never_the_middle(ordered: Seq<Reading>)
    requires
        sorted_by(ordered, rank_order()),
        ordered.len() >= MINIMUM_TYPICAL_SAMPLES,
    ensures
        match middle_of(ordered) {
            Middle::Sample(sample) => {
                let at = ordered.len() as int / 2;
                &&& sample == ordered[at]
                &&& ordered[at - 2].rank() <= ordered[at - 1].rank() <= sample.rank()
                &&& sample.rank() <= ordered[at + 1].rank() <= ordered[at + 2].rank()
            },
            Middle::Pair(low, high) => {
                let at = ordered.len() as int / 2;
                &&& low == ordered[at - 1] && high == ordered[at]
                &&& ordered[at - 3].rank() <= ordered[at - 2].rank() <= low.rank()
                &&& low.rank() <= high.rank()
                &&& high.rank() <= ordered[at + 1].rank() <= ordered[at + 2].rank()
            },
        },
{
    let at = ordered.len() as int / 2;
    let order = rank_order();
    assert(order(ordered[at - 2], ordered[at - 1]));
    assert(order(ordered[at - 1], ordered[at]));
    assert(order(ordered[at], ordered[at + 1]));
    assert(order(ordered[at + 1], ordered[at + 2]));
    if ordered.len() % 2 == 0 {
        assert(order(ordered[at - 3], ordered[at - 2]));
    }
}

/// A typical value takes five finite samples: with none there is no history, with fewer not enough,
/// and one that is not finite leaves none. An available one spans its window and counts its samples.
pub proof fn a_typical_value_takes_enough_finite_samples(
    samples: Seq<Reading>,
    window_secs: u64,
    typical: Typical,
)
    requires
        is_typical(samples, window_secs, typical),
        samples.len() <= usize::MAX,
    ensures
        samples.len() == 0 <==> typical == (Typical::Unavailable {
            reason: TypicalUnavailable::NoHistory,
        }),
        0 < samples.len() < 5 ==> typical == (Typical::Unavailable {
            reason: TypicalUnavailable::NotEnoughSamples {
                retained: samples.len() as usize,
                required: 5,
            },
        }),
        samples.len() >= 5 && (exists|i: int|
            0 <= i < samples.len() && !(#[trigger] samples[i]).finite()) <==> typical == (
        Typical::Unavailable { reason: TypicalUnavailable::NonFiniteSample }),
        typical is Available <==> samples.len() >= 5 && (forall|i: int|
            0 <= i < samples.len() ==> (#[trigger] samples[i]).finite()),
        typical matches Typical::Available(value) ==> value.window_secs == window_secs
            && value.sample_count == samples.len(),
{
}


/// The middle is a retained sample, or a pair of them: one of an odd number, two of an even one.
pub proof fn the_middle_is_of_the_samples(
    samples: Seq<Reading>,
    window_secs: u64,
    value: TypicalValue,
)
    requires
        is_typical(samples, window_secs, Typical::Available(value)),
    ensures
        value.median is Sample <==> samples.len() % 2 == 1,
        value.median matches Middle::Sample(sample) ==> samples.contains(sample),
        value.median matches Middle::Pair(low, high) ==> samples.contains(low) && samples.contains(
            high,
        ) && low.rank() <= high.rank(),
{
    broadcast use vstd::seq_lib::group_to_multiset_ensures;

    let ordered = choose|ordered: Seq<Reading>|
        #![trigger orders(ordered, samples)]
        orders(ordered, samples) && Typical::Available(value) == Typical::Available(
            TypicalValue {
                median: middle_of(ordered),
                window_secs,
                sample_count: samples.len() as usize,
            },
        );
    assert(ordered.len() == ordered.to_multiset().len());
    assert(samples.len() == samples.to_multiset().len());
    let at = ordered.len() as int / 2;
    lemma_ordered_sample(ordered, samples, at);
    lemma_ordered_sample(ordered, samples, at - 1);
    assert(rank_order()(ordered[at - 1], ordered[at]));
}

proof fn lemma_ordered_sample(ordered: Seq<Reading>, samples: Seq<Reading>, i: int)
    requires
        ordered.to_multiset() == samples.to_multiset(),
        0 <= i < ordered.len(),
    ensures
        samples.contains(ordered[i]),
{
    broadcast use vstd::seq_lib::group_to_multiset_ensures;

    assert(ordered.contains(ordered[i]));
    assert(ordered.to_multiset().count(ordered[i]) > 0);
    assert(samples.to_multiset().count(ordered[i]) > 0);
}

/// A warning comes before the critical level, which is nine tenths, by more than the margin a band
/// change has to clear.
pub proof fn a_warning_comes_before_the_critical_level()
    ensures
        DEFAULT_CRITICAL_PERCENT == 90,
        DEFAULT_WARNING_PERCENT == 75,
        DEFAULT_BAND_HYSTERESIS_PERCENT == 2,
        DEFAULT_WARNING_PERCENT + DEFAULT_BAND_HYSTERESIS_PERCENT < DEFAULT_CRITICAL_PERCENT,
{
}

} // verus!
