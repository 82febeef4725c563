//! The dataset and the aggregation record.
//!
//! A `Dataset` is the ordered, non-empty sequence of samples that survived
//! numeric coercion, each held as its IEEE-754 bit pattern.  `StatData` is
//! the immutable aggregate snapshot.  The discrete aggregates — the count
//! and the min/max scans, whose update rule is pure bit-pattern logic —
//! are computed and verified here; the four floating-point aggregates
//! (sum, average and the two deviation measures) are computed by the
//! caller and stored as the bit patterns it hands in.

use vstd::prelude::*;

use crate::float_bits::bits_gt;
use crate::float_bits::bits_lt;
use crate::float_bits::bits_le;
use crate::float_bits::is_nan_bits;
use crate::float_bits::f64_bits_gt;
use crate::float_bits::f64_bits_lt;
use crate::format::StatsError;

verus! {

/// The values that numeric coercion kept, in token order: each `Some` is a
/// token that parsed as a double, each `None` one that was silently
/// discarded.
pub open spec fn parsed_values(parsed: Seq<Option<u64>>) -> Seq<u64>
    decreases parsed.len(),
{
    if parsed.len() == 0 {
        Seq::empty()
    } else {
        let rest = parsed_values(parsed.drop_last());
        match parsed.last() {
            Option::Some(v) => rest.push(v),
            Option::None => rest,
        }
    }
}

/// How many values numeric coercion keeps: exactly the number of tokens
/// that parsed successfully.
pub proof fn lemma_count_is_parsed_tokens(parsed: Seq<Option<u64>>)
    ensures
        parsed_values(parsed).len() == parsed.filter(|o: Option<u64>| o is Some).len(),
    decreases parsed.len(),
{
    reveal(Seq::filter);
    if parsed.len() > 0 {
        lemma_count_is_parsed_tokens(parsed.drop_last());
    }
}

/// An ordered, immutable sequence of double-precision samples (as bit
/// patterns).  Invariant: non-empty — construction fails otherwise.
pub struct Dataset {
    values: Vec<u64>,
}

impl View for Dataset {
    type V = Seq<u64>;

    closed spec fn view(&self) -> Seq<u64> {
        self.values@
    }
}

impl Dataset {
    #[verifier::type_invariant]
    spec fn non_empty(self) -> bool {
        self.values@.len() > 0
    }

    /// Collects the successfully parsed values in token order, applying
    /// the tolerance policy (a `None` is dropped silently, never an
    /// error), and fails with `EmptyDataset` exactly when no token at all
    /// parsed as a number.
    pub fn from_parsed(parsed: Vec<Option<u64>>) -> (r: Result<Dataset, StatsError>)
        ensures
            ({
                let vals = parsed_values(parsed@);
                match r {
                    Ok(d) => d@ == vals && vals.len() > 0,
                    Err(e) => e == StatsError::EmptyDataset && vals.len() == 0,
                }
            }),
    {
        let n = parsed.len();
        let mut values: Vec<u64> = Vec::new();
        let mut i: usize = 0;
        proof {
            assert(parsed@.subrange(0, 0) =~= Seq::<Option<u64>>::empty());
        }
        while i < n
            invariant
                i <= n,
                values@ == parsed_values(parsed@.subrange(0, i as int)),
            decreases n - i,
        {
            proof {
                assert(parsed@.subrange(0, i + 1).drop_last() =~= parsed@.subrange(0, i as int));
            }
            if let Some(v) = parsed[i] {
                values.push(v);
            }
            i = i + 1;
        }
        proof {
            assert(parsed@.subrange(0, n as int) =~= parsed@);
        }
        if values.len() == 0 {
            Err(StatsError::EmptyDataset)
        } else {
            Ok(Dataset { values })
        }
    }

    /// The number of samples; at least one by the type's invariant.
    pub fn len(&self) -> (n: usize)
        ensures
            n == self@.len(),
            n > 0,
    {
        proof {
            use_type_invariant(self);
        }
        self.values.len()
    }

    /// The sample at a position.
    pub fn get(&self, i: usize) -> (r: u64)
        requires
            i < self@.len(),
        ensures
            r == self@[i as int],
    {
        self.values[i]
    }
}

/// The running maximum the engine ends with: start from the first element
/// and replace it on strict IEEE `>` — a comparison with a NaN on either
/// side never replaces.  An empty scan yields the bits of positive zero,
/// as the engine's accumulator starts there.
pub open spec fn spec_max(s: Seq<u64>) -> u64
    decreases s.len(),
{
    if s.len() == 0 {
        0u64
    } else if s.len() == 1 {
        s[0]
    } else {
        let m = spec_max(s.drop_last());
        if bits_gt(s.last(), m) {
            s.last()
        } else {
            m
        }
    }
}

/// The running minimum, symmetric to `spec_max` with strict IEEE `<`.
pub open spec fn spec_min(s: Seq<u64>) -> u64
    decreases s.len(),
{
    if s.len() == 0 {
        0u64
    } else if s.len() == 1 {
        s[0]
    } else {
        let m = spec_min(s.drop_last());
        if bits_lt(s.last(), m) {
            s.last()
        } else {
            m
        }
    }
}

fn max_bits(values: &Dataset) -> (r: u64)
    ensures
        r == spec_max(values@),
{
    let n = values.len();
    let mut acc = values.get(0);
    let mut i: usize = 1;
    proof {
        assert(values@.subrange(0, 1).len() == 1);
    }
    while i < n
        invariant
            1 <= i <= n,
            n == values@.len(),
            acc == spec_max(values@.subrange(0, i as int)),
        decreases n - i,
    {
        proof {
            assert(values@.subrange(0, i + 1).drop_last() =~= values@.subrange(0, i as int));
        }
        let v = values.get(i);
        if f64_bits_gt(v, acc) {
            acc = v;
        }
        i = i + 1;
    }
    proof {
        assert(values@.subrange(0, n as int) =~= values@);
    }
    acc
}

fn min_bits(values: &Dataset) -> (r: u64)
    ensures
        r == spec_min(values@),
{
    let n = values.len();
    let mut acc = values.get(0);
    let mut i: usize = 1;
    proof {
        assert(values@.subrange(0, 1).len() == 1);
    }
    while i < n
        invariant
            1 <= i <= n,
            n == values@.len(),
            acc == spec_min(values@.subrange(0, i as int)),
        decreases n - i,
    {
        proof {
            assert(values@.subrange(0, i + 1).drop_last() =~= values@.subrange(0, i as int));
        }
        let v = values.get(i);
        if f64_bits_lt(v, acc) {
            acc = v;
        }
        i = i + 1;
    }
    proof {
        assert(values@.subrange(0, n as int) =~= values@);
    }
    acc
}

/// The immutable aggregate snapshot, computed exactly once from a
/// `Dataset`.  Every field that holds a double holds its bit pattern.
#[derive(Debug, Copy, Clone)]
pub struct StatData {
    pub sum: u64,
    pub count: usize,
    pub avg: u64,
    pub min: u64,
    pub max: u64,
    /// Population standard deviation.
    pub sigma: u64,
    /// Sample standard deviation.
    pub standard_deviation: u64,
}

impl StatData {
    /// Builds the snapshot.  The count and the two extrema are computed
    /// here: the count is the dataset length, and min/max are the
    /// first-element-seeded scans with strict-inequality updates (so NaN
    /// elements after the first never move them).  The four
    /// floating-point aggregates are taken from the caller, which must
    /// compute them in the engine's order: sum first (halting the moment
    /// the running total turns NaN), then `avg = sum / count`, then both
    /// deviation measures from that same average.
    pub fn new(
        values: &Dataset,
        sum: u64,
        avg: u64,
        sigma: u64,
        standard_deviation: u64,
    ) -> (r: StatData)
        ensures
            r.sum == sum,
            r.count == values@.len(),
            r.avg == avg,
            r.min == spec_min(values@),
            r.max == spec_max(values@),
            r.sigma == sigma,
            r.standard_deviation == standard_deviation,
    {
        StatData {
            sum,
            count: values.len(),
            avg,
            min: min_bits(values),
            max: max_bits(values),
            sigma,
            standard_deviation,
        }
    }
}

/// The two extrema are always elements of the dataset, NaN elements or
/// not.
pub proof fn lemma_min_max_membership(s: Seq<u64>)
    requires
        s.len() > 0,
    ensures
        s.contains(spec_min(s)),
        s.contains(spec_max(s)),
    decreases s.len(),
{
    if s.len() == 1 {
        assert(s[0] == spec_max(s));
        assert(s[0] == spec_min(s));
    } else {
        let d = s.drop_last();
        lemma_min_max_membership(d);
        assert(s[s.len() - 1] == s.last());
        let mx = spec_max(d);
        if !bits_gt(s.last(), mx) {
            let j = choose|j: int| 0 <= j < d.len() && d[j] == mx;
            assert(s[j] == mx);
        }
        let mn = spec_min(d);
        if !bits_lt(s.last(), mn) {
            let j = choose|j: int| 0 <= j < d.len() && d[j] == mn;
            assert(s[j] == mn);
        }
    }
}

/// For a dataset free of NaN, the extrema bound every element:
/// `min <= s[i] <= max` in the IEEE order.
pub proof fn lemma_min_max_bounds(s: Seq<u64>)
    requires
        s.len() > 0,
        forall|i: int| 0 <= i < s.len() ==> !is_nan_bits(#[trigger] s[i]),
    ensures
        forall|i: int|
            0 <= i < s.len() ==> bits_le(spec_min(s), #[trigger] s[i]) && bits_le(
                s[i],
                spec_max(s),
            ),
    decreases s.len(),
{
    if s.len() == 1 {
        assert(bits_le(s[0], s[0]));
    } else {
        let d = s.drop_last();
        assert(forall|i: int| 0 <= i < d.len() ==> d[i] == s[i]);
        lemma_min_max_bounds(d);
        lemma_min_max_membership(d);
        let mx = spec_max(d);
        let jx = choose|j: int| 0 <= j < d.len() && d[j] == mx;
        assert(!is_nan_bits(mx));
        let mn = spec_min(d);
        let jn = choose|j: int| 0 <= j < d.len() && d[j] == mn;
        assert(!is_nan_bits(mn));
        assert(!is_nan_bits(s.last())) by {
            assert(s.last() == s[s.len() - 1]);
        }
        assert(forall|i: int|
            0 <= i < s.len() ==> bits_le(s[i], spec_max(s)) && bits_le(spec_min(s), s[i])) by {
            assert(s.last() == s[s.len() - 1]);
        }
    }
}

} // verus!
