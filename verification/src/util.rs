use vstd::prelude::*;
use crate::errors::EngineError;
use crate::random::{std_rng_word, RandomSource};
use crate::value::Value;

verus! {

/// An item together with its relative sampling weight.
#[derive(Debug)]
pub struct Weighted<T> {
    pub weight: Value,
    pub item: T,
}

/// The weights of a weighted item list, in order.
pub open spec fn weights_of<T>(s: Seq<Weighted<T>>) -> Seq<Value> {
    s.map_values(|w: Weighted<T>| w.weight)
}

/// The sum of the first `k` weights.
pub open spec fn prefix_weight(ws: Seq<Value>, k: int) -> int
    decreases k,
{
    if k <= 0 {
        0
    } else {
        prefix_weight(ws, k - 1) + ws[k - 1]@
    }
}

/// Walking the weights in order: the first negative weight is an error, a
/// running total that leaves the machine range is an error, and otherwise
/// the total weight is returned.
pub open spec fn spec_scan_weights(ws: Seq<Value>, i: int, acc: int) -> Result<int, EngineError>
    decreases ws.len() - i,
{
    if i < 0 || i >= ws.len() {
        Ok(acc)
    } else if ws[i]@ < 0 {
        Err(EngineError::NegativeWeight)
    } else if acc + ws[i]@ > u64::MAX {
        Err(EngineError::ArithmeticOverflow)
    } else {
        spec_scan_weights(ws, i + 1, acc + ws[i]@)
    }
}

/// The index the sampler selects for a draw: the first item whose
/// cumulative weight exceeds the draw; ties resolve to the earlier item.
pub open spec fn spec_pick_from(ws: Seq<Value>, draw: int, i: int) -> int
    decreases ws.len() - i,
{
    if i < 0 || i >= ws.len() - 1 {
        i
    } else if draw < prefix_weight(ws, i + 1) {
        i
    } else {
        spec_pick_from(ws, draw, i + 1)
    }
}

/// The index the sampler selects for a draw, starting from the front.
pub open spec fn spec_pick(ws: Seq<Value>, draw: int) -> int {
    spec_pick_from(ws, draw, 0)
}

/// Prefix sums of non-negative weights grow monotonically.
pub proof fn lemma_prefix_monotone(ws: Seq<Value>, a: int, b: int)
    requires
        forall|k: int| 0 <= k < ws.len() ==> (#[trigger] ws[k])@ >= 0,
        0 <= a <= b <= ws.len(),
    ensures
        prefix_weight(ws, a) <= prefix_weight(ws, b),
    decreases b - a,
{
    if a < b {
        lemma_prefix_monotone(ws, a, b - 1);
    }
}

/// The selected index always lies within the item list.
pub proof fn lemma_pick_in_range(ws: Seq<Value>, draw: int, i: int)
    requires
        0 <= i < ws.len(),
    ensures
        i <= spec_pick_from(ws, draw, i) < ws.len(),
    decreases ws.len() - i,
{
    if i < ws.len() - 1 && !(draw < prefix_weight(ws, i + 1)) {
        lemma_pick_in_range(ws, draw, i + 1);
    }
}

/// The index whose cumulative bracket contains the draw is the index the
/// sampler selects.
pub proof fn lemma_pick_bracket(ws: Seq<Value>, draw: int, idx: int, i: int)
    requires
        forall|k: int| 0 <= k < ws.len() ==> (#[trigger] ws[k])@ >= 0,
        0 <= i <= idx < ws.len(),
        prefix_weight(ws, idx) <= draw,
        draw < prefix_weight(ws, idx + 1),
    ensures
        spec_pick_from(ws, draw, i) == idx,
    decreases idx - i,
{
    if i < idx {
        lemma_prefix_monotone(ws, i + 1, idx);
        lemma_pick_bracket(ws, draw, idx, i + 1);
    }
}

/// A list of weighted items prepared for repeated O(log n) draws: the
/// cumulative weight sums are precomputed, and a draw binary-searches the
/// first cumulative sum exceeding a uniformly drawn point below the total.
#[derive(Debug)]
pub struct WeightedChoice<T> {
    items: Vec<Weighted<T>>,
    cumulative: Vec<u64>,
    total: u64,
}

impl<T> WeightedChoice<T> {
    /// The stored items, with their weights.
    pub closed spec fn spec_items(self) -> Seq<Weighted<T>> {
        self.items@
    }

    /// The total weight, which a draw stays below.
    pub closed spec fn spec_total(self) -> int {
        self.total as int
    }

    /// The cumulative sums mirror the weights, which are non-negative and
    /// sum to a positive total.
    #[verifier::type_invariant]
    spec fn wf(self) -> bool {
        &&& self.cumulative@.len() == self.items@.len()
        &&& self.items@.len() >= 1
        &&& forall|k: int|
            0 <= k < self.items@.len() ==> (#[trigger] weights_of(self.items@)[k])@ >= 0
        &&& forall|k: int|
            0 <= k < self.cumulative@.len() ==> (#[trigger] self.cumulative@[k]) as int
                == prefix_weight(weights_of(self.items@), k + 1)
        &&& self.total as int == prefix_weight(weights_of(self.items@), self.items@.len() as int)
        &&& self.total >= 1
    }

    /// Prepare a weighted item list for sampling. The weights must be
    /// non-negative — a negative weight would leave the cumulative sums
    /// unsorted — and must sum to a strictly positive total that stays in
    /// the machine range.
    pub fn new(items: Vec<Weighted<T>>) -> (r: Result<WeightedChoice<T>, EngineError>)
        ensures
            match r {
                Ok(wc) => {
                    &&& spec_scan_weights(weights_of(items@), 0, 0) == Ok::<int, EngineError>(
                        wc.spec_total(),
                    )
                    &&& wc.spec_total() > 0
                    &&& wc.spec_items() == items@
                },
                Err(err) => match spec_scan_weights(weights_of(items@), 0, 0) {
                    Err(scan_err) => err == scan_err,
                    Ok(total) => total == 0 && err == EngineError::NonPositiveTotalWeight,
                },
            },
    {
        let ghost ws = weights_of(items@);
        let n = items.len();
        let mut cumulative: Vec<u64> = Vec::new();
        let mut acc: u64 = 0;
        let mut i: usize = 0;
        while i < n
            invariant
                i <= n,
                n == items@.len(),
                ws == weights_of(items@),
                cumulative@.len() == i,
                forall|k: int|
                    0 <= k < i ==> (#[trigger] cumulative@[k]) as int == prefix_weight(ws, k + 1),
                forall|k: int| 0 <= k < i ==> (#[trigger] ws[k])@ >= 0,
                acc as int == prefix_weight(ws, i as int),
                spec_scan_weights(ws, 0, 0) == spec_scan_weights(ws, i as int, acc as int),
            decreases n - i,
        {
            let w = &items[i].weight;
            if w.is_negative() {
                return Err(EngineError::NegativeWeight);
            }
            let units = w.units();
            if units > u64::MAX - acc {
                return Err(EngineError::ArithmeticOverflow);
            }
            acc = acc + units;
            cumulative.push(acc);
            i = i + 1;
        }
        if acc == 0 {
            return Err(EngineError::NonPositiveTotalWeight);
        }
        Ok(WeightedChoice { items, cumulative, total: acc })
    }

    /// Draw one item: take the next word of the random source, reduce it
    /// below the total weight, and select the first item whose cumulative
    /// weight exceeds the draw.
    pub fn sample(&self, source: &mut RandomSource) -> (r: &T)
        ensures
            final(source).seed() == old(source).seed(),
            final(source).drawn() == old(source).drawn() + 1,
            *r == self.spec_items()[spec_pick(
                weights_of(self.spec_items()),
                std_rng_word(old(source).seed(), old(source).drawn()) as int
                    % self.spec_total(),
            )].item,
    {
        proof {
            use_type_invariant(self);
        }
        let draw = source.next_below(self.total);
        let idx = self.locate(draw);
        &self.items[idx].item
    }

    /// The first index whose cumulative weight exceeds the draw, by binary
    /// search over the precomputed cumulative sums.
    fn locate(&self, draw: u64) -> (r: usize)
        requires
            draw < self.spec_total(),
        ensures
            0 <= r < self.spec_items().len(),
            r == spec_pick(weights_of(self.spec_items()), draw as int),
    {
        proof {
            use_type_invariant(self);
        }
        let ghost ws = weights_of(self.items@);
        let n = self.cumulative.len();
        let mut lo: usize = 0;
        let mut hi: usize = n - 1;
        while lo < hi
            invariant
                0 <= lo <= hi < n,
                n == self.cumulative@.len(),
                n == self.items@.len(),
                ws == weights_of(self.items@),
                forall|k: int|
                    0 <= k < n ==> (#[trigger] self.cumulative@[k]) as int == prefix_weight(
                        ws,
                        k + 1,
                    ),
                prefix_weight(ws, lo as int) <= draw as int,
                (draw as int) < prefix_weight(ws, hi + 1),
            decreases hi - lo,
        {
            let mid = lo + (hi - lo) / 2;
            if self.cumulative[mid] <= draw {
                lo = mid + 1;
            } else {
                hi = mid;
            }
        }
        proof {
            lemma_pick_bracket(ws, draw as int, lo as int, 0);
        }
        lo
    }
}

} // verus!
