//! The session store: an ordered map from timestamp to value, with range means.
use std::collections::BTreeMap;
use vstd::prelude::*;

verus! {

/// The value stored at `k`, or 0 where nothing is stored.
pub open spec fn value_at(m: Map<i32, i32>, k: int) -> int {
    if m.contains_key(k as i32) {
        m[k as i32] as int
    } else {
        0
    }
}

/// 1 where a value is stored at `k`, else 0.
pub open spec fn present_at(m: Map<i32, i32>, k: int) -> int {
    if m.contains_key(k as i32) {
        1
    } else {
        0
    }
}

/// The sum of the values stored at keys `lo..=hi`.
pub open spec fn range_sum(m: Map<i32, i32>, lo: int, hi: int) -> int
    decreases hi - lo + 1,
{
    if hi < lo {
        0
    } else {
        range_sum(m, lo, hi - 1) + value_at(m, hi)
    }
}

/// The number of keys in `lo..=hi` at which a value is stored.
pub open spec fn range_count(m: Map<i32, i32>, lo: int, hi: int) -> int
    decreases hi - lo + 1,
{
    if hi < lo {
        0
    } else {
        range_count(m, lo, hi - 1) + present_at(m, hi)
    }
}

/// Integer division rounding toward zero, for a positive divisor.
pub open spec fn trunc_div(a: int, b: int) -> int {
    if a >= 0 {
        a / b
    } else {
        -((-a) / b)
    }
}

/// The truncated mean of the values stored at keys `lo..=hi`; 0 where there are none,
/// which includes every inverted range.
pub open spec fn range_mean(m: Map<i32, i32>, lo: int, hi: int) -> int {
    let c = range_count(m, lo, hi);
    if c == 0 {
        0
    } else {
        trunc_div(range_sum(m, lo, hi), c)
    }
}

/// The store that a sequence of inserts, applied in order to an empty store, leaves.
pub open spec fn replay(ops: Seq<(i32, i32)>) -> Map<i32, i32>
    decreases ops.len(),
{
    if ops.len() == 0 {
        Map::empty()
    } else {
        replay(ops.drop_last()).insert(ops.last().0, ops.last().1)
    }
}

/// `s` lists exactly the entries of `m` whose keys lie in `lo..=hi`, by ascending key.
pub open spec fn lists_range(m: Map<i32, i32>, lo: int, hi: int, s: Seq<(i32, i32)>) -> bool {
    &&& forall|i: int, j: int| 0 <= i < j < s.len() ==> s[i].0 < s[j].0
    &&& forall|i: int|
        0 <= i < s.len() ==> lo <= s[i].0 <= hi && m.contains_key(s[i].0) && m[s[i].0]
            == s[i].1
    &&& forall|k: i32|
        lo <= k <= hi && #[trigger] m.contains_key(k) ==> exists|i: int|
            0 <= i < s.len() && s[i].0 == k
}

/// The sum of the second components of a sequence of entries.
pub open spec fn entries_sum(s: Seq<(i32, i32)>) -> int
    decreases s.len(),
{
    if s.len() == 0 {
        0
    } else {
        entries_sum(s.drop_last()) + s.last().1 as int
    }
}

/// Relies on `BTreeMap::range` over `lo..=hi`: it yields exactly the entries whose keys lie
/// in that inclusive range, in ascending key order. It panics where `lo > hi`.
#[verifier::external_body]
fn entries_between(map: &BTreeMap<i32, i32>, lo: i32, hi: i32) -> (r: Vec<(i32, i32)>)
    requires
        lo <= hi,
    ensures
        lists_range(map@, lo as int, hi as int, r@),
{
    map.range(lo..=hi).map(|(k, v)| (*k, *v)).collect()
}

/// A listing of the entries in a range sums to the range's sum and counts its keys.
proof fn lemma_listing_sums(m: Map<i32, i32>, lo: int, hi: int, s: Seq<(i32, i32)>)
    requires
        i32::MIN <= lo,
        hi <= i32::MAX,
        lists_range(m, lo, hi, s),
    ensures
        entries_sum(s) == range_sum(m, lo, hi),
        s.len() == range_count(m, lo, hi),
    decreases hi - lo + 1,
{
    if hi < lo {
        if s.len() > 0 {
            assert(lo <= s[0].0 <= hi);
        }
    } else {
        let hk = hi as i32;
        if s.len() > 0 && s.last().0 == hk {
            let t = s.drop_last();
            assert forall|k: i32| lo <= k <= hi - 1 && #[trigger] m.contains_key(k) implies exists|
                i: int,
            | 0 <= i < t.len() && t[i].0 == k by {
                let i = choose|i: int| 0 <= i < s.len() && s[i].0 == k;
                assert(t[i].0 == k);
            }
            assert forall|i: int| 0 <= i < t.len() implies t[i].0 <= hi - 1 by {
                assert(s[i].0 < s[s.len() - 1].0);
            }
            lemma_listing_sums(m, lo, hi - 1, t);
        } else {
            assert(!m.contains_key(hk)) by {
                if m.contains_key(hk) {
                    let i = choose|i: int| 0 <= i < s.len() && s[i].0 == hk;
                    if i < s.len() - 1 {
                        assert(s[i].0 < s[s.len() - 1].0);
                    }
                }
            }
            assert forall|i: int| 0 <= i < s.len() implies s[i].0 <= hi - 1 by {
                if i < s.len() - 1 {
                    assert(s[i].0 < s[s.len() - 1].0);
                }
            }
            lemma_listing_sums(m, lo, hi - 1, s);
        }
    }
}

/// A range holds at most one key per integer in it.
proof fn lemma_count_bounds(m: Map<i32, i32>, lo: int, hi: int)
    ensures
        0 <= range_count(m, lo, hi),
        hi >= lo - 1 ==> range_count(m, lo, hi) <= hi - lo + 1,
        i32::MIN * range_count(m, lo, hi) <= range_sum(m, lo, hi) <= i32::MAX * range_count(
            m,
            lo,
            hi,
        ),
    decreases hi - lo + 1,
{
    if hi >= lo {
        lemma_count_bounds(m, lo, hi - 1);
    }
}

/// The truncated mean of values within the 32-bit range is itself within it.
proof fn lemma_mean_fits(sum: int, count: int)
    requires
        count > 0,
        i32::MIN * count <= sum <= i32::MAX * count,
    ensures
        i32::MIN <= trunc_div(sum, count) <= i32::MAX,
{
    if sum >= 0 {
        assert(sum / count <= i32::MAX) by (nonlinear_arith)
            requires
                count > 0,
                0 <= sum <= i32::MAX * count,
        ;
        assert(sum / count >= 0) by (nonlinear_arith)
            requires
                count > 0,
                0 <= sum,
        ;
    } else {
        assert((-sum) / count <= 0x8000_0000) by (nonlinear_arith)
            requires
                count > 0,
                0 < -sum <= 0x8000_0000 * count,
        ;
        assert((-sum) / count >= 0) by (nonlinear_arith)
            requires
                count > 0,
                0 < -sum,
        ;
    }
}

/// The entries recorded by one connection: at most one value per timestamp.
pub struct SessionStore {
    map: BTreeMap<i32, i32>,
}

impl View for SessionStore {
    type V = Map<i32, i32>;

    closed spec fn view(&self) -> Map<i32, i32> {
        self.map@
    }
}

impl SessionStore {
    /// An empty store.
    pub fn new() -> (r: SessionStore)
        ensures
            r@ == Map::<i32, i32>::empty(),
    {
        SessionStore { map: BTreeMap::new() }
    }

    /// Records `value` at `timestamp`, replacing whatever was stored there.
    pub fn insert(&mut self, timestamp: i32, value: i32)
        ensures
            final(self)@ == old(self)@.insert(timestamp, value),
    {
        self.map.insert(timestamp, value);
    }

    /// The truncated mean of the values stored at timestamps `min_ts..=max_ts`; 0 where there
    /// are none, and for an inverted range. The sum is kept in 64 bits; the mean of 32-bit
    /// values lies between the smallest and the largest of them, so it is returned exactly,
    /// never wrapped or clamped.
    pub fn mean(&self, min_ts: i32, max_ts: i32) -> (r: i32)
        ensures
            r as int == range_mean(self@, min_ts as int, max_ts as int),
    {
        if min_ts > max_ts {
            return 0;
        }
        let entries = entries_between(&self.map, min_ts, max_ts);
        proof {
            lemma_listing_sums(self@, min_ts as int, max_ts as int, entries@);
            lemma_count_bounds(self@, min_ts as int, max_ts as int);
        }
        let mut total: i64 = 0;
        let mut i: usize = 0;
        while i < entries.len()
            invariant
                i <= entries.len() <= 0x1_0000_0000,
                total as int == entries_sum(entries@.take(i as int)),
                i32::MIN * i <= total <= i32::MAX * i,
            decreases entries.len() - i,
        {
            let (_, v) = entries[i];
            assert(entries@.take(i + 1).drop_last() == entries@.take(i as int));
            total = total + v as i64;
            i = i + 1;
        }
        assert(entries@.take(entries.len() as int) == entries@);
        let count: u64 = i as u64;
        if count == 0 {
            return 0;
        }
        proof {
            lemma_mean_fits(total as int, count as int);
        }
        if total >= 0 {
            let q: u64 = total as u64 / count;
            q as i32
        } else {
            let magnitude: u64 = (-(total + 1)) as u64 + 1;
            let q: u64 = magnitude / count;
            (-(q as i64)) as i32
        }
    }
}

} // verus!
