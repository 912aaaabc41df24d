//! Properties of the store that hold across calls.
use vstd::prelude::*;
use crate::store::{range_count, range_mean, range_sum, replay, present_at, value_at};

verus! {

/// Two stores that agree on the keys `lo..=hi` have the same sum and count there.
proof fn lemma_agree_in_range(m1: Map<i32, i32>, m2: Map<i32, i32>, lo: int, hi: int)
    requires
        i32::MIN <= lo,
        hi <= i32::MAX,
        forall|k: i32|
            lo <= k <= hi ==> (#[trigger] m1.contains_key(k) <==> m2.contains_key(k)),
        forall|k: i32| lo <= k <= hi && #[trigger] m1.contains_key(k) ==> m1[k] == m2[k],
    ensures
        range_sum(m1, lo, hi) == range_sum(m2, lo, hi),
        range_count(m1, lo, hi) == range_count(m2, lo, hi),
    decreases hi - lo + 1,
{
    if hi >= lo {
        let k = hi as i32;
        assert(m1.contains_key(k) <==> m2.contains_key(k));
        assert(value_at(m1, hi) == value_at(m2, hi));
        assert(present_at(m1, hi) == present_at(m2, hi));
        lemma_agree_in_range(m1, m2, lo, hi - 1);
    }
}

/// One more insert acts on the replayed store as `SessionStore::insert` does: the store after
/// a sequence of inserts is the replay of that sequence.
pub proof fn law_replay_extends(ops: Seq<(i32, i32)>, ts: i32, value: i32)
    ensures
        replay(Seq::<(i32, i32)>::empty()) == Map::<i32, i32>::empty(),
        replay(ops.push((ts, value))) == replay(ops).insert(ts, value),
{
    assert(ops.push((ts, value)).drop_last() =~= ops);
}

/// After any sequence of inserts, a timestamp holds a value exactly when some insert targeted
/// it, and the value it holds is the one of the last insert that did.
pub proof fn law_latest_value_wins(ops: Seq<(i32, i32)>, ts: i32)
    ensures
        replay(ops).contains_key(ts) <==> exists|i: int| 0 <= i < ops.len() && ops[i].0 == ts,
        forall|i: int|
            0 <= i < ops.len() && #[trigger] ops[i].0 == ts && (forall|j: int|
                i < j < ops.len() ==> ops[j].0 != ts) ==> replay(ops)[ts] == ops[i].1,
    decreases ops.len(),
{
    if ops.len() > 0 {
        let init = ops.drop_last();
        law_latest_value_wins(init, ts);
        let n = ops.len() - 1;
        if ops[n].0 != ts {
            assert forall|i: int| 0 <= i < ops.len() && ops[i].0 == ts implies 0 <= i < init.len()
                && init[i].0 == ts by {}
            assert forall|i: int| 0 <= i < init.len() && init[i].0 == ts implies 0 <= i
                < ops.len() && ops[i].0 == ts by {}
        } else {
            assert(ops[n].0 == ts);
        }
    }
}

/// Only the entries within the queried range decide a query's mean: stores that agree on
/// `min_ts..=max_ts` answer it alike, whatever they hold elsewhere.
pub proof fn law_outside_range_ignored(
    m1: Map<i32, i32>,
    m2: Map<i32, i32>,
    min_ts: i32,
    max_ts: i32,
)
    requires
        forall|k: i32|
            min_ts <= k <= max_ts ==> (#[trigger] m1.contains_key(k) <==> m2.contains_key(k)),
        forall|k: i32| min_ts <= k <= max_ts && #[trigger] m1.contains_key(k) ==> m1[k] == m2[k],
    ensures
        range_mean(m1, min_ts as int, max_ts as int) == range_mean(m2, min_ts as int, max_ts as int),
{
    lemma_agree_in_range(m1, m2, min_ts as int, max_ts as int);
}

/// Inserting at a timestamp a second time replaces the first value: the store is as if only
/// the second insert had happened, and every range counts that timestamp at most once.
pub proof fn law_reinsert_replaces(m: Map<i32, i32>, ts: i32, v: i32, w: i32, min_ts: i32, max_ts: i32)
    ensures
        m.insert(ts, v).insert(ts, w) == m.insert(ts, w),
        m.insert(ts, v).insert(ts, w)[ts] == w,
        range_count(m.insert(ts, v).insert(ts, w), min_ts as int, max_ts as int) == range_count(
            m.insert(ts, v),
            min_ts as int,
            max_ts as int,
        ),
{
    assert(m.insert(ts, v).insert(ts, w) =~= m.insert(ts, w));
    lemma_agree_count(m.insert(ts, v).insert(ts, w), m.insert(ts, v), min_ts as int, max_ts as int);
}

/// Two stores with the same keys in `lo..=hi` count the same there.
proof fn lemma_agree_count(m1: Map<i32, i32>, m2: Map<i32, i32>, lo: int, hi: int)
    requires
        i32::MIN <= lo,
        hi <= i32::MAX,
        forall|k: i32| lo <= k <= hi ==> (#[trigger] m1.contains_key(k) <==> m2.contains_key(k)),
    ensures
        range_count(m1, lo, hi) == range_count(m2, lo, hi),
    decreases hi - lo + 1,
{
    if hi >= lo {
        let k = hi as i32;
        assert(m1.contains_key(k) <==> m2.contains_key(k));
        assert(present_at(m1, hi) == present_at(m2, hi));
        lemma_agree_count(m1, m2, lo, hi - 1);
    }
}

/// An inverted range has mean 0, whatever the store holds.
pub proof fn law_inverted_range_is_zero(m: Map<i32, i32>, min_ts: i32, max_ts: i32)
    requires
        min_ts > max_ts,
    ensures
        range_mean(m, min_ts as int, max_ts as int) == 0,
{
}

/// A range that no insert ever targeted has mean 0.
pub proof fn law_untouched_range_is_zero(ops: Seq<(i32, i32)>, min_ts: i32, max_ts: i32)
    requires
        forall|i: int| 0 <= i < ops.len() ==> !(min_ts <= #[trigger] ops[i].0 <= max_ts),
    ensures
        range_mean(replay(ops), min_ts as int, max_ts as int) == 0,
{
    let m = replay(ops);
    assert forall|k: i32| min_ts <= k <= max_ts implies !#[trigger] m.contains_key(k) by {
        law_latest_value_wins(ops, k);
    }
    lemma_agree_count(m, Map::empty(), min_ts as int, max_ts as int);
    lemma_empty_count(min_ts as int, max_ts as int);
}

/// The empty store counts no key in any range.
proof fn lemma_empty_count(lo: int, hi: int)
    ensures
        range_count(Map::<i32, i32>::empty(), lo, hi) == 0,
    decreases hi - lo + 1,
{
    if hi >= lo {
        lemma_empty_count(lo, hi - 1);
    }
}

} // verus!
