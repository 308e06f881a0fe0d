//! The integer side of candle series: aligning opening times to the
//! interval, keeping one candle per opening time inside the window and the
//! newest ones up to the limit, and joining two series on identical opening
//! times. Prices are floating-point values and stay with the caller; these
//! functions take the times, and per candle whether its prices passed the
//! caller's check, and answer with positions.
use vstd::prelude::*;
use crate::error::AppError;
use crate::service::{floor_to, floor_to_step};
use std::collections::HashMap;

verus! {

/// The opening time of candle `i` aligned down to the interval.
pub open spec fn aligned(times: Seq<i64>, millis: i64, i: int) -> int {
    floor_to(times[i] as int, millis as int)
}

/// Candle `i` is kept: its prices are usable and its aligned opening time lies in `[from, to]`.
pub open spec fn kept(times: Seq<i64>, usable: Seq<bool>, from: i64, to: i64, millis: i64, i: int) -> bool {
    &&& usable[i]
    &&& from <= aligned(times, millis, i)
    &&& aligned(times, millis, i) <= to
}

/// Some entry of `plan` has opening time `t`.
pub open spec fn has_time(plan: Seq<(usize, i64)>, t: int) -> bool {
    exists|k: int| 0 <= k < plan.len() && #[trigger] plan[k].1 == t
}

/// The opening times of `plan` strictly increase.
pub open spec fn strictly_increasing(plan: Seq<(usize, i64)>) -> bool {
    forall|a: int, b: int| 0 <= a < b < plan.len() ==> #[trigger] plan[a].1 < #[trigger] plan[b].1
}

/// Entry `k` of `plan` names a kept candle, the first one with its aligned time.
pub open spec fn entry_is_first_kept(plan: Seq<(usize, i64)>, times: Seq<i64>, usable: Seq<bool>, from: i64, to: i64, millis: i64, k: int) -> bool {
    let i = plan[k].0 as int;
    &&& 0 <= i < times.len()
    &&& kept(times, usable, from, to, millis, i)
    &&& plan[k].1 == aligned(times, millis, i)
    &&& forall|j: int| 0 <= j < i ==> !(#[trigger] kept(times, usable, from, to, millis, j) && aligned(times, millis, j) == plan[k].1)
}

/// `plan` is the normalized form of the series: one entry per distinct
/// aligned opening time of the kept candles, naming the first kept candle
/// with that time, in strictly increasing time order, reduced to the newest
/// `limit` entries.
pub open spec fn is_normalized_plan(plan: Seq<(usize, i64)>, times: Seq<i64>, usable: Seq<bool>, from: i64, to: i64, limit: usize, millis: i64) -> bool {
    &&& strictly_increasing(plan)
    &&& forall|k: int| 0 <= k < plan.len() ==> #[trigger] entry_is_first_kept(plan, times, usable, from, to, millis, k)
    &&& plan.len() <= limit
    &&& forall|i: int| 0 <= i < times.len() && #[trigger] kept(times, usable, from, to, millis, i) ==> has_time(plan, aligned(times, millis, i))
        || (plan.len() == limit && (limit == 0 || aligned(times, millis, i) < plan[0].1))
}

proof fn lemma_insert_keeps_time(s: Seq<(usize, i64)>, p: int, x: (usize, i64), t: int)
    requires
        0 <= p <= s.len(),
        has_time(s, t),
    ensures
        has_time(s.insert(p, x), t),
{
    s.insert_ensures(p, x);
    let k = choose|k: int| 0 <= k < s.len() && #[trigger] s[k].1 == t;
    if k < p {
        assert(s.insert(p, x)[k].1 == t);
    } else {
        assert(s.insert(p, x)[k + 1].1 == t);
    }
}

/// The normalized form of a candle series: which candle to keep for each
/// opening time and that time aligned to the interval.
pub fn normalize_plan(times: &Vec<i64>, usable: &Vec<bool>, from: i64, to: i64, limit: usize, millis: i64) -> (res: Vec<(usize, i64)>)
    requires
        times.len() == usable.len(),
        millis > 0,
        forall|i: int| 0 <= i < times.len() ==> floor_to(#[trigger] times[i] as int, millis as int) >= i64::MIN,
    ensures
        is_normalized_plan(res@, times@, usable@, from, to, limit, millis),
{
    let n = times.len();
    let mut sorted: Vec<(usize, i64)> = Vec::new();
    let mut i: usize = 0;
    while i < n
        invariant
            n == times.len(),
            n == usable.len(),
            i <= n,
            millis > 0,
            forall|i: int| 0 <= i < times.len() ==> floor_to(#[trigger] times[i] as int, millis as int) >= i64::MIN,
            strictly_increasing(sorted@),
            forall|k: int| 0 <= k < sorted@.len() ==> (#[trigger] sorted@[k]).0 < i,
            forall|k: int| 0 <= k < sorted@.len() ==> #[trigger] entry_is_first_kept(sorted@, times@, usable@, from, to, millis, k),
            forall|j: int| 0 <= j < i && #[trigger] kept(times@, usable@, from, to, millis, j) ==> has_time(sorted@, aligned(times@, millis, j)),
        decreases n - i,
    {
        let t = floor_to_step(times[i], millis);
        assert(t == aligned(times@, millis, i as int));
        if usable[i] && from <= t && t <= to {
            let mut p: usize = 0;
            while p < sorted.len() && sorted[p].1 < t
                invariant
                    p <= sorted@.len(),
                    forall|q: int| 0 <= q < p ==> (#[trigger] sorted@[q]).1 < t,
                decreases sorted.len() - p,
            {
                p += 1;
            }
            if p < sorted.len() && sorted[p].1 == t {
                assert(has_time(sorted@, t as int));
            } else {
                let ghost old_sorted = sorted@;
                proof {
                    old_sorted.insert_ensures(p as int, (i, t));
                    assert(!has_time(old_sorted, t as int)) by {
                        if has_time(old_sorted, t as int) {
                            let k = choose|k: int| 0 <= k < old_sorted.len() && #[trigger] old_sorted[k].1 == t;
                            if k < p {
                                assert(old_sorted[k].1 < t);
                            } else {
                                assert(old_sorted[p as int].1 <= old_sorted[k].1);
                            }
                        }
                    }
                    assert forall|q: int| p <= q < old_sorted.len() implies (#[trigger] old_sorted[q]).1 > t by {
                        if q > p {
                            assert(old_sorted[p as int].1 < old_sorted[q].1);
                        }
                    }
                }
                sorted.insert(p, (i, t));
                proof {
                    let s = sorted@;
                    assert forall|a: int, b: int| 0 <= a < b < s.len() implies #[trigger] s[a].1 < #[trigger] s[b].1 by {
                        if b < p {
                            assert(s[a] == old_sorted[a] && s[b] == old_sorted[b]);
                        } else if b == p {
                            assert(s[a] == old_sorted[a]);
                        } else if a < p {
                            assert(s[a] == old_sorted[a] && s[b] == old_sorted[b - 1]);
                        } else if a == p {
                            assert(s[b] == old_sorted[b - 1]);
                        } else {
                            assert(s[a] == old_sorted[a - 1] && s[b] == old_sorted[b - 1]);
                        }
                    }
                    assert forall|k: int| 0 <= k < s.len() implies (#[trigger] s[k]).0 < i + 1 by {
                        if k < p {
                            assert(s[k] == old_sorted[k]);
                        } else if k > p {
                            assert(s[k] == old_sorted[k - 1]);
                        }
                    }
                    assert forall|k: int| 0 <= k < s.len() implies #[trigger] entry_is_first_kept(s, times@, usable@, from, to, millis, k) by {
                        if k < p {
                            assert(s[k] == old_sorted[k]);
                            assert(entry_is_first_kept(old_sorted, times@, usable@, from, to, millis, k));
                        } else if k > p {
                            assert(s[k] == old_sorted[k - 1]);
                            assert(entry_is_first_kept(old_sorted, times@, usable@, from, to, millis, k - 1));
                        } else {
                            assert forall|j: int| 0 <= j < i implies !(#[trigger] kept(times@, usable@, from, to, millis, j) && aligned(times@, millis, j) == t) by {
                                if kept(times@, usable@, from, to, millis, j) && aligned(times@, millis, j) == t {
                                    assert(has_time(old_sorted, aligned(times@, millis, j)));
                                }
                            }
                        }
                    }
                    assert forall|j: int| 0 <= j < i + 1 && #[trigger] kept(times@, usable@, from, to, millis, j) implies has_time(s, aligned(times@, millis, j)) by {
                        if j < i {
                            lemma_insert_keeps_time(old_sorted, p as int, (i, t), aligned(times@, millis, j));
                        } else {
                            assert(s[p as int].1 == t);
                        }
                    }
                }
            }
        }
        i += 1;
    }
    if sorted.len() > limit {
        let ghost whole = sorted@;
        let d = sorted.len() - limit;
        let tail = sorted.split_off(d);
        proof {
            let r = tail@;
            assert(r == whole.subrange(d as int, whole.len() as int));
            assert forall|k: int| 0 <= k < r.len() implies #[trigger] entry_is_first_kept(r, times@, usable@, from, to, millis, k) by {
                assert(r[k] == whole[k + d]);
                assert(entry_is_first_kept(whole, times@, usable@, from, to, millis, k + d));
            }
            assert forall|a: int, b: int| 0 <= a < b < r.len() implies #[trigger] r[a].1 < #[trigger] r[b].1 by {
                assert(r[a] == whole[a + d] && r[b] == whole[b + d]);
            }
            assert forall|j: int| 0 <= j < times.len() && #[trigger] kept(times@, usable@, from, to, millis, j) implies has_time(r, aligned(times@, millis, j))
                || (r.len() == limit && (limit == 0 || aligned(times@, millis, j) < r[0].1)) by {
                let t = aligned(times@, millis, j);
                assert(has_time(whole, t));
                let k = choose|k: int| 0 <= k < whole.len() && #[trigger] whole[k].1 == t;
                if k >= d {
                    assert(r[k - d] == whole[k]);
                } else if limit > 0 {
                    assert(r[0] == whole[d as int]);
                    assert(whole[k].1 < whole[d as int].1);
                }
            }
        }
        tail
    } else {
        sorted
    }
}


/// Where each opening time of `right` last occurs: the later of two candles
/// with one time replaces the earlier.
pub open spec fn time_index(right: Seq<i64>) -> Map<i64, usize>
    decreases right.len(),
{
    if right.len() == 0 {
        Map::empty()
    } else {
        time_index(right.drop_last()).insert(right.last(), (right.len() - 1) as usize)
    }
}

/// The pairs of the exact-timestamp join: for each left candle in order,
/// the last right candle with the same opening time, when that one's prices
/// are usable.
pub open spec fn joined_pairs(left: Seq<i64>, right: Seq<i64>, usable: Seq<bool>) -> Seq<(usize, usize)>
    decreases left.len(),
{
    if left.len() == 0 {
        Seq::empty()
    } else {
        let rest = joined_pairs(left.drop_last(), right, usable);
        let m = time_index(right);
        let t = left.last();
        if m.contains_key(t) && usable[m[t] as int] {
            rest.push(((left.len() - 1) as usize, m[t]))
        } else {
            rest
        }
    }
}

/// The result of joining two candle series on identical opening times.
#[derive(Debug, Clone)]
pub struct CandleJoin {
    /// Positions (left, right) of the joined candles, in left order.
    pub pairs: Vec<(usize, usize)>,
    /// The number of joined candles.
    pub matched: usize,
    /// Left candles that found no partner.
    pub dropped_left: usize,
    /// Right candles that were not joined (counted as the right length less the matches, at least 0).
    pub dropped_right: usize,
}

/// The time index of a prefix of `right` differs from the next one only at the next time.
proof fn lemma_time_index_values(right: Seq<i64>)
    requires
        right.len() <= usize::MAX,
    ensures
        forall|t: i64| #[trigger] time_index(right).contains_key(t) ==> (time_index(right)[t] as int) < right.len()
            && right[time_index(right)[t] as int] == t,
    decreases right.len(),
{
    if right.len() > 0 {
        let prev = right.drop_last();
        lemma_time_index_values(prev);
        assert(time_index(right) == time_index(prev).insert(right.last(), (right.len() - 1) as usize));
        assert forall|t: i64| #[trigger] time_index(right).contains_key(t) implies (time_index(right)[t] as int) < right.len()
            && right[time_index(right)[t] as int] == t by {
            if t != right.last() {
                assert(time_index(prev).contains_key(t));
                assert(time_index(right)[t] == time_index(prev)[t]);
                assert(prev[time_index(prev)[t] as int] == right[time_index(prev)[t] as int]);
            }
        }
    }
}

/// Joins two candle series on identical opening times: each left candle is
/// paired with the last right candle that has its time, when that right
/// candle's prices are usable; an empty join is the error `NoOverlap`.
pub fn join_on_time(left: &Vec<i64>, right: &Vec<i64>, right_usable: &Vec<bool>) -> (res: Result<CandleJoin, AppError>)
    requires
        right.len() == right_usable.len(),
    ensures
        match res {
            Ok(j) => j.pairs@ == joined_pairs(left@, right@, right_usable@) && j.pairs@.len() > 0
                && j.matched == j.pairs@.len() && j.dropped_left == left.len() - j.matched
                && j.dropped_right == (if right.len() >= j.matched { right.len() - j.matched } else { 0 }),
            Err(e) => joined_pairs(left@, right@, right_usable@).len() == 0 && e matches AppError::NoOverlap,
        },
{
    broadcast use vstd::std_specs::hash::group_hash_axioms;

    let mut index: HashMap<i64, usize> = HashMap::new();
    let mut j: usize = 0;
    while j < right.len()
        invariant
            j <= right.len(),
            index@ == time_index(right@.take(j as int)),
        decreases right.len() - j,
    {
        index.insert(right[j], j);
        assert(right@.take(j + 1).drop_last() == right@.take(j as int));
        j += 1;
    }
    assert(right@.take(right.len() as int) == right@);
    proof {
        lemma_time_index_values(right@);
    }
    let mut pairs: Vec<(usize, usize)> = Vec::new();
    let mut i: usize = 0;
    while i < left.len()
        invariant
            i <= left.len(),
            right.len() == right_usable.len(),
            index@ == time_index(right@),
            forall|t: i64| #[trigger] time_index(right@).contains_key(t) ==> (time_index(right@)[t] as int) < right@.len(),
            pairs@ == joined_pairs(left@.take(i as int), right@, right_usable@),
            pairs@.len() <= i,
        decreases left.len() - i,
    {
        let t = left[i];
        assert(left@.take(i + 1).drop_last() == left@.take(i as int));
        assert(left@.take(i + 1).last() == t);
        match index.get(&t) {
            Some(b) => {
                let b = *b;
                if right_usable[b] {
                    pairs.push((i, b));
                }
            },
            None => {},
        }
        i += 1;
    }
    assert(left@.take(left.len() as int) == left@);
    if pairs.len() == 0 {
        return Err(AppError::NoOverlap);
    }
    let matched = pairs.len();
    let dropped_right = if right.len() >= matched { right.len() - matched } else { 0 };
    Ok(CandleJoin { pairs, matched, dropped_left: left.len() - matched, dropped_right })
}

} // verus!
