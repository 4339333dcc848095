//! What the measurement store's queries decide as they walk the stored
//! records: which old records cleanup removes, which records a listing
//! returns, and the statistics over all records.
use crate::keys::lex_lt;
use crate::store::{spec_time_bound_key, time_bound_key, StoredMeasurement};
use vstd::prelude::*;

verus! {

// ---------------------------------------------------------------------
// Walking keys in order
// ---------------------------------------------------------------------

/// Compares two keys in the store's order.
pub fn key_less(a: &[u8], b: &[u8]) -> (r: bool)
    ensures
        r == lex_lt(a@, b@),
{
    let mut i: usize = 0;
    assert(a@.skip(0) =~= a@);
    assert(b@.skip(0) =~= b@);
    while i < a.len() && i < b.len()
        invariant
            i <= a@.len(),
            i <= b@.len(),
            a@.take(i as int) == b@.take(i as int),
            lex_lt(a@, b@) == lex_lt(a@.skip(i as int), b@.skip(i as int)),
        decreases a.len() - i,
    {
        if a[i] != b[i] {
            proof {
                let sa = a@.skip(i as int);
                let sb = b@.skip(i as int);
                assert(sa[0] == a@[i as int]);
                assert(sb[0] == b@[i as int]);
            }
            return a[i] < b[i];
        }
        proof {
            let sa = a@.skip(i as int);
            let sb = b@.skip(i as int);
            assert(sa.drop_first() =~= a@.skip(i + 1));
            assert(sb.drop_first() =~= b@.skip(i + 1));
            assert(a@.take(i + 1) =~= a@.take(i as int).push(a@[i as int]));
            assert(b@.take(i + 1) =~= b@.take(i as int).push(b@[i as int]));
        }
        i = i + 1;
    }
    proof {
        let sa = a@.skip(i as int);
        let sb = b@.skip(i as int);
        assert(sa.len() == 0 || sb.len() == 0);
    }
    i == a.len() && i < b.len()
}

/// How many of the leading `keys` sort before `bound`.
pub open spec fn leading_below(keys: Seq<Seq<u8>>, bound: Seq<u8>, n: int) -> bool {
    &&& 0 <= n <= keys.len()
    &&& forall|k: int| 0 <= k < n ==> lex_lt(#[trigger] keys[k], bound)
    &&& n < keys.len() ==> !lex_lt(keys[n], bound)
}

/// Time-based cleanup walks the primary keys in order and stops at the first
/// key at or after the bound key of `before`: the number of leading keys that
/// it removes.
pub fn expired_count(keys: &Vec<Vec<u8>>, before: i64) -> (r: usize)
    ensures
        leading_below(keys.deep_view(), spec_time_bound_key(before), r as int),
{
    let bound = time_bound_key(before);
    let ghost kv = keys.deep_view();
    let mut i: usize = 0;
    while i < keys.len()
        invariant
            i <= keys@.len(),
            kv == keys.deep_view(),
            bound@ == spec_time_bound_key(before),
            forall|k: int| 0 <= k < i ==> lex_lt(#[trigger] kv[k], bound@),
        decreases keys.len() - i,
    {
        assert(kv[i as int] == keys@[i as int]@);
        if !key_less(keys[i].as_slice(), bound.as_slice()) {
            return i;
        }
        i = i + 1;
    }
    i
}

// ---------------------------------------------------------------------
// Listings
// ---------------------------------------------------------------------

/// How many items a listing with `limit` may return before it stops: the
/// limit, taken as an unsigned number as a cast does, but at least one (the
/// limit is checked after an item is added).
pub open spec fn listing_cap(limit: i64) -> int {
    let l = limit as u64 as int;
    if l == 0 {
        1
    } else {
        l
    }
}

/// Whether a record is listed: it completed and holds a result.
pub open spec fn is_listed(r: StoredMeasurement) -> bool {
    r.status@ == "completed"@ && r.result_json is Some
}

/// The indices of the listed records among `rs`, in order.
pub open spec fn listed_indices(rs: Seq<StoredMeasurement>) -> Seq<int>
    decreases rs.len(),
{
    if rs.len() == 0 {
        Seq::empty()
    } else if is_listed(rs.last()) {
        listed_indices(rs.drop_last()).push(rs.len() - 1)
    } else {
        listed_indices(rs.drop_last())
    }
}

/// The results that a listing returns from `rs` (walked in the order the
/// query walks them): the results of the listed records, in order, at most
/// `listing_cap(limit)` of them.
pub open spec fn spec_listing(rs: Seq<StoredMeasurement>, limit: i64) -> Seq<Seq<char>> {
    let idx = listed_indices(rs);
    let n = if idx.len() < listing_cap(limit) {
        idx.len() as int
    } else {
        listing_cap(limit)
    };
    Seq::new(n as nat, |k: int| rs[idx[k]].result_json.unwrap()@)
}

proof fn lemma_listed_indices_take(rs: Seq<StoredMeasurement>, i: int)
    requires
        0 <= i < rs.len(),
    ensures
        listed_indices(rs.take(i + 1)) == if is_listed(rs[i]) {
            listed_indices(rs.take(i)).push(i)
        } else {
            listed_indices(rs.take(i))
        },
{
    assert(rs.take(i + 1).drop_last() =~= rs.take(i));
}

proof fn lemma_listed_indices_bounded(rs: Seq<StoredMeasurement>)
    ensures
        forall|k: int|
            0 <= k < listed_indices(rs).len() ==> 0 <= #[trigger] listed_indices(rs)[k] < rs.len()
                && is_listed(rs[listed_indices(rs)[k]]),
    decreases rs.len(),
{
    if rs.len() > 0 {
        lemma_listed_indices_bounded(rs.drop_last());
        assert forall|k: int|
            0 <= k < listed_indices(rs).len() implies 0 <= #[trigger] listed_indices(rs)[k]
            < rs.len() && is_listed(rs[listed_indices(rs)[k]]) by {
            let d = rs.drop_last();
            if k < listed_indices(d).len() {
                assert(listed_indices(rs)[k] == listed_indices(d)[k]);
                assert(rs[listed_indices(d)[k]] == d[listed_indices(d)[k]]);
            }
        }
    }
}

/// The results of completed records among `records`, walked in the given
/// order, until `limit` of them are taken (see `listing_cap`). The caller
/// hands the records in the order of its query: newest first for the recent
/// measurements, or the order of a type or status index.
pub fn listing(records: &Vec<StoredMeasurement>, limit: i64) -> (r: Vec<String>)
    ensures
        r.deep_view() == spec_listing(records@, limit),
{
    let cap: u64 = limit as u64;
    let mut out: Vec<String> = Vec::new();
    let mut i: usize = 0;
    let ghost rs = records@;
    proof {
        lemma_listed_indices_bounded(rs);
    }
    while i < records.len()
        invariant
            i <= rs.len(),
            rs == records@,
            cap == limit as u64,
            out@.len() == listed_indices(rs.take(i as int)).len(),
            out@.len() < listing_cap(limit),
            forall|k: int|
                0 <= k < out@.len() ==> (#[trigger] out@[k])@ == rs[listed_indices(
                    rs.take(i as int),
                )[k]].result_json.unwrap()@,
            forall|k: int|
                0 <= k < listed_indices(rs.take(i as int)).len() ==> 0 <= #[trigger] listed_indices(
                    rs.take(i as int),
                )[k] < i,
        decreases records.len() - i,
    {
        proof {
            lemma_listed_indices_take(rs, i as int);
        }
        let rec = &records[i];
        let listed = crate::text::str_eq(rec.status.as_str(), "completed") && rec.result_json.is_some();
        if listed {
            let json = rec.result_json.as_ref().unwrap().clone();
            out.push(json);
            proof {
                let before = listed_indices(rs.take(i as int));
                let after = listed_indices(rs.take(i + 1));
                assert(after == before.push(i as int));
                assert forall|k: int| 0 <= k < out@.len() implies (#[trigger] out@[k])@ == rs[listed_indices(
                    rs.take(i + 1),
                )[k]].result_json.unwrap()@ by {
                    if k < before.len() {
                        assert(after[k] == before[k]);
                    }
                }
            }
            if out.len() as u64 >= cap {
                proof {
                    let t = rs.take(i + 1);
                    assert(out@.len() >= listing_cap(limit));
                    assert(out.deep_view() =~= spec_listing(rs, limit)) by {
                        lemma_listed_prefix(rs, i + 1, out@.len() as int);
                    }
                }
                return out;
            }
        }
        i = i + 1;
    }
    proof {
        assert(rs.take(rs.len() as int) =~= rs);
        assert(out.deep_view() =~= spec_listing(rs, limit));
    }
    out
}

/// The listed indices of a prefix are the first ones of the whole.
proof fn lemma_listed_prefix(rs: Seq<StoredMeasurement>, i: int, n: int)
    requires
        0 <= i <= rs.len(),
        n == listed_indices(rs.take(i)).len(),
    ensures
        listed_indices(rs).len() >= n,
        forall|k: int| 0 <= k < n ==> #[trigger] listed_indices(rs)[k] == listed_indices(rs.take(i))[k],
    decreases rs.len() - i,
{
    if i == rs.len() {
        assert(rs.take(i) =~= rs);
    } else {
        lemma_listed_indices_take(rs, i);
        lemma_listed_prefix(rs, i + 1, listed_indices(rs.take(i + 1)).len() as int);
        assert forall|k: int| 0 <= k < n implies #[trigger] listed_indices(rs)[k] == listed_indices(
            rs.take(i),
        )[k] by {
            assert(listed_indices(rs.take(i + 1))[k] == listed_indices(rs.take(i))[k]);
        }
    }
}

// ---------------------------------------------------------------------
// Statistics
// ---------------------------------------------------------------------

/// How many entries have key `t`.
pub open spec fn count_of(entries: Seq<(Seq<char>, int)>, t: Seq<char>) -> nat
    decreases entries.len(),
{
    if entries.len() == 0 {
        0
    } else {
        count_of(entries.drop_last(), t) + if entries.last().0 == t {
            1nat
        } else {
            0nat
        }
    }
}

/// The sum of the values of the entries with key `t`.
pub open spec fn sum_of(entries: Seq<(Seq<char>, int)>, t: Seq<char>) -> int
    decreases entries.len(),
{
    if entries.len() == 0 {
        0
    } else {
        sum_of(entries.drop_last(), t) + if entries.last().0 == t {
            entries.last().1
        } else {
            0
        }
    }
}

/// Whether `tally` sums up `entries`: each distinct key once, with the
/// number of entries that have it and the sum of their values, and every key
/// that occurs.
pub open spec fn is_tally(tally: Seq<(Seq<char>, int, int)>, entries: Seq<(Seq<char>, int)>) -> bool {
    &&& forall|a: int, b: int| 0 <= a < b < tally.len() ==> tally[a].0 != tally[b].0
    &&& forall|a: int|
        0 <= a < tally.len() ==> #[trigger] tally[a].1 == count_of(entries, tally[a].0) && tally[a].2
            == sum_of(entries, tally[a].0) && count_of(entries, tally[a].0) > 0
    &&& forall|k: int|
        #![trigger entries[k]]
        0 <= k < entries.len() ==> exists|a: int|
            #![trigger tally[a]]
            0 <= a < tally.len() && tally[a].0 == entries[k].0
}

proof fn lemma_tally_take(entries: Seq<(Seq<char>, int)>, i: int, t: Seq<char>)
    requires
        0 <= i < entries.len(),
    ensures
        count_of(entries.take(i + 1), t) == count_of(entries.take(i), t) + if entries[i].0 == t {
            1nat
        } else {
            0nat
        },
        sum_of(entries.take(i + 1), t) == sum_of(entries.take(i), t) + if entries[i].0 == t {
            entries[i].1
        } else {
            0
        },
{
    assert(entries.take(i + 1).drop_last() =~= entries.take(i));
}

/// Counts and sums are bounded by the number of entries and the largest
/// value.
proof fn lemma_tally_bounds(entries: Seq<(Seq<char>, int)>, t: Seq<char>, m: int)
    requires
        m >= 0,
        forall|k: int| 0 <= k < entries.len() ==> -m <= #[trigger] entries[k].1 <= m,
    ensures
        count_of(entries, t) <= entries.len(),
        -m * entries.len() <= sum_of(entries, t) <= m * entries.len(),
    decreases entries.len(),
{
    if entries.len() > 0 {
        let d = entries.drop_last();
        assert forall|k: int| 0 <= k < d.len() implies -m <= #[trigger] d[k].1 <= m by {
            assert(d[k] == entries[k]);
        }
        lemma_tally_bounds(d, t, m);
        assert(entries.last() == entries[entries.len() - 1]);
        assert(m * d.len() + m == m * entries.len()) by (nonlinear_arith)
            requires
                d.len() + 1 == entries.len(),
        ;
        assert(-m * d.len() - m == -m * entries.len()) by (nonlinear_arith)
            requires
                d.len() + 1 == entries.len(),
        ;
        assert(-m <= entries[entries.len() - 1].1 <= m);
    }
}

/// A key that is counted at least once occurs.
proof fn lemma_count_positive_occurs(entries: Seq<(Seq<char>, int)>, t: Seq<char>)
    requires
        count_of(entries, t) > 0,
    ensures
        exists|k: int| 0 <= k < entries.len() && entries[k].0 == t,
    decreases entries.len(),
{
    if entries.last().0 == t {
        assert(entries[entries.len() - 1].0 == t);
    } else {
        lemma_count_positive_occurs(entries.drop_last(), t);
        let k = choose|k: int| 0 <= k < entries.drop_last().len() && entries.drop_last()[k].0 == t;
        assert(entries[k].0 == t);
    }
}

/// The entries as keys and numbers.
pub open spec fn entries_view(v: Seq<(String, i128)>) -> Seq<(Seq<char>, int)> {
    Seq::new(v.len(), |i: int| (v[i].0@, v[i].1 as int))
}

/// The tally as keys and numbers.
pub open spec fn tally_view(v: Seq<(String, i64, i128)>) -> Seq<(Seq<char>, int, int)> {
    Seq::new(v.len(), |i: int| (v[i].0@, v[i].1 as int, v[i].2 as int))
}

/// The bound on the values that a tally adds up.
pub open spec fn value_bound() -> int {
    0x1_0000_0000_0000_0000
}

/// Sums up `entries` by key: for each distinct key, in the order keys first
/// occur, how many entries have it and the sum of their values (a map from
/// key to count and sum, kept as a list).
pub fn tally(entries: &Vec<(String, i128)>) -> (r: Vec<(String, i64, i128)>)
    requires
        entries@.len() < 0x4000_0000_0000_0000,
        forall|k: int| 0 <= k < entries@.len() ==> -value_bound() <= #[trigger] entries@[k].1 <= value_bound(),
    ensures
        is_tally(tally_view(r@), entries_view(entries@)),
{
    let ghost ev = entries_view(entries@);
    let mut out: Vec<(String, i64, i128)> = Vec::new();
    let mut i: usize = 0;
    while i < entries.len()
        invariant
            i <= ev.len(),
            ev == entries_view(entries@),
            ev.len() < 0x4000_0000_0000_0000,
            forall|k: int| 0 <= k < entries@.len() ==> -value_bound() <= #[trigger] entries@[k].1 <= value_bound(),
            is_tally(tally_view(out@), ev.take(i as int)),
        decreases entries.len() - i,
    {
        let ghost before = tally_view(out@);
        let ghost pre = ev.take(i as int);
        let ghost post = ev.take(i + 1);
        let ghost key = ev[i as int].0;
        let ghost val = ev[i as int].1;
        assert(key == entries@[i as int].0@ && val == entries@[i as int].1 as int);
        proof {
            assert forall|t: Seq<char>|
                count_of(post, t) == count_of(pre, t) + (if key == t { 1nat } else { 0nat })
                && sum_of(post, t) == sum_of(pre, t) + (if key == t { val } else { 0 }) by {
                lemma_tally_take(ev, i as int, t);
            }
            assert forall|k: int| 0 <= k < post.len() implies -value_bound() <= #[trigger] post[k].1
                <= value_bound() by {
                assert(post[k] == ev[k]);
                assert(ev[k].1 == entries@[k].1 as int);
            }
            lemma_tally_bounds(post, key, value_bound());
            assert(value_bound() * post.len() <= value_bound() * 0x4000_0000_0000_0000) by (nonlinear_arith)
                requires
                    post.len() <= 0x4000_0000_0000_0000,
            ;
        }
        let mut j: usize = 0;
        let mut found = false;
        while !found && j < out.len()
            invariant
                j <= out@.len(),
                i < entries@.len(),
                key == entries@[i as int].0@,
                found ==> j < out@.len() && out@[j as int].0@ == key,
                !found ==> forall|a: int| 0 <= a < j ==> out@[a].0@ != key,
            decreases out@.len() - j + (if found { 0int } else { 1int }),
        {
            if crate::text::str_eq(out[j].0.as_str(), entries[i].0.as_str()) {
                found = true;
            } else {
                j = j + 1;
            }
        }
        let v = entries[i].1;
        if found {
            let c = out[j].1;
            let s = out[j].2;
            assert(before[j as int].0 == key);
            assert(before[j as int].1 == c as int && before[j as int].2 == s as int);
            assert(c as int == count_of(pre, key) && s as int == sum_of(pre, key));
            let k = entries[i].0.clone();
            assert(sum_of(post, key) == s as int + v as int);
            assert(count_of(post, key) == c as int + 1);
            assert(value_bound() * post.len() <= 0x4000_0000_0000_0000_0000_0000_0000_0000);
            assert(-value_bound() * post.len() >= -0x4000_0000_0000_0000_0000_0000_0000_0000) by (nonlinear_arith)
                requires
                    value_bound() * post.len() <= 0x4000_0000_0000_0000_0000_0000_0000_0000,
            ;
            assert(-value_bound() * post.len() <= sum_of(post, key) <= value_bound() * post.len());
            out.set(j, (k, c + 1, s + v));
            proof {
                let now = tally_view(out@);
                assert(now =~= before.update(j as int, (key, c + 1, s + v)));
                assert forall|a: int| 0 <= a < now.len() implies #[trigger] now[a].1 == count_of(post, now[a].0)
                    && now[a].2 == sum_of(post, now[a].0) && count_of(post, now[a].0) > 0 by {
                    if a != j {
                        assert(now[a] == before[a]);
                        assert(before[a].0 != before[j as int].0);
                    }
                }
                assert forall|k: int| #![trigger post[k]] 0 <= k < post.len() implies exists|a: int|
                    #![trigger now[a]] 0 <= a < now.len() && now[a].0 == post[k].0 by {
                    if k < pre.len() {
                        assert(post[k] == pre[k]);
                        let a = choose|a: int| #![trigger before[a]] 0 <= a < before.len() && before[a].0 == pre[k].0;
                        assert(now[a].0 == before[a].0);
                    } else {
                        assert(now[j as int].0 == post[k].0);
                    }
                }
                assert forall|a: int, b: int| 0 <= a < b < now.len() implies now[a].0 != now[b].0 by {
                    assert(now[a].0 == before[a].0);
                    assert(now[b].0 == before[b].0);
                }
            }
        } else {
            let k = entries[i].0.clone();
            proof {
                if count_of(pre, key) > 0 {
                    lemma_count_positive_occurs(pre, key);
                    let k = choose|k: int| 0 <= k < pre.len() && pre[k].0 == key;
                    let a = choose|a: int| #![trigger before[a]] 0 <= a < before.len() && before[a].0 == pre[k].0;
                    assert(out@[a].0@ == before[a].0);
                }
                assert(count_of(pre, key) == 0);
                assert(sum_of(pre, key) == 0) by {
                    lemma_sum_absent(pre, key);
                }
            }
            out.push((k, 1, v));
            proof {
                let now = tally_view(out@);
                assert(now =~= before.push((key, 1, val)));
                assert forall|a: int| 0 <= a < now.len() implies #[trigger] now[a].1 == count_of(post, now[a].0)
                    && now[a].2 == sum_of(post, now[a].0) && count_of(post, now[a].0) > 0 by {
                    if a < before.len() {
                        assert(now[a] == before[a]);
                        assert(out@[a].0@ == before[a].0);
                    }
                }
                assert forall|k: int| #![trigger post[k]] 0 <= k < post.len() implies exists|a: int|
                    #![trigger now[a]] 0 <= a < now.len() && now[a].0 == post[k].0 by {
                    if k < pre.len() {
                        assert(post[k] == pre[k]);
                        let a = choose|a: int| #![trigger before[a]] 0 <= a < before.len() && before[a].0 == pre[k].0;
                        assert(now[a].0 == before[a].0);
                    } else {
                        assert(now[before.len() as int].0 == post[k].0);
                    }
                }
                assert forall|a: int, b: int| 0 <= a < b < now.len() implies now[a].0 != now[b].0 by {
                    if b == before.len() {
                        assert(now[a] == before[a]);
                        assert(out@[a].0@ == before[a].0);
                    } else {
                        assert(now[a] == before[a]);
                        assert(now[b] == before[b]);
                    }
                }
            }
        }
        i = i + 1;
    }
    assert(ev.take(ev.len() as int) =~= ev);
    out
}

/// Keys that no entry has sum to nothing.
proof fn lemma_sum_absent(entries: Seq<(Seq<char>, int)>, t: Seq<char>)
    requires
        count_of(entries, t) == 0,
    ensures
        sum_of(entries, t) == 0,
    decreases entries.len(),
{
    if entries.len() > 0 {
        lemma_sum_absent(entries.drop_last(), t);
    }
}

/// Statistics over the stored measurements: how many there are of each
/// type and of each status, and for the completed ones of each type the
/// number and the summed duration in seconds (the average is their
/// quotient).
#[derive(Debug, Clone)]
pub struct MeasurementStats {
    pub count_by_type: Vec<(String, i64, i128)>,
    pub count_by_status: Vec<(String, i64, i128)>,
    pub durations_by_type: Vec<(String, i64, i128)>,
}

/// Each record's type, with no value.
pub open spec fn type_entries(rs: Seq<StoredMeasurement>) -> Seq<(Seq<char>, int)> {
    Seq::new(rs.len(), |i: int| (rs[i].msm_type@, 0int))
}

/// Each record's status, with no value.
pub open spec fn status_entries(rs: Seq<StoredMeasurement>) -> Seq<(Seq<char>, int)> {
    Seq::new(rs.len(), |i: int| (rs[i].status@, 0int))
}

/// The type and duration (completion minus start, in seconds) of each
/// completed record, in order.
pub open spec fn duration_entries(rs: Seq<StoredMeasurement>) -> Seq<(Seq<char>, int)>
    decreases rs.len(),
{
    if rs.len() == 0 {
        Seq::empty()
    } else if rs.last().status@ == "completed"@ {
        duration_entries(rs.drop_last()).push(
            (rs.last().msm_type@, rs.last().completed_at - rs.last().started_at),
        )
    } else {
        duration_entries(rs.drop_last())
    }
}

/// Computes the statistics of the stored measurements.
pub fn measurement_stats(records: &Vec<StoredMeasurement>) -> (r: MeasurementStats)
    requires
        records@.len() < 0x4000_0000_0000_0000,
    ensures
        is_tally(tally_view(r.count_by_type@), type_entries(records@)),
        is_tally(tally_view(r.count_by_status@), status_entries(records@)),
        is_tally(tally_view(r.durations_by_type@), duration_entries(records@)),
{
    let ghost rs = records@;
    let mut types: Vec<(String, i128)> = Vec::new();
    let mut statuses: Vec<(String, i128)> = Vec::new();
    let mut durations: Vec<(String, i128)> = Vec::new();
    let mut i: usize = 0;
    while i < records.len()
        invariant
            i <= rs.len(),
            rs == records@,
            entries_view(types@) == type_entries(rs.take(i as int)),
            entries_view(statuses@) == status_entries(rs.take(i as int)),
            entries_view(durations@) == duration_entries(rs.take(i as int)),
            durations@.len() <= i,
            types@.len() == i,
            statuses@.len() == i,
            forall|k: int| 0 <= k < types@.len() ==> #[trigger] types@[k].1 == 0,
            forall|k: int| 0 <= k < statuses@.len() ==> #[trigger] statuses@[k].1 == 0,
            forall|k: int|
                0 <= k < durations@.len() ==> -value_bound() <= #[trigger] durations@[k].1
                    <= value_bound(),
        decreases records.len() - i,
    {
        let rec = &records[i];
        assert(rs.take(i + 1).drop_last() =~= rs.take(i as int));
        let ghost tv = entries_view(types@);
        let ghost sv = entries_view(statuses@);
        assert(type_entries(rs.take(i + 1)) =~= type_entries(rs.take(i as int)).push((rs[i as int].msm_type@, 0int)));
        assert(status_entries(rs.take(i + 1)) =~= status_entries(rs.take(i as int)).push((rs[i as int].status@, 0int)));
        let t = rec.msm_type.clone();
        let st = rec.status.clone();
        types.push((t, 0));
        statuses.push((st, 0));
        assert(entries_view(types@) =~= tv.push((rs[i as int].msm_type@, 0int)));
        assert(entries_view(statuses@) =~= sv.push((rs[i as int].status@, 0int)));
        if crate::text::str_eq(rec.status.as_str(), "completed") {
            let d: i128 = rec.completed_at as i128 - rec.started_at as i128;
            durations.push((rec.msm_type.clone(), d));
            assert(entries_view(durations@) =~= duration_entries(rs.take(i + 1)));
        }
        i = i + 1;
    }
    assert(rs.take(rs.len() as int) =~= rs);
    MeasurementStats {
        count_by_type: tally(&types),
        count_by_status: tally(&statuses),
        durations_by_type: tally(&durations),
    }
}

} // verus!
