//! The measurement store's records, their keys, and the decisions taken
//! over them: which queued uploads are pending, what a failed upload
//! changes, the statistics, and what cleanup removes. The key-value store
//! itself (reading, writing, deleting) is the caller's.
use crate::keys::{
    encode_i64, encode_u64, lemma_i64_order, lemma_u64_order, lex_lt, spec_encode_i64,
    spec_encode_u64,
};
use crate::telnet::uint_or;
use crate::text::{parse_i64, parse_u32, spec_parse_i64, spec_utf8_lossy, utf8_lossy};
use vstd::prelude::*;
use vstd::string::StringSliceAdditionalSpecFns;

verus! {

// ---------------------------------------------------------------------
// Key order
// ---------------------------------------------------------------------

/// No byte string sorts before itself.
pub proof fn lemma_lex_lt_irreflexive(a: Seq<u8>)
    ensures
        !lex_lt(a, a),
    decreases a.len(),
{
    if a.len() > 0 {
        lemma_lex_lt_irreflexive(a.drop_first());
    }
}

/// Keys made of a fixed-width head and a tail sort by the head first, then
/// by the tail.
pub proof fn lemma_lex_lt_concat(a1: Seq<u8>, b1: Seq<u8>, a2: Seq<u8>, b2: Seq<u8>)
    requires
        a1.len() == a2.len(),
    ensures
        lex_lt(a1 + b1, a2 + b2) <==> (lex_lt(a1, a2) || (a1 == a2 && lex_lt(b1, b2))),
    decreases a1.len(),
{
    if a1.len() > 0 {
        assert((a1 + b1).drop_first() =~= a1.drop_first() + b1);
        assert((a2 + b2).drop_first() =~= a2.drop_first() + b2);
        assert((a1 + b1)[0] == a1[0]);
        assert((a2 + b2)[0] == a2[0]);
        lemma_lex_lt_concat(a1.drop_first(), b1, a2.drop_first(), b2);
        if a1[0] == a2[0] && a1.drop_first() == a2.drop_first() {
            assert forall|i: int| 0 <= i < a1.len() implies a1[i] == a2[i] by {
                if i > 0 {
                    assert(a1[i] == a1.drop_first()[i - 1]);
                    assert(a2[i] == a2.drop_first()[i - 1]);
                }
            }
            assert(a1 =~= a2);
        }
        if a1 == a2 {
            assert(a1.drop_first() == a2.drop_first());
        }
    } else {
        assert(a1 + b1 =~= b1);
        assert(a2 + b2 =~= b2);
        assert(a1 =~= a2);
    }
}

/// Two concatenations with heads of one length are equal exactly when the
/// heads and the tails are.
pub proof fn lemma_concat_eq(a1: Seq<u8>, b1: Seq<u8>, a2: Seq<u8>, b2: Seq<u8>)
    requires
        a1.len() == a2.len(),
    ensures
        (a1 + b1 == a2 + b2) <==> (a1 == a2 && b1 == b2),
{
    if a1 + b1 == a2 + b2 {
        assert(a1 =~= (a1 + b1).subrange(0, a1.len() as int));
        assert(a2 =~= (a2 + b2).subrange(0, a2.len() as int));
        assert(b1 =~= (a1 + b1).subrange(a1.len() as int, (a1 + b1).len() as int));
        assert(b2 =~= (a2 + b2).subrange(a2.len() as int, (a2 + b2).len() as int));
    }
}

// ---------------------------------------------------------------------
// Record keys
// ---------------------------------------------------------------------

/// The key of an upload queue entry: `q`, the time it was queued, its id.
pub open spec fn spec_upload_queue_key(queued_at: i64, id: u64) -> Seq<u8> {
    seq![0x71u8] + spec_encode_i64(queued_at) + spec_encode_u64(id)
}

/// The key of a scheduled measurement: `s`, then its measurement id.
pub open spec fn spec_scheduled_key(msm_id: i64) -> Seq<u8> {
    seq![0x73u8] + spec_encode_i64(msm_id)
}

/// The primary key of a stored measurement: `m`, its start time, its id.
pub open spec fn spec_measurement_key(started_at: i64, id: u64) -> Seq<u8> {
    seq![0x6du8] + spec_encode_i64(started_at) + spec_encode_u64(id)
}

/// The bound below which lie the measurements started before `ts`.
pub open spec fn spec_time_bound_key(ts: i64) -> Seq<u8> {
    seq![0x6du8] + spec_encode_i64(ts)
}

/// The bytes of the text `s` (ASCII text, one byte per character).
pub open spec fn ascii_bytes(s: Seq<char>) -> Seq<u8> {
    s.map_values(|c: char| (c as u32) as u8)
}

/// The index key by measurement id:
/// `idx:msm:` + msm id + start time + id.
pub open spec fn spec_msm_index_key(msm_id: i64, started_at: i64, id: u64) -> Seq<u8> {
    ascii_bytes("idx:msm:"@) + spec_encode_i64(msm_id) + spec_encode_i64(started_at)
        + spec_encode_u64(id)
}

/// An index key by a text field (`idx:type:` or `idx:status:`): the
/// prefix, the field's bytes, `:`, start time, id.
pub open spec fn spec_field_index_key(
    prefix: Seq<char>,
    field: Seq<u8>,
    started_at: i64,
    id: u64,
) -> Seq<u8> {
    ascii_bytes(prefix) + field + seq![0x3au8] + spec_encode_i64(started_at) + spec_encode_u64(id)
}

fn push_all(out: &mut Vec<u8>, bytes: &[u8])
    ensures
        final(out)@ == old(out)@ + bytes@,
{
    let mut i: usize = 0;
    while i < bytes.len()
        invariant
            i <= bytes@.len(),
            out@ == old(out)@ + bytes@.take(i as int),
        decreases bytes.len() - i,
    {
        out.push(bytes[i]);
        i = i + 1;
        assert(out@ =~= old(out)@ + bytes@.take(i as int));
    }
    assert(bytes@.take(bytes@.len() as int) =~= bytes@);
}

fn push_ascii(out: &mut Vec<u8>, text: &str)
    requires
        forall|i: int| 0 <= i < text@.len() ==> (#[trigger] text@[i] as int) < 128,
    ensures
        final(out)@ == old(out)@ + ascii_bytes(text@),
{
    let v = crate::text::chars_of(text);
    let mut i: usize = 0;
    while i < v.len()
        invariant
            v@ == text@,
            i <= v@.len(),
            forall|j: int| 0 <= j < text@.len() ==> (#[trigger] text@[j] as int) < 128,
            out@ == old(out)@ + ascii_bytes(text@.take(i as int)),
        decreases v.len() - i,
    {
        let c = v[i];
        assert((c as int) < 128);
        let b = (c as u32) as u8;
        out.push(b);
        i = i + 1;
        assert(ascii_bytes(text@.take(i as int)) =~= ascii_bytes(text@.take(i - 1)).push(b));
        assert(out@ =~= old(out)@ + ascii_bytes(text@.take(i as int)));
    }
    assert(text@.take(v@.len() as int) =~= text@);
}

/// Builds the key of an upload queue entry.
pub fn upload_queue_key(queued_at: i64, id: u64) -> (r: Vec<u8>)
    ensures
        r@ == spec_upload_queue_key(queued_at, id),
{
    let mut key: Vec<u8> = Vec::new();
    key.push(0x71u8);
    push_all(&mut key, &encode_i64(queued_at));
    push_all(&mut key, &encode_u64(id));
    key
}

/// Builds the key of a scheduled measurement.
pub fn scheduled_key(msm_id: i64) -> (r: Vec<u8>)
    ensures
        r@ == spec_scheduled_key(msm_id),
{
    let mut key: Vec<u8> = Vec::new();
    key.push(0x73u8);
    push_all(&mut key, &encode_i64(msm_id));
    key
}

/// Builds the primary key of a stored measurement.
pub fn measurement_key(started_at: i64, id: u64) -> (r: Vec<u8>)
    ensures
        r@ == spec_measurement_key(started_at, id),
{
    let mut key: Vec<u8> = Vec::new();
    key.push(0x6du8);
    push_all(&mut key, &encode_i64(started_at));
    push_all(&mut key, &encode_u64(id));
    key
}

/// Builds the bound key of time-based cleanup and range queries.
pub fn time_bound_key(ts: i64) -> (r: Vec<u8>)
    ensures
        r@ == spec_time_bound_key(ts),
{
    let mut key: Vec<u8> = Vec::new();
    key.push(0x6du8);
    push_all(&mut key, &encode_i64(ts));
    key
}

/// Builds the index key by measurement id.
pub fn msm_index_key(msm_id: i64, started_at: i64, id: u64) -> (r: Vec<u8>)
    ensures
        r@ == spec_msm_index_key(msm_id, started_at, id),
{
    let mut key: Vec<u8> = Vec::new();
    proof {
        reveal_strlit("idx:msm:");
    }
    push_ascii(&mut key, "idx:msm:");
    push_all(&mut key, &encode_i64(msm_id));
    push_all(&mut key, &encode_i64(started_at));
    push_all(&mut key, &encode_u64(id));
    key
}

/// Builds an index key by a text field: `prefix` is `idx:type:` or
/// `idx:status:`, `field` the field's text.
fn field_index_key(prefix: &str, field: &str, started_at: i64, id: u64) -> (r: Vec<u8>)
    requires
        forall|i: int| 0 <= i < prefix@.len() ==> (#[trigger] prefix@[i] as int) < 128,
    ensures
        r@ == spec_field_index_key(prefix@, field.spec_bytes(), started_at, id),
{
    let mut key: Vec<u8> = Vec::new();
    push_ascii(&mut key, prefix);
    push_all(&mut key, field.as_bytes());
    key.push(0x3au8);
    push_all(&mut key, &encode_i64(started_at));
    push_all(&mut key, &encode_u64(id));
    key
}

/// Builds the index key by measurement type.
pub fn type_index_key(msm_type: &str, started_at: i64, id: u64) -> (r: Vec<u8>)
    ensures
        r@ == spec_field_index_key("idx:type:"@, msm_type.spec_bytes(), started_at, id),
{
    proof {
        reveal_strlit("idx:type:");
    }
    field_index_key("idx:type:", msm_type, started_at, id)
}

/// Builds the index key by status.
pub fn status_index_key(status: &str, started_at: i64, id: u64) -> (r: Vec<u8>)
    ensures
        r@ == spec_field_index_key("idx:status:"@, status.spec_bytes(), started_at, id),
{
    proof {
        reveal_strlit("idx:status:");
    }
    field_index_key("idx:status:", status, started_at, id)
}

/// Upload queue keys sort by the time an entry was queued, then by its
/// id: iterating the queue visits entries oldest first.
pub proof fn lemma_upload_queue_key_order(t1: i64, i1: u64, t2: i64, i2: u64)
    ensures
        lex_lt(spec_upload_queue_key(t1, i1), spec_upload_queue_key(t2, i2)) <==> (t1 < t2 || (
        t1 == t2 && i1 < i2)),
        spec_upload_queue_key(t1, i1) == spec_upload_queue_key(t2, i2) <==> (t1 == t2 && i1
            == i2),
{
    let q = seq![0x71u8];
    lemma_i64_order(t1, t2);
    lemma_u64_order(i1, i2);
    lemma_lex_lt_irreflexive(q);
    lemma_lex_lt_concat(q, spec_encode_i64(t1), q, spec_encode_i64(t2));
    lemma_concat_eq(q, spec_encode_i64(t1), q, spec_encode_i64(t2));
    lemma_lex_lt_concat(
        q + spec_encode_i64(t1),
        spec_encode_u64(i1),
        q + spec_encode_i64(t2),
        spec_encode_u64(i2),
    );
    lemma_concat_eq(
        q + spec_encode_i64(t1),
        spec_encode_u64(i1),
        q + spec_encode_i64(t2),
        spec_encode_u64(i2),
    );
}

/// Scheduled measurement keys sort by measurement id.
pub proof fn lemma_scheduled_key_order(a: i64, b: i64)
    ensures
        lex_lt(spec_scheduled_key(a), spec_scheduled_key(b)) <==> a < b,
        spec_scheduled_key(a) == spec_scheduled_key(b) <==> a == b,
{
    let s = seq![0x73u8];
    lemma_i64_order(a, b);
    lemma_lex_lt_irreflexive(s);
    lemma_lex_lt_concat(s, spec_encode_i64(a), s, spec_encode_i64(b));
    lemma_concat_eq(s, spec_encode_i64(a), s, spec_encode_i64(b));
}

/// A measurement's primary key lies below the bound key of `cutoff`
/// exactly when it started before `cutoff`: time-based cleanup, which
/// walks the keys in order and stops at the bound, removes exactly the
/// measurements older than the cutoff.
pub proof fn lemma_time_bound(started_at: i64, id: u64, cutoff: i64)
    ensures
        lex_lt(spec_measurement_key(started_at, id), spec_time_bound_key(cutoff)) <==> started_at
            < cutoff,
{
    let m = seq![0x6du8];
    lemma_i64_order(started_at, cutoff);
    lemma_lex_lt_irreflexive(m);
    lemma_lex_lt_concat(m, spec_encode_i64(started_at), m, spec_encode_i64(cutoff));
    lemma_concat_eq(m, spec_encode_i64(started_at), m, spec_encode_i64(cutoff));
    let e: Seq<u8> = Seq::empty();
    assert(spec_time_bound_key(cutoff) + e =~= spec_time_bound_key(cutoff));
    lemma_lex_lt_concat(
        m + spec_encode_i64(started_at),
        spec_encode_u64(id),
        m + spec_encode_i64(cutoff),
        e,
    );
}

// ---------------------------------------------------------------------
// Record ids
// ---------------------------------------------------------------------

/// Hands out record ids: one counter, counted up by one per id.
pub struct IdGenerator {
    counter: u64,
}

impl View for IdGenerator {
    type V = u64;

    /// The id the next call hands out.
    closed spec fn view(&self) -> u64 {
        self.counter
    }
}

/// The counter after one id: one more, wrapping at the end of `u64`.
pub open spec fn next_counter(c: u64) -> u64 {
    if c == u64::MAX {
        0
    } else {
        (c + 1) as u64
    }
}

/// Milliseconds since the Unix epoch, as the system clock reports them
/// (0 when the clock is before the epoch), cut to 64 bits.
#[verifier::external_body]
fn clock_millis() -> (ms: u64) {
    std::time::SystemTime::now().duration_since(std::time::UNIX_EPOCH).unwrap_or_default().as_millis() as u64
}

impl IdGenerator {
    /// A generator whose first id is `millis << 16`, so that ids keep
    /// growing across restarts.
    pub fn from_millis(millis: u64) -> (g: Self)
        ensures
            g@ == millis << 16u64,
    {
        IdGenerator { counter: millis << 16u64 }
    }

    /// A generator seeded from the system clock. Its first id is a multiple
    /// of 2^16; which one depends on the time.
    pub fn new() -> (g: Self)
        ensures
            g@ % 0x1_0000 == 0,
    {
        let ms = clock_millis();
        assert((ms << 16u64) % 0x1_0000u64 == 0) by (bit_vector);
        Self::from_millis(ms)
    }

    /// The next id.
    pub fn next_id(&mut self) -> (id: u64)
        ensures
            id == old(self)@,
            final(self)@ == next_counter(old(self)@),
    {
        let id = self.counter;
        self.counter = self.counter.wrapping_add(1);
        assert(self.counter == next_counter(id)) by {
            assert(id == u64::MAX ==> (id as int + 1) % 0x1_0000_0000_0000_0000 == 0);
        }
        id
    }
}

/// Ids handed out one after another are distinct and growing, as long as
/// the counter has not reached the end of `u64`.
pub proof fn lemma_ids_increase(c: u64)
    requires
        c < u64::MAX,
    ensures
        next_counter(c) == c + 1,
        next_counter(c) > c,
{
}

// ---------------------------------------------------------------------
// Upload queue
// ---------------------------------------------------------------------

/// An entry of the upload queue.
#[derive(Debug, Clone)]
pub struct UploadQueueItem {
    pub id: u64,
    pub measurement_id: i64,
    pub queued_at: i64,
    pub attempts: i64,
    pub last_attempt: Option<i64>,
    pub error: Option<String>,
}

/// Statistics about the upload queue.
#[derive(Debug, Clone)]
pub struct QueueStats {
    pub total_items: i64,
    pub pending_items: i64,
    pub failed_items: i64,
    pub oldest_queued_at: Option<i64>,
}

/// Uploads are given up after this many attempts.
pub const MAX_UPLOAD_ATTEMPTS: i64 = 10;

/// Whether an entry is still to be uploaded: fewer than ten attempts.
pub open spec fn is_pending(item: UploadQueueItem) -> bool {
    item.attempts < 10
}

/// The (queue id, measurement id) pairs of the pending entries, in order.
pub open spec fn pending_pairs(items: Seq<UploadQueueItem>) -> Seq<(i64, i64)>
    decreases items.len(),
{
    if items.len() == 0 {
        seq![]
    } else {
        let rest = pending_pairs(items.drop_last());
        let x = items.last();
        if is_pending(x) {
            rest.push((x.id as i64, x.measurement_id))
        } else {
            rest
        }
    }
}

/// How many pending entries a dequeue returns at most for `limit`: the
/// limit taken as `usize`, and at least one (the entry that reaches the
/// limit is kept).
pub open spec fn dequeue_cap(limit: i64) -> int {
    let cap = (limit as usize) as int;
    if cap == 0 {
        1
    } else {
        cap
    }
}

/// The pending entries a dequeue returns: the first ones, in key order, as
/// many as the limit allows.
pub open spec fn spec_select_pending(items: Seq<UploadQueueItem>, limit: i64) -> Seq<(i64, i64)> {
    let all = pending_pairs(items);
    let n = dequeue_cap(limit);
    if all.len() <= n {
        all
    } else {
        all.take(n)
    }
}

proof fn lemma_pending_pairs_prefix(items: Seq<UploadQueueItem>, i: int)
    requires
        0 <= i <= items.len(),
    ensures
        pending_pairs(items.take(i)).len() <= pending_pairs(items).len(),
        pending_pairs(items).take(pending_pairs(items.take(i)).len() as int) == pending_pairs(
            items.take(i),
        ),
    decreases items.len() - i,
{
    if i < items.len() {
        lemma_pending_pairs_prefix(items, i + 1);
        let a = pending_pairs(items.take(i));
        let b = pending_pairs(items.take(i + 1));
        assert(items.take(i + 1).drop_last() =~= items.take(i));
        assert(b.take(a.len() as int) =~= a);
        let all = pending_pairs(items);
        assert(all.take(b.len() as int).take(a.len() as int) =~= all.take(a.len() as int));
    } else {
        assert(items.take(i) =~= items);
        assert(pending_pairs(items).take(pending_pairs(items).len() as int) =~= pending_pairs(
            items,
        ));
    }
}

/// The pending entries to upload next: those with fewer than ten
/// attempts, in queue order, up to `limit`.
pub fn select_pending(items: &Vec<UploadQueueItem>, limit: i64) -> (r: Vec<(i64, i64)>)
    ensures
        r@ == spec_select_pending(items@, limit),
{
    let cap = limit as usize;
    let ghost n = dequeue_cap(limit);
    let mut out: Vec<(i64, i64)> = Vec::new();
    let mut i: usize = 0;
    let mut done = false;
    while i < items.len() && !done
        invariant
            i <= items@.len(),
            cap as int == (limit as usize) as int,
            n == dequeue_cap(limit),
            !done ==> out@ == pending_pairs(items@.take(i as int)) && out@.len() < n,
            done ==> out@ == spec_select_pending(items@, limit),
        decreases items.len() - i,
    {
        assert(items@.take(i as int + 1).drop_last() =~= items@.take(i as int));
        let x = &items[i];
        if x.attempts < 10 {
            out.push((x.id as i64, x.measurement_id));
            if out.len() >= cap {
                proof {
                    lemma_pending_pairs_prefix(items@, i as int + 1);
                }
                done = true;
            }
        }
        i = i + 1;
    }
    proof {
        if !done {
            assert(items@.take(i as int) =~= items@);
        }
    }
    out
}

/// Finds the entry that an upload outcome is about.
pub fn find_queue_id(items: &Vec<UploadQueueItem>, queue_id: i64) -> (r: Option<usize>)
    ensures
        match r {
            Some(k) => k < items@.len() && items@[k as int].id == queue_id as u64 && forall|j: int|
                0 <= j < k ==> items@[j].id != queue_id as u64,
            None => forall|j: int| 0 <= j < items@.len() ==> items@[j].id != queue_id as u64,
        },
{
    let key = queue_id as u64;
    let mut i: usize = 0;
    while i < items.len()
        invariant
            i <= items@.len(),
            key == queue_id as u64,
            forall|j: int| 0 <= j < i ==> items@[j].id != key,
        decreases items.len() - i,
    {
        if items[i].id == key {
            return Some(i);
        }
        i = i + 1;
    }
    None
}

/// Records a failed upload attempt: one attempt more, when it was, and why.
pub fn record_failure(item: &mut UploadQueueItem, now: i64, error: String)
    requires
        old(item).attempts < i64::MAX,
    ensures
        final(item).attempts == old(item).attempts + 1,
        final(item).last_attempt == Some(now),
        final(item).error == Some(error),
        final(item).id == old(item).id,
        final(item).measurement_id == old(item).measurement_id,
        final(item).queued_at == old(item).queued_at,
{
    item.attempts = item.attempts + 1;
    item.last_attempt = Some(now);
    item.error = Some(error);
}

/// Whether queue cleanup removes an entry: queued before `before`, or
/// given up after ten attempts.
pub open spec fn spec_queue_item_expired(item: UploadQueueItem, before: i64) -> bool {
    item.queued_at < before || item.attempts >= 10
}

/// Whether queue cleanup removes an entry.
pub fn queue_item_expired(item: &UploadQueueItem, before: i64) -> (r: bool)
    ensures
        r == spec_queue_item_expired(*item, before),
{
    item.queued_at < before || item.attempts >= 10
}

/// How many entries are pending.
pub open spec fn count_pending(items: Seq<UploadQueueItem>) -> nat
    decreases items.len(),
{
    if items.len() == 0 {
        0
    } else {
        count_pending(items.drop_last()) + if is_pending(items.last()) {
            1nat
        } else {
            0nat
        }
    }
}

/// The earliest time an entry was queued, when there is an entry.
pub open spec fn oldest_queued(items: Seq<UploadQueueItem>) -> Option<i64>
    decreases items.len(),
{
    if items.len() == 0 {
        None
    } else {
        let x = items.last();
        match oldest_queued(items.drop_last()) {
            Some(o) => if x.queued_at < o {
                Some(x.queued_at)
            } else {
                Some(o)
            },
            None => Some(x.queued_at),
        }
    }
}

proof fn lemma_count_pending_bound(items: Seq<UploadQueueItem>)
    ensures
        count_pending(items) <= items.len(),
    decreases items.len(),
{
    if items.len() > 0 {
        lemma_count_pending_bound(items.drop_last());
    }
}

/// The statistics of the upload queue: how many entries, how many pending
/// and given up, and the earliest time one was queued.
pub fn queue_stats(items: &Vec<UploadQueueItem>) -> (r: QueueStats)
    requires
        items@.len() <= i64::MAX,
    ensures
        r.total_items == items@.len(),
        r.pending_items == count_pending(items@),
        r.failed_items == items@.len() - count_pending(items@),
        r.oldest_queued_at == oldest_queued(items@),
{
    let mut total: i64 = 0;
    let mut pending: i64 = 0;
    let mut failed: i64 = 0;
    let mut oldest: Option<i64> = None;
    let mut i: usize = 0;
    while i < items.len()
        invariant
            i <= items@.len() <= i64::MAX,
            total == i,
            pending == count_pending(items@.take(i as int)),
            failed == i - count_pending(items@.take(i as int)),
            oldest == oldest_queued(items@.take(i as int)),
        decreases items.len() - i,
    {
        assert(items@.take(i as int + 1).drop_last() =~= items@.take(i as int));
        proof {
            lemma_count_pending_bound(items@.take(i as int));
        }
        let x = &items[i];
        total = total + 1;
        if x.attempts < 10 {
            pending = pending + 1;
        } else {
            failed = failed + 1;
        }
        match oldest {
            Some(o) => {
                if x.queued_at < o {
                    oldest = Some(x.queued_at);
                }
            },
            None => {
                oldest = Some(x.queued_at);
            },
        }
        i = i + 1;
    }
    assert(items@.take(i as int) =~= items@);
    QueueStats {
        total_items: total,
        pending_items: pending,
        failed_items: failed,
        oldest_queued_at: oldest,
    }
}

// ---------------------------------------------------------------------
// Scheduled measurements
// ---------------------------------------------------------------------

/// A scheduled measurement task.
#[derive(Debug, Clone)]
pub struct ScheduledMeasurement {
    pub msm_id: i64,
    pub cron_spec: String,
    pub measurement_spec: String,
    pub enabled: bool,
    pub last_run: Option<i64>,
    pub next_run: Option<i64>,
}

/// Scheduler statistics.
#[derive(Debug, Clone)]
pub struct SchedulerStats {
    pub total_tasks: i64,
    pub enabled_tasks: i64,
    pub disabled_tasks: i64,
}

impl ScheduledMeasurement {
    /// A task as it is first saved: never run, no next run set.
    pub fn new(msm_id: i64, cron_spec: String, measurement_spec: String, enabled: bool) -> (r:
        Self)
        ensures
            r.msm_id == msm_id,
            r.cron_spec == cron_spec,
            r.measurement_spec == measurement_spec,
            r.enabled == enabled,
            r.last_run is None,
            r.next_run is None,
    {
        ScheduledMeasurement {
            msm_id,
            cron_spec,
            measurement_spec,
            enabled,
            last_run: None,
            next_run: None,
        }
    }
}

/// How many tasks are enabled.
pub open spec fn count_enabled(tasks: Seq<ScheduledMeasurement>) -> nat
    decreases tasks.len(),
{
    if tasks.len() == 0 {
        0
    } else {
        count_enabled(tasks.drop_last()) + if tasks.last().enabled {
            1nat
        } else {
            0nat
        }
    }
}

proof fn lemma_count_enabled_bound(tasks: Seq<ScheduledMeasurement>)
    ensures
        count_enabled(tasks) <= tasks.len(),
    decreases tasks.len(),
{
    if tasks.len() > 0 {
        lemma_count_enabled_bound(tasks.drop_last());
    }
}

/// The scheduler statistics: how many tasks, enabled and disabled.
pub fn scheduler_stats(tasks: &Vec<ScheduledMeasurement>) -> (r: SchedulerStats)
    requires
        tasks@.len() <= i64::MAX,
    ensures
        r.total_tasks == tasks@.len(),
        r.enabled_tasks == count_enabled(tasks@),
        r.disabled_tasks == tasks@.len() - count_enabled(tasks@),
{
    let mut total: i64 = 0;
    let mut enabled: i64 = 0;
    let mut disabled: i64 = 0;
    let mut i: usize = 0;
    while i < tasks.len()
        invariant
            i <= tasks@.len() <= i64::MAX,
            total == i,
            enabled == count_enabled(tasks@.take(i as int)),
            disabled == i - count_enabled(tasks@.take(i as int)),
        decreases tasks.len() - i,
    {
        assert(tasks@.take(i as int + 1).drop_last() =~= tasks@.take(i as int));
        proof {
            lemma_count_enabled_bound(tasks@.take(i as int));
        }
        total = total + 1;
        if tasks[i].enabled {
            enabled = enabled + 1;
        } else {
            disabled = disabled + 1;
        }
        i = i + 1;
    }
    assert(tasks@.take(i as int) =~= tasks@);
    SchedulerStats { total_tasks: total, enabled_tasks: enabled, disabled_tasks: disabled }
}

// ---------------------------------------------------------------------
// Stored measurements
// ---------------------------------------------------------------------

/// A stored measurement record.
#[derive(Debug, Clone)]
pub struct StoredMeasurement {
    pub id: u64,
    pub msm_id: i64,
    pub msm_type: String,
    pub target: String,
    pub started_at: i64,
    pub completed_at: i64,
    pub status: String,
    pub result_json: Option<String>,
    pub error: Option<String>,
}

impl StoredMeasurement {
    /// The record of a completed measurement, stored at `now`.
    pub fn completed(
        id: u64,
        msm_id: u64,
        msm_type: String,
        target: String,
        started_at: i64,
        now: i64,
        result_json: String,
    ) -> (r: Self)
        ensures
            r.id == id,
            r.msm_id == msm_id as i64,
            r.msm_type == msm_type,
            r.target == target,
            r.started_at == started_at,
            r.completed_at == now,
            r.status@ == "completed"@,
            r.result_json == Some(result_json),
            r.error is None,
    {
        StoredMeasurement {
            id,
            msm_id: msm_id as i64,
            msm_type,
            target,
            started_at,
            completed_at: now,
            status: String::from_str("completed"),
            result_json: Some(result_json),
            error: None,
        }
    }

    /// The record of a measurement that failed at `now`: it started and
    /// ended then.
    pub fn failed(id: u64, msm_id: u64, msm_type: String, target: String, error: String, now: i64) -> (r:
        Self)
        ensures
            r.id == id,
            r.msm_id == msm_id as i64,
            r.msm_type == msm_type,
            r.target == target,
            r.started_at == now,
            r.completed_at == now,
            r.status@ == "failed"@,
            r.result_json is None,
            r.error == Some(error),
    {
        StoredMeasurement {
            id,
            msm_id: msm_id as i64,
            msm_type,
            target,
            started_at: now,
            completed_at: now,
            status: String::from_str("failed"),
            result_json: None,
            error: Some(error),
        }
    }

    /// Whether the measurement completed (queries return only those).
    pub fn is_completed(&self) -> (r: bool)
        ensures
            r == (self.status@ == "completed"@),
    {
        crate::text::str_eq(self.status.as_str(), "completed")
    }

    /// The record's primary key.
    pub fn primary_key(&self) -> (r: Vec<u8>)
        ensures
            r@ == spec_measurement_key(self.started_at, self.id),
    {
        measurement_key(self.started_at, self.id)
    }

    /// The record's index keys: by measurement id, by type, by status.
    pub fn index_keys(&self) -> (r: (Vec<u8>, Vec<u8>, Vec<u8>))
        ensures
            r.0@ == spec_msm_index_key(self.msm_id, self.started_at, self.id),
            r.1@ == spec_field_index_key(
                "idx:type:"@,
                vstd::utf8::encode_utf8(self.msm_type@),
                self.started_at,
                self.id,
            ),
            r.2@ == spec_field_index_key(
                "idx:status:"@,
                vstd::utf8::encode_utf8(self.status@),
                self.started_at,
                self.id,
            ),
    {
        (
            msm_index_key(self.msm_id, self.started_at, self.id),
            type_index_key(self.msm_type.as_str(), self.started_at, self.id),
            status_index_key(self.status.as_str(), self.started_at, self.id),
        )
    }
}

// ---------------------------------------------------------------------
// Cleanup
// ---------------------------------------------------------------------

/// Cleanup configuration.
#[derive(Debug, Clone)]
pub struct CleanupConfig {
    /// Maximum age of measurements in days
    pub retention_days: u32,
    /// Maximum database size in megabytes
    pub max_database_size_mb: u64,
    /// How often to run cleanup checks (in hours)
    pub cleanup_interval_hours: u64,
}

/// Seconds in a day.
pub const SECONDS_PER_DAY: i64 = 86400;

/// Bytes in a megabyte.
pub const BYTES_PER_MB: u64 = 1048576;

/// The time before which measurements are too old to keep:
/// `now - retention_days` days.
pub fn retention_cutoff(now: i64, retention_days: u32) -> (r: i64)
    requires
        now - retention_days * 86400 >= i64::MIN,
    ensures
        r == now - retention_days * 86400,
{
    now - (retention_days as i64) * 86400
}

/// Whether a database of `size_bytes` exceeds `max_mb` megabytes, that is
/// whether `size_bytes / 2^20 > max_mb`.
pub fn over_size_limit(size_bytes: u64, max_mb: u64) -> (r: bool)
    ensures
        r == (size_bytes > max_mb * 1048576),
{
    let whole = size_bytes / 1048576;
    let rest = size_bytes % 1048576;
    whole > max_mb || (whole == max_mb && rest > 0)
}

/// The size in bytes that size-based cleanup brings the database under.
pub fn size_target_bytes(target_mb: u64) -> (r: u64)
    requires
        target_mb * 1048576 <= u64::MAX,
    ensures
        r == target_mb * 1048576,
{
    target_mb * 1024 * 1024
}

/// How many seconds lie between cleanup runs.
pub fn cleanup_interval_secs(hours: u64) -> (r: u64)
    requires
        hours * 3600 <= u64::MAX,
    ensures
        r == hours * 3600,
{
    hours * 3600
}

/// Size-based cleanup deletes measurements in batches of at most this many.
pub const CLEANUP_BATCH: usize = 100;

// ---------------------------------------------------------------------
// Probe metadata
// ---------------------------------------------------------------------

/// A stored number: the value's text read as UTF-8 and parsed, or `d`
/// when there is no value or it does not parse.
pub open spec fn spec_stored_u32_or(value: Option<Seq<u8>>, d: u32) -> u32 {
    match value {
        Some(b) => uint_or(spec_utf8_lossy(b), u32::MAX as int, d as nat) as u32,
        None => d,
    }
}

/// A stored signed number, or `d`.
pub open spec fn spec_stored_i64_or(value: Option<Seq<u8>>, d: i64) -> i64 {
    match value {
        Some(b) => match spec_parse_i64(spec_utf8_lossy(b)) {
            Some(v) => v as i64,
            None => d,
        },
        None => d,
    }
}

/// Reads a stored unsigned number (the probe id, default 0; the firmware
/// version, default 6000).
pub fn stored_u32_or(value: Option<&Vec<u8>>, d: u32) -> (r: u32)
    ensures
        r == spec_stored_u32_or(
            match value {
                Some(b) => Some(b@),
                None => None,
            },
            d,
        ),
{
    match value {
        Some(b) => {
            let text = utf8_lossy(b);
            match parse_u32(text.as_str()) {
                Some(v) => v,
                None => d,
            }
        },
        None => d,
    }
}

/// Reads a stored signed number (the registration time, default 0).
pub fn stored_i64_or(value: Option<&Vec<u8>>, d: i64) -> (r: i64)
    ensures
        r == spec_stored_i64_or(
            match value {
                Some(b) => Some(b@),
                None => None,
            },
            d,
        ),
{
    match value {
        Some(b) => {
            let text = utf8_lossy(b);
            match parse_i64(text.as_str()) {
                Some(v) => v,
                None => d,
            }
        },
        None => d,
    }
}

/// The metadata a new store starts with: firmware version 6000, probe id
/// 0, registered at 0. Each is written only where the key is missing.
pub fn default_probe_info() -> (r: Vec<(String, String)>)
    ensures
        r@.len() == 3,
        r@[0].0@ == "firmware_version"@ && r@[0].1@ == "6000"@,
        r@[1].0@ == "probe_id"@ && r@[1].1@ == "0"@,
        r@[2].0@ == "registered_at"@ && r@[2].1@ == "0"@,
{
    let mut r: Vec<(String, String)> = Vec::new();
    r.push((String::from_str("firmware_version"), String::from_str("6000")));
    r.push((String::from_str("probe_id"), String::from_str("0")));
    r.push((String::from_str("registered_at"), String::from_str("0")));
    r
}

} // verus!
