//! The transactional event outbox's delivery protocol.
//!
//! Consumers claim due events under a time-limited lease, then acknowledge
//! or fail them; a failed event is retried after a delay until its attempts
//! run out and it is dead-lettered. The host keeps the rows in its database
//! and applies what these functions decide, one event at a time.
use crate::capabilities::{
    lemma_encode_injective, lemma_lex_irreflexive, lemma_lex_total, lemma_lex_transitive, str_less,
    string_less,
};
use crate::error::SqlitePersistenceError;
use crate::records::{identifier, validate_consumer, OutboxSnapshot};
use crate::text::{blank, is_blank, str_equal};
use vstd::prelude::*;
use vstd::string::StringSliceAdditionalSpecFns;
use vstd::utf8::encode_utf8;

verus! {

/// Largest claim or purge batch.
pub const MAX_OUTBOX_BATCH: usize = 256;

/// Longest recorded delivery error (4 KiB).
pub const MAX_OUTBOX_ERROR_BYTES: usize = 4_096;

/// Delivery state of one outbox event.
#[derive(Debug, Clone, Copy, PartialEq, Eq, Structural)]
pub enum OutboxStatus {
    Pending,
    Leased,
    Delivered,
    DeadLetter,
}

/// The delivery bookkeeping of one outbox event.
#[derive(Debug, Clone, PartialEq, Eq)]
pub struct OutboxEntry {
    pub event_id: String,
    /// When the event was written, as stored text (`YYYY-MM-DD HH:MM:SS`).
    pub created_at: String,
    pub status: OutboxStatus,
    pub available_at_ms: i64,
    pub delivery_attempts: u32,
    pub lease_owner: Option<String>,
    pub lease_until_ms: Option<i64>,
    pub delivered_at_ms: Option<i64>,
    pub last_error: Option<String>,
}

/// Stored name of an [`OutboxStatus`].
pub open spec fn outbox_status_label(status: OutboxStatus) -> Seq<char> {
    match status {
        OutboxStatus::Pending => "pending"@,
        OutboxStatus::Leased => "leased"@,
        OutboxStatus::Delivered => "delivered"@,
        OutboxStatus::DeadLetter => "dead-letter"@,
    }
}

/// The stored name of an [`OutboxStatus`].
pub fn outbox_status_name(status: OutboxStatus) -> (r: &'static str)
    ensures
        r@ == outbox_status_label(status),
{
    match status {
        OutboxStatus::Pending => "pending",
        OutboxStatus::Leased => "leased",
        OutboxStatus::Delivered => "delivered",
        OutboxStatus::DeadLetter => "dead-letter",
    }
}

// ----------------------------------------------------------------------------
// Requests
// ----------------------------------------------------------------------------

/// A well-formed claim: a valid consumer, a non-negative time, a lease of
/// 1 ms to `i64::MAX` ms, a batch of 1 to 256 events, and a lease end that
/// fits an `i64`.
pub open spec fn claim_request_ok(consumer: Seq<u8>, now_ms: i64, lease_ms: u64, limit: usize) -> bool {
    &&& identifier(consumer)
    &&& now_ms >= 0
    &&& 0 < lease_ms <= i64::MAX
    &&& 0 < limit <= MAX_OUTBOX_BATCH
    &&& now_ms + lease_ms <= i64::MAX
}

/// Checks a claim request and returns the lease end.
///
/// # Errors
///
/// Returns [`SqlitePersistenceError::InvalidOutboxRequest`] unless
/// [`claim_request_ok`] holds.
pub fn claim_lease_until(consumer: &str, now_ms: i64, lease_ms: u64, limit: usize) -> (r: Result<
    i64,
    SqlitePersistenceError,
>)
    ensures
        claim_request_ok(consumer.spec_bytes(), now_ms, lease_ms, limit) ==> r == Ok::<
            i64,
            SqlitePersistenceError,
        >((now_ms + lease_ms) as i64),
        !claim_request_ok(consumer.spec_bytes(), now_ms, lease_ms, limit) ==> r == Err::<
            i64,
            SqlitePersistenceError,
        >(SqlitePersistenceError::InvalidOutboxRequest),
{
    match validate_consumer(consumer) {
        Ok(()) => {},
        Err(e) => return Err(e),
    }
    if now_ms < 0 || lease_ms == 0 || lease_ms > i64::MAX as u64 || limit == 0 || limit
        > MAX_OUTBOX_BATCH {
        return Err(SqlitePersistenceError::InvalidOutboxRequest);
    }
    let lease = lease_ms as i64;
    match now_ms.checked_add(lease) {
        Some(until) => Ok(until),
        None => Err(SqlitePersistenceError::InvalidOutboxRequest),
    }
}

/// A well-formed acknowledgement names a consumer and an event and carries a
/// non-negative time.
pub open spec fn ack_request_ok(consumer: Seq<u8>, event_id: Seq<char>, delivered_at_ms: i64) -> bool {
    identifier(consumer) && !blank(event_id) && delivered_at_ms >= 0
}

/// Checks an acknowledgement request.
///
/// # Errors
///
/// Returns [`SqlitePersistenceError::InvalidOutboxRequest`] unless
/// [`ack_request_ok`] holds.
pub fn validate_ack_request(consumer: &str, event_id: &str, delivered_at_ms: i64) -> (r: Result<
    (),
    SqlitePersistenceError,
>)
    ensures
        r is Ok <==> ack_request_ok(consumer.spec_bytes(), event_id@, delivered_at_ms),
        r is Err ==> r == Err::<(), SqlitePersistenceError>(
            SqlitePersistenceError::InvalidOutboxRequest,
        ),
{
    match validate_consumer(consumer) {
        Ok(()) => {},
        Err(e) => return Err(e),
    }
    if is_blank(event_id) || delivered_at_ms < 0 {
        return Err(SqlitePersistenceError::InvalidOutboxRequest);
    }
    Ok(())
}

/// A well-formed failure report: a valid consumer and event, a non-negative
/// time, at least one allowed attempt, 1 byte to 4 KiB of error text, and a
/// retry time that fits an `i64`.
pub open spec fn fail_request_ok(
    consumer: Seq<u8>,
    event_id: Seq<char>,
    now_ms: i64,
    retry_after_ms: u64,
    max_attempts: u32,
    error: Seq<char>,
) -> bool {
    &&& identifier(consumer)
    &&& !blank(event_id)
    &&& now_ms >= 0
    &&& max_attempts > 0
    &&& 0 < encode_utf8(error).len() <= MAX_OUTBOX_ERROR_BYTES
    &&& retry_after_ms <= i64::MAX
    &&& now_ms + retry_after_ms <= i64::MAX
}

/// Checks a failure report and returns when the event becomes due again.
///
/// # Errors
///
/// Returns [`SqlitePersistenceError::InvalidOutboxRequest`] unless
/// [`fail_request_ok`] holds.
pub fn fail_available_at(
    consumer: &str,
    event_id: &str,
    now_ms: i64,
    retry_after_ms: u64,
    max_attempts: u32,
    error: &str,
) -> (r: Result<i64, SqlitePersistenceError>)
    ensures
        fail_request_ok(consumer.spec_bytes(), event_id@, now_ms, retry_after_ms, max_attempts, error@)
            ==> r == Ok::<i64, SqlitePersistenceError>((now_ms + retry_after_ms) as i64),
        !fail_request_ok(consumer.spec_bytes(), event_id@, now_ms, retry_after_ms, max_attempts, error@)
            ==> r == Err::<i64, SqlitePersistenceError>(SqlitePersistenceError::InvalidOutboxRequest),
{
    match validate_consumer(consumer) {
        Ok(()) => {},
        Err(e) => return Err(e),
    }
    let error_bytes = error.as_bytes().len();
    if is_blank(event_id) || now_ms < 0 || max_attempts == 0 || error_bytes == 0 || error_bytes
        > MAX_OUTBOX_ERROR_BYTES || retry_after_ms > i64::MAX as u64 {
        return Err(SqlitePersistenceError::InvalidOutboxRequest);
    }
    let retry = retry_after_ms as i64;
    match now_ms.checked_add(retry) {
        Some(at) => Ok(at),
        None => Err(SqlitePersistenceError::InvalidOutboxRequest),
    }
}

/// Checks a purge request: a non-negative cut-off and a batch of 1 to 256.
///
/// # Errors
///
/// Returns [`SqlitePersistenceError::InvalidOutboxRequest`] otherwise.
pub fn validate_purge_request(before_ms: i64, limit: usize) -> (r: Result<(), SqlitePersistenceError>)
    ensures
        r is Ok <==> before_ms >= 0 && 0 < limit <= MAX_OUTBOX_BATCH,
        r is Err ==> r == Err::<(), SqlitePersistenceError>(
            SqlitePersistenceError::InvalidOutboxRequest,
        ),
{
    if before_ms < 0 || limit == 0 || limit > MAX_OUTBOX_BATCH {
        return Err(SqlitePersistenceError::InvalidOutboxRequest);
    }
    Ok(())
}

// ----------------------------------------------------------------------------
// Transitions of one event
// ----------------------------------------------------------------------------

/// A consumer may claim the event at `now_ms`: it is pending and due, or its
/// lease has run out.
pub open spec fn claimable(entry: OutboxEntry, now_ms: i64) -> bool {
    ||| entry.status == OutboxStatus::Pending && entry.available_at_ms <= now_ms
    ||| entry.status == OutboxStatus::Leased && (entry.lease_until_ms matches Some(until) && until
        <= now_ms)
}

/// Whether the event may be claimed at `now_ms`.
pub fn is_claimable(entry: &OutboxEntry, now_ms: i64) -> (r: bool)
    ensures
        r == claimable(*entry, now_ms),
{
    match entry.status {
        OutboxStatus::Pending => entry.available_at_ms <= now_ms,
        OutboxStatus::Leased => match entry.lease_until_ms {
            Some(until) => until <= now_ms,
            None => false,
        },
        _ => false,
    }
}

/// The entry leased to `consumer` until `lease_until_ms`, counting one more
/// delivery attempt.
pub open spec fn leased_to(
    entry: OutboxEntry,
    consumer: Seq<char>,
    lease_until_ms: i64,
    next: OutboxEntry,
) -> bool {
    &&& next.event_id == entry.event_id
    &&& next.status == OutboxStatus::Leased
    &&& next.available_at_ms == entry.available_at_ms
    &&& next.delivery_attempts == entry.delivery_attempts + 1
    &&& (next.lease_owner matches Some(owner) && owner@ == consumer)
    &&& next.lease_until_ms == Some(lease_until_ms)
    &&& next.delivered_at_ms == entry.delivered_at_ms
    &&& next.last_error is None
}

/// Leases a claimable event to `consumer`.
///
/// # Errors
///
/// Returns [`SqlitePersistenceError::InvalidOutboxRequest`] when the attempt
/// count would overflow.
pub fn claim_entry(entry: OutboxEntry, consumer: &str, lease_until_ms: i64) -> (r: Result<
    OutboxEntry,
    SqlitePersistenceError,
>)
    ensures
        entry.delivery_attempts < u32::MAX ==> (r matches Ok(next) && leased_to(
            entry,
            consumer@,
            lease_until_ms,
            next,
        )),
        entry.delivery_attempts == u32::MAX ==> r == Err::<OutboxEntry, SqlitePersistenceError>(
            SqlitePersistenceError::InvalidOutboxRequest,
        ),
{
    let attempt = match entry.delivery_attempts.checked_add(1) {
        Some(a) => a,
        None => return Err(SqlitePersistenceError::InvalidOutboxRequest),
    };
    let mut next = entry;
    next.status = OutboxStatus::Leased;
    next.delivery_attempts = attempt;
    next.lease_owner = Some(consumer.to_owned());
    next.lease_until_ms = Some(lease_until_ms);
    next.last_error = None;
    Ok(next)
}

/// `consumer` holds an unexpired lease on the event at `at_ms`.
pub open spec fn lease_held(entry: OutboxEntry, consumer: Seq<char>, at_ms: i64) -> bool {
    &&& entry.status == OutboxStatus::Leased
    &&& (entry.lease_owner matches Some(owner) && owner@ == consumer)
    &&& (entry.lease_until_ms matches Some(until) && until > at_ms)
}

/// Whether `consumer` holds an unexpired lease on the event at `at_ms`.
pub fn holds_lease(entry: &OutboxEntry, consumer: &str, at_ms: i64) -> (r: bool)
    ensures
        r == lease_held(*entry, consumer@, at_ms),
{
    if entry.status != OutboxStatus::Leased {
        return false;
    }
    let owned = match &entry.lease_owner {
        Some(owner) => str_equal(owner.as_str(), consumer),
        None => false,
    };
    let unexpired = match entry.lease_until_ms {
        Some(until) => until > at_ms,
        None => false,
    };
    owned && unexpired
}

/// The event marked delivered at `delivered_at_ms`, with its lease released.
pub open spec fn delivered(entry: OutboxEntry, delivered_at_ms: i64) -> OutboxEntry {
    OutboxEntry {
        status: OutboxStatus::Delivered,
        delivered_at_ms: Some(delivered_at_ms),
        lease_owner: None,
        lease_until_ms: None,
        last_error: None,
        ..entry
    }
}

/// Acknowledges a delivered event for the consumer holding its lease.
///
/// # Errors
///
/// Returns [`SqlitePersistenceError::OutboxLeaseNotOwned`] for a missing
/// event or a lease that is not the consumer's or has run out.
pub fn acknowledge_entry(stored: Option<OutboxEntry>, consumer: &str, delivered_at_ms: i64) -> (r:
    Result<OutboxEntry, SqlitePersistenceError>)
    ensures
        match stored {
            Some(e) => if lease_held(e, consumer@, delivered_at_ms) {
                r == Ok::<OutboxEntry, SqlitePersistenceError>(delivered(e, delivered_at_ms))
            } else {
                r == Err::<OutboxEntry, SqlitePersistenceError>(
                    SqlitePersistenceError::OutboxLeaseNotOwned,
                )
            },
            None => r == Err::<OutboxEntry, SqlitePersistenceError>(
                SqlitePersistenceError::OutboxLeaseNotOwned,
            ),
        },
{
    let mut entry = match stored {
        Some(e) => e,
        None => return Err(SqlitePersistenceError::OutboxLeaseNotOwned),
    };
    if !holds_lease(&entry, consumer, delivered_at_ms) {
        return Err(SqlitePersistenceError::OutboxLeaseNotOwned);
    }
    entry.status = OutboxStatus::Delivered;
    entry.delivered_at_ms = Some(delivered_at_ms);
    entry.lease_owner = None;
    entry.lease_until_ms = None;
    entry.last_error = None;
    Ok(entry)
}

/// The event released after a failed delivery: dead-lettered once its
/// attempts reach `max_attempts`, else pending again from `available_at_ms`.
pub open spec fn released(
    entry: OutboxEntry,
    available_at_ms: i64,
    max_attempts: u32,
    error: Seq<char>,
    next: OutboxEntry,
) -> bool {
    &&& next.event_id == entry.event_id
    &&& next.status == (if entry.delivery_attempts >= max_attempts {
        OutboxStatus::DeadLetter
    } else {
        OutboxStatus::Pending
    })
    &&& next.available_at_ms == available_at_ms
    &&& next.delivery_attempts == entry.delivery_attempts
    &&& next.lease_owner is None
    &&& next.lease_until_ms is None
    &&& next.delivered_at_ms == entry.delivered_at_ms
    &&& (next.last_error matches Some(e) && e@ == error)
}

/// Releases a failed delivery for retry, or dead-letters it; returns the
/// released event and whether it was dead-lettered.
///
/// # Errors
///
/// Returns [`SqlitePersistenceError::OutboxLeaseNotOwned`] for a missing
/// event or a lease that is not the consumer's or has run out.
pub fn fail_entry(
    stored: Option<OutboxEntry>,
    consumer: &str,
    now_ms: i64,
    available_at_ms: i64,
    max_attempts: u32,
    error: &str,
) -> (r: Result<(OutboxEntry, bool), SqlitePersistenceError>)
    ensures
        match stored {
            Some(e) => if lease_held(e, consumer@, now_ms) {
                r matches Ok((next, dead)) && released(
                    e,
                    available_at_ms,
                    max_attempts,
                    error@,
                    next,
                ) && dead == (e.delivery_attempts >= max_attempts)
            } else {
                r == Err::<(OutboxEntry, bool), SqlitePersistenceError>(
                    SqlitePersistenceError::OutboxLeaseNotOwned,
                )
            },
            None => r == Err::<(OutboxEntry, bool), SqlitePersistenceError>(
                SqlitePersistenceError::OutboxLeaseNotOwned,
            ),
        },
{
    let mut entry = match stored {
        Some(e) => e,
        None => return Err(SqlitePersistenceError::OutboxLeaseNotOwned),
    };
    if !holds_lease(&entry, consumer, now_ms) {
        return Err(SqlitePersistenceError::OutboxLeaseNotOwned);
    }
    let dead_letter = entry.delivery_attempts >= max_attempts;
    entry.status = if dead_letter {
        OutboxStatus::DeadLetter
    } else {
        OutboxStatus::Pending
    };
    entry.available_at_ms = available_at_ms;
    entry.lease_owner = None;
    entry.lease_until_ms = None;
    entry.last_error = Some(error.to_owned());
    Ok((entry, dead_letter))
}

/// Event `a` is claimed before event `b`: it was created earlier, or at the
/// same time with a smaller identifier, both compared byte by byte as stored.
pub open spec fn claim_precedes(a: OutboxEntry, b: OutboxEntry) -> bool {
    ||| str_less(a.created_at@, b.created_at@)
    ||| a.created_at@ == b.created_at@ && str_less(a.event_id@, b.event_id@)
}

/// The two events have the same creation time and identifier.
pub open spec fn same_claim_key(a: OutboxEntry, b: OutboxEntry) -> bool {
    a.created_at@ == b.created_at@ && a.event_id@ == b.event_id@
}

/// Position `i` of `entries` is claimed before position `j`: by
/// `(created_at, event_id)`, and by position between equal keys (which
/// distinct event identifiers never have).
pub open spec fn claim_order(entries: Seq<OutboxEntry>, i: int, j: int) -> bool {
    claim_precedes(entries[i], entries[j]) || (same_claim_key(entries[i], entries[j]) && i < j)
}

/// Whether event `a` is claimed before event `b`.
pub fn entry_precedes(a: &OutboxEntry, b: &OutboxEntry) -> (r: bool)
    ensures
        r == claim_precedes(*a, *b),
{
    if string_less(a.created_at.as_str(), b.created_at.as_str()) {
        true
    } else if str_equal(a.created_at.as_str(), b.created_at.as_str()) {
        string_less(a.event_id.as_str(), b.event_id.as_str())
    } else {
        false
    }
}

proof fn lemma_claim_precedes_transitive(a: OutboxEntry, b: OutboxEntry, c: OutboxEntry)
    requires
        claim_precedes(a, b),
        claim_precedes(b, c),
    ensures
        claim_precedes(a, c),
{
    if str_less(a.created_at@, b.created_at@) && str_less(b.created_at@, c.created_at@) {
        lemma_lex_transitive(
            encode_utf8(a.created_at@),
            encode_utf8(b.created_at@),
            encode_utf8(c.created_at@),
        );
    } else if a.created_at@ == b.created_at@ && b.created_at@ == c.created_at@ {
        lemma_lex_transitive(
            encode_utf8(a.event_id@),
            encode_utf8(b.event_id@),
            encode_utf8(c.event_id@),
        );
    }
}

proof fn lemma_claim_precedes_total(a: OutboxEntry, b: OutboxEntry)
    requires
        !same_claim_key(a, b),
    ensures
        claim_precedes(a, b) || claim_precedes(b, a),
{
    if a.created_at@ != b.created_at@ {
        lemma_encode_injective(a.created_at@, b.created_at@);
        lemma_lex_total(encode_utf8(a.created_at@), encode_utf8(b.created_at@));
    } else {
        lemma_encode_injective(a.event_id@, b.event_id@);
        lemma_lex_total(encode_utf8(a.event_id@), encode_utf8(b.event_id@));
    }
}

proof fn lemma_claim_order_transitive(entries: Seq<OutboxEntry>, x: int, y: int, z: int)
    requires
        claim_order(entries, x, y),
        claim_order(entries, y, z),
    ensures
        claim_order(entries, x, z),
{
    if claim_precedes(entries[x], entries[y]) && claim_precedes(entries[y], entries[z]) {
        lemma_claim_precedes_transitive(entries[x], entries[y], entries[z]);
    }
}

/// Positions of the first `limit` claimable events in claim order, that
/// order kept.
pub open spec fn first_claimable(entries: Seq<OutboxEntry>, now_ms: i64, limit: nat, picked: Seq<usize>) -> bool {
    &&& picked.len() <= limit
    &&& forall|k: int| 0 <= k < picked.len() ==> (#[trigger] picked[k]) < entries.len() && claimable(
        entries[picked[k] as int],
        now_ms,
    )
    &&& forall|a: int, b: int|
        0 <= a < b < picked.len() ==> claim_order(
            entries,
            #[trigger] picked[a] as int,
            #[trigger] picked[b] as int,
        )
    &&& forall|i: int|
        0 <= i < entries.len() && claimable(#[trigger] entries[i], now_ms) ==> (exists|k: int|
            0 <= k < picked.len() && picked[k] == i) || (picked.len() == limit && forall|k: int|
            0 <= k < picked.len() ==> claim_order(entries, picked[k] as int, i))
}

/// The events a claim at `now_ms` takes, in delivery order: the first
/// `limit` claimable ones by `(created_at, event_id)`.
pub fn select_claimable(entries: &Vec<OutboxEntry>, now_ms: i64, limit: usize) -> (r: Vec<usize>)
    ensures
        first_claimable(entries@, now_ms, limit as nat, r@),
{
    let mut picked: Vec<usize> = Vec::new();
    let mut i: usize = 0;
    while i < entries.len()
        invariant
            0 <= i <= entries@.len(),
            picked@.len() <= limit,
            forall|k: int| 0 <= k < picked@.len() ==> (#[trigger] picked@[k]) < i && claimable(
                entries@[picked@[k] as int],
                now_ms,
            ),
            forall|a: int, b: int|
                0 <= a < b < picked@.len() ==> claim_order(
                    entries@,
                    #[trigger] picked@[a] as int,
                    #[trigger] picked@[b] as int,
                ),
            forall|j: int|
                0 <= j < i && claimable(#[trigger] entries@[j], now_ms) ==> (exists|k: int|
                    0 <= k < picked@.len() && picked@[k] == j) || (picked@.len() == limit
                    && forall|k: int| 0 <= k < picked@.len() ==> claim_order(entries@, picked@[k] as int, j)),
        decreases entries@.len() - i,
    {
        if is_claimable(&entries[i], now_ms) {
            let mut p: usize = 0;
            while p < picked.len() && !entry_precedes(&entries[i], &entries[picked[p]])
                invariant
                    0 <= p <= picked@.len(),
                    i < entries@.len(),
                    forall|k: int| 0 <= k < picked@.len() ==> (#[trigger] picked@[k]) < i,
                    forall|k: int| 0 <= k < p ==> claim_order(entries@, #[trigger] picked@[k] as int, i as int),
                decreases picked@.len() - p,
            {
                proof {
                    let q = picked@[p as int] as int;
                    if !same_claim_key(entries@[q], entries@[i as int]) {
                        lemma_claim_precedes_total(entries@[q], entries@[i as int]);
                    }
                }
                p = p + 1;
            }
            proof {
                assert forall|k: int| p <= k < picked@.len() implies claim_order(
                    entries@,
                    i as int,
                    #[trigger] picked@[k] as int,
                ) by {
                    if k > p {
                        lemma_claim_order_transitive(entries@, i as int, picked@[p as int] as int, picked@[k] as int);
                    }
                }
            }
            if p < limit {
                let ghost old_picked = picked@;
                picked.insert(p, i);
                let ghost inserted = picked@;
                if picked.len() > limit {
                    picked.truncate(limit);
                }
                proof {
                    assert(inserted == old_picked.insert(p as int, i));
                    assert(picked@ == inserted.take(picked@.len() as int));
                    assert forall|k: int| 0 <= k < picked@.len() implies (#[trigger] picked@[k]) < i + 1
                        && claimable(entries@[picked@[k] as int], now_ms) by {
                        if k > p {
                            assert(picked@[k] == old_picked[k - 1]);
                        } else if k < p {
                            assert(picked@[k] == old_picked[k]);
                        }
                    }
                    assert forall|a: int, b: int| 0 <= a < b < picked@.len() implies claim_order(
                        entries@,
                        #[trigger] picked@[a] as int,
                        #[trigger] picked@[b] as int,
                    ) by {
                        if a < p {
                            assert(picked@[a] == old_picked[a]);
                        } else if a > p {
                            assert(picked@[a] == old_picked[a - 1]);
                        }
                        if b < p {
                            assert(picked@[b] == old_picked[b]);
                        } else if b > p {
                            assert(picked@[b] == old_picked[b - 1]);
                        }
                    }
                    assert forall|j: int|
                        0 <= j < i + 1 && claimable(#[trigger] entries@[j], now_ms) implies (exists|k: int|
                        0 <= k < picked@.len() && picked@[k] == j) || (picked@.len() == limit
                        && forall|k: int| 0 <= k < picked@.len() ==> claim_order(entries@, picked@[k] as int, j)) by {
                        if j == i {
                            assert(picked@[p as int] == j);
                        } else if exists|k: int| 0 <= k < old_picked.len() && old_picked[k] == j {
                            let k = choose|k: int| 0 <= k < old_picked.len() && old_picked[k] == j;
                            if k < p {
                                assert(picked@[k] == j);
                            } else if k + 1 < picked@.len() {
                                assert(picked@[k + 1] == j);
                            } else {
                                assert forall|m: int| 0 <= m < picked@.len() implies claim_order(
                                    entries@,
                                    picked@[m] as int,
                                    j,
                                ) by {
                                    if m < p {
                                        assert(picked@[m] == old_picked[m]);
                                    } else if m > p {
                                        assert(picked@[m] == old_picked[m - 1]);
                                    }
                                }
                            }
                        } else {
                            let last = old_picked[old_picked.len() - 1] as int;
                            assert forall|m: int| 0 <= m < picked@.len() implies claim_order(
                                entries@,
                                picked@[m] as int,
                                j,
                            ) by {
                                if m < p {
                                    assert(picked@[m] == old_picked[m]);
                                } else if m > p {
                                    assert(picked@[m] == old_picked[m - 1]);
                                } else {
                                    lemma_claim_order_transitive(entries@, i as int, last, j);
                                }
                            }
                        }
                    }
                }
            }
        }
        i = i + 1;
    }
    picked
}

/// A purge with cut-off `before_ms` may delete the event: it was delivered
/// before the cut-off.
pub open spec fn purgeable(entry: OutboxEntry, before_ms: i64) -> bool {
    entry.status == OutboxStatus::Delivered && (entry.delivered_at_ms matches Some(t) && t
        < before_ms)
}

/// Whether a purge with cut-off `before_ms` may delete the event.
pub fn is_purgeable(entry: &OutboxEntry, before_ms: i64) -> (r: bool)
    ensures
        r == purgeable(*entry, before_ms),
{
    match entry.status {
        OutboxStatus::Delivered => match entry.delivered_at_ms {
            Some(t) => t < before_ms,
            None => false,
        },
        _ => false,
    }
}

/// When the event was delivered (zero when it never was).
pub open spec fn delivered_time(entry: OutboxEntry) -> i64 {
    match entry.delivered_at_ms {
        Some(t) => t,
        None => 0,
    }
}

/// Event `a` is purged before event `b`: it was delivered earlier, or at the
/// same time with a smaller identifier (compared byte by byte).
pub open spec fn purge_precedes(a: OutboxEntry, b: OutboxEntry) -> bool {
    ||| delivered_time(a) < delivered_time(b)
    ||| delivered_time(a) == delivered_time(b) && str_less(a.event_id@, b.event_id@)
}

/// The two events were delivered at the same time and share an identifier.
pub open spec fn same_purge_key(a: OutboxEntry, b: OutboxEntry) -> bool {
    delivered_time(a) == delivered_time(b) && a.event_id@ == b.event_id@
}

/// Position `i` of `entries` is purged before position `j`: by
/// `(delivered_at_ms, event_id)`, and by position between equal keys.
pub open spec fn purge_order(entries: Seq<OutboxEntry>, i: int, j: int) -> bool {
    purge_precedes(entries[i], entries[j]) || (same_purge_key(entries[i], entries[j]) && i < j)
}

/// Whether event `a` is purged before event `b`.
pub fn purge_entry_precedes(a: &OutboxEntry, b: &OutboxEntry) -> (r: bool)
    ensures
        r == purge_precedes(*a, *b),
{
    let ta: i64 = match a.delivered_at_ms {
        Some(t) => t,
        None => 0,
    };
    let tb: i64 = match b.delivered_at_ms {
        Some(t) => t,
        None => 0,
    };
    if ta < tb {
        true
    } else if ta == tb {
        string_less(a.event_id.as_str(), b.event_id.as_str())
    } else {
        false
    }
}

proof fn lemma_purge_precedes_total(a: OutboxEntry, b: OutboxEntry)
    requires
        !same_purge_key(a, b),
    ensures
        purge_precedes(a, b) || purge_precedes(b, a),
{
    if delivered_time(a) == delivered_time(b) {
        lemma_encode_injective(a.event_id@, b.event_id@);
        lemma_lex_total(encode_utf8(a.event_id@), encode_utf8(b.event_id@));
    }
}

proof fn lemma_purge_order_transitive(entries: Seq<OutboxEntry>, x: int, y: int, z: int)
    requires
        purge_order(entries, x, y),
        purge_order(entries, y, z),
    ensures
        purge_order(entries, x, z),
{
    let (a, b, c) = (entries[x], entries[y], entries[z]);
    if delivered_time(a) == delivered_time(b) && delivered_time(b) == delivered_time(c)
        && purge_precedes(a, b) && purge_precedes(b, c) {
        lemma_lex_transitive(encode_utf8(a.event_id@), encode_utf8(b.event_id@), encode_utf8(c.event_id@));
    }
}

/// Positions of the first `limit` purgeable events in purge order, that
/// order kept.
pub open spec fn first_purgeable(entries: Seq<OutboxEntry>, before_ms: i64, limit: nat, picked: Seq<usize>) -> bool {
    &&& picked.len() <= limit
    &&& forall|k: int| 0 <= k < picked.len() ==> (#[trigger] picked[k]) < entries.len() && purgeable(
        entries[picked[k] as int],
        before_ms,
    )
    &&& forall|a: int, b: int|
        0 <= a < b < picked.len() ==> purge_order(
            entries,
            #[trigger] picked[a] as int,
            #[trigger] picked[b] as int,
        )
    &&& forall|i: int|
        0 <= i < entries.len() && purgeable(#[trigger] entries[i], before_ms) ==> (exists|k: int|
            0 <= k < picked.len() && picked[k] == i) || (picked.len() == limit && forall|k: int|
            0 <= k < picked.len() ==> purge_order(entries, picked[k] as int, i))
}

/// The events a purge with cut-off `before_ms` deletes: the first `limit`
/// delivered before it, by `(delivered_at_ms, event_id)`.
pub fn select_purgeable(entries: &Vec<OutboxEntry>, before_ms: i64, limit: usize) -> (r: Vec<usize>)
    ensures
        first_purgeable(entries@, before_ms, limit as nat, r@),
{
    let mut picked: Vec<usize> = Vec::new();
    let mut i: usize = 0;
    while i < entries.len()
        invariant
            0 <= i <= entries@.len(),
            picked@.len() <= limit,
            forall|k: int| 0 <= k < picked@.len() ==> (#[trigger] picked@[k]) < i && purgeable(
                entries@[picked@[k] as int],
                before_ms,
            ),
            forall|a: int, b: int|
                0 <= a < b < picked@.len() ==> purge_order(
                    entries@,
                    #[trigger] picked@[a] as int,
                    #[trigger] picked@[b] as int,
                ),
            forall|j: int|
                0 <= j < i && purgeable(#[trigger] entries@[j], before_ms) ==> (exists|k: int|
                    0 <= k < picked@.len() && picked@[k] == j) || (picked@.len() == limit
                    && forall|k: int| 0 <= k < picked@.len() ==> purge_order(entries@, picked@[k] as int, j)),
        decreases entries@.len() - i,
    {
        if is_purgeable(&entries[i], before_ms) {
            let mut p: usize = 0;
            while p < picked.len() && !purge_entry_precedes(&entries[i], &entries[picked[p]])
                invariant
                    0 <= p <= picked@.len(),
                    i < entries@.len(),
                    forall|k: int| 0 <= k < picked@.len() ==> (#[trigger] picked@[k]) < i,
                    forall|k: int| 0 <= k < p ==> purge_order(entries@, #[trigger] picked@[k] as int, i as int),
                decreases picked@.len() - p,
            {
                proof {
                    let q = picked@[p as int] as int;
                    if !same_purge_key(entries@[q], entries@[i as int]) {
                        lemma_purge_precedes_total(entries@[q], entries@[i as int]);
                    }
                }
                p = p + 1;
            }
            proof {
                assert forall|k: int| p <= k < picked@.len() implies purge_order(
                    entries@,
                    i as int,
                    #[trigger] picked@[k] as int,
                ) by {
                    if k > p {
                        lemma_purge_order_transitive(entries@, i as int, picked@[p as int] as int, picked@[k] as int);
                    }
                }
            }
            if p < limit {
                let ghost old_picked = picked@;
                picked.insert(p, i);
                let ghost inserted = picked@;
                if picked.len() > limit {
                    picked.truncate(limit);
                }
                proof {
                    assert(inserted == old_picked.insert(p as int, i));
                    assert(picked@ == inserted.take(picked@.len() as int));
                    assert forall|k: int| 0 <= k < picked@.len() implies (#[trigger] picked@[k]) < i + 1
                        && purgeable(entries@[picked@[k] as int], before_ms) by {
                        if k > p {
                            assert(picked@[k] == old_picked[k - 1]);
                        } else if k < p {
                            assert(picked@[k] == old_picked[k]);
                        }
                    }
                    assert forall|a: int, b: int| 0 <= a < b < picked@.len() implies purge_order(
                        entries@,
                        #[trigger] picked@[a] as int,
                        #[trigger] picked@[b] as int,
                    ) by {
                        if a < p {
                            assert(picked@[a] == old_picked[a]);
                        } else if a > p {
                            assert(picked@[a] == old_picked[a - 1]);
                        }
                        if b < p {
                            assert(picked@[b] == old_picked[b]);
                        } else if b > p {
                            assert(picked@[b] == old_picked[b - 1]);
                        }
                    }
                    assert forall|j: int|
                        0 <= j < i + 1 && purgeable(#[trigger] entries@[j], before_ms) implies (exists|k: int|
                        0 <= k < picked@.len() && picked@[k] == j) || (picked@.len() == limit
                        && forall|k: int| 0 <= k < picked@.len() ==> purge_order(entries@, picked@[k] as int, j)) by {
                        if j == i {
                            assert(picked@[p as int] == j);
                        } else if exists|k: int| 0 <= k < old_picked.len() && old_picked[k] == j {
                            let k = choose|k: int| 0 <= k < old_picked.len() && old_picked[k] == j;
                            if k < p {
                                assert(picked@[k] == j);
                            } else if k + 1 < picked@.len() {
                                assert(picked@[k + 1] == j);
                            } else {
                                assert forall|m: int| 0 <= m < picked@.len() implies purge_order(
                                    entries@,
                                    picked@[m] as int,
                                    j,
                                ) by {
                                    if m < p {
                                        assert(picked@[m] == old_picked[m]);
                                    } else if m > p {
                                        assert(picked@[m] == old_picked[m - 1]);
                                    }
                                }
                            }
                        } else {
                            let last = old_picked[old_picked.len() - 1] as int;
                            assert forall|m: int| 0 <= m < picked@.len() implies purge_order(
                                entries@,
                                picked@[m] as int,
                                j,
                            ) by {
                                if m < p {
                                    assert(picked@[m] == old_picked[m]);
                                } else if m > p {
                                    assert(picked@[m] == old_picked[m - 1]);
                                } else {
                                    lemma_purge_order_transitive(entries@, i as int, last, j);
                                }
                            }
                        }
                    }
                }
            }
        }
        i = i + 1;
    }
    picked
}

/// The entries of the first `n` positions that are not among `picked`, in
/// order.
pub open spec fn kept_entries(entries: Seq<OutboxEntry>, picked: Seq<usize>, n: nat) -> Seq<OutboxEntry>
    decreases n,
{
    if n == 0 {
        seq![]
    } else {
        let previous = kept_entries(entries, picked, (n - 1) as nat);
        if picked.contains((n - 1) as usize) {
            previous
        } else {
            previous.push(entries[n - 1])
        }
    }
}

fn position_listed(picked: &Vec<usize>, i: usize) -> (r: bool)
    ensures
        r == picked@.contains(i),
{
    let mut k: usize = 0;
    while k < picked.len()
        invariant
            0 <= k <= picked@.len(),
            forall|m: int| 0 <= m < k ==> picked@[m] != i,
        decreases picked@.len() - k,
    {
        if picked[k] == i {
            assert(picked@[k as int] == i);
            return true;
        }
        k = k + 1;
    }
    false
}

/// Deletes up to `limit` events delivered before `before_ms`, oldest
/// delivery first, and returns how many were deleted.
///
/// # Errors
///
/// [`SqlitePersistenceError::InvalidOutboxRequest`] for a negative cut-off or
/// a batch outside 1 to 256; the entries are then unchanged.
pub fn purge_delivered(entries: &mut Vec<OutboxEntry>, before_ms: i64, limit: usize) -> (r: Result<
    usize,
    SqlitePersistenceError,
>)
    ensures
        !(before_ms >= 0 && 0 < limit <= MAX_OUTBOX_BATCH) ==> r == Err::<usize, SqlitePersistenceError>(
            SqlitePersistenceError::InvalidOutboxRequest,
        ) && final(entries)@ == old(entries)@,
        before_ms >= 0 && 0 < limit <= MAX_OUTBOX_BATCH ==> exists|picked: Seq<usize>|
            {
                &&& first_purgeable(old(entries)@, before_ms, limit as nat, picked)
                &&& r == Ok::<usize, SqlitePersistenceError>(picked.len() as usize)
                &&& final(entries)@ == kept_entries(old(entries)@, picked, old(entries)@.len())
            },
{
    match validate_purge_request(before_ms, limit) {
        Ok(()) => {},
        Err(e) => return Err(e),
    }
    let picked = select_purgeable(entries, before_ms, limit);
    let mut out: Vec<OutboxEntry> = Vec::new();
    let mut i: usize = 0;
    while i < entries.len()
        invariant
            0 <= i <= entries@.len(),
            out@ == kept_entries(entries@, picked@, i as nat),
        decreases entries@.len() - i,
    {
        if !position_listed(&picked, i) {
            out.push(copy_outbox_entry(&entries[i]));
        }
        i = i + 1;
    }
    let count = picked.len();
    *entries = out;
    Ok(count)
}


/// One event handed to a consumer by a claim.
#[derive(Debug, Clone, PartialEq, Eq)]
pub struct OutboxClaim {
    pub event_id: String,
    /// The delivery attempt this is, counting from one.
    pub attempt: u32,
    pub lease_until_ms: i64,
}

fn copy_text(s: &Option<String>) -> (r: Option<String>)
    ensures
        r == *s,
{
    match s {
        Some(t) => Some(t.clone()),
        None => None,
    }
}

/// The same outbox entry, field by field.
fn copy_outbox_entry(e: &OutboxEntry) -> (r: OutboxEntry)
    ensures
        r == *e,
{
    OutboxEntry {
        event_id: e.event_id.clone(),
        created_at: e.created_at.clone(),
        status: e.status,
        available_at_ms: e.available_at_ms,
        delivery_attempts: e.delivery_attempts,
        lease_owner: copy_text(&e.lease_owner),
        lease_until_ms: e.lease_until_ms,
        delivered_at_ms: e.delivered_at_ms,
        last_error: copy_text(&e.last_error),
    }
}

proof fn lemma_claim_order_irreflexive(entries: Seq<OutboxEntry>, x: int)
    ensures
        !claim_order(entries, x, x),
{
    lemma_lex_irreflexive(encode_utf8(entries[x].created_at@));
    lemma_lex_irreflexive(encode_utf8(entries[x].event_id@));
}

/// The entries after a claim of the `picked` positions: each leased to the
/// consumer until `lease_until_ms` with one more attempt, the rest unchanged.
pub open spec fn claimed_entries(
    before: Seq<OutboxEntry>,
    after: Seq<OutboxEntry>,
    picked: Seq<usize>,
    consumer: Seq<char>,
    lease_until_ms: i64,
) -> bool {
    &&& after.len() == before.len()
    &&& forall|i: int|
        0 <= i < before.len() ==> if picked.contains(i as usize) {
            leased_to(before[i], consumer, lease_until_ms, #[trigger] after[i])
        } else {
            after[i] == before[i]
        }
}

/// Claims up to `limit` due events for `consumer` at `now_ms` under a lease
/// of `lease_ms`: the first ones by `(created_at, event_id)` among those
/// pending and due or with a lapsed lease. Each is leased to the consumer and
/// handed out with its attempt number, in claim order.
///
/// # Errors
///
/// [`SqlitePersistenceError::InvalidOutboxRequest`] for a request outside
/// [`claim_request_ok`], or when a claimed event's attempt count would
/// overflow; the entries are then unchanged.
pub fn claim_due(
    entries: &mut Vec<OutboxEntry>,
    consumer: &str,
    now_ms: i64,
    lease_ms: u64,
    limit: usize,
) -> (r: Result<Vec<OutboxClaim>, SqlitePersistenceError>)
    ensures
        !claim_request_ok(consumer.spec_bytes(), now_ms, lease_ms, limit) ==> r == Err::<
            Vec<OutboxClaim>,
            SqlitePersistenceError,
        >(SqlitePersistenceError::InvalidOutboxRequest),
        claim_request_ok(consumer.spec_bytes(), now_ms, lease_ms, limit) && (forall|i: int|
            0 <= i < old(entries)@.len() && claimable(#[trigger] old(entries)@[i], now_ms)
                ==> old(entries)@[i].delivery_attempts < u32::MAX) ==> r is Ok,
        r is Err ==> r == Err::<Vec<OutboxClaim>, SqlitePersistenceError>(
            SqlitePersistenceError::InvalidOutboxRequest,
        ) && final(entries)@ == old(entries)@,
        r matches Ok(claims) ==> exists|picked: Seq<usize>|
            {
                &&& first_claimable(old(entries)@, now_ms, limit as nat, picked)
                &&& claimed_entries(
                    old(entries)@,
                    final(entries)@,
                    picked,
                    consumer@,
                    (now_ms + lease_ms) as i64,
                )
                &&& claims@.len() == picked.len()
                &&& forall|k: int|
                    0 <= k < picked.len() ==> {
                        let e = old(entries)@[picked[k] as int];
                        &&& (#[trigger] claims@[k]).event_id@ == e.event_id@
                        &&& claims@[k].attempt == e.delivery_attempts + 1
                        &&& claims@[k].lease_until_ms == now_ms + lease_ms
                    }
            },
{
    let until = match claim_lease_until(consumer, now_ms, lease_ms, limit) {
        Ok(u) => u,
        Err(e) => return Err(e),
    };
    let picked = select_claimable(entries, now_ms, limit);
    let mut k: usize = 0;
    while k < picked.len()
        invariant
            0 <= k <= picked@.len(),
            first_claimable(entries@, now_ms, limit as nat, picked@),
            forall|m: int|
                0 <= m < k ==> entries@[(#[trigger] picked@[m]) as int].delivery_attempts < u32::MAX,
        decreases picked@.len() - k,
    {
        if entries[picked[k]].delivery_attempts == u32::MAX {
            return Err(SqlitePersistenceError::InvalidOutboxRequest);
        }
        k = k + 1;
    }
    let ghost before = entries@;
    let total: usize = entries.len();
    assert(before.len() == total);
    proof {
        assert forall|a: int, b: int| 0 <= a < picked@.len() && 0 <= b < picked@.len() && a != b
            implies picked@[a] != picked@[b] by {
            if a < b {
                assert(claim_order(before, picked@[a] as int, picked@[b] as int));
            } else {
                assert(claim_order(before, picked@[b] as int, picked@[a] as int));
            }
            if picked@[a] == picked@[b] {
                lemma_claim_order_irreflexive(before, picked@[a] as int);
            }
        }
    }
    let mut claims: Vec<OutboxClaim> = Vec::new();
    let mut k: usize = 0;
    while k < picked.len()
        invariant
            0 <= k <= picked@.len(),
            entries@.len() == before.len(),
            before.len() <= usize::MAX,
            first_claimable(before, now_ms, limit as nat, picked@),
            forall|m: int|
                0 <= m < picked@.len() ==> before[(#[trigger] picked@[m]) as int].delivery_attempts
                    < u32::MAX,
            forall|a: int, b: int|
                0 <= a < picked@.len() && 0 <= b < picked@.len() && a != b ==> picked@[a]
                    != picked@[b],
            until == now_ms + lease_ms,
            claims@.len() == k,
            forall|i: int|
                0 <= i < before.len() ==> if picked@.take(k as int).contains(i as usize) {
                    leased_to(before[i], consumer@, until, #[trigger] entries@[i])
                } else {
                    entries@[i] == before[i]
                },
            forall|m: int|
                0 <= m < k ==> {
                    let e = before[picked@[m] as int];
                    &&& (#[trigger] claims@[m]).event_id@ == e.event_id@
                    &&& claims@[m].attempt == e.delivery_attempts + 1
                    &&& claims@[m].lease_until_ms == until
                },
        decreases picked@.len() - k,
    {
        let p = picked[k];
        proof {
            assert(!picked@.take(k as int).contains(p)) by {
                let shorter = picked@.take(k as int);
                if shorter.contains(p) {
                    let m = choose|m: int| 0 <= m < shorter.len() && shorter[m] == p;
                    assert(picked@[m] == picked@[k as int]);
                }
            }
        }
        let current = copy_outbox_entry(&entries[p]);
        let next = match claim_entry(current, consumer, until) {
            Ok(n) => n,
            Err(e) => return Err(e),
        };
        let attempt = next.delivery_attempts;
        let event_id = next.event_id.clone();
        let ghost mid = entries@;
        entries.set(p, next);
        claims.push(OutboxClaim { event_id, attempt, lease_until_ms: until });
        proof {
            assert forall|i: int| 0 <= i < before.len() implies if picked@.take(k + 1).contains(
                i as usize,
            ) {
                leased_to(before[i], consumer@, until, #[trigger] entries@[i])
            } else {
                entries@[i] == before[i]
            } by {
                if i == p as int {
                    assert(picked@.take(k + 1)[k as int] == p);
                } else {
                    assert(entries@[i] == mid[i]);
                    let longer = picked@.take(k + 1);
                    let shorter = picked@.take(k as int);
                    if longer.contains(i as usize) {
                        let m = choose|m: int| 0 <= m < longer.len() && longer[m] == i as usize;
                        assert(longer[k as int] == p);
                        assert((i as usize) as int == i);
                        assert(m != k);
                        assert(shorter[m] == i as usize);
                    } else {
                        if shorter.contains(i as usize) {
                            let m = choose|m: int| 0 <= m < shorter.len() && shorter[m] == i as usize;
                            assert(longer[m] == i as usize);
                        }
                    }
                }
            }
        }
        k = k + 1;
    }
    proof {
        assert(picked@.take(picked@.len() as int) =~= picked@);
    }
    Ok(claims)
}

// ----------------------------------------------------------------------------
// Laws
// ----------------------------------------------------------------------------

/// Law: a consumer whose lease ran out cannot acknowledge after another
/// consumer reclaimed the event.
pub proof fn law_stale_lease_cannot_acknowledge(
    leased: OutboxEntry,
    stale: Seq<char>,
    fresh: Seq<char>,
    now_ms: i64,
    lease_until_ms: i64,
    reclaimed: OutboxEntry,
    ack_at_ms: i64,
)
    requires
        leased.status == OutboxStatus::Leased,
        claimable(leased, now_ms),
        leased_to(leased, fresh, lease_until_ms, reclaimed),
        stale != fresh,
    ensures
        !lease_held(reclaimed, stale, ack_at_ms),
{
}

/// Law: failures are retried until the attempts run out, then the event is
/// dead-lettered, and a dead-lettered or delivered event is never claimed
/// again.
pub proof fn law_dead_letter_is_final(
    entry: OutboxEntry,
    available_at_ms: i64,
    max_attempts: u32,
    error: Seq<char>,
    next: OutboxEntry,
    later_ms: i64,
)
    requires
        released(entry, available_at_ms, max_attempts, error, next),
    ensures
        entry.delivery_attempts >= max_attempts ==> !claimable(next, later_ms),
        entry.delivery_attempts < max_attempts ==> (claimable(next, later_ms) <==> available_at_ms
            <= later_ms),
        !claimable(delivered(entry, later_ms), later_ms),
{
}

/// Law: holding an unexpired lease excludes claiming: while a consumer's
/// lease runs, nobody can claim the event.
pub proof fn law_lease_excludes_claim(entry: OutboxEntry, consumer: Seq<char>, at_ms: i64)
    requires
        lease_held(entry, consumer, at_ms),
    ensures
        !claimable(entry, at_ms),
{
}

// ----------------------------------------------------------------------------
// Occupancy
// ----------------------------------------------------------------------------

/// The number of events in `status`.
pub open spec fn events_in(entries: Seq<OutboxEntry>, status: OutboxStatus) -> nat
    decreases entries.len(),
{
    if entries.len() == 0 {
        0
    } else {
        events_in(entries.drop_last(), status) + if entries.last().status == status {
            1nat
        } else {
            0nat
        }
    }
}

/// Counts the events in each delivery state.
pub fn outbox_snapshot(entries: &Vec<OutboxEntry>) -> (r: OutboxSnapshot)
    ensures
        r.pending == events_in(entries@, OutboxStatus::Pending),
        r.leased == events_in(entries@, OutboxStatus::Leased),
        r.delivered == events_in(entries@, OutboxStatus::Delivered),
        r.dead_letter == events_in(entries@, OutboxStatus::DeadLetter),
{
    let mut pending: u64 = 0;
    let mut leased: u64 = 0;
    let mut delivered: u64 = 0;
    let mut dead_letter: u64 = 0;
    let mut i: usize = 0;
    while i < entries.len()
        invariant
            0 <= i <= entries@.len(),
            pending == events_in(entries@.take(i as int), OutboxStatus::Pending),
            leased == events_in(entries@.take(i as int), OutboxStatus::Leased),
            delivered == events_in(entries@.take(i as int), OutboxStatus::Delivered),
            dead_letter == events_in(entries@.take(i as int), OutboxStatus::DeadLetter),
            pending + leased + delivered + dead_letter == i,
        decreases entries@.len() - i,
    {
        proof {
            assert(entries@.take(i + 1).drop_last() =~= entries@.take(i as int));
        }
        match entries[i].status {
            OutboxStatus::Pending => {
                pending = pending + 1;
            },
            OutboxStatus::Leased => {
                leased = leased + 1;
            },
            OutboxStatus::Delivered => {
                delivered = delivered + 1;
            },
            OutboxStatus::DeadLetter => {
                dead_letter = dead_letter + 1;
            },
        }
        i = i + 1;
    }
    assert(entries@.take(entries@.len() as int) =~= entries@);
    OutboxSnapshot { pending, leased, delivered, dead_letter }
}

} // verus!
