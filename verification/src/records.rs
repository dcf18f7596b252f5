//! Persisted record types and the rules that admit them.
use crate::error::SqlitePersistenceError;
use crate::text::{bounded_text, byte_len, has_control_char, valid_text};
use vstd::prelude::*;
use vstd::string::StringSliceAdditionalSpecFns;

verus! {

/// Upper bound on context cache entries.
pub const MAX_CONTEXT_CACHE_ENTRIES: usize = 4_096;

/// Upper bound on context cache bytes (256 MiB).
pub const MAX_CONTEXT_CACHE_BYTES: usize = 268_435_456;

/// Lower bound on context cache bytes.
pub const MIN_CONTEXT_CACHE_BYTES: usize = 1_024;

/// Longest Automation identifier accepted by the governance ledger.
pub const MAX_AUTOMATION_ID_BYTES: usize = 128;

/// Bounded persistent cache limits.
#[derive(Debug, Clone, Copy, PartialEq, Eq, Structural)]
pub struct ContextCachePolicy {
    pub max_entries: usize,
    pub max_bytes: usize,
}

/// Occupancy metrics of the context cache.
#[derive(Debug, Clone, Copy, PartialEq, Eq)]
pub struct ContextCacheMetrics {
    pub spec: &'static str,
    pub entries: u64,
    pub total_bytes: u64,
    pub max_entries: u64,
    pub max_bytes: u64,
    pub oldest_accessed_at_ms: Option<u64>,
    pub newest_accessed_at_ms: Option<u64>,
    pub expired_purged: u64,
}

/// Counts of outbox events per delivery state.
#[derive(Debug, Clone, Copy, PartialEq, Eq, Structural)]
pub struct OutboxSnapshot {
    pub pending: u64,
    pub leased: u64,
    pub delivered: u64,
    pub dead_letter: u64,
}

/// A user program's granted capabilities for one version.
#[derive(Debug, Clone, PartialEq, Eq)]
pub struct ProgramPermissionGrant {
    pub program_id: String,
    pub version: String,
    pub capabilities: Vec<String>,
}

/// Persisted authorization and enablement of one Skill version.
#[derive(Debug, Clone, PartialEq, Eq)]
pub struct SkillStateRecord {
    pub skill_id: String,
    pub version: String,
    pub capabilities: Vec<String>,
    pub authorized: bool,
    pub enabled: bool,
}

/// Aggregate state of Automation run admission and cost.
#[derive(Debug, Clone, Copy, PartialEq, Eq, Structural)]
pub struct AutomationGovernanceSnapshot {
    pub active_runs: u64,
    pub last_started_at_ms: Option<u64>,
    pub reserved_cost_microunits: u64,
    pub settled_cost_microunits: u64,
    pub indeterminate_cost_microunits: u64,
    pub indeterminate_cost_count: u64,
}

impl ContextCachePolicy {
    /// Limits are valid when `1..=4096` entries and `1 KiB..=256 MiB` bytes.
    pub open spec fn valid_limits(max_entries: usize, max_bytes: usize) -> bool {
        0 < max_entries <= MAX_CONTEXT_CACHE_ENTRIES && MIN_CONTEXT_CACHE_BYTES <= max_bytes
            <= MAX_CONTEXT_CACHE_BYTES
    }

    /// Creates bounded persistent cache limits.
    ///
    /// # Errors
    ///
    /// Returns [`SqlitePersistenceError::InvalidContextCache`] for zero or
    /// excessive limits.
    pub fn new(max_entries: usize, max_bytes: usize) -> (r: Result<Self, SqlitePersistenceError>)
        ensures
            Self::valid_limits(max_entries, max_bytes) ==> r == Ok::<
                Self,
                SqlitePersistenceError,
            >(ContextCachePolicy { max_entries, max_bytes }),
            !Self::valid_limits(max_entries, max_bytes) ==> r == Err::<
                Self,
                SqlitePersistenceError,
            >(SqlitePersistenceError::InvalidContextCache),
    {
        if max_entries == 0 || max_entries > MAX_CONTEXT_CACHE_ENTRIES || max_bytes
            < MIN_CONTEXT_CACHE_BYTES || max_bytes > MAX_CONTEXT_CACHE_BYTES {
            return Err(SqlitePersistenceError::InvalidContextCache);
        }
        Ok(ContextCachePolicy { max_entries, max_bytes })
    }
}

/// Converts a stored quantity to the storage engine's signed integer.
///
/// # Errors
///
/// Returns `error` when the value exceeds `i64::MAX`.
pub fn to_i64(value: u64, error: SqlitePersistenceError) -> (r: Result<i64, SqlitePersistenceError>)
    ensures
        value <= i64::MAX ==> r == Ok::<i64, SqlitePersistenceError>(value as i64),
        value > i64::MAX ==> r == Err::<i64, SqlitePersistenceError>(error),
{
    if value <= i64::MAX as u64 {
        Ok(value as i64)
    } else {
        Err(error)
    }
}

/// Converts a stored signed integer back to an unsigned quantity.
///
/// # Errors
///
/// Returns `error` when the value is negative.
pub fn from_i64(value: i64, error: SqlitePersistenceError) -> (r: Result<u64, SqlitePersistenceError>)
    ensures
        value >= 0 ==> r == Ok::<u64, SqlitePersistenceError>(value as u64),
        value < 0 ==> r == Err::<u64, SqlitePersistenceError>(error),
{
    if value >= 0 {
        Ok(value as u64)
    } else {
        Err(error)
    }
}

/// Converts an optional stored quantity.
///
/// # Errors
///
/// Returns `error` when a present value exceeds `i64::MAX`.
pub fn optional_i64(value: Option<u64>, error: SqlitePersistenceError) -> (r: Result<
    Option<i64>,
    SqlitePersistenceError,
>)
    ensures
        match value {
            None => r == Ok::<Option<i64>, SqlitePersistenceError>(None),
            Some(v) => if v <= i64::MAX {
                r == Ok::<Option<i64>, SqlitePersistenceError>(Some(v as i64))
            } else {
                r == Err::<Option<i64>, SqlitePersistenceError>(error)
            },
        },
{
    match value {
        None => Ok(None),
        Some(v) => match to_i64(v, error) {
            Ok(x) => Ok(Some(x)),
            Err(e) => Err(e),
        },
    }
}

/// Accepts the only published Agent Goal payload version.
///
/// # Errors
///
/// Returns [`SqlitePersistenceError::UnsupportedAgentGoalVersion`] for any
/// other version.
pub fn ensure_version(version: u32) -> (r: Result<(), SqlitePersistenceError>)
    ensures
        version == 1 ==> r is Ok,
        version != 1 ==> r == Err::<(), SqlitePersistenceError>(
            SqlitePersistenceError::UnsupportedAgentGoalVersion(version),
        ),
{
    if version != 1 {
        return Err(SqlitePersistenceError::UnsupportedAgentGoalVersion(version));
    }
    Ok(())
}

/// An ASCII letter or digit, `.`, `_` or `-`.
pub open spec fn is_identifier_byte(b: u8) -> bool {
    (0x30 <= b <= 0x39) || (0x41 <= b <= 0x5a) || (0x61 <= b <= 0x7a) || b == 0x2e || b == 0x5f
        || b == 0x2d
}

/// Non-empty, at most 128 bytes, made of identifier bytes only.
pub open spec fn identifier(bytes: Seq<u8>) -> bool {
    &&& 0 < bytes.len() <= 128
    &&& forall|i: int| 0 <= i < bytes.len() ==> #[trigger] is_identifier_byte(bytes[i])
}

fn identifier_byte(b: u8) -> (r: bool)
    ensures
        r == is_identifier_byte(b),
{
    (b >= 0x30 && b <= 0x39) || (b >= 0x41 && b <= 0x5a) || (b >= 0x61 && b <= 0x7a) || b == 0x2e
        || b == 0x5f || b == 0x2d
}

fn is_identifier(value: &str) -> (r: bool)
    ensures
        r == identifier(value.spec_bytes()),
{
    let bytes = value.as_bytes();
    if bytes.len() == 0 || bytes.len() > 128 {
        return false;
    }
    let mut i: usize = 0;
    while i < bytes.len()
        invariant
            0 <= i <= bytes@.len(),
            bytes@ == value.spec_bytes(),
            forall|j: int| 0 <= j < i ==> #[trigger] is_identifier_byte(bytes@[j]),
        decreases bytes@.len() - i,
    {
        if !identifier_byte(bytes[i]) {
            assert(!is_identifier_byte(bytes@[i as int]));
            return false;
        }
        i = i + 1;
    }
    true
}

/// Validates an outbox consumer name.
///
/// # Errors
///
/// Returns [`SqlitePersistenceError::InvalidOutboxRequest`] unless the name is
/// non-empty, at most 128 bytes, and made of ASCII letters, digits, `.`, `_`, `-`.
pub fn validate_consumer(consumer: &str) -> (r: Result<(), SqlitePersistenceError>)
    ensures
        identifier(consumer.spec_bytes()) ==> r is Ok,
        !identifier(consumer.spec_bytes()) ==> r == Err::<(), SqlitePersistenceError>(
            SqlitePersistenceError::InvalidOutboxRequest,
        ),
{
    if !is_identifier(consumer) {
        return Err(SqlitePersistenceError::InvalidOutboxRequest);
    }
    Ok(())
}

/// Validates a Skill identifier.
///
/// # Errors
///
/// Returns [`SqlitePersistenceError::InvalidSkillState`] unless the identifier
/// is non-empty, at most 128 bytes, and made of ASCII letters, digits, `.`,
/// `_`, `-`.
pub fn validate_skill_identity(skill_id: &str) -> (r: Result<(), SqlitePersistenceError>)
    ensures
        identifier(skill_id.spec_bytes()) ==> r is Ok,
        !identifier(skill_id.spec_bytes()) ==> r == Err::<(), SqlitePersistenceError>(
            SqlitePersistenceError::InvalidSkillState,
        ),
{
    if !is_identifier(skill_id) {
        return Err(SqlitePersistenceError::InvalidSkillState);
    }
    Ok(())
}

/// An Automation identifier: non-empty, at most 128 bytes, no control characters.
pub open spec fn automation_id_ok(automation_id: &str) -> bool {
    0 < byte_len(automation_id) <= MAX_AUTOMATION_ID_BYTES && !has_control_char(automation_id@)
}

/// Validates an Automation identifier for the governance ledger.
///
/// # Errors
///
/// Returns [`SqlitePersistenceError::InvalidAutomationGovernance`] for empty,
/// oversized, or control-character identifiers.
pub fn validate_automation_id(automation_id: &str) -> (r: Result<(), SqlitePersistenceError>)
    ensures
        automation_id_ok(automation_id) ==> r is Ok,
        !automation_id_ok(automation_id) ==> r == Err::<(), SqlitePersistenceError>(
            SqlitePersistenceError::InvalidAutomationGovernance,
        ),
{
    let length = automation_id.as_bytes().len();
    if length == 0 || length > MAX_AUTOMATION_ID_BYTES || crate::text::contains_control(
        automation_id,
    ) {
        return Err(SqlitePersistenceError::InvalidAutomationGovernance);
    }
    Ok(())
}

// ----------------------------------------------------------------------------
// Dotted version numbers
// ----------------------------------------------------------------------------

/// The segments of `s` separated by `.` (an empty text has one empty segment).
pub open spec fn split_dots(s: Seq<u8>) -> Seq<Seq<u8>>
    decreases s.len(),
{
    if s.len() == 0 {
        seq![seq![]]
    } else {
        let previous = split_dots(s.drop_last());
        if s.last() == 0x2e {
            previous.push(seq![])
        } else {
            previous.update(previous.len() - 1, previous.last().push(s.last()))
        }
    }
}

proof fn lemma_split_dots_nonempty(s: Seq<u8>)
    ensures
        split_dots(s).len() >= 1,
    decreases s.len(),
{
    if s.len() > 0 {
        lemma_split_dots_nonempty(s.drop_last());
    }
}

/// The decimal value of a sequence of ASCII digits.
pub open spec fn decimal_value(digits: Seq<u8>) -> int
    decreases digits.len(),
{
    if digits.len() == 0 {
        0
    } else {
        decimal_value(digits.drop_last()) * 10 + (digits.last() - 0x30)
    }
}

/// All bytes are ASCII digits.
pub open spec fn all_digits(s: Seq<u8>) -> bool {
    forall|i: int| 0 <= i < s.len() ==> 0x30 <= #[trigger] s[i] <= 0x39
}

/// Unsigned decimal parsing: an optional `+`, then at least one digit, with a
/// value that fits `u64`.
pub open spec fn parse_u64_spec(s: Seq<u8>) -> Option<u64> {
    let digits = if s.len() > 0 && s[0] == 0x2b {
        s.drop_first()
    } else {
        s
    };
    if digits.len() > 0 && all_digits(digits) && decimal_value(digits) <= u64::MAX {
        Some(decimal_value(digits) as u64)
    } else {
        None
    }
}

/// A version component: its value, or `u64::MAX` when it is missing or not a number.
pub open spec fn component(segments: Seq<Seq<u8>>, k: int) -> u64 {
    if k < segments.len() {
        match parse_u64_spec(segments[k]) {
            Some(v) => v,
            None => u64::MAX,
        }
    } else {
        u64::MAX
    }
}

/// `(major, minor, patch)` of a dotted version text.
pub open spec fn version_components(version: Seq<u8>) -> (u64, u64, u64) {
    let segments = split_dots(version);
    (component(segments, 0), component(segments, 1), component(segments, 2))
}

proof fn lemma_decimal_value_nonneg(digits: Seq<u8>)
    requires
        all_digits(digits),
    ensures
        decimal_value(digits) >= 0,
    decreases digits.len(),
{
    if digits.len() > 0 {
        lemma_decimal_value_nonneg(digits.drop_last());
    }
}

proof fn lemma_decimal_value_monotone(digits: Seq<u8>)
    requires
        all_digits(digits),
        digits.len() > 0,
    ensures
        decimal_value(digits.drop_last()) <= decimal_value(digits),
{
    lemma_decimal_value_nonneg(digits.drop_last());
}

/// Parses an unsigned decimal number: an optional `+`, then digits.
pub fn parse_u64_text(s: &[u8]) -> (r: Option<u64>)
    ensures
        r == parse_u64_spec(s@),
{
    let start: usize = if s.len() > 0 && s[0] == 0x2b {
        1
    } else {
        0
    };
    let ghost digits = if s@.len() > 0 && s@[0] == 0x2b {
        s@.drop_first()
    } else {
        s@
    };
    assert(digits =~= s@.subrange(start as int, s@.len() as int));
    if start >= s.len() {
        return None;
    }
    let mut value: u64 = 0;
    let mut i: usize = start;
    while i < s.len()
        invariant
            start <= i <= s@.len(),
            digits == (if s@.len() > 0 && s@[0] == 0x2b {
                s@.drop_first()
            } else {
                s@
            }),
            digits =~= s@.subrange(start as int, s@.len() as int),
            all_digits(s@.subrange(start as int, i as int)),
            value == decimal_value(s@.subrange(start as int, i as int)),
        decreases s@.len() - i,
    {
        let b = s[i];
        let ghost prefix = s@.subrange(start as int, i as int);
        let ghost next = s@.subrange(start as int, i + 1);
        assert(next.drop_last() =~= prefix);
        if b < 0x30 || b > 0x39 {
            assert(digits[i - start] == b);
            assert(!all_digits(digits));
            return None;
        }
        let d = (b - 0x30) as u64;
        if value > (u64::MAX - d) / 10 {
            proof {
                assert(value * 10 + d > u64::MAX) by (nonlinear_arith)
                    requires
                        value > (u64::MAX - d) / 10,
                        0 <= d <= 9,
                ;
                assert(all_digits(next));
                assert(next.last() == b);
                assert(decimal_value(next) == value * 10 + d);
                lemma_decimal_prefix_bound(digits, (i + 1 - start) as int);
                assert(digits.subrange(0, (i + 1 - start) as int) =~= next);
                if all_digits(digits) {
                    assert(decimal_value(digits) > u64::MAX);
                }
            }
            return None;
        }
        value = value * 10 + d;
        proof {
            assert(next.last() == b);
            assert(all_digits(next));
        }
        i = i + 1;
    }
    assert(s@.subrange(start as int, s@.len() as int) =~= digits);
    Some(value)
}

/// The value of a digit string is at least the value of any of its prefixes.
proof fn lemma_decimal_prefix_bound(digits: Seq<u8>, n: int)
    requires
        0 <= n <= digits.len(),
    ensures
        all_digits(digits) ==> decimal_value(digits.subrange(0, n)) <= decimal_value(digits),
    decreases digits.len() - n,
{
    if n == digits.len() {
        assert(digits.subrange(0, n) =~= digits);
    }
    if n < digits.len() && all_digits(digits) {
        lemma_decimal_prefix_bound(digits, n + 1);
        let a = digits.subrange(0, n);
        let b = digits.subrange(0, n + 1);
        assert(b.drop_last() =~= a);
        assert(all_digits(b));
        lemma_decimal_value_monotone(b);
    }
}

/// Dotted `(major, minor, patch)` of a version; missing or non-numeric
/// components count as `u64::MAX`.
pub fn version_tuple(version: &str) -> (r: (u64, u64, u64))
    ensures
        r == version_components(version.spec_bytes()),
{
    let bytes = version.as_bytes();
    let mut segments: Vec<(usize, usize)> = Vec::new();
    let mut segment_start: usize = 0;
    let mut i: usize = 0;
    proof {
        lemma_split_dots_nonempty(bytes@.take(0));
    }
    while i < bytes.len()
        invariant
            0 <= segment_start <= i <= bytes@.len(),
            split_dots(bytes@.take(i as int)).len() == segments@.len() + 1,
            forall|k: int|
                0 <= k < segments@.len() ==> {
                    let (a, b) = #[trigger] segments@[k];
                    a <= b <= bytes@.len() && split_dots(bytes@.take(i as int))[k]
                        == bytes@.subrange(a as int, b as int)
                },
            split_dots(bytes@.take(i as int)).last() == bytes@.subrange(
                segment_start as int,
                i as int,
            ),
        decreases bytes@.len() - i,
    {
        proof {
            assert(bytes@.take(i + 1).drop_last() =~= bytes@.take(i as int));
            lemma_split_dots_nonempty(bytes@.take(i as int));
        }
        if bytes[i] == 0x2e {
            segments.push((segment_start, i));
            segment_start = i + 1;
            proof {
                assert(bytes@.subrange((i + 1) as int, (i + 1) as int) =~= Seq::<u8>::empty());
            }
        } else {
            proof {
                assert(bytes@.subrange(segment_start as int, i + 1) =~= bytes@.subrange(
                    segment_start as int,
                    i as int,
                ).push(bytes@[i as int]));
            }
        }
        i = i + 1;
    }
    segments.push((segment_start, i));
    proof {
        assert(bytes@.take(bytes@.len() as int) =~= bytes@);
        let parts = split_dots(bytes@);
        assert forall|k: int| 0 <= k < segments@.len() implies {
            let (a, b) = #[trigger] segments@[k];
            a <= b <= bytes@.len() && parts[k] == bytes@.subrange(a as int, b as int)
        } by {
            if k == segments@.len() - 1 {
                assert(parts[k] == parts.last());
            }
        }
    }
    let major = version_component(bytes, &segments, 0);
    let minor = version_component(bytes, &segments, 1);
    let patch = version_component(bytes, &segments, 2);
    (major, minor, patch)
}

fn version_component(bytes: &[u8], segments: &Vec<(usize, usize)>, k: usize) -> (r: u64)
    requires
        forall|j: int|
            0 <= j < segments@.len() ==> {
                let (a, b) = #[trigger] segments@[j];
                a <= b <= bytes@.len() && split_dots(bytes@)[j] == bytes@.subrange(
                    a as int,
                    b as int,
                )
            },
        split_dots(bytes@).len() == segments@.len(),
    ensures
        r == component(split_dots(bytes@), k as int),
{
    if k >= segments.len() {
        return u64::MAX;
    }
    let (a, b) = segments[k];
    let part = slice_range(bytes, a, b);
    match parse_u64_text(part) {
        Some(v) => v,
        None => u64::MAX,
    }
}

fn slice_range(bytes: &[u8], a: usize, b: usize) -> (r: &[u8])
    requires
        a <= b <= bytes@.len(),
    ensures
        r@ == bytes@.subrange(a as int, b as int),
{
    vstd::slice::slice_subrange(bytes, a, b)
}

} // verus!
