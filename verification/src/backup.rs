//! Backup naming, scheduling and retention decisions.
//!
//! The host lists, copies, verifies and removes files; these functions decide
//! which names are backups, when a backup is due, and which backups to keep.
use crate::error::SqlitePersistenceError;
use crate::records::{all_digits, decimal_value, parse_u64_spec};
use crate::text::{empty_string, push_char, str_equal};
use vstd::prelude::*;
use vstd::string::StringSliceAdditionalSpecFns;
use vstd::utf8::*;

verus! {

/// Spec identifier of a persisted restore request.
pub const RESTORE_REQUEST_SPEC: &'static str = "nimora.restore-request/1";

/// Name of the pending restore request file.
pub const PENDING_RESTORE_FILE: &'static str = "restore-pending.json";

/// Default interval between scheduled backups: 6 hours.
pub const DEFAULT_BACKUP_INTERVAL_MS: u64 = 21_600_000;

/// Default number of retained backups.
pub const DEFAULT_BACKUP_RETAIN: usize = 12;

/// How often backups are taken and how many are kept.
#[derive(Debug, Clone, Copy, PartialEq, Eq, Structural)]
pub struct BackupPolicy {
    pub interval_ms: u64,
    pub retain: usize,
}

impl Default for BackupPolicy {
    fn default() -> (r: Self)
        ensures
            r.interval_ms == DEFAULT_BACKUP_INTERVAL_MS,
            r.retain == DEFAULT_BACKUP_RETAIN,
    {
        BackupPolicy { interval_ms: DEFAULT_BACKUP_INTERVAL_MS, retain: DEFAULT_BACKUP_RETAIN }
    }
}

/// One published backup file.
#[derive(Debug, Clone, PartialEq, Eq)]
pub struct BackupRecord {
    pub id: String,
    pub created_at_ms: u64,
    pub bytes: u64,
}

/// Backup availability and scheduling state.
#[derive(Debug, Clone, PartialEq, Eq)]
pub struct BackupHealth {
    pub due: bool,
    pub latest: Option<BackupRecord>,
    pub available: Vec<BackupRecord>,
    pub pending_restore: Option<String>,
    pub last_error: Option<String>,
}

/// A verified backup selected for restore before the next database open.
#[derive(Debug, Clone, PartialEq, Eq)]
pub struct PendingRestore {
    pub spec: String,
    pub backup_id: String,
}

/// Locations and policy of scheduled database backups.
#[derive(Debug, Clone, PartialEq, Eq)]
pub struct BackupCoordinator {
    pub database_path: String,
    pub backup_directory: String,
    pub policy: BackupPolicy,
}

impl BackupRecord {
    /// A copy of this record.
    pub fn duplicate(&self) -> (r: Self)
        ensures
            r == *self,
    {
        BackupRecord { id: self.id.clone(), created_at_ms: self.created_at_ms, bytes: self.bytes }
    }
}

impl BackupCoordinator {
    /// A coordinator for the database and backup directory under the policy.
    pub fn new(database_path: String, backup_directory: String, policy: BackupPolicy) -> (r: Self)
        ensures
            r.database_path == database_path,
            r.backup_directory == backup_directory,
            r.policy == policy,
    {
        BackupCoordinator { database_path, backup_directory, policy }
    }

    /// Backup health from the listed backups (any order) and the pending
    /// restore request at `now_ms`.
    pub fn health(
        &self,
        listed: Vec<BackupRecord>,
        pending_restore: Option<String>,
        now_ms: u64,
    ) -> (r: BackupHealth)
        ensures
            newest_first(listed@, r.available@),
            r.latest == (if r.available@.len() > 0 {
                Some(r.available@[0])
            } else {
                None
            }),
            r.due == backup_due(
                if r.available@.len() > 0 {
                    Some(r.available@[0].created_at_ms)
                } else {
                    None
                },
                now_ms,
                self.policy.interval_ms,
            ),
            r.pending_restore == pending_restore,
            r.last_error is None,
    {
        let available = order_newest_first(listed);
        let latest = if available.len() > 0 {
            Some(available[0].duplicate())
        } else {
            None
        };
        let due = is_backup_due(
            if available.len() > 0 {
                Some(available[0].created_at_ms)
            } else {
                None
            },
            now_ms,
            self.policy.interval_ms,
        );
        BackupHealth { due, latest, available, pending_restore, last_error: None }
    }

    /// Backup health of a backup directory from its listed entries: only
    /// regular files named `runtime-<milliseconds>.sqlite3` count, newest
    /// first.
    pub fn health_of_listing(
        &self,
        files: &Vec<ListedFile>,
        pending_restore: Option<String>,
        now_ms: u64,
    ) -> (r: BackupHealth)
        ensures
            newest_first(listed_records(files@), r.available@),
            r.latest == (if r.available@.len() > 0 {
                Some(r.available@[0])
            } else {
                None
            }),
            r.due == backup_due(
                if r.available@.len() > 0 {
                    Some(r.available@[0].created_at_ms)
                } else {
                    None
                },
                now_ms,
                self.policy.interval_ms,
            ),
            r.pending_restore == pending_restore,
            r.last_error is None,
    {
        let records = backup_records(files);
        self.health(records, pending_restore, now_ms)
    }

    /// Whether a backup should be created now, given the health.
    pub fn create_if_due(&self, health: &BackupHealth) -> (r: bool)
        ensures
            r == health.due,
    {
        health.due
    }

    /// Identifiers of backups to delete under the retention policy.
    pub fn prune_plan(&self, newest: &Vec<BackupRecord>, pending_restore: Option<&str>) -> (r: Vec<
        String,
    >)
        ensures
            r@.map_values(|s: String| s@) == pruned_ids(
                newest@,
                keep_count(self.policy.retain),
                match pending_restore {
                    Some(p) => Some(p@),
                    None => None,
                },
            ),
    {
        prune_backups(newest, self.policy.retain, pending_restore)
    }
}

/// A backup is due when none exists or the newest is at least the interval old.
pub open spec fn backup_due(latest_created_at_ms: Option<u64>, now_ms: u64, interval_ms: u64) -> bool {
    match latest_created_at_ms {
        None => true,
        Some(created) => (if now_ms >= created {
            now_ms - created
        } else {
            0
        }) >= interval_ms,
    }
}

/// Whether a backup is due.
pub fn is_backup_due(latest_created_at_ms: Option<u64>, now_ms: u64, interval_ms: u64) -> (r: bool)
    ensures
        r == backup_due(latest_created_at_ms, now_ms, interval_ms),
{
    match latest_created_at_ms {
        None => true,
        Some(created) => now_ms.saturating_sub(created) >= interval_ms,
    }
}

/// `output` lists the records of `input` newest first, keeping the listing
/// order among records created at the same millisecond.
pub open spec fn newest_first(input: Seq<BackupRecord>, output: Seq<BackupRecord>) -> bool {
    exists|idx: Seq<int>| #[trigger] newest_first_by(input, output, idx)
}

/// `output[k] == input[idx[k]]`, `idx` is a permutation, and the order is by
/// creation time descending, then listing position ascending.
pub open spec fn newest_first_by(input: Seq<BackupRecord>, output: Seq<BackupRecord>, idx: Seq<int>) -> bool {
    &&& idx.len() == input.len()
    &&& output.len() == input.len()
    &&& forall|k: int| 0 <= k < idx.len() ==> 0 <= #[trigger] idx[k] < input.len()
    &&& forall|k: int| 0 <= k < idx.len() ==> output[k] == input[#[trigger] idx[k]]
    &&& forall|k: int, l: int|
        0 <= k < l < idx.len() ==> precedes(input, #[trigger] idx[k], #[trigger] idx[l])
}

/// Record `a` of the listing comes before record `b`: it is newer, or as new
/// and listed earlier.
pub open spec fn precedes(input: Seq<BackupRecord>, a: int, b: int) -> bool {
    input[a].created_at_ms > input[b].created_at_ms || (input[a].created_at_ms
        == input[b].created_at_ms && a < b)
}

/// Orders listed backups newest first (stable among equal timestamps).
pub fn order_newest_first(listed: Vec<BackupRecord>) -> (r: Vec<BackupRecord>)
    ensures
        newest_first(listed@, r@),
{
    let mut out: Vec<BackupRecord> = Vec::new();
    let ghost mut idx: Seq<int> = Seq::empty();
    let mut i: usize = 0;
    while i < listed.len()
        invariant
            0 <= i <= listed@.len(),
            newest_first_by(listed@.take(i as int), out@, idx),
            forall|k: int| 0 <= k < idx.len() ==> #[trigger] idx[k] < i,
        decreases listed@.len() - i,
    {
        let record = listed[i].duplicate();
        let mut p: usize = 0;
        while p < out.len() && out[p].created_at_ms >= record.created_at_ms
            invariant
                0 <= p <= out@.len(),
                forall|k: int| 0 <= k < p ==> (#[trigger] out@[k]).created_at_ms
                    >= record.created_at_ms,
            decreases out@.len() - p,
        {
            p = p + 1;
        }
        proof {
            let prefix = listed@.take(i as int);
            let next = listed@.take(i + 1);
            assert(next =~= prefix.push(listed@[i as int]));
            assert forall|k: int| p <= k < out@.len() implies (#[trigger] out@[k]).created_at_ms
                < record.created_at_ms by {
                lemma_newest_first_suffix_smaller(prefix, out@, idx, p as int, k);
            }
        }
        let ghost old_out = out@;
        let ghost old_idx = idx;
        out.insert(p, record);
        proof {
            idx = old_idx.insert(p as int, i as int);
            let input = listed@.take(i + 1);
            assert forall|k: int| 0 <= k < idx.len() implies 0 <= #[trigger] idx[k] < input.len() by {
                if k < p {
                    assert(idx[k] == old_idx[k]);
                } else if k > p {
                    assert(idx[k] == old_idx[k - 1]);
                }
            }
            assert forall|k: int| 0 <= k < idx.len() implies out@[k] == input[#[trigger] idx[k]] by {
                if k < p {
                    assert(idx[k] == old_idx[k]);
                    assert(out@[k] == old_out[k]);
                } else if k > p {
                    assert(idx[k] == old_idx[k - 1]);
                    assert(out@[k] == old_out[k - 1]);
                }
            }
            assert forall|k: int, l: int| 0 <= k < l < idx.len() implies precedes(
                input,
                #[trigger] idx[k],
                #[trigger] idx[l],
            ) by {
                let kk = if k < p { k } else if k == p { -1 } else { k - 1 };
                let ll = if l < p { l } else if l == p { -1 } else { l - 1 };
                if k != p && l != p {
                    assert(idx[k] == old_idx[kk]);
                    assert(idx[l] == old_idx[ll]);
                    assert(old_idx[kk] < i && old_idx[ll] < i);
                } else if k == p {
                    assert(idx[l] == old_idx[ll]);
                    assert(out@[l] == old_out[ll]);
                    assert(old_out[ll].created_at_ms < record.created_at_ms);
                } else {
                    assert(idx[k] == old_idx[kk]);
                    assert(out@[k] == old_out[kk]);
                    assert(old_out[kk].created_at_ms >= record.created_at_ms);
                    assert(old_idx[kk] < i);
                }
            }
            assert forall|k: int| 0 <= k < idx.len() implies #[trigger] idx[k] < i + 1 by {
                if k < p {
                    assert(idx[k] == old_idx[k]);
                } else if k > p {
                    assert(idx[k] == old_idx[k - 1]);
                }
            }
        }
        i = i + 1;
    }
    proof {
        assert(listed@.take(listed@.len() as int) =~= listed@);
    }
    out
}

proof fn lemma_newest_first_suffix_smaller(
    input: Seq<BackupRecord>,
    output: Seq<BackupRecord>,
    idx: Seq<int>,
    p: int,
    k: int,
)
    requires
        newest_first_by(input, output, idx),
        0 <= p <= k < output.len(),
        p < output.len() ==> output[p].created_at_ms < output[p].created_at_ms + 1,
        p < output.len(),
    ensures
        output[k].created_at_ms <= output[p].created_at_ms,
{
    if k > p {
        assert(output[k] == input[idx[k]]);
        assert(output[p] == input[idx[p]]);
    }
}

/// Number of newest backups kept: the policy's retain count, at least one.
pub open spec fn keep_count(retain: usize) -> int {
    if retain >= 1 {
        retain as int
    } else {
        1
    }
}

/// Identifiers (in order) of the first `n` records that retention removes:
/// those past the first `keep`, except the one selected for restore.
pub open spec fn pruned_prefix(
    newest: Seq<BackupRecord>,
    keep: int,
    pending: Option<Seq<char>>,
    n: nat,
) -> Seq<Seq<char>>
    decreases n,
{
    if n == 0 {
        seq![]
    } else {
        let previous = pruned_prefix(newest, keep, pending, (n - 1) as nat);
        let record = newest[n - 1];
        if n - 1 >= keep && pending != Some(record.id@) {
            previous.push(record.id@)
        } else {
            previous
        }
    }
}

/// Identifiers of the backups that retention removes.
pub open spec fn pruned_ids(newest: Seq<BackupRecord>, keep: int, pending: Option<Seq<char>>) -> Seq<
    Seq<char>,
> {
    pruned_prefix(newest, keep, pending, newest.len())
}

/// Identifiers of backups to delete: all but the newest `max(retain, 1)`,
/// never the backup selected for restore.
pub fn prune_backups(newest: &Vec<BackupRecord>, retain: usize, pending_restore: Option<&str>) -> (r:
    Vec<String>)
    ensures
        r@.map_values(|s: String| s@) == pruned_ids(
            newest@,
            keep_count(retain),
            match pending_restore {
                Some(p) => Some(p@),
                None => None,
            },
        ),
{
    let keep: usize = if retain >= 1 {
        retain
    } else {
        1
    };
    let ghost pending = match pending_restore {
        Some(p) => Some(p@),
        None => None,
    };
    let mut out: Vec<String> = Vec::new();
    let mut i: usize = 0;
    while i < newest.len()
        invariant
            0 <= i <= newest@.len(),
            keep == keep_count(retain),
            pending == match pending_restore {
                Some(p) => Some(p@),
                None => None::<Seq<char>>,
            },
            out@.map_values(|s: String| s@) == pruned_prefix(newest@, keep as int, pending, i as nat),
        decreases newest@.len() - i,
    {
        let record = &newest[i];
        let selected = match pending_restore {
            Some(p) => str_equal(p, record.id.as_str()),
            None => false,
        };
        if i >= keep && !selected {
            let ghost before = out@;
            out.push(record.id.clone());
            proof {
                assert(out@.map_values(|s: String| s@) =~= before.map_values(|s: String| s@).push(
                    record.id@,
                ));
            }
        }
        i = i + 1;
    }
    out
}

/// Law: retention never removes the backup selected for restore, nor any of
/// the newest `max(retain, 1)` backups.
pub proof fn law_retention_keeps_newest_and_pending(
    newest: Seq<BackupRecord>,
    retain: usize,
    pending: Option<Seq<char>>,
)
    ensures
        forall|k: int|
            0 <= k < pruned_ids(newest, keep_count(retain), pending).len() ==> {
                let id = #[trigger] pruned_ids(newest, keep_count(retain), pending)[k];
                &&& pending != Some(id)
                &&& exists|j: int| keep_count(retain) <= j < newest.len() && newest[j].id@ == id
            },
{
    lemma_pruned_prefix(newest, keep_count(retain), pending, newest.len());
}

/// Law: retention removes every other backup. Each backup past the newest
/// `max(retain, 1)` that is not selected for restore is removed, so what stays
/// is exactly those newest ones and the selected one.
pub proof fn law_retention_removes_the_rest(
    newest: Seq<BackupRecord>,
    retain: usize,
    pending: Option<Seq<char>>,
)
    ensures
        forall|j: int|
            keep_count(retain) <= j < newest.len() && pending != Some(#[trigger] newest[j].id@)
                ==> pruned_ids(newest, keep_count(retain), pending).contains(newest[j].id@),
{
    lemma_pruned_prefix_complete(newest, keep_count(retain), pending, newest.len());
}

proof fn lemma_pruned_prefix_complete(newest: Seq<BackupRecord>, keep: int, pending: Option<Seq<char>>, n: nat)
    requires
        n <= newest.len(),
        0 <= keep,
    ensures
        forall|j: int|
            keep <= j < n && pending != Some(#[trigger] newest[j].id@) ==> pruned_prefix(
                newest,
                keep,
                pending,
                n,
            ).contains(newest[j].id@),
    decreases n,
{
    if n > 0 {
        lemma_pruned_prefix_complete(newest, keep, pending, (n - 1) as nat);
        let previous = pruned_prefix(newest, keep, pending, (n - 1) as nat);
        let current = pruned_prefix(newest, keep, pending, n);
        assert forall|j: int|
            keep <= j < n && pending != Some(#[trigger] newest[j].id@) implies current.contains(
            newest[j].id@,
        ) by {
            if j < n - 1 {
                let k = choose|k: int| 0 <= k < previous.len() && previous[k] == newest[j].id@;
                if n - 1 >= keep && pending != Some(newest[n - 1].id@) {
                    assert(current[k] == previous[k]);
                }
                assert(current[k] == newest[j].id@);
            } else {
                assert(current[current.len() - 1] == newest[j].id@);
            }
        }
    }
}

/// Law: the health's newest-first listing holds every listed backup, never
/// grows older from one entry to the next, and starts with the newest, which
/// is the latest backup.
pub proof fn law_latest_backup_is_newest(listed: Seq<BackupRecord>, available: Seq<BackupRecord>)
    requires
        newest_first(listed, available),
    ensures
        available.len() == listed.len(),
        forall|i: int, j: int|
            0 <= i < j < available.len() ==> available[i].created_at_ms
                >= available[j].created_at_ms,
        forall|k: int| 0 <= k < listed.len() ==> available.contains(#[trigger] listed[k]),
        forall|k: int|
            0 <= k < listed.len() ==> (#[trigger] listed[k]).created_at_ms
                <= available[0].created_at_ms,
{
    let idx = choose|idx: Seq<int>| #[trigger] newest_first_by(listed, available, idx);
    assert forall|i: int, j: int| 0 <= i < j < available.len() implies available[i].created_at_ms
        >= available[j].created_at_ms by {
        assert(precedes(listed, idx[i], idx[j]));
    }
    lemma_index_onto(idx, listed.len());
    assert forall|k: int| 0 <= k < listed.len() implies available.contains(#[trigger] listed[k]) by {
        assert(idx.contains(k));
        let i = choose|i: int| 0 <= i < idx.len() && idx[i] == k;
        assert(available[i] == listed[idx[i]]);
    }
    assert forall|k: int| 0 <= k < listed.len() implies (#[trigger] listed[k]).created_at_ms
        <= available[0].created_at_ms by {
        assert(idx.contains(k));
        let i = choose|i: int| 0 <= i < idx.len() && idx[i] == k;
        assert(available[i] == listed[idx[i]]);
        if i > 0 {
            assert(precedes(listed, idx[0], idx[i]));
        }
    }
}

/// A list of `n` distinct positions below `n` names every position.
pub(crate) proof fn lemma_index_onto(idx: Seq<int>, n: nat)
    requires
        idx.len() == n,
        forall|k: int| 0 <= k < n ==> 0 <= #[trigger] idx[k] < n,
        forall|k: int, l: int| 0 <= k < l < n ==> #[trigger] idx[k] != #[trigger] idx[l],
    ensures
        forall|j: int| 0 <= j < n ==> #[trigger] idx.contains(j),
{
    assert(idx.no_duplicates()) by {
        assert forall|k: int, l: int| 0 <= k < idx.len() && 0 <= l < idx.len() && k != l implies idx[k]
            != idx[l] by {
            if k < l {
                assert(idx[k] != idx[l]);
            } else {
                assert(idx[l] != idx[k]);
            }
        }
    }
    idx.unique_seq_to_set();
    let range = vstd::set_lib::set_int_range(0, n as int);
    vstd::set_lib::lemma_int_range(0, n as int);
    let positions = idx.to_set();
    assert(positions.subset_of(range));
    assert forall|j: int| 0 <= j < n implies #[trigger] idx.contains(j) by {
        if !positions.contains(j) {
            assert(positions.subset_of(range.remove(j)));
            vstd::set_lib::lemma_len_subset(positions, range.remove(j));
        }
    }
}

proof fn lemma_pruned_prefix(newest: Seq<BackupRecord>, keep: int, pending: Option<Seq<char>>, n: nat)
    requires
        n <= newest.len(),
    ensures
        forall|k: int|
            0 <= k < pruned_prefix(newest, keep, pending, n).len() ==> {
                let id = #[trigger] pruned_prefix(newest, keep, pending, n)[k];
                &&& pending != Some(id)
                &&& exists|j: int| keep <= j < n && newest[j].id@ == id
            },
    decreases n,
{
    if n > 0 {
        lemma_pruned_prefix(newest, keep, pending, (n - 1) as nat);
        let previous = pruned_prefix(newest, keep, pending, (n - 1) as nat);
        let current = pruned_prefix(newest, keep, pending, n);
        assert forall|k: int| 0 <= k < current.len() implies {
            let id = #[trigger] current[k];
            &&& pending != Some(id)
            &&& exists|j: int| keep <= j < n && newest[j].id@ == id
        } by {
            if k < previous.len() {
                assert(current[k] == previous[k]);
                let id = previous[k];
                let j = choose|j: int| keep <= j < n - 1 && newest[j].id@ == id;
                assert(keep <= j < n && newest[j].id@ == id);
            } else {
                assert(newest[n - 1].id@ == current[k]);
            }
        }
    }
}

// ----------------------------------------------------------------------------
// Backup file names: `runtime-<milliseconds>.sqlite3`
// ----------------------------------------------------------------------------

/// `runtime-` as bytes.
pub open spec fn backup_prefix() -> Seq<u8> {
    seq![0x72u8, 0x75, 0x6e, 0x74, 0x69, 0x6d, 0x65, 0x2d]
}

/// `.sqlite3` as bytes.
pub open spec fn backup_suffix() -> Seq<u8> {
    seq![0x2eu8, 0x73, 0x71, 0x6c, 0x69, 0x74, 0x65, 0x33]
}

/// The creation time encoded in a backup file name, if it is one.
pub open spec fn backup_id_time(id: Seq<u8>) -> Option<u64> {
    if id.len() >= 16 && id.subrange(0, 8) == backup_prefix() && id.subrange(
        id.len() - 8,
        id.len() as int,
    ) == backup_suffix() {
        parse_u64_spec(id.subrange(8, id.len() - 8))
    } else {
        None
    }
}

/// Parses the creation time out of a backup file name.
pub fn parse_backup_id(id: &str) -> (r: Option<u64>)
    ensures
        r == backup_id_time(id.spec_bytes()),
{
    let bytes = id.as_bytes();
    let prefix: [u8; 8] = [0x72, 0x75, 0x6e, 0x74, 0x69, 0x6d, 0x65, 0x2d];
    let suffix: [u8; 8] = [0x2e, 0x73, 0x71, 0x6c, 0x69, 0x74, 0x65, 0x33];
    assert(prefix@ =~= backup_prefix());
    assert(suffix@ =~= backup_suffix());
    if bytes.len() < 16 {
        return None;
    }
    let head = vstd::slice::slice_subrange(bytes, 0, 8);
    let tail = vstd::slice::slice_subrange(bytes, bytes.len() - 8, bytes.len());
    if !crate::text::bytes_equal(head, prefix.as_slice()) || !crate::text::bytes_equal(
        tail,
        suffix.as_slice(),
    ) {
        return None;
    }
    let middle = vstd::slice::slice_subrange(bytes, 8, bytes.len() - 8);
    crate::records::parse_u64_text(middle)
}

/// One entry of the backup directory as the host read it.
#[derive(Debug, Clone, PartialEq, Eq)]
pub struct ListedFile {
    pub name: String,
    pub is_file: bool,
    pub bytes: u64,
}

/// The backups among the directory entries, in listing order: regular files
/// named `runtime-<milliseconds>.sqlite3`, created at those milliseconds.
pub open spec fn listed_records(files: Seq<ListedFile>) -> Seq<BackupRecord>
    decreases files.len(),
{
    if files.len() == 0 {
        seq![]
    } else {
        let previous = listed_records(files.drop_last());
        let f = files.last();
        match backup_id_time(encode_utf8(f.name@)) {
            Some(t) => if f.is_file {
                previous.push(BackupRecord { id: f.name, created_at_ms: t, bytes: f.bytes })
            } else {
                previous
            },
            None => previous,
        }
    }
}

/// The backups among the listed directory entries; other files and
/// directories are skipped.
pub fn backup_records(files: &Vec<ListedFile>) -> (r: Vec<BackupRecord>)
    ensures
        r@ == listed_records(files@),
{
    let mut out: Vec<BackupRecord> = Vec::new();
    let mut i: usize = 0;
    while i < files.len()
        invariant
            0 <= i <= files@.len(),
            out@ == listed_records(files@.take(i as int)),
        decreases files@.len() - i,
    {
        proof {
            assert(files@.take(i + 1).drop_last() =~= files@.take(i as int));
        }
        let f = &files[i];
        if f.is_file {
            match parse_backup_id(f.name.as_str()) {
                Some(t) => {
                    out.push(BackupRecord { id: f.name.clone(), created_at_ms: t, bytes: f.bytes });
                },
                None => {},
            }
        }
        i = i + 1;
    }
    proof {
        assert(files@.take(files@.len() as int) =~= files@);
    }
    out
}

/// Whether a name is a backup file name.
pub fn is_backup_id(id: &str) -> (r: bool)
    ensures
        r == backup_id_time(id.spec_bytes()) is Some,
{
    parse_backup_id(id).is_some()
}

/// Decimal digits of `n`, most significant first, without leading zeros.
pub open spec fn decimal_digits(n: nat) -> Seq<u8>
    decreases n,
{
    if n < 10 {
        seq![(n + 0x30) as u8]
    } else {
        decimal_digits(n / 10).push((n % 10 + 0x30) as u8)
    }
}

/// The backup file name for a creation time, as characters.
pub open spec fn backup_id_chars(created_at_ms: u64) -> Seq<char> {
    (backup_prefix() + decimal_digits(created_at_ms as nat) + backup_suffix()).map_values(
        |b: u8| b as char,
    )
}

proof fn lemma_decimal_digits(n: nat)
    ensures
        decimal_digits(n).len() > 0,
        all_digits(decimal_digits(n)),
        decimal_value(decimal_digits(n)) == n,
        decimal_digits(n)[0] != 0x2b,
    decreases n,
{
    let d = decimal_digits(n);
    if n >= 10 {
        lemma_decimal_digits(n / 10);
        assert(d.drop_last() =~= decimal_digits(n / 10));
        assert(d[0] == decimal_digits(n / 10)[0]);
        assert(d.last() == (n % 10 + 0x30) as u8);
        assert(d.last() - 0x30 == n % 10);
        assert((n / 10) * 10 + n % 10 == n);
        assert(decimal_value(d) == decimal_value(d.drop_last()) * 10 + (d.last() - 0x30));
        assert(decimal_value(d.drop_last()) == n / 10);
    } else {
        assert(decimal_value(d) == decimal_value(d.drop_last()) * 10 + (d.last() - 0x30));
        assert(d.drop_last() =~= Seq::<u8>::empty());
        assert(d.last() - 0x30 == n);
    }
}

/// Writes the decimal digits of `n`.
pub fn decimal_text(n: u64) -> (r: Vec<u8>)
    ensures
        r@ == decimal_digits(n as nat),
    decreases n,
{
    if n < 10 {
        let mut v: Vec<u8> = Vec::new();
        v.push((n + 0x30) as u8);
        proof {
            assert(v@ =~= seq![(n + 0x30) as u8]);
        }
        v
    } else {
        let mut v = decimal_text(n / 10);
        v.push((n % 10 + 0x30) as u8);
        v
    }
}

/// The backup file name for a creation time: `runtime-<ms>.sqlite3`.
pub fn backup_id_for(created_at_ms: u64) -> (r: String)
    ensures
        r@ == backup_id_chars(created_at_ms),
{
    let prefix: [u8; 8] = [0x72, 0x75, 0x6e, 0x74, 0x69, 0x6d, 0x65, 0x2d];
    let suffix: [u8; 8] = [0x2e, 0x73, 0x71, 0x6c, 0x69, 0x74, 0x65, 0x33];
    let digits = decimal_text(created_at_ms);
    let ghost all = backup_prefix() + decimal_digits(created_at_ms as nat) + backup_suffix();
    let mut out = empty_string();
    let mut i: usize = 0;
    while i < 8
        invariant
            0 <= i <= 8,
            prefix@ =~= backup_prefix(),
            out@ =~= all.take(i as int).map_values(|b: u8| b as char),
            all == backup_prefix() + decimal_digits(created_at_ms as nat) + backup_suffix(),
        decreases 8 - i,
    {
        push_char(&mut out, prefix[i] as char);
        proof {
            assert(all[i as int] == prefix@[i as int]);
        }
        i = i + 1;
    }
    let mut j: usize = 0;
    while j < digits.len()
        invariant
            0 <= j <= digits@.len(),
            digits@ == decimal_digits(created_at_ms as nat),
            out@ =~= all.take(8 + j).map_values(|b: u8| b as char),
            all == backup_prefix() + decimal_digits(created_at_ms as nat) + backup_suffix(),
        decreases digits@.len() - j,
    {
        push_char(&mut out, digits[j] as char);
        proof {
            assert(all[8 + j] == digits@[j as int]);
        }
        j = j + 1;
    }
    let mut k: usize = 0;
    while k < 8
        invariant
            0 <= k <= 8,
            suffix@ =~= backup_suffix(),
            out@ =~= all.take(8 + digits@.len() + k).map_values(|b: u8| b as char),
            digits@ == decimal_digits(created_at_ms as nat),
            all == backup_prefix() + decimal_digits(created_at_ms as nat) + backup_suffix(),
        decreases 8 - k,
    {
        push_char(&mut out, suffix[k] as char);
        proof {
            assert(all[8 + digits@.len() + k] == suffix@[k as int]);
        }
        k = k + 1;
    }
    proof {
        assert(all.take(all.len() as int) =~= all);
    }
    out
}

/// Law: the name written for a creation time parses back to it.
pub proof fn law_backup_id_round_trip(id: &str, created_at_ms: u64)
    requires
        id@ == backup_id_chars(created_at_ms),
    ensures
        backup_id_time(id.spec_bytes()) == Some(created_at_ms),
{
    let bytes = backup_prefix() + decimal_digits(created_at_ms as nat) + backup_suffix();
    lemma_decimal_digits(created_at_ms as nat);
    assert forall|i: int| 0 <= i < id@.len() implies '\0' <= #[trigger] id@[i] <= '\u{7f}' by {
        assert(id@[i] == bytes[i] as char);
    }
    is_ascii_chars_encode_utf8(id@);
    assert(id.spec_bytes() =~= bytes);
    let n = bytes.len() as int;
    assert(bytes.subrange(0, 8) =~= backup_prefix());
    assert(bytes.subrange(n - 8, n) =~= backup_suffix());
    assert(bytes.subrange(8, n - 8) =~= decimal_digits(created_at_ms as nat));
}

/// Distinct creation times have distinct backup names.
proof fn lemma_backup_id_chars_injective(a: u64, b: u64)
    requires
        backup_id_chars(a) == backup_id_chars(b),
    ensures
        a == b,
{
    let x = backup_prefix() + decimal_digits(a as nat) + backup_suffix();
    let y = backup_prefix() + decimal_digits(b as nat) + backup_suffix();
    lemma_decimal_digits(a as nat);
    lemma_decimal_digits(b as nat);
    assert(x.len() == backup_id_chars(a).len());
    assert(y.len() == backup_id_chars(b).len());
    assert forall|i: int| 0 <= i < x.len() implies x[i] == y[i] by {
        assert(backup_id_chars(a)[i] == x[i] as char);
        assert(backup_id_chars(b)[i] == y[i] as char);
    }
    assert(x =~= y);
    let n = x.len() as int;
    assert(x.subrange(8, n - 8) =~= decimal_digits(a as nat));
    assert(y.subrange(8, n - 8) =~= decimal_digits(b as nat));
}

/// The backup name for `created_at_ms` is among the `taken` names.
pub open spec fn id_taken(taken: Seq<String>, created_at_ms: u64) -> bool {
    exists|k: int| 0 <= k < taken.len() && #[trigger] taken[k]@ == backup_id_chars(created_at_ms)
}

/// If every name from `from` through `from + m - 1` is taken, there are at
/// least `m` taken names.
proof fn lemma_taken_names_bound(taken: Seq<String>, from: u64, m: nat)
    requires
        from + m <= u64::MAX + 1,
        forall|i: int| 0 <= i < m ==> #[trigger] id_taken(taken, (from + i) as u64),
    ensures
        m <= taken.len(),
{
    let g = Seq::new(
        m,
        |i: int| choose|k: int| 0 <= k < taken.len() && taken[k]@ == backup_id_chars((from + i) as u64),
    );
    assert forall|i: int| 0 <= i < m implies 0 <= #[trigger] g[i] < taken.len() && taken[g[i]]@
        == backup_id_chars((from + i) as u64) by {
        assert(id_taken(taken, (from + i) as u64));
    }
    assert(g.no_duplicates()) by {
        assert forall|i: int, j: int| 0 <= i < g.len() && 0 <= j < g.len() && i != j implies g[i]
            != g[j] by {
            assert(id_taken(taken, (from + i) as u64));
            assert(id_taken(taken, (from + j) as u64));
            if g[i] == g[j] {
                lemma_backup_id_chars_injective((from + i) as u64, (from + j) as u64);
            }
        }
    }
    g.unique_seq_to_set();
    vstd::set_lib::lemma_int_range(0, taken.len() as int);
    let range = vstd::set_lib::set_int_range(0, taken.len() as int);
    assert(g.to_set().subset_of(range)) by {
        assert forall|x: int| g.to_set().contains(x) implies range.contains(x) by {
            let i = choose|i: int| 0 <= i < g.len() && g[i] == x;
            assert(0 <= g[i] < taken.len());
        }
    }
    vstd::set_lib::lemma_len_subset(g.to_set(), range);
}

/// Whether `name` is among `taken`.
fn name_listed(taken: &Vec<String>, name: &String) -> (r: bool)
    ensures
        r == exists|k: int| 0 <= k < taken@.len() && #[trigger] taken@[k]@ == name@,
{
    let mut k: usize = 0;
    while k < taken.len()
        invariant
            0 <= k <= taken@.len(),
            forall|m: int| 0 <= m < k ==> #[trigger] taken@[m]@ != name@,
        decreases taken@.len() - k,
    {
        if str_equal(taken[k].as_str(), name.as_str()) {
            return true;
        }
        k = k + 1;
    }
    false
}

/// Picks the creation time and name of a new backup: the first millisecond
/// from `now_ms` on whose name none of the `taken` files has.
pub fn next_backup_id(now_ms: u64, taken: &Vec<String>) -> (r: (u64, String))
    requires
        now_ms + taken@.len() <= u64::MAX,
    ensures
        now_ms <= r.0 <= now_ms + taken@.len(),
        !id_taken(taken@, r.0),
        r.1@ == backup_id_chars(r.0),
        forall|t: u64| now_ms <= t < r.0 ==> #[trigger] id_taken(taken@, t),
{
    let mut t: u64 = now_ms;
    loop
        invariant
            now_ms <= t <= now_ms + taken@.len(),
            now_ms + taken@.len() <= u64::MAX,
            forall|u: u64| now_ms <= u < t ==> #[trigger] id_taken(taken@, u),
        decreases now_ms + taken@.len() - t,
    {
        let id = backup_id_for(t);
        if !name_listed(taken, &id) {
            return (t, id);
        }
        proof {
            assert(id_taken(taken@, t));
            let m = (t - now_ms + 1) as nat;
            assert forall|i: int| 0 <= i < m implies #[trigger] id_taken(taken@, (now_ms + i) as u64) by {
                let u = (now_ms + i) as u64;
                if u < t {
                    assert(id_taken(taken@, u));
                }
            }
            lemma_taken_names_bound(taken@, now_ms, m);
        }
        t = t + 1;
    }
}

/// The entries of the first `n` listed that are not named in `ids`, in order.
pub open spec fn without_names(files: Seq<ListedFile>, ids: Seq<Seq<char>>, n: nat) -> Seq<ListedFile>
    decreases n,
{
    if n == 0 {
        seq![]
    } else {
        let previous = without_names(files, ids, (n - 1) as nat);
        if ids.contains(files[n - 1].name@) {
            previous
        } else {
            previous.push(files[n - 1])
        }
    }
}

/// Law: removing the entries named in `ids` keeps exactly the entries whose
/// names are not among them; with the retention laws this says which backup
/// files a backup leaves in the directory.
pub proof fn law_without_names_keeps_exactly(files: Seq<ListedFile>, ids: Seq<Seq<char>>, n: nat)
    requires
        n <= files.len(),
    ensures
        forall|f: ListedFile|
            #[trigger] without_names(files, ids, n).contains(f) <==> (files.take(n as int).contains(f)
                && !ids.contains(f.name@)),
    decreases n,
{
    if n > 0 {
        law_without_names_keeps_exactly(files, ids, (n - 1) as nat);
        let previous = without_names(files, ids, (n - 1) as nat);
        let current = without_names(files, ids, n);
        let last = files[n - 1];
        let shorter = files.take(n - 1);
        let longer = files.take(n as int);
        assert(longer =~= shorter.push(last));
        assert forall|f: ListedFile| #[trigger] current.contains(f) <==> (longer.contains(f)
            && !ids.contains(f.name@)) by {
            if ids.contains(last.name@) {
                assert(current == previous);
                if longer.contains(f) && !ids.contains(f.name@) {
                    let k = choose|k: int| 0 <= k < longer.len() && longer[k] == f;
                    assert(k != n - 1);
                    assert(shorter[k] == f);
                    assert(shorter.contains(f));
                }
                if previous.contains(f) {
                    let k = choose|k: int| 0 <= k < shorter.len() && shorter[k] == f;
                    assert(longer[k] == f);
                }
            } else {
                assert(current == previous.push(last));
                if current.contains(f) {
                    let k = choose|k: int| 0 <= k < current.len() && current[k] == f;
                    if k < previous.len() {
                        assert(previous[k] == f);
                        assert(previous.contains(f));
                        let m = choose|m: int| 0 <= m < shorter.len() && shorter[m] == f;
                        assert(longer[m] == f);
                    } else {
                        assert(longer[n - 1] == f);
                    }
                }
                if longer.contains(f) && !ids.contains(f.name@) {
                    let k = choose|k: int| 0 <= k < longer.len() && longer[k] == f;
                    if k == n - 1 {
                        assert(current[current.len() - 1] == f);
                    } else {
                        assert(shorter[k] == f);
                        assert(shorter.contains(f));
                        assert(previous.contains(f));
                        let m = choose|m: int| 0 <= m < previous.len() && previous[m] == f;
                        assert(current[m] == f);
                    }
                }
            }
        }
    }
}

/// The names of the listed entries.
pub open spec fn listed_names(files: Seq<ListedFile>) -> Seq<String> {
    files.map_values(|f: ListedFile| f.name)
}

fn name_among(ids: &Vec<String>, name: &String) -> (r: bool)
    ensures
        r == ids@.map_values(|s: String| s@).contains(name@),
{
    let ghost texts = ids@.map_values(|s: String| s@);
    let mut k: usize = 0;
    while k < ids.len()
        invariant
            0 <= k <= ids@.len(),
            texts == ids@.map_values(|s: String| s@),
            forall|m: int| 0 <= m < k ==> #[trigger] ids@[m]@ != name@,
        decreases ids@.len() - k,
    {
        if str_equal(ids[k].as_str(), name.as_str()) {
            assert(texts[k as int] == name@);
            return true;
        }
        k = k + 1;
    }
    proof {
        if texts.contains(name@) {
            let m = choose|m: int| 0 <= m < texts.len() && texts[m] == name@;
            assert(ids@[m]@ != name@);
        }
    }
    false
}

impl BackupCoordinator {
    /// Takes a backup into the listed backup directory: the new backup file
    /// gets the first free name from `now_ms` on and `bytes` bytes, and then
    /// retention removes every backup past the newest `max(retain, 1)` except
    /// the one selected for restore. Returns the new backup's record.
    pub fn create_backup(
        &self,
        files: &mut Vec<ListedFile>,
        pending_restore: Option<&str>,
        now_ms: u64,
        bytes: u64,
    ) -> (r: BackupRecord)
        requires
            now_ms + old(files)@.len() <= u64::MAX,
        ensures
            now_ms <= r.created_at_ms,
            !id_taken(listed_names(old(files)@), r.created_at_ms),
            forall|t: u64| now_ms <= t < r.created_at_ms ==> #[trigger] id_taken(listed_names(old(files)@), t),
            r.id@ == backup_id_chars(r.created_at_ms),
            r.bytes == bytes,
            exists|newest: Seq<BackupRecord>|
                {
                    &&& #[trigger] newest_first(
                        listed_records(old(files)@.push(ListedFile { name: r.id, is_file: true, bytes })),
                        newest,
                    )
                    &&& final(files)@ == without_names(
                        old(files)@.push(ListedFile { name: r.id, is_file: true, bytes }),
                        pruned_ids(
                            newest,
                            keep_count(self.policy.retain),
                            match pending_restore {
                                Some(p) => Some(p@),
                                None => None,
                            },
                        ),
                        old(files)@.len() + 1,
                    )
                },
    {
        let mut names: Vec<String> = Vec::new();
        let mut i: usize = 0;
        while i < files.len()
            invariant
                0 <= i <= files@.len(),
                names@ == listed_names(files@.take(i as int)),
            decreases files@.len() - i,
        {
            names.push(files[i].name.clone());
            proof {
                assert(names@ =~= listed_names(files@.take(i + 1)));
            }
            i = i + 1;
        }
        proof {
            assert(files@.take(files@.len() as int) =~= files@);
        }
        let (created_at_ms, id) = next_backup_id(now_ms, &names);
        let ghost before = files@;
        files.push(ListedFile { name: id.clone(), is_file: true, bytes });
        let ghost written = files@;
        let newest = order_newest_first(backup_records(files));
        let pruned = prune_backups(&newest, self.policy.retain, pending_restore);
        let ghost ids = pruned@.map_values(|s: String| s@);
        let mut kept: Vec<ListedFile> = Vec::new();
        let mut k: usize = 0;
        while k < files.len()
            invariant
                0 <= k <= files@.len(),
                files@ == written,
                ids == pruned@.map_values(|s: String| s@),
                kept@ == without_names(written, ids, k as nat),
            decreases files@.len() - k,
        {
            if !name_among(&pruned, &files[k].name) {
                let f = ListedFile { name: files[k].name.clone(), is_file: files[k].is_file, bytes: files[k].bytes };
                kept.push(f);
            }
            k = k + 1;
        }
        *files = kept;
        BackupRecord { id, created_at_ms, bytes }
    }

    /// Takes a backup into the listed directory only when one is due;
    /// otherwise the directory is left as it is.
    pub fn create_backup_if_due(
        &self,
        files: &mut Vec<ListedFile>,
        pending_restore: Option<&str>,
        now_ms: u64,
        bytes: u64,
    ) -> (r: Option<BackupRecord>)
        requires
            now_ms + old(files)@.len() <= u64::MAX,
        ensures
            exists|available: Seq<BackupRecord>|
                #[trigger] newest_first(listed_records(old(files)@), available) && (r is Some
                    <==> backup_due(
                    if available.len() > 0 {
                        Some(available[0].created_at_ms)
                    } else {
                        None
                    },
                    now_ms,
                    self.policy.interval_ms,
                )),
            r is None ==> final(files)@ == old(files)@,
    {
        let pending = match pending_restore {
            Some(p) => Some(p.to_owned()),
            None => None,
        };
        let health = self.health_of_listing(files, pending, now_ms);
        if !health.due {
            return None;
        }
        Some(self.create_backup(files, pending_restore, now_ms, bytes))
    }
}

/// Checks a pending restore request before any file is touched.
///
/// # Errors
///
/// Returns [`SqlitePersistenceError::InvalidBackupRequest`] for another spec or
/// a name that is not a backup file.
pub fn validate_restore_request(request: &PendingRestore) -> (r: Result<(), SqlitePersistenceError>)
    ensures
        r is Ok <==> request.spec@ == RESTORE_REQUEST_SPEC@ && backup_id_time(
            encode_utf8(request.backup_id@),
        ) is Some,
        r is Err ==> r == Err::<(), SqlitePersistenceError>(
            SqlitePersistenceError::InvalidBackupRequest,
        ),
{
    if !str_equal(request.spec.as_str(), RESTORE_REQUEST_SPEC) {
        return Err(SqlitePersistenceError::InvalidBackupRequest);
    }
    if !is_backup_id(request.backup_id.as_str()) {
        return Err(SqlitePersistenceError::InvalidBackupRequest);
    }
    Ok(())
}

} // verus!
