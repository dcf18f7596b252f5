//! Decisions of the program permission store and the Skill state store: a
//! grant binds one program version to an exact capability set, and a Skill
//! state binds one Skill to its version, capabilities and activation.
//!
//! Both stores keep capabilities in canonical order (byte-wise ascending,
//! each once).
use crate::capabilities::{
    all_distinct, ascending_indices, capabilities_ok, canonical_capabilities, canonical_skill_capabilities,
    grant_ok, skill_state_ok, sorted_indices, sorted_permutation, texts,
};
use crate::error::SqlitePersistenceError;
use crate::records::{identifier, validate_skill_identity, ProgramPermissionGrant, SkillStateRecord};
use crate::text::{blank, is_blank, str_equal};
use vstd::prelude::*;
use vstd::string::StringSliceAdditionalSpecFns;
use vstd::utf8::encode_utf8;

verus! {

// ----------------------------------------------------------------------------
// Program permissions
// ----------------------------------------------------------------------------

/// One row of the permission table: a program version and its capabilities.
#[derive(Debug, Clone, PartialEq, Eq)]
pub struct PermissionGrantRow {
    pub program_id: String,
    pub program_version: String,
    pub capabilities: Vec<String>,
}

/// Row `i` is the first one for the program version.
pub open spec fn first_grant(
    rows: Seq<PermissionGrantRow>,
    program_id: Seq<char>,
    version: Seq<char>,
    i: int,
) -> bool {
    &&& 0 <= i < rows.len()
    &&& rows[i].program_id@ == program_id
    &&& rows[i].program_version@ == version
    &&& forall|j: int|
        0 <= j < i ==> !(#[trigger] rows[j].program_id@ == program_id && rows[j].program_version@
            == version)
}

/// Some row holds the program version.
pub open spec fn has_grant(rows: Seq<PermissionGrantRow>, program_id: Seq<char>, version: Seq<char>) -> bool {
    exists|i: int|
        0 <= i < rows.len() && rows[i].program_id@ == program_id && rows[i].program_version@
            == version
}

fn find_grant(rows: &Vec<PermissionGrantRow>, program_id: &str, version: &str) -> (r: Option<usize>)
    ensures
        match r {
            Some(i) => first_grant(rows@, program_id@, version@, i as int),
            None => !has_grant(rows@, program_id@, version@),
        },
{
    let mut i: usize = 0;
    while i < rows.len()
        invariant
            0 <= i <= rows@.len(),
            forall|j: int|
                0 <= j < i ==> !(#[trigger] rows@[j].program_id@ == program_id@
                    && rows@[j].program_version@ == version@),
        decreases rows@.len() - i,
    {
        if str_equal(rows[i].program_id.as_str(), program_id) && str_equal(
            rows[i].program_version.as_str(),
            version,
        ) {
            return Some(i);
        }
        i = i + 1;
    }
    None
}

/// The row grants the program version exactly the grant's capabilities, in
/// canonical order.
pub open spec fn grants_exactly(row: PermissionGrantRow, grant: ProgramPermissionGrant) -> bool {
    &&& row.program_id@ == grant.program_id@
    &&& row.program_version@ == grant.version@
    &&& sorted_permutation(texts(grant.capabilities@), texts(row.capabilities@))
}

/// Replaces the grant of one program version with the grant's capabilities.
///
/// # Errors
///
/// [`SqlitePersistenceError::InvalidPermissionGrant`] unless [`grant_ok`];
/// the rows are then unchanged.
pub fn grant_permission(rows: &mut Vec<PermissionGrantRow>, grant: &ProgramPermissionGrant) -> (r:
    Result<(), SqlitePersistenceError>)
    ensures
        r is Ok <==> grant_ok(*grant),
        r is Err ==> r == Err::<(), SqlitePersistenceError>(
            SqlitePersistenceError::InvalidPermissionGrant,
        ) && final(rows)@ == old(rows)@,
        r is Ok ==> if has_grant(old(rows)@, grant.program_id@, grant.version@) {
            exists|i: int|
                first_grant(old(rows)@, grant.program_id@, grant.version@, i) && final(rows)@.len()
                    == old(rows)@.len() && grants_exactly(final(rows)@[i], *grant) && forall|j: int|
                    0 <= j < old(rows)@.len() && j != i ==> #[trigger] final(rows)@[j] == old(
                        rows,
                    )@[j]
        } else {
            final(rows)@.len() == old(rows)@.len() + 1 && final(rows)@.drop_last() == old(rows)@
                && grants_exactly(final(rows)@.last(), *grant)
        },
{
    let capabilities = canonical_capabilities(grant)?;
    let row = PermissionGrantRow {
        program_id: grant.program_id.clone(),
        program_version: grant.version.clone(),
        capabilities,
    };
    let ghost o = rows@;
    match find_grant(rows, grant.program_id.as_str(), grant.version.as_str()) {
        Some(i) => {
            rows.set(i, row);
        },
        None => {
            rows.push(row);
            proof {
                assert(rows@.drop_last() =~= o);
            }
        },
    }
    Ok(())
}

/// Two lists name the same capabilities.
pub open spec fn same_capabilities(a: Seq<Seq<char>>, b: Seq<Seq<char>>) -> bool {
    forall|x: Seq<char>| a.contains(x) <==> b.contains(x)
}

fn contains_text(list: &Vec<String>, item: &str) -> (r: bool)
    ensures
        r == texts(list@).contains(item@),
{
    let mut i: usize = 0;
    while i < list.len()
        invariant
            0 <= i <= list@.len(),
            forall|k: int| 0 <= k < i ==> #[trigger] texts(list@)[k] != item@,
        decreases list@.len() - i,
    {
        if str_equal(list[i].as_str(), item) {
            proof {
                assert(texts(list@)[i as int] == item@);
            }
            return true;
        }
        i = i + 1;
    }
    false
}

fn covers(a: &Vec<String>, b: &Vec<String>) -> (r: bool)
    ensures
        r == forall|x: Seq<char>| texts(a@).contains(x) ==> texts(b@).contains(x),
{
    let mut i: usize = 0;
    while i < a.len()
        invariant
            0 <= i <= a@.len(),
            forall|k: int| 0 <= k < i ==> texts(b@).contains(#[trigger] texts(a@)[k]),
        decreases a@.len() - i,
    {
        if !contains_text(b, a[i].as_str()) {
            proof {
                assert(texts(a@).contains(texts(a@)[i as int]));
            }
            return false;
        }
        i = i + 1;
    }
    proof {
        assert forall|x: Seq<char>| texts(a@).contains(x) implies texts(b@).contains(x) by {
            let k = choose|k: int| 0 <= k < texts(a@).len() && texts(a@)[k] == x;
        }
    }
    true
}

/// Whether the program version is granted exactly the grant's capabilities:
/// always for none, and otherwise when its stored grant names the same
/// capabilities (the stored list, sorted and without repeats, equals the
/// canonical request).
///
/// # Errors
///
/// [`SqlitePersistenceError::InvalidPermissionGrant`] unless [`grant_ok`].
pub fn is_granted(rows: &Vec<PermissionGrantRow>, grant: &ProgramPermissionGrant) -> (r: Result<
    bool,
    SqlitePersistenceError,
>)
    ensures
        !grant_ok(*grant) ==> r == Err::<bool, SqlitePersistenceError>(
            SqlitePersistenceError::InvalidPermissionGrant,
        ),
        grant_ok(*grant) && grant.capabilities@.len() == 0 ==> r == Ok::<bool, SqlitePersistenceError>(
            true,
        ),
        grant_ok(*grant) && grant.capabilities@.len() > 0 && !has_grant(
            rows@,
            grant.program_id@,
            grant.version@,
        ) ==> r == Ok::<bool, SqlitePersistenceError>(false),
        grant_ok(*grant) && grant.capabilities@.len() > 0 && has_grant(
            rows@,
            grant.program_id@,
            grant.version@,
        ) ==> exists|i: int|
            first_grant(rows@, grant.program_id@, grant.version@, i) && r == Ok::<
                bool,
                SqlitePersistenceError,
            >(same_capabilities(texts(rows@[i].capabilities@), texts(grant.capabilities@))),
{
    let requested = canonical_capabilities(grant)?;
    if requested.len() == 0 {
        return Ok(true);
    }
    let i = match find_grant(rows, grant.program_id.as_str(), grant.version.as_str()) {
        None => {
            return Ok(false);
        },
        Some(i) => i,
    };
    let stored = &rows[i].capabilities;
    let same = covers(stored, &requested) && covers(&requested, stored);
    proof {
        assert(first_grant(rows@, grant.program_id@, grant.version@, i as int));
        assert(same == same_capabilities(texts(stored@), texts(grant.capabilities@)));
    }
    Ok(same)
}

/// A program version that was just granted is granted: its first row names
/// exactly the grant's capabilities, so checking the same grant answers true.
pub proof fn law_granted_version_checks_true(
    before: Seq<PermissionGrantRow>,
    after: Seq<PermissionGrantRow>,
    grant: ProgramPermissionGrant,
)
    requires
        grant_ok(grant),
        if has_grant(before, grant.program_id@, grant.version@) {
            exists|i: int|
                first_grant(before, grant.program_id@, grant.version@, i) && after.len()
                    == before.len() && grants_exactly(after[i], grant) && forall|j: int|
                    0 <= j < before.len() && j != i ==> #[trigger] after[j] == before[j]
        } else {
            after.len() == before.len() + 1 && after.drop_last() == before && grants_exactly(
                after.last(),
                grant,
            )
        },
    ensures
        has_grant(after, grant.program_id@, grant.version@),
        forall|i: int|
            #[trigger] first_grant(after, grant.program_id@, grant.version@, i) ==> same_capabilities(
                texts(after[i].capabilities@),
                texts(grant.capabilities@),
            ),
{
    let id = grant.program_id@;
    let ver = grant.version@;
    let k: int = if has_grant(before, id, ver) {
        choose|i: int|
            first_grant(before, id, ver, i) && after.len() == before.len() && grants_exactly(
                after[i],
                grant,
            ) && forall|j: int| 0 <= j < before.len() && j != i ==> #[trigger] after[j] == before[j]
    } else {
        before.len() as int
    };
    if !has_grant(before, id, ver) {
        assert forall|j: int| 0 <= j < before.len() implies #[trigger] after[j] == before[j] by {
            assert(after.drop_last()[j] == after[j]);
        }
        assert(after[k] == after.last());
    }
    assert(first_grant(after, id, ver, k)) by {
        assert forall|j: int| 0 <= j < k implies !(#[trigger] after[j].program_id@ == id
            && after[j].program_version@ == ver) by {
            assert(after[j] == before[j]);
        }
    }
    assert forall|i: int| #[trigger] first_grant(after, id, ver, i) implies same_capabilities(
        texts(after[i].capabilities@),
        texts(grant.capabilities@),
    ) by {
        if i < k {
            assert(!(after[i].program_id@ == id && after[i].program_version@ == ver));
        } else if k < i {
            assert(!(after[k].program_id@ == id && after[k].program_version@ == ver));
        }
    }
}

/// The rows of other programs.
pub open spec fn other_programs(rows: Seq<PermissionGrantRow>, program_id: Seq<char>) -> Seq<
    PermissionGrantRow,
> {
    rows.filter(|row: PermissionGrantRow| row.program_id@ != program_id)
}

/// Revokes every grant of a program, all versions.
///
/// # Errors
///
/// [`SqlitePersistenceError::InvalidPermissionGrant`] for a blank program
/// identifier; the rows are then unchanged.
pub fn revoke_program(rows: &mut Vec<PermissionGrantRow>, program_id: &str) -> (r: Result<
    (),
    SqlitePersistenceError,
>)
    ensures
        blank(program_id@) ==> r == Err::<(), SqlitePersistenceError>(
            SqlitePersistenceError::InvalidPermissionGrant,
        ) && final(rows)@ == old(rows)@,
        !blank(program_id@) ==> r is Ok && final(rows)@ == other_programs(old(rows)@, program_id@),
{
    if is_blank(program_id) {
        return Err(SqlitePersistenceError::InvalidPermissionGrant);
    }
    let ghost o = rows@;
    let ghost id = program_id@;
    let ghost mut j: int = 0;
    let mut i: usize = 0;
    while i < rows.len()
        invariant
            0 <= j <= o.len(),
            id == program_id@,
            rows@ == other_programs(o.take(j), id) + o.skip(j),
            i == other_programs(o.take(j), id).len(),
        decreases rows@.len() - i,
    {
        proof {
            reveal_with_fuel(Seq::filter, 1);
            assert(o.take(j + 1).drop_last() =~= o.take(j));
            assert(o.skip(j)[0] == o[j]);
            assert(rows@[i as int] == o[j]);
        }
        if str_equal(rows[i].program_id.as_str(), program_id) {
            rows.remove(i);
            proof {
                assert(rows@ =~= other_programs(o.take(j + 1), id) + o.skip(j + 1));
            }
        } else {
            i = i + 1;
            proof {
                assert(rows@ =~= other_programs(o.take(j + 1), id) + o.skip(j + 1));
            }
        }
        proof {
            j = j + 1;
        }
    }
    proof {
        assert(o.take(j) =~= o) by {
            assert(o.skip(j).len() == 0);
        }
        assert(rows@ =~= other_programs(o, id));
    }
    Ok(())
}

// ----------------------------------------------------------------------------
// Skill states
// ----------------------------------------------------------------------------

/// One row of the Skill state table.
#[derive(Debug, Clone, PartialEq, Eq)]
pub struct SkillStateRow {
    pub skill_id: String,
    pub skill_version: String,
    pub capabilities: Vec<String>,
    pub authorized: bool,
    pub enabled: bool,
}

fn copy_strings(list: &Vec<String>) -> (r: Vec<String>)
    ensures
        texts(r@) == texts(list@),
{
    let mut out: Vec<String> = Vec::new();
    let mut i: usize = 0;
    while i < list.len()
        invariant
            0 <= i <= list@.len(),
            out@.len() == i,
            forall|k: int| 0 <= k < i ==> #[trigger] out@[k]@ == list@[k]@,
        decreases list@.len() - i,
    {
        out.push(list[i].clone());
        i = i + 1;
    }
    proof {
        assert(texts(out@) =~= texts(list@));
    }
    out
}

/// Row `i` is the first one of the Skill.
pub open spec fn first_skill(rows: Seq<SkillStateRow>, skill_id: Seq<char>, i: int) -> bool {
    &&& 0 <= i < rows.len()
    &&& rows[i].skill_id@ == skill_id
    &&& forall|j: int| 0 <= j < i ==> #[trigger] rows[j].skill_id@ != skill_id
}

/// Some row holds the Skill.
pub open spec fn has_skill(rows: Seq<SkillStateRow>, skill_id: Seq<char>) -> bool {
    exists|i: int| 0 <= i < rows.len() && rows[i].skill_id@ == skill_id
}

fn find_skill(rows: &Vec<SkillStateRow>, skill_id: &str) -> (r: Option<usize>)
    ensures
        match r {
            Some(i) => first_skill(rows@, skill_id@, i as int),
            None => !has_skill(rows@, skill_id@),
        },
{
    let mut i: usize = 0;
    while i < rows.len()
        invariant
            0 <= i <= rows@.len(),
            forall|j: int| 0 <= j < i ==> #[trigger] rows@[j].skill_id@ != skill_id@,
        decreases rows@.len() - i,
    {
        if str_equal(rows[i].skill_id.as_str(), skill_id) {
            return Some(i);
        }
        i = i + 1;
    }
    None
}

/// The mathematical content of a Skill state.
pub open spec fn skill_view(r: SkillStateRecord) -> (Seq<char>, Seq<char>, Seq<Seq<char>>, bool, bool) {
    (r.skill_id@, r.version@, texts(r.capabilities@), r.authorized, r.enabled)
}

/// The row stores the record, its capabilities in canonical order.
pub open spec fn stores_skill(row: SkillStateRow, record: SkillStateRecord) -> bool {
    &&& row.skill_id@ == record.skill_id@
    &&& row.skill_version@ == record.version@
    &&& sorted_permutation(texts(record.capabilities@), texts(row.capabilities@))
    &&& row.authorized == record.authorized
    &&& row.enabled == record.enabled
}

/// Replaces the stored state of a Skill, or adds it.
///
/// # Errors
///
/// [`SqlitePersistenceError::InvalidSkillState`] unless [`skill_state_ok`];
/// the rows are then unchanged.
pub fn save_skill_state(rows: &mut Vec<SkillStateRow>, record: &SkillStateRecord) -> (r: Result<
    (),
    SqlitePersistenceError,
>)
    ensures
        r is Ok <==> skill_state_ok(*record),
        r is Err ==> r == Err::<(), SqlitePersistenceError>(SqlitePersistenceError::InvalidSkillState)
            && final(rows)@ == old(rows)@,
        r is Ok ==> if has_skill(old(rows)@, record.skill_id@) {
            exists|i: int|
                first_skill(old(rows)@, record.skill_id@, i) && final(rows)@.len() == old(rows)@.len()
                    && stores_skill(final(rows)@[i], *record) && forall|j: int|
                    0 <= j < old(rows)@.len() && j != i ==> #[trigger] final(rows)@[j] == old(
                        rows,
                    )@[j]
        } else {
            final(rows)@.len() == old(rows)@.len() + 1 && final(rows)@.drop_last() == old(rows)@
                && stores_skill(final(rows)@.last(), *record)
        },
{
    let capabilities = canonical_skill_capabilities(record)?;
    let row = SkillStateRow {
        skill_id: record.skill_id.clone(),
        skill_version: record.version.clone(),
        capabilities,
        authorized: record.authorized,
        enabled: record.enabled,
    };
    let ghost o = rows@;
    match find_skill(rows, record.skill_id.as_str()) {
        Some(i) => {
            rows.set(i, row);
        },
        None => {
            rows.push(row);
            proof {
                assert(rows@.drop_last() =~= o);
            }
        },
    }
    Ok(())
}

/// The record a row reads back as, under the Skill identifier `skill_id`.
pub open spec fn row_record_view(row: SkillStateRow, skill_id: Seq<char>) -> (
    Seq<char>,
    Seq<char>,
    Seq<Seq<char>>,
    bool,
    bool,
) {
    (skill_id, row.skill_version@, texts(row.capabilities@), row.authorized, row.enabled)
}

/// The row reads back as an acceptable Skill state.
pub open spec fn row_ok(row: SkillStateRow) -> bool {
    skill_state_ok(
        SkillStateRecord {
            skill_id: row.skill_id,
            version: row.skill_version,
            capabilities: row.capabilities,
            authorized: row.authorized,
            enabled: row.enabled,
        },
    )
}

fn read_row(row: &SkillStateRow) -> (r: Result<SkillStateRecord, SqlitePersistenceError>)
    ensures
        row_ok(*row) ==> (r matches Ok(rec) && skill_view(rec) == row_record_view(*row, row.skill_id@)),
        !row_ok(*row) ==> r == Err::<SkillStateRecord, SqlitePersistenceError>(
            SqlitePersistenceError::InvalidSkillState,
        ),
{
    let record = SkillStateRecord {
        skill_id: row.skill_id.clone(),
        version: row.skill_version.clone(),
        capabilities: copy_strings(&row.capabilities),
        authorized: row.authorized,
        enabled: row.enabled,
    };
    proof {
        let same = SkillStateRecord {
            skill_id: row.skill_id,
            version: row.skill_version,
            capabilities: row.capabilities,
            authorized: row.authorized,
            enabled: row.enabled,
        };
        lemma_skill_state_ok_by_view(record, same);
    }
    canonical_skill_capabilities(&record)?;
    Ok(record)
}

proof fn lemma_skill_state_ok_by_view(a: SkillStateRecord, b: SkillStateRecord)
    requires
        skill_view(a) == skill_view(b),
    ensures
        skill_state_ok(a) == skill_state_ok(b),
{
    assert(texts(a.capabilities@) == texts(b.capabilities@));
    assert(a.capabilities@.len() == b.capabilities@.len());
    assert forall|k: int| 0 <= k < a.capabilities@.len() implies #[trigger] a.capabilities@[k]@
        == b.capabilities@[k]@ by {
        assert(texts(a.capabilities@)[k] == texts(b.capabilities@)[k]);
    }
    if capabilities_ok(a.capabilities@, Some(128)) {
        assert forall|k: int| 0 <= k < b.capabilities@.len() implies {
            let c = #[trigger] b.capabilities@[k];
            !blank(c@) && encode_utf8(c@).len() <= 128
        } by {
            assert(a.capabilities@[k]@ == b.capabilities@[k]@);
        }
    }
    if capabilities_ok(b.capabilities@, Some(128)) {
        assert forall|k: int| 0 <= k < a.capabilities@.len() implies {
            let c = #[trigger] a.capabilities@[k];
            !blank(c@) && encode_utf8(c@).len() <= 128
        } by {
            assert(a.capabilities@[k]@ == b.capabilities@[k]@);
        }
    }
}

/// Loads the stored state of a Skill.
///
/// # Errors
///
/// [`SqlitePersistenceError::InvalidSkillState`] for an invalid identifier or
/// a stored state that breaks [`skill_state_ok`].
pub fn load_skill_state(rows: &Vec<SkillStateRow>, skill_id: &str) -> (r: Result<
    Option<SkillStateRecord>,
    SqlitePersistenceError,
>)
    ensures
        !identifier(skill_id.spec_bytes()) ==> r == Err::<
            Option<SkillStateRecord>,
            SqlitePersistenceError,
        >(SqlitePersistenceError::InvalidSkillState),
        identifier(skill_id.spec_bytes()) && !has_skill(rows@, skill_id@) ==> r == Ok::<
            Option<SkillStateRecord>,
            SqlitePersistenceError,
        >(None),
        identifier(skill_id.spec_bytes()) && has_skill(rows@, skill_id@) ==> exists|i: int|
            first_skill(rows@, skill_id@, i) && if row_ok(rows@[i]) {
                r matches Ok(Some(rec)) && skill_view(rec) == row_record_view(rows@[i], skill_id@)
            } else {
                r == Err::<Option<SkillStateRecord>, SqlitePersistenceError>(
                    SqlitePersistenceError::InvalidSkillState,
                )
            },
{
    validate_skill_identity(skill_id)?;
    let i = match find_skill(rows, skill_id) {
        None => {
            return Ok(None);
        },
        Some(i) => i,
    };
    proof {
        assert(first_skill(rows@, skill_id@, i as int));
    }
    match read_row(&rows[i]) {
        Ok(record) => Ok(Some(record)),
        Err(e) => Err(e),
    }
}

/// The Skill identifiers of the rows.
pub open spec fn skill_ids(rows: Seq<SkillStateRow>) -> Seq<Seq<char>> {
    rows.map_values(|row: SkillStateRow| row.skill_id@)
}

/// Lists every stored Skill state in ascending identifier order.
///
/// # Errors
///
/// [`SqlitePersistenceError::InvalidSkillState`] for the first listed row
/// that breaks [`skill_state_ok`].
pub fn list_skill_states(rows: &Vec<SkillStateRow>) -> (r: Result<
    Vec<SkillStateRecord>,
    SqlitePersistenceError,
>)
    ensures
        exists|order: Seq<usize>|
            ascending_indices(skill_ids(rows@), order) && match r {
                Ok(listed) => listed@.len() == order.len() && forall|k: int|
                    0 <= k < order.len() ==> row_ok(rows@[#[trigger] order[k] as int]) && skill_view(
                        listed@[k],
                    ) == row_record_view(rows@[order[k] as int], rows@[order[k] as int].skill_id@),
                Err(e) => e == SqlitePersistenceError::InvalidSkillState && exists|k: int|
                    0 <= k < order.len() && !row_ok(rows@[order[k] as int]) && forall|m: int|
                        0 <= m < k ==> row_ok(rows@[#[trigger] order[m] as int]),
            },
{
    let mut ids: Vec<String> = Vec::new();
    let mut i: usize = 0;
    while i < rows.len()
        invariant
            0 <= i <= rows@.len(),
            ids@.len() == i,
            texts(ids@) == skill_ids(rows@.take(i as int)),
        decreases rows@.len() - i,
    {
        let ghost before = ids@;
        ids.push(rows[i].skill_id.clone());
        proof {
            assert forall|k: int| 0 <= k < i + 1 implies #[trigger] texts(ids@)[k] == skill_ids(
                rows@.take(i + 1),
            )[k] by {
                if k < i {
                    assert(ids@[k] == before[k]);
                    assert(texts(before)[k] == skill_ids(rows@.take(i as int))[k]);
                }
            }
            assert(texts(ids@) =~= skill_ids(rows@.take(i + 1)));
        }
        i = i + 1;
    }
    proof {
        assert(rows@.take(rows@.len() as int) == rows@);
    }
    let order = sorted_indices(&ids);
    let mut listed: Vec<SkillStateRecord> = Vec::new();
    let mut k: usize = 0;
    while k < order.len()
        invariant
            ascending_indices(skill_ids(rows@), order@),
            0 <= k <= order@.len(),
            listed@.len() == k,
            forall|m: int|
                0 <= m < k ==> row_ok(rows@[#[trigger] order@[m] as int]) && skill_view(listed@[m])
                    == row_record_view(rows@[order@[m] as int], rows@[order@[m] as int].skill_id@),
        decreases order@.len() - k,
    {
        match read_row(&rows[order[k]]) {
            Ok(record) => {
                let ghost prior = listed@;
                listed.push(record);
                proof {
                    assert forall|m: int| 0 <= m < k + 1 implies row_ok(
                        rows@[#[trigger] order@[m] as int],
                    ) && skill_view(listed@[m]) == row_record_view(
                        rows@[order@[m] as int],
                        rows@[order@[m] as int].skill_id@,
                    ) by {
                        if m < k {
                            assert(listed@[m] == prior[m]);
                        }
                    }
                }
            },
            Err(e) => {
                return Err(e);
            },
        }
        k = k + 1;
    }
    Ok(listed)
}

/// The rows of other Skills.
pub open spec fn other_skills(rows: Seq<SkillStateRow>, skill_id: Seq<char>) -> Seq<SkillStateRow> {
    rows.filter(|row: SkillStateRow| row.skill_id@ != skill_id)
}

/// Removes the stored state of a Skill.
///
/// # Errors
///
/// [`SqlitePersistenceError::InvalidSkillState`] for an invalid identifier;
/// the rows are then unchanged.
pub fn remove_skill_state(rows: &mut Vec<SkillStateRow>, skill_id: &str) -> (r: Result<
    (),
    SqlitePersistenceError,
>)
    ensures
        !identifier(skill_id.spec_bytes()) ==> r == Err::<(), SqlitePersistenceError>(
            SqlitePersistenceError::InvalidSkillState,
        ) && final(rows)@ == old(rows)@,
        identifier(skill_id.spec_bytes()) ==> r is Ok && final(rows)@ == other_skills(
            old(rows)@,
            skill_id@,
        ),
{
    validate_skill_identity(skill_id)?;
    let ghost o = rows@;
    let ghost id = skill_id@;
    let ghost mut j: int = 0;
    let mut i: usize = 0;
    while i < rows.len()
        invariant
            0 <= j <= o.len(),
            id == skill_id@,
            rows@ == other_skills(o.take(j), id) + o.skip(j),
            i == other_skills(o.take(j), id).len(),
        decreases rows@.len() - i,
    {
        proof {
            reveal_with_fuel(Seq::filter, 1);
            assert(o.take(j + 1).drop_last() =~= o.take(j));
            assert(o.skip(j)[0] == o[j]);
            assert(rows@[i as int] == o[j]);
        }
        if str_equal(rows[i].skill_id.as_str(), skill_id) {
            rows.remove(i);
            proof {
                assert(rows@ =~= other_skills(o.take(j + 1), id) + o.skip(j + 1));
            }
        } else {
            i = i + 1;
            proof {
                assert(rows@ =~= other_skills(o.take(j + 1), id) + o.skip(j + 1));
            }
        }
        proof {
            j = j + 1;
        }
    }
    proof {
        assert(o.take(j) =~= o) by {
            assert(o.skip(j).len() == 0);
        }
        assert(rows@ =~= other_skills(o, id));
    }
    Ok(())
}

} // verus!
