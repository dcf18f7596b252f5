//! Decisions of the Agent Goal store: a Goal and the immutable plan revisions
//! it adopts, created together, revised one revision at a time, and moved
//! through its lifecycle only as the runtime allows.
//!
//! A Goal is read for its identity, title, objective, status, adopted plan
//! revision and times; a plan for its Goal, revision and creation time. The
//! runtime checks the rest of both. Identifiers are UUIDs held as 128-bit
//! integers.
use crate::error::SqlitePersistenceError;
use crate::paging::{self, ListingKey};
use crate::records::{ensure_version, to_i64};
use crate::text::str_equal;
use vstd::prelude::*;

verus! {

/// Largest number of Goals one page lists.
pub const MAX_GOAL_PAGE: usize = 200;

/// Largest value storage holds (`i64::MAX`).
pub const MAX_STORED: u64 = 9_223_372_036_854_775_807;

/// What storage answers a second Goal with one identifier.
pub const DUPLICATE_GOAL: &'static str = "UNIQUE constraint failed: agent_goal.goal_id";

/// What storage answers a second plan with one Goal and revision.
pub const DUPLICATE_PLAN: &'static str =
    "UNIQUE constraint failed: agent_goal_plan.goal_id, agent_goal_plan.revision";

/// What storage answers a Goal updated before it was created.
pub const GOAL_TIME_CHECK: &'static str = "CHECK constraint failed: updated_at_ms >= created_at_ms";

/// Lifecycle state of a Goal.
#[derive(Debug, Clone, Copy, PartialEq, Eq, Structural)]
pub enum AgentGoalStatus {
    Active,
    Paused,
    Completed,
    Cancelled,
}

/// The stored name of a status.
pub open spec fn goal_status_text(status: AgentGoalStatus) -> Seq<char> {
    match status {
        AgentGoalStatus::Active => "active"@,
        AgentGoalStatus::Paused => "paused"@,
        AgentGoalStatus::Completed => "completed"@,
        AgentGoalStatus::Cancelled => "cancelled"@,
    }
}

/// The stored name of a status.
pub fn goal_status_name(status: AgentGoalStatus) -> (r: &'static str)
    ensures
        r@ == goal_status_text(status),
{
    proof {
        reveal_strlit("active");
        reveal_strlit("paused");
        reveal_strlit("completed");
        reveal_strlit("cancelled");
    }
    match status {
        AgentGoalStatus::Active => "active",
        AgentGoalStatus::Paused => "paused",
        AgentGoalStatus::Completed => "completed",
        AgentGoalStatus::Cancelled => "cancelled",
    }
}

/// What the store reads of a Goal.
#[derive(Debug, Clone, PartialEq, Eq)]
pub struct AgentGoalRecord {
    pub id: u128,
    pub title: String,
    pub objective: String,
    pub status: AgentGoalStatus,
    pub current_plan_revision: u64,
    pub created_at_ms: u64,
    pub updated_at_ms: u64,
}

/// What the store reads of a plan revision.
#[derive(Debug, Clone, Copy, PartialEq, Eq, Structural)]
pub struct AgentPlanRecord {
    pub goal_id: u128,
    pub revision: u64,
    pub created_at_ms: u64,
}

/// A Goal with the plan revision it adopts.
#[derive(Debug, Clone, PartialEq, Eq)]
pub struct AgentGoalSnapshot {
    pub goal: AgentGoalRecord,
    pub current_plan: AgentPlanRecord,
}

/// One row of the Goal table: its indexed columns beside the Goal.
#[derive(Debug, Clone, PartialEq, Eq)]
pub struct AgentGoalRow {
    pub goal_id: u128,
    pub status: String,
    pub current_plan_revision: i64,
    pub created_at_ms: i64,
    pub updated_at_ms: i64,
    pub schema_version: u32,
    pub goal: AgentGoalRecord,
}

/// One row of the plan table: its indexed columns beside the plan.
#[derive(Debug, Clone, Copy, PartialEq, Eq, Structural)]
pub struct AgentPlanRow {
    pub goal_id: u128,
    pub revision: i64,
    pub created_at_ms: i64,
    pub schema_version: u32,
    pub plan: AgentPlanRecord,
}

/// The mathematical content of a Goal.
pub open spec fn goal_view(g: AgentGoalRecord) -> (
    u128,
    Seq<char>,
    Seq<char>,
    AgentGoalStatus,
    u64,
    u64,
    u64,
) {
    (g.id, g.title@, g.objective@, g.status, g.current_plan_revision, g.created_at_ms, g.updated_at_ms)
}

fn copy_goal(g: &AgentGoalRecord) -> (r: AgentGoalRecord)
    ensures
        goal_view(r) == goal_view(*g),
{
    AgentGoalRecord {
        id: g.id,
        title: g.title.clone(),
        objective: g.objective.clone(),
        status: g.status,
        current_plan_revision: g.current_plan_revision,
        created_at_ms: g.created_at_ms,
        updated_at_ms: g.updated_at_ms,
    }
}

fn same_goal(a: &AgentGoalRecord, b: &AgentGoalRecord) -> (r: bool)
    ensures
        r == (goal_view(*a) == goal_view(*b)),
{
    a.id == b.id && str_equal(a.title.as_str(), b.title.as_str()) && str_equal(
        a.objective.as_str(),
        b.objective.as_str(),
    ) && a.status == b.status && a.current_plan_revision == b.current_plan_revision
        && a.created_at_ms == b.created_at_ms && a.updated_at_ms == b.updated_at_ms
}

/// The Goal adopts exactly this plan revision.
pub open spec fn binds(goal: AgentGoalRecord, plan: AgentPlanRecord) -> bool {
    goal.id == plan.goal_id && goal.current_plan_revision == plan.revision
}

/// Checks that the Goal adopts the plan (both are checked by the runtime).
///
/// # Errors
///
/// [`SqlitePersistenceError::InvalidAgentGoal`] unless [`binds`].
pub fn validate_binding(goal: &AgentGoalRecord, plan: &AgentPlanRecord) -> (r: Result<
    (),
    SqlitePersistenceError,
>)
    ensures
        binds(*goal, *plan) ==> r is Ok,
        !binds(*goal, *plan) ==> r == Err::<(), SqlitePersistenceError>(
            SqlitePersistenceError::InvalidAgentGoal,
        ),
{
    if goal.id != plan.goal_id || goal.current_plan_revision != plan.revision {
        return Err(SqlitePersistenceError::InvalidAgentGoal);
    }
    Ok(())
}

/// The Goal row's columns agree with its Goal.
pub open spec fn goal_metadata_ok(row: AgentGoalRow) -> bool {
    &&& row.status@ == goal_status_text(row.goal.status)
    &&& row.goal.current_plan_revision <= MAX_STORED
    &&& row.current_plan_revision as int == row.goal.current_plan_revision as int
    &&& row.goal.updated_at_ms <= MAX_STORED
    &&& row.updated_at_ms as int == row.goal.updated_at_ms as int
}

fn check_goal_metadata(row: &AgentGoalRow) -> (r: Result<(), SqlitePersistenceError>)
    ensures
        goal_metadata_ok(*row) ==> r is Ok,
        !goal_metadata_ok(*row) ==> r == Err::<(), SqlitePersistenceError>(
            SqlitePersistenceError::InvalidAgentGoal,
        ),
{
    let goal = &row.goal;
    let revision = to_i64(goal.current_plan_revision, SqlitePersistenceError::InvalidAgentGoal)?;
    let updated = to_i64(goal.updated_at_ms, SqlitePersistenceError::InvalidAgentGoal)?;
    if !str_equal(row.status.as_str(), goal_status_name(goal.status)) || row.current_plan_revision
        != revision || row.updated_at_ms != updated {
        return Err(SqlitePersistenceError::InvalidAgentGoal);
    }
    Ok(())
}

/// Some Goal row has the identifier.
pub open spec fn has_goal(goals: Seq<AgentGoalRow>, goal_id: u128) -> bool {
    exists|i: int| 0 <= i < goals.len() && goals[i].goal_id == goal_id
}

/// Row `i` is the first Goal row with the identifier.
pub open spec fn first_goal(goals: Seq<AgentGoalRow>, goal_id: u128, i: int) -> bool {
    &&& 0 <= i < goals.len()
    &&& goals[i].goal_id == goal_id
    &&& forall|j: int| 0 <= j < i ==> #[trigger] goals[j].goal_id != goal_id
}

fn find_goal(goals: &Vec<AgentGoalRow>, goal_id: u128) -> (r: Option<usize>)
    ensures
        match r {
            Some(i) => first_goal(goals@, goal_id, i as int),
            None => !has_goal(goals@, goal_id),
        },
{
    let mut i: usize = 0;
    while i < goals.len()
        invariant
            0 <= i <= goals@.len(),
            forall|j: int| 0 <= j < i ==> #[trigger] goals@[j].goal_id != goal_id,
        decreases goals@.len() - i,
    {
        if goals[i].goal_id == goal_id {
            return Some(i);
        }
        i = i + 1;
    }
    None
}

/// Some plan row has the Goal and stored revision.
pub open spec fn has_plan(plans: Seq<AgentPlanRow>, goal_id: u128, revision: int) -> bool {
    exists|i: int| 0 <= i < plans.len() && plans[i].goal_id == goal_id && plans[i].revision == revision
}

/// Row `i` is the first plan row with the Goal and stored revision.
pub open spec fn first_plan(plans: Seq<AgentPlanRow>, goal_id: u128, revision: int, i: int) -> bool {
    &&& 0 <= i < plans.len()
    &&& plans[i].goal_id == goal_id
    &&& plans[i].revision == revision
    &&& forall|j: int|
        0 <= j < i ==> !(#[trigger] plans[j].goal_id == goal_id && plans[j].revision == revision)
}

fn find_plan(plans: &Vec<AgentPlanRow>, goal_id: u128, revision: i64) -> (r: Option<usize>)
    ensures
        match r {
            Some(i) => first_plan(plans@, goal_id, revision as int, i as int),
            None => !has_plan(plans@, goal_id, revision as int),
        },
{
    let mut i: usize = 0;
    while i < plans.len()
        invariant
            0 <= i <= plans@.len(),
            forall|j: int|
                0 <= j < i ==> !(#[trigger] plans@[j].goal_id == goal_id && plans@[j].revision
                    == revision),
        decreases plans@.len() - i,
    {
        if plans[i].goal_id == goal_id && plans[i].revision == revision {
            return Some(i);
        }
        i = i + 1;
    }
    None
}

/// What loading the Goal of row `g` fails with, before its plan is read.
pub open spec fn goal_row_error(row: AgentGoalRow) -> Option<SqlitePersistenceError> {
    if row.schema_version != 1 {
        Some(SqlitePersistenceError::UnsupportedAgentGoalVersion(row.schema_version))
    } else if !goal_metadata_ok(row) {
        Some(SqlitePersistenceError::InvalidAgentGoal)
    } else {
        None
    }
}

/// The index of the first Goal row with the identifier.
pub open spec fn goal_index(goals: Seq<AgentGoalRow>, goal_id: u128) -> int {
    choose|g: int| first_goal(goals, goal_id, g)
}

/// The index of the first plan row with the Goal and stored revision.
pub open spec fn plan_index(plans: Seq<AgentPlanRow>, goal_id: u128, revision: int) -> int {
    choose|p: int| first_plan(plans, goal_id, revision, p)
}

proof fn lemma_goal_index(goals: Seq<AgentGoalRow>, goal_id: u128, g: int)
    requires
        first_goal(goals, goal_id, g),
    ensures
        goal_index(goals, goal_id) == g,
{
    let c = goal_index(goals, goal_id);
    assert(first_goal(goals, goal_id, c));
    if c < g {
        assert(goals[c].goal_id != goal_id);
    } else if g < c {
        assert(goals[g].goal_id != goal_id);
    }
}

proof fn lemma_first_goal_exists(goals: Seq<AgentGoalRow>, goal_id: u128, i: int)
    requires
        0 <= i < goals.len(),
        goals[i].goal_id == goal_id,
    ensures
        first_goal(goals, goal_id, goal_index(goals, goal_id)),
    decreases i,
{
    if exists|j: int| 0 <= j < i && goals[j].goal_id == goal_id {
        let j = choose|j: int| 0 <= j < i && goals[j].goal_id == goal_id;
        lemma_first_goal_exists(goals, goal_id, j);
    } else {
        assert(first_goal(goals, goal_id, i));
    }
}

proof fn lemma_plan_index(plans: Seq<AgentPlanRow>, goal_id: u128, revision: int, p: int)
    requires
        first_plan(plans, goal_id, revision, p),
    ensures
        plan_index(plans, goal_id, revision) == p,
{
    let c = plan_index(plans, goal_id, revision);
    assert(first_plan(plans, goal_id, revision, c));
    if c < p {
        assert(!(plans[c].goal_id == goal_id && plans[c].revision == revision));
    } else if p < c {
        assert(!(plans[p].goal_id == goal_id && plans[p].revision == revision));
    }
}

/// The stored Goal with the identifier.
pub open spec fn stored_goal(goals: Seq<AgentGoalRow>, goal_id: u128) -> AgentGoalRow {
    goals[goal_index(goals, goal_id)]
}

/// The stored plan that the Goal with the identifier adopts.
pub open spec fn stored_plan(
    goals: Seq<AgentGoalRow>,
    plans: Seq<AgentPlanRow>,
    goal_id: u128,
) -> AgentPlanRow {
    plans[plan_index(plans, goal_id, stored_goal(goals, goal_id).current_plan_revision as int)]
}

/// What loading a stored Goal with its adopted plan fails with, if anything.
pub open spec fn load_error(
    goals: Seq<AgentGoalRow>,
    plans: Seq<AgentPlanRow>,
    goal_id: u128,
) -> Option<SqlitePersistenceError> {
    let row = stored_goal(goals, goal_id);
    match goal_row_error(row) {
        Some(e) => Some(e),
        None => if !has_plan(plans, goal_id, row.current_plan_revision as int) {
            Some(SqlitePersistenceError::InvalidAgentGoal)
        } else if stored_plan(goals, plans, goal_id).schema_version != 1 {
            Some(
                SqlitePersistenceError::UnsupportedAgentGoalVersion(
                    stored_plan(goals, plans, goal_id).schema_version,
                ),
            )
        } else if !binds(row.goal, stored_plan(goals, plans, goal_id).plan) {
            Some(SqlitePersistenceError::InvalidAgentGoal)
        } else {
            None
        },
    }
}

/// `s` is the stored Goal with its adopted plan.
pub open spec fn is_stored_snapshot(
    s: AgentGoalSnapshot,
    goals: Seq<AgentGoalRow>,
    plans: Seq<AgentPlanRow>,
    goal_id: u128,
) -> bool {
    goal_view(s.goal) == goal_view(stored_goal(goals, goal_id).goal) && s.current_plan
        == stored_plan(goals, plans, goal_id).plan
}

/// Loads a Goal with the plan revision it adopts, checking both rows.
///
/// # Errors
///
/// [`SqlitePersistenceError::UnsupportedAgentGoalVersion`] for another payload
/// version of either row; [`SqlitePersistenceError::InvalidAgentGoal`] when
/// the Goal disagrees with its columns, or its plan revision is missing or
/// not the one it adopts.
pub fn load_snapshot(goals: &Vec<AgentGoalRow>, plans: &Vec<AgentPlanRow>, goal_id: u128) -> (r:
    Result<Option<AgentGoalSnapshot>, SqlitePersistenceError>)
    ensures
        !has_goal(goals@, goal_id) ==> r == Ok::<Option<AgentGoalSnapshot>, SqlitePersistenceError>(
            None,
        ),
        has_goal(goals@, goal_id) ==> match load_error(goals@, plans@, goal_id) {
            Some(e) => r == Err::<Option<AgentGoalSnapshot>, SqlitePersistenceError>(e),
            None => r matches Ok(Some(s)) && is_stored_snapshot(s, goals@, plans@, goal_id),
        },
{
    let g = match find_goal(goals, goal_id) {
        None => {
            return Ok(None);
        },
        Some(g) => g,
    };
    proof {
        lemma_goal_index(goals@, goal_id, g as int);
    }
    let row = &goals[g];
    ensure_version(row.schema_version)?;
    check_goal_metadata(row)?;
    let p = match find_plan(plans, goal_id, row.current_plan_revision) {
        None => {
            return Err(SqlitePersistenceError::InvalidAgentGoal);
        },
        Some(p) => p,
    };
    proof {
        lemma_plan_index(plans@, goal_id, row.current_plan_revision as int, p as int);
    }
    let plan = plans[p];
    ensure_version(plan.schema_version)?;
    validate_binding(&row.goal, &plan.plan)?;
    Ok(Some(AgentGoalSnapshot { goal: copy_goal(&row.goal), current_plan: plan.plan }))
}

/// What loading plan revision `revision` of the Goal fails with, for its row.
pub open spec fn plan_row_error(row: AgentPlanRow, goal_id: u128, revision: u64) -> Option<
    SqlitePersistenceError,
> {
    if row.schema_version != 1 {
        Some(SqlitePersistenceError::UnsupportedAgentGoalVersion(row.schema_version))
    } else if row.plan.goal_id != goal_id || row.plan.revision != revision
        || row.plan.created_at_ms > MAX_STORED || row.plan.created_at_ms as int
        != row.created_at_ms as int {
        Some(SqlitePersistenceError::InvalidAgentGoal)
    } else {
        None
    }
}

/// Loads one immutable plan revision of a Goal.
///
/// # Errors
///
/// [`SqlitePersistenceError::InvalidAgentGoal`] for revision 0 or one beyond
/// storage range, and for a plan that disagrees with its columns;
/// [`SqlitePersistenceError::UnsupportedAgentGoalVersion`] for another payload
/// version.
pub fn get_plan(plans: &Vec<AgentPlanRow>, goal_id: u128, revision: u64) -> (r: Result<
    Option<AgentPlanRecord>,
    SqlitePersistenceError,
>)
    ensures
        revision == 0 || revision > MAX_STORED ==> r == Err::<
            Option<AgentPlanRecord>,
            SqlitePersistenceError,
        >(SqlitePersistenceError::InvalidAgentGoal),
        1 <= revision <= MAX_STORED && !has_plan(plans@, goal_id, revision as int) ==> r == Ok::<
            Option<AgentPlanRecord>,
            SqlitePersistenceError,
        >(None),
        1 <= revision <= MAX_STORED && has_plan(plans@, goal_id, revision as int) ==> exists|p: int|
            #[trigger] first_plan(plans@, goal_id, revision as int, p) && match plan_row_error(
                plans@[p],
                goal_id,
                revision,
            ) {
                Some(e) => r == Err::<Option<AgentPlanRecord>, SqlitePersistenceError>(e),
                None => r == Ok::<Option<AgentPlanRecord>, SqlitePersistenceError>(
                    Some(plans@[p].plan),
                ),
            },
{
    if revision == 0 {
        return Err(SqlitePersistenceError::InvalidAgentGoal);
    }
    let stored_revision = to_i64(revision, SqlitePersistenceError::InvalidAgentGoal)?;
    let p = match find_plan(plans, goal_id, stored_revision) {
        None => {
            return Ok(None);
        },
        Some(p) => p,
    };
    let row = plans[p];
    ensure_version(row.schema_version)?;
    let plan = row.plan;
    if plan.goal_id != goal_id || plan.revision != revision {
        return Err(SqlitePersistenceError::InvalidAgentGoal);
    }
    let created = to_i64(plan.created_at_ms, SqlitePersistenceError::InvalidAgentGoal)?;
    if created != row.created_at_ms {
        return Err(SqlitePersistenceError::InvalidAgentGoal);
    }
    proof {
        assert(first_plan(plans@, goal_id, revision as int, p as int));
    }
    Ok(Some(plan))
}

/// The Goal row that stores `goal`.
pub open spec fn goal_row_of(row: AgentGoalRow, goal: AgentGoalRecord) -> bool {
    &&& row.goal_id == goal.id
    &&& row.status@ == goal_status_text(goal.status)
    &&& row.current_plan_revision as int == goal.current_plan_revision as int
    &&& row.created_at_ms as int == goal.created_at_ms as int
    &&& row.updated_at_ms as int == goal.updated_at_ms as int
    &&& row.schema_version == 1
    &&& goal_view(row.goal) == goal_view(goal)
}

/// The plan row that stores `plan`.
pub open spec fn plan_row_of(plan: AgentPlanRecord) -> AgentPlanRow {
    AgentPlanRow {
        goal_id: plan.goal_id,
        revision: plan.revision as i64,
        created_at_ms: plan.created_at_ms as i64,
        schema_version: 1,
        plan,
    }
}

fn goal_row(goal: &AgentGoalRecord) -> (r: AgentGoalRow)
    requires
        goal.current_plan_revision <= MAX_STORED,
        goal.created_at_ms <= MAX_STORED,
        goal.updated_at_ms <= MAX_STORED,
    ensures
        goal_row_of(r, *goal),
{
    AgentGoalRow {
        goal_id: goal.id,
        status: goal_status_name(goal.status).to_owned(),
        current_plan_revision: goal.current_plan_revision as i64,
        created_at_ms: goal.created_at_ms as i64,
        updated_at_ms: goal.updated_at_ms as i64,
        schema_version: 1,
        goal: copy_goal(goal),
    }
}

/// Creates a Goal together with its first plan revision.
///
/// # Errors
///
/// [`SqlitePersistenceError::InvalidAgentGoal`] when the Goal does not adopt
/// the plan, the plan is not revision 1, or a time is beyond storage range; a
/// storage error for an updated time before the created time, a Goal already
/// stored, or a plan already stored. Both tables are then unchanged.
pub fn create_goal(
    goals: &mut Vec<AgentGoalRow>,
    plans: &mut Vec<AgentPlanRow>,
    goal: &AgentGoalRecord,
    plan: &AgentPlanRecord,
) -> (r: Result<(), SqlitePersistenceError>)
    ensures
        !binds(*goal, *plan) || plan.revision != 1 || goal.created_at_ms > MAX_STORED
            || goal.updated_at_ms > MAX_STORED ==> r == Err::<(), SqlitePersistenceError>(
            SqlitePersistenceError::InvalidAgentGoal,
        ),
        binds(*goal, *plan) && plan.revision == 1 && goal.created_at_ms <= MAX_STORED
            && goal.updated_at_ms <= MAX_STORED ==> if goal.updated_at_ms < goal.created_at_ms {
            r matches Err(SqlitePersistenceError::Sqlite(m)) && m@ == GOAL_TIME_CHECK@
        } else if has_goal(old(goals)@, goal.id) {
            r matches Err(SqlitePersistenceError::Sqlite(m)) && m@ == DUPLICATE_GOAL@
        } else if plan.created_at_ms > MAX_STORED {
            r == Err::<(), SqlitePersistenceError>(SqlitePersistenceError::InvalidAgentGoal)
        } else if has_plan(old(plans)@, plan.goal_id, 1) {
            r matches Err(SqlitePersistenceError::Sqlite(m)) && m@ == DUPLICATE_PLAN@
        } else {
            r is Ok
        },
        r is Err ==> final(goals)@ == old(goals)@ && final(plans)@ == old(plans)@,
        r is Ok ==> final(goals)@.len() == old(goals)@.len() + 1 && final(goals)@.drop_last() == old(
            goals,
        )@ && goal_row_of(final(goals)@.last(), *goal) && final(plans)@ == old(plans)@.push(
            plan_row_of(*plan),
        ),
        distinct_goals(old(goals)@) ==> distinct_goals(final(goals)@),
{
    validate_binding(goal, plan)?;
    if plan.revision != 1 {
        return Err(SqlitePersistenceError::InvalidAgentGoal);
    }
    to_i64(goal.current_plan_revision, SqlitePersistenceError::InvalidAgentGoal)?;
    to_i64(goal.created_at_ms, SqlitePersistenceError::InvalidAgentGoal)?;
    to_i64(goal.updated_at_ms, SqlitePersistenceError::InvalidAgentGoal)?;
    if goal.updated_at_ms < goal.created_at_ms {
        return Err(SqlitePersistenceError::Sqlite(GOAL_TIME_CHECK.to_owned()));
    }
    if find_goal(goals, goal.id).is_some() {
        return Err(SqlitePersistenceError::Sqlite(DUPLICATE_GOAL.to_owned()));
    }
    to_i64(plan.created_at_ms, SqlitePersistenceError::InvalidAgentGoal)?;
    if find_plan(plans, plan.goal_id, 1).is_some() {
        return Err(SqlitePersistenceError::Sqlite(DUPLICATE_PLAN.to_owned()));
    }
    let ghost o = goals@;
    goals.push(goal_row(goal));
    plans.push(
        AgentPlanRow {
            goal_id: plan.goal_id,
            revision: plan.revision as i64,
            created_at_ms: plan.created_at_ms as i64,
            schema_version: 1,
            plan: *plan,
        },
    );
    proof {
        assert(goals@.drop_last() =~= o);
    }
    Ok(())
}

/// No two Goal rows carry one identifier (the table's primary key).
pub open spec fn distinct_goals(goals: Seq<AgentGoalRow>) -> bool {
    forall|i: int, j: int|
        0 <= i < goals.len() && 0 <= j < goals.len() && i != j ==> #[trigger] goals[i].goal_id
            != #[trigger] goals[j].goal_id
}

/// The next plan revision after `revision`.
pub open spec fn next_revision(revision: u64) -> u64 {
    if revision < u64::MAX {
        (revision + 1) as u64
    } else {
        u64::MAX
    }
}

/// `r` is what revising the stored Goal `current` answers once it loaded.
pub open spec fn revise_answer(
    r: Result<(), SqlitePersistenceError>,
    current: AgentGoalRecord,
    plans: Seq<AgentPlanRow>,
    goal: AgentGoalRecord,
    plan: AgentPlanRecord,
) -> bool {
    if goal.current_plan_revision != next_revision(current.current_plan_revision)
        || goal.created_at_ms != current.created_at_ms || goal.title@ != current.title@
        || goal.objective@ != current.objective@ || goal.status != current.status {
        r == Err::<(), SqlitePersistenceError>(SqlitePersistenceError::AgentGoalConflict)
    } else if plan.revision > MAX_STORED || plan.created_at_ms > MAX_STORED {
        r == Err::<(), SqlitePersistenceError>(SqlitePersistenceError::InvalidAgentGoal)
    } else if has_plan(plans, plan.goal_id, plan.revision as int) {
        r matches Err(SqlitePersistenceError::Sqlite(m)) && m@ == DUPLICATE_PLAN@
    } else if goal.updated_at_ms > MAX_STORED {
        r == Err::<(), SqlitePersistenceError>(SqlitePersistenceError::InvalidAgentGoal)
    } else if goal.updated_at_ms < goal.created_at_ms {
        r matches Err(SqlitePersistenceError::Sqlite(m)) && m@ == GOAL_TIME_CHECK@
    } else {
        r is Ok
    }
}

/// The Goal row after the Goal advanced to a new plan revision: the status
/// and creation columns stay.
pub open spec fn revised_row(old_row: AgentGoalRow, new_row: AgentGoalRow, goal: AgentGoalRecord) -> bool {
    &&& new_row.goal_id == old_row.goal_id
    &&& new_row.status@ == old_row.status@
    &&& new_row.created_at_ms == old_row.created_at_ms
    &&& new_row.schema_version == old_row.schema_version
    &&& new_row.current_plan_revision as int == goal.current_plan_revision as int
    &&& new_row.updated_at_ms as int == goal.updated_at_ms as int
    &&& goal_view(new_row.goal) == goal_view(goal)
}

/// Appends a plan revision and advances the Goal to it.
///
/// # Errors
///
/// [`SqlitePersistenceError::InvalidAgentGoal`] when the Goal does not adopt
/// the plan; [`SqlitePersistenceError::AgentGoalNotFound`] for an unknown
/// Goal; the errors of [`load_snapshot`]; then those of [`revise_answer`].
/// Both tables are then unchanged.
pub fn revise_goal(
    goals: &mut Vec<AgentGoalRow>,
    plans: &mut Vec<AgentPlanRow>,
    goal: &AgentGoalRecord,
    plan: &AgentPlanRecord,
) -> (r: Result<(), SqlitePersistenceError>)
    ensures
        !binds(*goal, *plan) ==> r == Err::<(), SqlitePersistenceError>(
            SqlitePersistenceError::InvalidAgentGoal,
        ),
        binds(*goal, *plan) && !has_goal(old(goals)@, goal.id) ==> r == Err::<
            (),
            SqlitePersistenceError,
        >(SqlitePersistenceError::AgentGoalNotFound),
        binds(*goal, *plan) && has_goal(old(goals)@, goal.id) ==> match load_error(
            old(goals)@,
            old(plans)@,
            goal.id,
        ) {
            Some(e) => r == Err::<(), SqlitePersistenceError>(e),
            None => revise_answer(r, stored_goal(old(goals)@, goal.id).goal, old(plans)@, *goal, *plan),
        },
        r is Err ==> final(goals)@ == old(goals)@ && final(plans)@ == old(plans)@,
        r is Ok ==> has_goal(old(goals)@, goal.id) && final(goals)@.len() == old(goals)@.len()
            && (forall|j: int|
            0 <= j < old(goals)@.len() && j != goal_index(old(goals)@, goal.id) ==> #[trigger] final(goals)@[j]
                == old(goals)@[j]) && revised_row(
            stored_goal(old(goals)@, goal.id),
            final(goals)@[goal_index(old(goals)@, goal.id)],
            *goal,
        ) && final(plans)@ == old(plans)@.push(plan_row_of(*plan)),
        distinct_goals(old(goals)@) ==> distinct_goals(final(goals)@),
{
    validate_binding(goal, plan)?;
    let current = match load_snapshot(goals, plans, goal.id) {
        Err(e) => {
            return Err(e);
        },
        Ok(None) => {
            return Err(SqlitePersistenceError::AgentGoalNotFound);
        },
        Ok(Some(s)) => s,
    };
    let next = if current.goal.current_plan_revision < u64::MAX {
        current.goal.current_plan_revision + 1
    } else {
        u64::MAX
    };
    if goal.current_plan_revision != next || goal.created_at_ms != current.goal.created_at_ms
        || !str_equal(goal.title.as_str(), current.goal.title.as_str()) || !str_equal(
        goal.objective.as_str(),
        current.goal.objective.as_str(),
    ) || goal.status != current.goal.status {
        return Err(SqlitePersistenceError::AgentGoalConflict);
    }
    let revision = to_i64(plan.revision, SqlitePersistenceError::InvalidAgentGoal)?;
    let created = to_i64(plan.created_at_ms, SqlitePersistenceError::InvalidAgentGoal)?;
    if find_plan(plans, plan.goal_id, revision).is_some() {
        return Err(SqlitePersistenceError::Sqlite(DUPLICATE_PLAN.to_owned()));
    }
    let updated = to_i64(goal.updated_at_ms, SqlitePersistenceError::InvalidAgentGoal)?;
    if goal.updated_at_ms < goal.created_at_ms {
        return Err(SqlitePersistenceError::Sqlite(GOAL_TIME_CHECK.to_owned()));
    }
    let g = match find_goal(goals, goal.id) {
        Some(g) => g,
        None => {
            return Err(SqlitePersistenceError::AgentGoalNotFound);
        },
    };
    proof {
        lemma_goal_index(goals@, goal.id, g as int);
    }
    let ghost o = goals@;
    let row = AgentGoalRow {
        goal_id: goals[g].goal_id,
        status: goals[g].status.clone(),
        current_plan_revision: revision,
        created_at_ms: goals[g].created_at_ms,
        updated_at_ms: updated,
        schema_version: goals[g].schema_version,
        goal: copy_goal(goal),
    };
    goals.set(g, row);
    plans.push(
        AgentPlanRow {
            goal_id: plan.goal_id,
            revision,
            created_at_ms: created,
            schema_version: 1,
            plan: *plan,
        },
    );
    proof {
        if distinct_goals(o) {
            assert forall|i: int, j: int|
                0 <= i < goals@.len() && 0 <= j < goals@.len() && i != j implies #[trigger] goals@[i].goal_id
                != #[trigger] goals@[j].goal_id by {
                assert(o[i].goal_id != o[j].goal_id);
            }
        }
    }
    Ok(())
}

/// `r` is what moving the stored Goal `current` answers once it loaded, where
/// `transitioned` is what the runtime's lifecycle makes of `current` for the
/// requested status and time (`None` when it refuses).
pub open spec fn transition_answer(
    r: Result<(), SqlitePersistenceError>,
    current: AgentGoalRecord,
    goal: AgentGoalRecord,
    transitioned: Option<AgentGoalRecord>,
) -> bool {
    if goal.current_plan_revision != current.current_plan_revision || goal.created_at_ms
        != current.created_at_ms || goal.title@ != current.title@ || goal.objective@
        != current.objective@ {
        r == Err::<(), SqlitePersistenceError>(SqlitePersistenceError::AgentGoalConflict)
    } else if !(transitioned matches Some(t) && goal_view(t) == goal_view(goal)) {
        r == Err::<(), SqlitePersistenceError>(SqlitePersistenceError::InvalidAgentGoal)
    } else if goal.updated_at_ms > MAX_STORED {
        r == Err::<(), SqlitePersistenceError>(SqlitePersistenceError::InvalidAgentGoal)
    } else if goal.updated_at_ms < goal.created_at_ms {
        r matches Err(SqlitePersistenceError::Sqlite(m)) && m@ == GOAL_TIME_CHECK@
    } else {
        r is Ok
    }
}

/// The Goal row after a lifecycle transition: the plan and creation columns stay.
pub open spec fn transitioned_row(old_row: AgentGoalRow, new_row: AgentGoalRow, goal: AgentGoalRecord) -> bool {
    &&& new_row.goal_id == old_row.goal_id
    &&& new_row.status@ == goal_status_text(goal.status)
    &&& new_row.current_plan_revision == old_row.current_plan_revision
    &&& new_row.created_at_ms == old_row.created_at_ms
    &&& new_row.schema_version == old_row.schema_version
    &&& new_row.updated_at_ms as int == goal.updated_at_ms as int
    &&& goal_view(new_row.goal) == goal_view(goal)
}

/// Stores a lifecycle transition of a Goal, once it is checked against the
/// stored Goal and what the runtime makes of it (`transitioned`).
///
/// # Errors
///
/// [`SqlitePersistenceError::AgentGoalNotFound`] for an unknown Goal; the
/// errors of [`load_snapshot`]; then those of [`transition_answer`]. The
/// Goal table is then unchanged.
pub fn transition_goal(
    goals: &mut Vec<AgentGoalRow>,
    plans: &Vec<AgentPlanRow>,
    goal: &AgentGoalRecord,
    transitioned: &Option<AgentGoalRecord>,
) -> (r: Result<(), SqlitePersistenceError>)
    ensures
        !has_goal(old(goals)@, goal.id) ==> r == Err::<(), SqlitePersistenceError>(
            SqlitePersistenceError::AgentGoalNotFound,
        ),
        has_goal(old(goals)@, goal.id) ==> match load_error(old(goals)@, plans@, goal.id) {
            Some(e) => r == Err::<(), SqlitePersistenceError>(e),
            None => transition_answer(r, stored_goal(old(goals)@, goal.id).goal, *goal, *transitioned),
        },
        r is Err ==> final(goals)@ == old(goals)@,
        r is Ok ==> has_goal(old(goals)@, goal.id) && final(goals)@.len() == old(goals)@.len()
            && (forall|j: int|
            0 <= j < old(goals)@.len() && j != goal_index(old(goals)@, goal.id) ==> #[trigger] final(goals)@[j]
                == old(goals)@[j]) && transitioned_row(
            stored_goal(old(goals)@, goal.id),
            final(goals)@[goal_index(old(goals)@, goal.id)],
            *goal,
        ),
        distinct_goals(old(goals)@) ==> distinct_goals(final(goals)@),
{
    let current = match load_snapshot(goals, plans, goal.id) {
        Err(e) => {
            return Err(e);
        },
        Ok(None) => {
            return Err(SqlitePersistenceError::AgentGoalNotFound);
        },
        Ok(Some(s)) => s,
    };
    if goal.current_plan_revision != current.goal.current_plan_revision || goal.created_at_ms
        != current.goal.created_at_ms || !str_equal(goal.title.as_str(), current.goal.title.as_str())
        || !str_equal(goal.objective.as_str(), current.goal.objective.as_str()) {
        return Err(SqlitePersistenceError::AgentGoalConflict);
    }
    let expected_matches = match transitioned {
        Some(t) => same_goal(t, goal),
        None => false,
    };
    if !expected_matches {
        return Err(SqlitePersistenceError::InvalidAgentGoal);
    }
    let updated = to_i64(goal.updated_at_ms, SqlitePersistenceError::InvalidAgentGoal)?;
    if goal.updated_at_ms < goal.created_at_ms {
        return Err(SqlitePersistenceError::Sqlite(GOAL_TIME_CHECK.to_owned()));
    }
    let g = match find_goal(goals, goal.id) {
        Some(g) => g,
        None => {
            return Err(SqlitePersistenceError::AgentGoalNotFound);
        },
    };
    proof {
        lemma_goal_index(goals@, goal.id, g as int);
    }
    let ghost o = goals@;
    let row = AgentGoalRow {
        goal_id: goals[g].goal_id,
        status: goal_status_name(goal.status).to_owned(),
        current_plan_revision: goals[g].current_plan_revision,
        created_at_ms: goals[g].created_at_ms,
        updated_at_ms: updated,
        schema_version: goals[g].schema_version,
        goal: copy_goal(goal),
    };
    goals.set(g, row);
    proof {
        if distinct_goals(o) {
            assert forall|i: int, j: int|
                0 <= i < goals@.len() && 0 <= j < goals@.len() && i != j implies #[trigger] goals@[i].goal_id
                != #[trigger] goals@[j].goal_id by {
                assert(o[i].goal_id != o[j].goal_id);
            }
        }
    }
    Ok(())
}

/// The listing keys of the Goal rows: last update, then Goal identifier.
pub open spec fn goal_keys(goals: Seq<AgentGoalRow>) -> Seq<ListingKey> {
    goals.map_values(|g: AgentGoalRow| (g.updated_at_ms, g.goal_id))
}

fn select_goal_page(goals: &Vec<AgentGoalRow>, limit: usize) -> (r: Vec<usize>)
    ensures
        r@.len() <= limit,
        forall|k: int| 0 <= k < r@.len() ==> #[trigger] r@[k] < goals@.len(),
        distinct_goals(goals@) ==> paging::newest_page(goal_keys(goals@), limit as nat, r@),
{
    let mut keys: Vec<ListingKey> = Vec::new();
    let mut i: usize = 0;
    while i < goals.len()
        invariant
            0 <= i <= goals@.len(),
            keys@ == goal_keys(goals@.take(i as int)),
        decreases goals@.len() - i,
    {
        keys.push((goals[i].updated_at_ms, goals[i].goal_id));
        proof {
            assert(goals@.take(i + 1) == goals@.take(i as int).push(goals@[i as int]));
        }
        i = i + 1;
    }
    proof {
        assert(goals@.take(goals@.len() as int) == goals@);
        if distinct_goals(goals@) {
            assert forall|a: int, b: int|
                0 <= a < keys@.len() && 0 <= b < keys@.len() && a != b implies #[trigger] keys@[a].1
                != #[trigger] keys@[b].1 by {
                assert(goals@[a].goal_id != goals@[b].goal_id);
            }
        }
    }
    paging::select_newest(&keys, limit)
}

/// Lists Goals newest first: latest update first, and the larger Goal
/// identifier first among equal updates.
///
/// # Errors
///
/// [`SqlitePersistenceError::InvalidAgentGoal`] for a page size outside
/// `1..=200`, and the error of the first listed row whose Goal fails to load.
pub fn list_goals(goals: &Vec<AgentGoalRow>, limit: usize) -> (r: Result<
    Vec<AgentGoalRecord>,
    SqlitePersistenceError,
>)
    ensures
        !(1 <= limit <= MAX_GOAL_PAGE) ==> r == Err::<Vec<AgentGoalRecord>, SqlitePersistenceError>(
            SqlitePersistenceError::InvalidAgentGoal,
        ),
        1 <= limit <= MAX_GOAL_PAGE && distinct_goals(goals@) ==> exists|picked: Seq<usize>|
            paging::newest_page(goal_keys(goals@), limit as nat, picked) && match r {
                Ok(listed) => listed@.len() == picked.len() && (forall|k: int|
                    0 <= k < picked.len() ==> goal_row_error(goals@[#[trigger] picked[k] as int])
                        is None && goal_view(listed@[k]) == goal_view(goals@[picked[k] as int].goal)),
                Err(e) => exists|k: int|
                    0 <= k < picked.len() && goal_row_error(goals@[picked[k] as int]) == Some(e)
                        && forall|m: int|
                        0 <= m < k ==> goal_row_error(goals@[#[trigger] picked[m] as int]) is None,
            },
{
    if limit == 0 || limit > MAX_GOAL_PAGE {
        return Err(SqlitePersistenceError::InvalidAgentGoal);
    }
    let picked = select_goal_page(goals, limit);
    let mut listed: Vec<AgentGoalRecord> = Vec::new();
    let mut k: usize = 0;
    while k < picked.len()
        invariant
            1 <= limit <= MAX_GOAL_PAGE,
            distinct_goals(goals@) ==> paging::newest_page(goal_keys(goals@), limit as nat, picked@),
            0 <= k <= picked@.len(),
            listed@.len() == k,
            forall|m: int| 0 <= m < picked@.len() ==> #[trigger] picked@[m] < goals@.len(),
            forall|m: int|
                0 <= m < k ==> goal_row_error(goals@[#[trigger] picked@[m] as int]) is None
                    && goal_view(listed@[m]) == goal_view(goals@[picked@[m] as int].goal),
        decreases picked@.len() - k,
    {
        let row = &goals[picked[k]];
        let checked = match ensure_version(row.schema_version) {
            Err(e) => Err(e),
            Ok(()) => check_goal_metadata(row),
        };
        match checked {
            Ok(()) => {
                let ghost before = listed@;
                listed.push(copy_goal(&row.goal));
                proof {
                    assert forall|m: int| 0 <= m < k + 1 implies goal_row_error(
                        goals@[#[trigger] picked@[m] as int],
                    ) is None && goal_view(listed@[m]) == goal_view(goals@[picked@[m] as int].goal) by {
                        if m < k {
                            assert(listed@[m] == before[m]);
                        }
                    }
                }
            },
            Err(e) => {
                proof {
                    if distinct_goals(goals@) {
                        assert(paging::newest_page(goal_keys(goals@), limit as nat, picked@)
                            && exists|k2: int|
                            0 <= k2 < picked@.len() && goal_row_error(goals@[picked@[k2] as int])
                                == Some(e) && forall|m: int|
                                0 <= m < k2 ==> goal_row_error(goals@[#[trigger] picked@[m] as int])
                                    is None);
                    }
                }
                return Err(e);
            },
        }
        k = k + 1;
    }
    proof {
        if distinct_goals(goals@) {
            assert(paging::newest_page(goal_keys(goals@), limit as nat, picked@) && listed@.len()
                == picked@.len() && (forall|m: int|
                0 <= m < picked@.len() ==> goal_row_error(goals@[#[trigger] picked@[m] as int])
                    is None && goal_view(listed@[m]) == goal_view(goals@[picked@[m] as int].goal)));
        }
    }
    Ok(listed)
}

/// A revision that the store took is what the Goal then loads: the revised
/// Goal, adopting the new plan.
pub proof fn law_revised_goal_loads_its_new_plan(
    goals_before: Seq<AgentGoalRow>,
    plans_before: Seq<AgentPlanRow>,
    goals_after: Seq<AgentGoalRow>,
    plans_after: Seq<AgentPlanRow>,
    goal: AgentGoalRecord,
    plan: AgentPlanRecord,
)
    requires
        distinct_goals(goals_before),
        has_goal(goals_before, goal.id),
        load_error(goals_before, plans_before, goal.id) is None,
        binds(goal, plan),
        revise_answer(
            Ok::<(), SqlitePersistenceError>(()),
            stored_goal(goals_before, goal.id).goal,
            plans_before,
            goal,
            plan,
        ),
        goals_after.len() == goals_before.len(),
        forall|j: int|
            0 <= j < goals_before.len() && j != goal_index(goals_before, goal.id) ==> #[trigger] goals_after[j]
                == goals_before[j],
        revised_row(
            stored_goal(goals_before, goal.id),
            goals_after[goal_index(goals_before, goal.id)],
            goal,
        ),
        plans_after == plans_before.push(plan_row_of(plan)),
    ensures
        has_goal(goals_after, goal.id),
        load_error(goals_after, plans_after, goal.id) is None,
        goal_view(stored_goal(goals_after, goal.id).goal) == goal_view(goal),
        stored_plan(goals_after, plans_after, goal.id).plan == plan,
{
    let w = choose|i: int| 0 <= i < goals_before.len() && goals_before[i].goal_id == goal.id;
    lemma_first_goal_exists(goals_before, goal.id, w);
    let g = goal_index(goals_before, goal.id);
    assert(first_goal(goals_after, goal.id, g)) by {
        assert forall|j: int| 0 <= j < g implies #[trigger] goals_after[j].goal_id != goal.id by {
            assert(goals_after[j] == goals_before[j]);
        }
    }
    lemma_goal_index(goals_after, goal.id, g);
    let n = plans_before.len() as int;
    assert(plans_after[n] == plan_row_of(plan));
    assert(first_plan(plans_after, goal.id, plan.revision as int, n)) by {
        assert forall|j: int| 0 <= j < n implies !(#[trigger] plans_after[j].goal_id == goal.id
            && plans_after[j].revision == plan.revision as int) by {
            assert(plans_after[j] == plans_before[j]);
        }
    }
    lemma_plan_index(plans_after, goal.id, plan.revision as int, n);
}

} // verus!
