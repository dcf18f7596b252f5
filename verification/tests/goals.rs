use nimora_core::error::SqlitePersistenceError;
use nimora_core::goals::{
    create_goal, get_plan, goal_status_name, list_goals, load_snapshot, revise_goal,
    transition_goal, validate_binding, AgentGoalRecord, AgentGoalRow, AgentGoalStatus,
    AgentPlanRecord, AgentPlanRow, DUPLICATE_GOAL, DUPLICATE_PLAN, GOAL_TIME_CHECK, MAX_GOAL_PAGE,
};

const GOAL: u128 = 0x0190_0000_0000_7000_8000_0000_0000_00aa;

fn fixture(goal_id: u128, now_ms: u64) -> (AgentGoalRecord, AgentPlanRecord) {
    let plan = AgentPlanRecord { goal_id, revision: 1, created_at_ms: now_ms };
    let goal = AgentGoalRecord {
        id: goal_id,
        title: "Goal store".to_owned(),
        objective: "Persist Goal state".to_owned(),
        status: AgentGoalStatus::Active,
        current_plan_revision: 1,
        created_at_ms: now_ms,
        updated_at_ms: now_ms,
    };
    (goal, plan)
}

fn adopt(goal: &mut AgentGoalRecord, plan: &AgentPlanRecord, now_ms: u64) {
    goal.current_plan_revision = plan.revision;
    goal.updated_at_ms = now_ms;
}

#[test]
fn creates_revises_and_restores_goal_with_current_plan() {
    let mut goals: Vec<AgentGoalRow> = Vec::new();
    let mut plans: Vec<AgentPlanRow> = Vec::new();
    let (mut goal, plan) = fixture(GOAL, 1_000);
    create_goal(&mut goals, &mut plans, &goal, &plan).expect("create");
    let revised = AgentPlanRecord { goal_id: GOAL, revision: 2, created_at_ms: 1_100 };
    adopt(&mut goal, &revised, 1_100);
    revise_goal(&mut goals, &mut plans, &goal, &revised).expect("persist revision");
    let restored = load_snapshot(&goals, &plans, GOAL).expect("get").expect("Goal");
    assert_eq!(restored.goal, goal);
    assert_eq!(restored.current_plan, revised);
    assert_eq!(get_plan(&plans, GOAL, 1).expect("historical plan").expect("revision one"), plan);
    assert!(get_plan(&plans, GOAL, 3).expect("missing plan").is_none());
}

#[test]
fn completion_and_stale_revision_fail_closed() {
    let mut goals: Vec<AgentGoalRow> = Vec::new();
    let mut plans: Vec<AgentPlanRow> = Vec::new();
    let (mut goal, plan) = fixture(GOAL, 1_000);
    create_goal(&mut goals, &mut plans, &goal, &plan).expect("create");
    let mut premature = goal.clone();
    premature.status = AgentGoalStatus::Completed;
    premature.updated_at_ms = 1_100;
    assert_eq!(
        transition_goal(&mut goals, &plans, &premature, &None),
        Err(SqlitePersistenceError::InvalidAgentGoal)
    );
    let revised = AgentPlanRecord { goal_id: GOAL, revision: 2, created_at_ms: 1_100 };
    adopt(&mut goal, &revised, 1_100);
    revise_goal(&mut goals, &mut plans, &goal, &revised).expect("persist revision");
    let mut stale = goal.clone();
    stale.current_plan_revision = 1;
    assert!(matches!(
        revise_goal(&mut goals, &mut plans, &stale, &plan),
        Err(SqlitePersistenceError::AgentGoalConflict | SqlitePersistenceError::InvalidAgentGoal)
    ));
    goal.status = AgentGoalStatus::Completed;
    goal.updated_at_ms = 1_200;
    transition_goal(&mut goals, &plans, &goal, &Some(goal.clone())).expect("persist completion");
    assert_eq!(
        load_snapshot(&goals, &plans, GOAL).expect("get").expect("Goal").goal.status,
        AgentGoalStatus::Completed
    );
    assert_eq!(goals[0].status, "completed");
}

#[test]
fn create_binds_the_first_revision_once() {
    let mut goals: Vec<AgentGoalRow> = Vec::new();
    let mut plans: Vec<AgentPlanRow> = Vec::new();
    let (goal, plan) = fixture(GOAL, 1_000);
    let other = AgentPlanRecord { goal_id: GOAL + 1, ..plan };
    assert_eq!(validate_binding(&goal, &other), Err(SqlitePersistenceError::InvalidAgentGoal));
    assert_eq!(
        create_goal(&mut goals, &mut plans, &goal, &other),
        Err(SqlitePersistenceError::InvalidAgentGoal)
    );
    let mut second = goal.clone();
    second.current_plan_revision = 2;
    let second_plan = AgentPlanRecord { revision: 2, ..plan };
    assert_eq!(
        create_goal(&mut goals, &mut plans, &second, &second_plan),
        Err(SqlitePersistenceError::InvalidAgentGoal)
    );
    let mut backwards = goal.clone();
    backwards.updated_at_ms = 999;
    match create_goal(&mut goals, &mut plans, &backwards, &plan) {
        Err(SqlitePersistenceError::Sqlite(message)) => assert_eq!(message, GOAL_TIME_CHECK),
        other => panic!("unexpected {:?}", other),
    }
    create_goal(&mut goals, &mut plans, &goal, &plan).expect("create");
    match create_goal(&mut goals, &mut plans, &goal, &plan) {
        Err(SqlitePersistenceError::Sqlite(message)) => assert_eq!(message, DUPLICATE_GOAL),
        other => panic!("unexpected {:?}", other),
    }
    assert_eq!(goals.len(), 1);
    assert_eq!(plans.len(), 1);
    assert_eq!(goals[0].status, goal_status_name(AgentGoalStatus::Active));
}

#[test]
fn revise_rejects_unknown_goals_and_reused_plans() {
    let mut goals: Vec<AgentGoalRow> = Vec::new();
    let mut plans: Vec<AgentPlanRow> = Vec::new();
    let (mut goal, plan) = fixture(GOAL, 1_000);
    let revised = AgentPlanRecord { goal_id: GOAL, revision: 2, created_at_ms: 1_100 };
    adopt(&mut goal, &revised, 1_100);
    assert_eq!(
        revise_goal(&mut goals, &mut plans, &goal, &revised),
        Err(SqlitePersistenceError::AgentGoalNotFound)
    );
    let (first, _) = fixture(GOAL, 1_000);
    create_goal(&mut goals, &mut plans, &first, &plan).expect("create");
    plans.push(AgentPlanRow {
        goal_id: GOAL,
        revision: 2,
        created_at_ms: 1_050,
        schema_version: 1,
        plan: AgentPlanRecord { goal_id: GOAL, revision: 2, created_at_ms: 1_050 },
    });
    match revise_goal(&mut goals, &mut plans, &goal, &revised) {
        Err(SqlitePersistenceError::Sqlite(message)) => assert_eq!(message, DUPLICATE_PLAN),
        other => panic!("unexpected {:?}", other),
    }
    plans.pop();
    let mut renamed = goal.clone();
    renamed.title = "Other".to_owned();
    assert_eq!(
        revise_goal(&mut goals, &mut plans, &renamed, &revised),
        Err(SqlitePersistenceError::AgentGoalConflict)
    );
    assert_eq!(goals[0].current_plan_revision, 1);
}

#[test]
fn goals_list_newest_first_within_bounds() {
    let mut goals: Vec<AgentGoalRow> = Vec::new();
    let mut plans: Vec<AgentPlanRow> = Vec::new();
    for (id, at) in [(1_u128, 1_000_u64), (2, 3_000), (3, 2_000), (4, 3_000)] {
        let (goal, plan) = fixture(id, at);
        create_goal(&mut goals, &mut plans, &goal, &plan).expect("create");
    }
    assert_eq!(list_goals(&goals, 0), Err(SqlitePersistenceError::InvalidAgentGoal));
    assert_eq!(list_goals(&goals, MAX_GOAL_PAGE + 1), Err(SqlitePersistenceError::InvalidAgentGoal));
    let ids: Vec<u128> = list_goals(&goals, 3).expect("list").iter().map(|g| g.id).collect();
    assert_eq!(ids, vec![4, 2, 3]);
    assert_eq!(list_goals(&goals, MAX_GOAL_PAGE).expect("list").len(), 4);
    goals[1].schema_version = 2;
    assert_eq!(
        list_goals(&goals, 3),
        Err(SqlitePersistenceError::UnsupportedAgentGoalVersion(2))
    );
}

#[test]
fn stored_plans_are_checked_against_their_columns() {
    let mut goals: Vec<AgentGoalRow> = Vec::new();
    let mut plans: Vec<AgentPlanRow> = Vec::new();
    let (goal, plan) = fixture(GOAL, 1_000);
    create_goal(&mut goals, &mut plans, &goal, &plan).expect("create");
    assert_eq!(get_plan(&plans, GOAL, 0), Err(SqlitePersistenceError::InvalidAgentGoal));
    plans[0].created_at_ms = 5;
    assert_eq!(get_plan(&plans, GOAL, 1), Err(SqlitePersistenceError::InvalidAgentGoal));
    plans[0].schema_version = 9;
    assert_eq!(
        get_plan(&plans, GOAL, 1),
        Err(SqlitePersistenceError::UnsupportedAgentGoalVersion(9))
    );
    assert_eq!(
        load_snapshot(&goals, &plans, GOAL),
        Err(SqlitePersistenceError::UnsupportedAgentGoalVersion(9))
    );
    goals[0].status = "paused".to_owned();
    assert_eq!(load_snapshot(&goals, &plans, GOAL), Err(SqlitePersistenceError::InvalidAgentGoal));
    assert_eq!(load_snapshot(&goals, &plans, GOAL + 1), Ok(None));
}
