use daily_mission::DailyMission;
use daily_mission::DailyMissionId;
use daily_mission::MissionStore;
use daily_mission::UserId;

fn mission(user: &str, id: &str, complete: bool) -> DailyMission {
    DailyMission {
        user_id: UserId(user.to_string()),
        mission_id: DailyMissionId(id.to_string()),
        title: format!("title_{}", id),
        description: None,
        is_complete: complete,
    }
}

fn store_contents(store: &MissionStore) -> Vec<DailyMission> {
    let mut out = Vec::new();
    let mut i: usize = 0;
    while i < store.len() {
        out.push(store.get(i).clone());
        i += 1;
    }
    out
}

fn snapshot(names: &[&str]) -> Vec<UserId> {
    names.iter().map(|n| UserId(n.to_string())).collect()
}

#[test]
fn test_reset_isolation_one_failure() {
    let mut store = MissionStore::new();
    store.add(mission("alice", "a1", true));
    store.add(mission("bob", "b1", true));
    store.add(mission("bob", "b2", false));
    store.add(mission("carol", "c1", true));

    let users = snapshot(&["alice", "bob", "carol"]);
    let denied = snapshot(&["bob"]);
    let report = store.run_cycle(&users, &denied);

    let after = store_contents(&store);
    // Everyone but the denied user is fully reset.
    assert!(!after[0].is_complete);
    assert!(!after[3].is_complete);
    // The denied user's rows are exactly as they were.
    assert!(after[1].is_complete);
    assert!(!after[2].is_complete);
    // The cycle reports exactly one failure.
    assert_eq!(report.failed.len(), 1);
    assert_eq!(report.failed[0].0, "bob");
    assert_eq!(report.succeeded.len(), 2);
}

#[test]
fn test_reset_completeness() {
    let mut store = MissionStore::new();
    store.add(mission("alice", "a1", true));
    store.add(mission("alice", "a2", true));
    store.add(mission("bob", "b1", true));

    let users = snapshot(&["alice", "bob"]);
    let report = store.run_cycle(&users, &Vec::new());

    for m in store_contents(&store) {
        assert!(!m.is_complete);
    }
    assert_eq!(report.failed.len(), 0);
    assert_eq!(report.succeeded.len(), 2);
}

#[test]
fn test_reset_leaves_users_outside_snapshot_alone() {
    let mut store = MissionStore::new();
    store.add(mission("alice", "a1", true));
    store.add(mission("late_joiner", "l1", true));

    let users = snapshot(&["alice"]);
    store.run_cycle(&users, &Vec::new());

    let after = store_contents(&store);
    assert!(!after[0].is_complete);
    assert!(after[1].is_complete);
}

#[test]
fn test_reset_scenario_three_users_idempotent() {
    let mut store = MissionStore::new();
    // One user with everything already incomplete.
    store.add(mission("u1", "m1", false));
    store.add(mission("u1", "m2", false));
    // One user with everything complete.
    store.add(mission("u2", "m3", true));
    store.add(mission("u2", "m4", true));
    // One user with a mix.
    store.add(mission("u3", "m5", true));
    store.add(mission("u3", "m6", false));

    let users = snapshot(&["u1", "u2", "u3"]);
    store.run_cycle(&users, &Vec::new());

    let after_once = store_contents(&store);
    let complete_count = after_once.iter().filter(|m| m.is_complete).count();
    assert_eq!(complete_count, 0);

    // Running the reset a second time changes nothing.
    store.run_cycle(&users, &Vec::new());
    let after_twice = store_contents(&store);
    assert_eq!(after_once, after_twice);
}
