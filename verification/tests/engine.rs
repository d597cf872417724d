use healthcheck::alert::{alert_attempt_step, Policy as AlertPolicy};
use healthcheck::report::{count_failures, report_outcome};
use healthcheck::retry::Policy;
use healthcheck::{run_cycle, CheckCycle, CheckResult, CheckStatus, CycleOutcome};

fn policy(max_retries: u16) -> Policy {
    Policy { max_retries, initial_ms: 1000, multiplier_num: 11, multiplier_den: 10 }
}

fn statuses(updates: &[healthcheck::CheckUpdate]) -> Vec<&'static str> {
    updates
        .iter()
        .map(|u| match u.status {
            CheckStatus::Running => "running",
            CheckStatus::Retrying => "retrying",
            CheckStatus::Waiting(_, _) => "waiting",
            CheckStatus::Succeeded => "succeeded",
            CheckStatus::Failed => "failed",
        })
        .collect()
}

#[test]
fn updates_keep_emission_order() {
    // One failure, then success: Running, Retrying, Running, Succeeded.
    let outcomes: Vec<Result<(), String>> = vec![Err("boom".to_owned()), Ok(())];
    let (result, updates) = run_cycle(7, policy(1), &outcomes);
    assert!(matches!(result, CheckResult::Success));
    assert_eq!(statuses(&updates), vec!["running", "retrying", "running", "succeeded"]);
    assert!(updates.iter().all(|u| u.id == 7));
    assert_eq!(updates[1].msg.as_deref(), Some("boom"));
}

#[test]
fn exhausted_cycle_fails_with_message() {
    let outcomes: Vec<Result<(), String>> = vec![Err("down".to_owned())];
    let (result, updates) = run_cycle(0, policy(0), &outcomes);
    assert!(matches!(result, CheckResult::Failure));
    assert_eq!(statuses(&updates), vec!["running", "retrying", "failed"]);
    assert_eq!(updates[2].msg.as_deref(), Some("Maximum retries reached"));
}

#[test]
fn report_mode_counts_one_failure_of_three() {
    // Three checks: one always failing with max_retries = 0, two succeeding.
    let failing: Vec<Result<(), String>> = vec![Err("no route".to_owned())];
    let passing: Vec<Result<(), String>> = vec![Ok(())];

    let (r0, u0) = run_cycle(0, policy(0), &failing);
    let (r1, u1) = run_cycle(1, policy(0), &passing);
    let (r2, u2) = run_cycle(2, policy(0), &passing);

    let results = vec![r0, r1, r2];
    assert_eq!(count_failures(&results), 1);
    assert_eq!(report_outcome(&results), Err(1));

    let mut all = Vec::new();
    all.extend(u0);
    all.extend(u1);
    all.extend(u2);
    let failed = all.iter().filter(|u| matches!(u.status, CheckStatus::Failed)).count();
    let succeeded = all.iter().filter(|u| matches!(u.status, CheckStatus::Succeeded)).count();
    assert_eq!(failed, 1);
    assert_eq!(succeeded, 2);
}

#[test]
fn all_passing_reports_ok() {
    let passing: Vec<Result<(), String>> = vec![Ok(())];
    let (r0, _) = run_cycle(0, policy(2), &passing);
    let (r1, _) = run_cycle(1, policy(2), &passing);
    assert_eq!(report_outcome(&vec![r0, r1]), Ok(()));
    assert_eq!(count_failures(&Vec::new()), 0);
}

#[test]
fn stepwise_cycle_backs_off_then_finishes() {
    let mut cycle = CheckCycle::new(3, policy(2));

    let first = cycle.begin_update();
    assert!(matches!(first.status, CheckStatus::Running));
    assert_eq!(first.id, 3);

    let (ups, outcome) = cycle.on_probe_result(&Err("timeout".to_owned()));
    assert_eq!(statuses(&ups), vec!["retrying"]);
    match outcome {
        CycleOutcome::Continue { attempt, wait_ms } => {
            assert_eq!(attempt, 1);
            assert_eq!(wait_ms, 1000);
        },
        CycleOutcome::Finished(_) => panic!("expected a retry"),
    }

    let (ups, outcome) = cycle.on_probe_result(&Ok(()));
    assert_eq!(statuses(&ups), vec!["succeeded"]);
    assert!(matches!(outcome, CycleOutcome::Finished(CheckResult::Success)));
}

#[test]
fn backoff_waits_grow_through_the_cycle() {
    let mut cycle = CheckCycle::new(0, policy(3));
    let mut waits = Vec::new();
    for _ in 0..3 {
        cycle.begin_update();
        let (_, outcome) = cycle.on_probe_result(&Err("down".to_owned()));
        match outcome {
            CycleOutcome::Continue { wait_ms, .. } => waits.push(wait_ms),
            CycleOutcome::Finished(_) => panic!("retries left"),
        }
    }
    assert_eq!(waits, vec![1000, 1100, 1210]);

    cycle.begin_update();
    let (ups, outcome) = cycle.on_probe_result(&Err("down".to_owned()));
    assert_eq!(statuses(&ups), vec!["retrying", "failed"]);
    assert!(matches!(outcome, CycleOutcome::Finished(CheckResult::Failure)));
}

#[test]
fn alert_mode_rechecks_each_failure() {
    let policy = AlertPolicy { check_interval_ms: 60_000, recheck_interval_ms: 5_000 };

    // A failed attempt: Failed with the description, then the recheck wait.
    let (ups, wait) = alert_attempt_step(4, &policy, &Err("connection refused".to_owned()));
    assert_eq!(wait, 5_000);
    assert_eq!(statuses(&ups), vec!["failed", "waiting"]);
    assert!(ups.iter().all(|u| u.id == 4));
    assert_eq!(ups[0].msg.as_deref(), Some("connection refused"));
    match ups[1].status {
        CheckStatus::Waiting(ms, ref reason) => {
            assert_eq!(ms, 5_000);
            assert_eq!(reason, "recheck");
        },
        _ => panic!("expected a waiting update"),
    }

    // A second failure rechecks again at the same fast cadence: no budget.
    let (ups, wait) = alert_attempt_step(4, &policy, &Err("still down".to_owned()));
    assert_eq!(wait, 5_000);
    assert_eq!(statuses(&ups), vec!["failed", "waiting"]);
}

#[test]
fn alert_mode_reverifies_after_success() {
    let policy = AlertPolicy { check_interval_ms: 60_000, recheck_interval_ms: 5_000 };

    let (ups, wait) = alert_attempt_step(4, &policy, &Ok(()));
    assert_eq!(wait, 60_000);
    assert_eq!(statuses(&ups), vec!["succeeded", "waiting"]);
    assert_eq!(ups[0].msg, None);
    match ups[1].status {
        CheckStatus::Waiting(ms, ref reason) => {
            assert_eq!(ms, 60_000);
            assert_eq!(reason, "next check");
        },
        _ => panic!("expected a waiting update"),
    }
}
