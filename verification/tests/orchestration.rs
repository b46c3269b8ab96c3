use load_harness::executor::{count_successes, LoadResult, TaskBatch};
use load_harness::namegen::{generate_credentials, generate_password, generate_username,
    generate_wish};
use load_harness::runner::{
    completion_actions, interrupt_actions, os_supported, report_parts, step, RunAction, RunEvent,
    RunPhase,
};
use load_harness::scenario::{
    wishes_per_user, CaseNum, CaseOneArgs, CaseTwoArgs, CaseThreeArgs, CaseFourArgs,
};
use load_harness::session::tokens_from_responses;

fn b(s: &str) -> Vec<u8> {
    s.as_bytes().to_vec()
}

#[test]
fn register_scenario_settles_one_outcome_per_user() {
    let n: usize = 5;
    let plan = CaseNum::One(CaseOneArgs { n: n as u32 }).measured_plan();
    assert_eq!(plan.register_users, 5);
    let mut batch = TaskBatch::new(n, None);
    for _ in 0..n {
        assert!(batch.can_launch());
        batch.launch();
    }
    assert!(!batch.can_launch());
    for i in 0..n {
        let outcome = if i == 1 || i == 3 {
            LoadResult::Failure(String::from("connection refused"))
        } else {
            LoadResult::Success
        };
        batch.record(outcome);
    }
    assert!(batch.is_done());
    assert_eq!(batch.outcomes.len(), 5);
    assert_eq!(batch.successes(), 3);
}

#[test]
fn empty_register_scenario_is_immediately_done() {
    let batch = TaskBatch::new(0, None);
    assert!(batch.is_done());
    assert_eq!(batch.outcomes.len(), 0);
}

#[test]
fn concurrency_limit_blocks_further_launches() {
    let mut batch = TaskBatch::new(5, Some(2));
    batch.launch();
    batch.launch();
    assert!(!batch.can_launch());
    batch.record(LoadResult::Success);
    assert!(batch.can_launch());
    batch.launch();
    assert!(!batch.can_launch());
}

#[test]
fn mixed_outcomes_are_all_collected() {
    let results = vec![
        LoadResult::Success,
        LoadResult::Failure(String::from("status 500")),
        LoadResult::Success,
        LoadResult::Failure(String::from("timeout")),
        LoadResult::Success,
    ];
    assert_eq!(results.len(), 5);
    assert_eq!(count_successes(&results), 3);
}

#[test]
fn case_two_drops_remainder_wishes() {
    let plan = CaseNum::Two(CaseTwoArgs { wishes: 1005 }).measured_plan();
    assert_eq!(plan.wish_users, 10);
    assert_eq!(plan.wishes_per_user, 100);
    assert_eq!(plan.wish_ops_exec(), 1000);
    let plan = CaseNum::Two(CaseTwoArgs { wishes: 1000 }).measured_plan();
    assert_eq!(plan.wish_ops_exec(), 1000);
    let plan = CaseNum::Two(CaseTwoArgs { wishes: 7 }).measured_plan();
    assert_eq!(plan.wish_ops_exec(), 0);
    assert_eq!(wishes_per_user(1005, 10), 100);
}

#[test]
fn bulk_read_scenario_creates_fixtures_untimed() {
    let case = CaseNum::Three(CaseThreeArgs { wishes: 42 });
    let setup = case.setup_plan();
    assert_eq!(setup.register_users, 1);
    assert_eq!(setup.login_users, 1);
    assert_eq!(setup.wishes_per_user, 42);
    let measured = case.measured_plan();
    assert_eq!(measured.reads, 1);
    assert_eq!(measured.register_users, 0);
}

#[test]
fn repeated_read_scenario_reads_sequentially() {
    let case = CaseNum::Four(CaseFourArgs { times: 9 });
    let setup = case.setup_plan();
    assert_eq!(setup.wishes_per_user, 1);
    assert_eq!(setup.wish_users, 1);
    let measured = case.measured_plan();
    assert_eq!(measured.reads, 9);
    assert_eq!(measured.wish_users, 0);
}

#[test]
fn timer_excludes_slow_setup() {
    // Setup takes a long time; the measured phase is instantaneous. The
    // reported duration must be zero, whatever setup cost.
    let after_setup = step(
        step(
            step(
                step(RunPhase::NotStarted, RunEvent::StartTopology),
                RunEvent::TopologyUp,
            ),
            RunEvent::BeginSetup,
        ),
        RunEvent::SetupComplete { now_ms: 987_654_321 },
    );
    let measured = step(after_setup, RunEvent::MeasuredComplete { now_ms: 987_654_321 });
    match measured {
        RunPhase::Measured { elapsed_ms } => assert_eq!(elapsed_ms, 0),
        _ => panic!("expected the measured phase to complete"),
    }
}

#[test]
fn measured_duration_spans_only_the_measured_phase() {
    let measuring = step(RunPhase::SetupRunning, RunEvent::SetupComplete { now_ms: 5_000 });
    let measured = step(measuring, RunEvent::MeasuredComplete { now_ms: 65_321 + 5_000 });
    match measured {
        RunPhase::Measured { elapsed_ms } => {
            assert_eq!(elapsed_ms, 65_321);
            assert_eq!(report_parts(elapsed_ms), (65, 321));
        }
        _ => panic!("expected the measured phase to complete"),
    }
}

#[test]
fn setup_failure_is_fatal() {
    let next = step(RunPhase::SetupRunning, RunEvent::SetupFailed);
    assert!(matches!(next, RunPhase::Fatal));
    let out_of_protocol = step(RunPhase::NotStarted, RunEvent::TeardownComplete);
    assert!(matches!(out_of_protocol, RunPhase::Fatal));
}

#[test]
fn teardown_carries_result_to_done() {
    let stopping = step(RunPhase::Measured { elapsed_ms: 1234 }, RunEvent::BeginTeardown);
    let done = step(stopping, RunEvent::TeardownComplete);
    match done {
        RunPhase::Done { elapsed_ms } => assert_eq!(elapsed_ms, 1234),
        _ => panic!("expected the run to finish"),
    }
}

#[test]
fn interrupt_signals_app_server_before_cluster_lookup() {
    let acts = interrupt_actions(true, Some(4021));
    assert!(matches!(acts[0], RunAction::SignalAppServer));
    assert!(matches!(acts[1], RunAction::QueryClusterPid));
    assert!(matches!(acts[2], RunAction::SignalCluster { pid: 4021 }));
    assert!(matches!(acts[3], RunAction::ExitProcess));
    assert_eq!(acts.len(), 4);
    for act in &acts {
        assert!(!matches!(act, RunAction::ReportResult { .. }));
    }
}

#[test]
fn interrupt_without_handle_still_stops_cluster() {
    let acts = interrupt_actions(false, Some(17));
    assert!(matches!(acts[0], RunAction::QueryClusterPid));
    assert!(matches!(acts[1], RunAction::SignalCluster { pid: 17 }));
    let acts = interrupt_actions(true, None);
    assert!(matches!(acts[2], RunAction::AbortRun));
}

#[test]
fn normal_completion_reports_then_tears_down() {
    let acts = completion_actions(65_321, Some(99));
    assert!(matches!(acts[0], RunAction::ReportResult { secs: 65, millis: 321 }));
    assert!(matches!(acts[1], RunAction::SignalAppServer));
    assert!(matches!(acts[2], RunAction::QueryClusterPid));
    assert!(matches!(acts[3], RunAction::SignalCluster { pid: 99 }));
    let acts = completion_actions(10, None);
    assert!(matches!(acts[3], RunAction::AbortRun));
}

#[test]
fn generated_identities_carry_their_prefixes() {
    let name = generate_username();
    assert_eq!(name.len(), 24);
    assert_eq!(&name[0..4], b"test");
    assert!(name[4..].iter().all(|c| c.is_ascii_alphanumeric()));
    let pass = generate_password();
    assert_eq!(pass.len(), 24);
    assert_eq!(&pass[0..4], b"pass");
    assert!(pass[4..].iter().all(|c| c.is_ascii_alphanumeric()));
    let wish = generate_wish();
    assert_eq!(wish.len(), 24);
    assert_eq!(&wish[0..4], b"wish");
    assert!(wish[4..].iter().all(|c| c.is_ascii_alphanumeric()));
    let creds = generate_credentials();
    assert_eq!(creds.name.len(), 24);
    assert_eq!(&creds.pass[0..4], b"pass");
}

#[test]
fn login_tokens_are_collected_in_order() {
    let bodies = vec![b("\"alpha-token\""), b("beta-token"), b("\"\"")];
    let tokens = tokens_from_responses(&bodies);
    assert_eq!(tokens.len(), 3);
    assert_eq!(tokens[0], b("alpha-token"));
    assert_eq!(tokens[1], b("beta-token"));
    assert_eq!(tokens[2], b(""));
}

#[test]
fn only_linux_and_macos_are_supported() {
    assert!(os_supported(b"linux"));
    assert!(os_supported(b"macos"));
    assert!(!os_supported(b"windows"));
    assert!(!os_supported(b""));
}
