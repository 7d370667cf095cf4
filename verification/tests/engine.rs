use loadgen::quota::compute_quotas;
use loadgen::reporter::RateReporter;
use loadgen::stats::FailureKind;
use loadgen::stats::RequestOutcome;
use loadgen::stats::StatsAggregator;
use loadgen::stop::StopController;
use loadgen::supervisor::Phase;
use loadgen::supervisor::SupervisorEvent;
use loadgen::supervisor::is_stop_command;
use loadgen::supervisor::supervisor_step;
use loadgen::worker::Worker;
use loadgen::worker::WorkerAction;

fn success(status_code: u16) -> RequestOutcome {
    RequestOutcome::Success { status_code }
}

fn failure(kind: FailureKind) -> RequestOutcome {
    RequestOutcome::Failure { kind }
}

fn code_count(codes: &Vec<(u16, u64)>, code: u16) -> u64 {
    codes.iter().find(|e| e.0 == code).map(|e| e.1).unwrap_or(0)
}

#[test]
fn quotas_ten_over_three() {
    // remainder 1 goes to worker 0
    assert_eq!(compute_quotas(10, 3), vec![4, 3, 3]);
}

#[test]
fn quotas_exact_division() {
    assert_eq!(compute_quotas(10, 5), vec![2, 2, 2, 2, 2]);
}

#[test]
fn quotas_single_worker() {
    assert_eq!(compute_quotas(7, 1), vec![7]);
}

#[test]
fn quotas_more_workers_than_requests() {
    assert_eq!(compute_quotas(2, 5), vec![1, 1, 0, 0, 0]);
}

#[test]
fn quotas_zero_total() {
    assert_eq!(compute_quotas(0, 4), vec![0, 0, 0, 0]);
}

#[test]
fn quotas_sum_is_total() {
    let quotas = compute_quotas(1_000_003, 7);
    assert_eq!(quotas.len(), 7);
    assert_eq!(quotas.iter().sum::<u64>(), 1_000_003);
}

#[test]
fn record_successes_fill_buckets() {
    let mut agg = StatsAggregator::new();
    agg.record(success(200));
    agg.record(success(404));
    agg.record(success(200));
    let snap = agg.snapshot();
    assert_eq!(snap.total_completed, 3);
    assert_eq!(code_count(&snap.codes, 200), 2);
    assert_eq!(code_count(&snap.codes, 404), 1);
    assert_eq!(snap.connect_errors, 0);
    assert_eq!(snap.timeouts, 0);
    assert_eq!(snap.protocol_errors, 0);
}

#[test]
fn failures_live_in_their_own_counters() {
    let mut agg = StatsAggregator::new();
    agg.record(failure(FailureKind::ConnectError));
    agg.record(failure(FailureKind::Timeout));
    agg.record(failure(FailureKind::Timeout));
    agg.record(failure(FailureKind::ProtocolError));
    let snap = agg.snapshot();
    // failures are not completions: they never touch the histogram
    assert_eq!(snap.total_completed, 0);
    assert!(snap.codes.is_empty());
    assert_eq!(snap.connect_errors, 1);
    assert_eq!(snap.timeouts, 2);
    assert_eq!(snap.protocol_errors, 1);
}

#[test]
fn snapshot_total_equals_sum_of_buckets() {
    let mut agg = StatsAggregator::new();
    for _ in 0..5 {
        agg.record(success(200));
    }
    for _ in 0..3 {
        agg.record(success(500));
    }
    agg.record(failure(FailureKind::ConnectError));
    let snap = agg.snapshot();
    let sum: u64 = snap.codes.iter().map(|e| e.1).sum();
    assert_eq!(snap.total_completed, sum);
    assert_eq!(snap.total_completed, 8);
}

#[test]
fn fresh_aggregator_snapshot_is_all_zero() {
    let agg = StatsAggregator::new();
    let snap = agg.snapshot();
    assert_eq!(snap.total_completed, 0);
    assert!(snap.codes.is_empty());
    assert_eq!(snap.connect_errors, 0);
    assert_eq!(snap.timeouts, 0);
    assert_eq!(snap.protocol_errors, 0);
}

#[test]
fn total_is_derived_from_the_buckets() {
    let mut agg = StatsAggregator::new();
    assert_eq!(agg.total_completed(), 0);
    assert!(agg.can_accept(success(200)));
    agg.record(success(200));
    agg.record(success(301));
    agg.record(failure(FailureKind::ProtocolError));
    assert_eq!(agg.total_completed(), 2);
}

#[test]
fn stop_flag_is_idempotent() {
    let mut stop = StopController::new();
    assert!(!stop.should_stop());
    stop.request_stop();
    assert!(stop.should_stop());
    stop.request_stop();
    stop.request_stop();
    assert!(stop.should_stop());
}

#[test]
fn full_run_completes_exactly_the_total() {
    // threads=3, total_requests=10, no stop, no failures:
    // every quota is exhausted and the total is exactly 10
    let quotas = compute_quotas(10, 3);
    let mut agg = StatsAggregator::new();
    for q in &quotas {
        let mut worker = Worker::new(*q);
        while worker.next_action(false) == WorkerAction::SendRequest {
            assert!(agg.can_accept(success(200)));
            worker.on_outcome(&mut agg, success(200));
        }
    }
    let snap = agg.snapshot();
    assert_eq!(snap.total_completed, 10);
    assert_eq!(code_count(&snap.codes, 200), 10);
}

#[test]
fn failed_attempts_do_not_kill_a_worker() {
    let mut agg = StatsAggregator::new();
    let mut worker = Worker::new(4);
    worker.on_outcome(&mut agg, success(200));
    worker.on_outcome(&mut agg, failure(FailureKind::Timeout));
    // the worker keeps going after a transport failure
    assert_eq!(worker.next_action(false), WorkerAction::SendRequest);
    worker.on_outcome(&mut agg, success(200));
    worker.on_outcome(&mut agg, success(503));
    assert_eq!(worker.next_action(false), WorkerAction::Finish);
    let snap = agg.snapshot();
    assert_eq!(snap.total_completed, 3);
    assert_eq!(snap.timeouts, 1);
}

#[test]
fn zero_quota_worker_never_sends() {
    let worker = Worker::new(0);
    assert_eq!(worker.next_action(false), WorkerAction::Finish);
    assert_eq!(worker.next_action(true), WorkerAction::Finish);
}

#[test]
fn stop_ends_every_worker_at_its_next_check() {
    let mut agg = StatsAggregator::new();
    let mut worker = Worker::new(1000);
    worker.on_outcome(&mut agg, success(200));
    worker.on_outcome(&mut agg, success(200));
    assert_eq!(worker.next_action(false), WorkerAction::SendRequest);
    // the stop signal was observed: the very next check finishes
    assert_eq!(worker.next_action(true), WorkerAction::Finish);
}

#[test]
fn stopped_run_is_partial_but_consistent() {
    // threads=10, total_requests=1_000_000, stop arrives mid-run:
    // the run ends early with a consistent snapshot short of the total
    let quotas = compute_quotas(1_000_000, 10);
    assert_eq!(quotas.iter().sum::<u64>(), 1_000_000);
    let mut agg = StatsAggregator::new();
    for q in &quotas {
        let mut worker = Worker::new(*q);
        let mut sent: u32 = 0;
        loop {
            // the stop signal becomes visible after 123 requests
            let stop_observed = sent >= 123;
            match worker.next_action(stop_observed) {
                WorkerAction::Finish => break,
                WorkerAction::SendRequest => {
                    worker.on_outcome(&mut agg, success(200));
                    sent += 1;
                },
            }
        }
    }
    let snap = agg.snapshot();
    let sum: u64 = snap.codes.iter().map(|e| e.1).sum();
    assert_eq!(snap.total_completed, sum);
    assert_eq!(snap.total_completed, 1230);
    assert!(snap.total_completed < 1_000_000);
}

#[test]
fn reporter_rates_are_exact() {
    let mut reporter = RateReporter::new();
    let sample = reporter.tick(false, 500, 1000).unwrap();
    assert_eq!(sample.total_completed, 500);
    assert_eq!(sample.completed_since_last, 500);
    assert_eq!(sample.elapsed_millis, 1000);
    assert_eq!(sample.cumulative_rate_per_sec, 500);
    let sample = reporter.tick(false, 1500, 2000).unwrap();
    assert_eq!(sample.completed_since_last, 1000);
    assert_eq!(sample.cumulative_rate_per_sec, 750);
}

#[test]
fn reporter_rate_saturates() {
    let mut reporter = RateReporter::new();
    let sample = reporter.tick(false, u64::MAX, 1).unwrap();
    assert_eq!(sample.cumulative_rate_per_sec, u64::MAX);
}

#[test]
fn reporter_exits_on_stop() {
    let mut reporter = RateReporter::new();
    assert!(reporter.tick(false, 10, 1000).is_some());
    assert!(reporter.tick(true, 20, 2000).is_none());
}

#[test]
fn supervisor_walks_the_phases_once() {
    let p = Phase::Starting;
    let p = supervisor_step(p, SupervisorEvent::WorkersSpawned);
    assert_eq!(p, Phase::Running);
    let p = supervisor_step(p, SupervisorEvent::StopCommand);
    assert_eq!(p, Phase::StopRequested);
    let p = supervisor_step(p, SupervisorEvent::SignalSet);
    assert_eq!(p, Phase::Draining);
    let p = supervisor_step(p, SupervisorEvent::AllJoined);
    assert_eq!(p, Phase::Done);
    // Done is terminal
    assert_eq!(supervisor_step(p, SupervisorEvent::StopCommand), Phase::Done);
}

#[test]
fn supervisor_ignores_events_out_of_phase() {
    assert_eq!(supervisor_step(Phase::Starting, SupervisorEvent::AllJoined), Phase::Starting);
    assert_eq!(supervisor_step(Phase::Running, SupervisorEvent::WorkersSpawned), Phase::Running);
    // end of input counts as a stop request
    assert_eq!(supervisor_step(Phase::Running, SupervisorEvent::InputClosed), Phase::StopRequested);
}

#[test]
fn stop_command_matches_case_insensitively() {
    assert!(is_stop_command(&b"stop".to_vec()));
    assert!(is_stop_command(&b"STOP".to_vec()));
    assert!(is_stop_command(&b"StOp".to_vec()));
    assert!(!is_stop_command(&b"stop ".to_vec()));
    assert!(!is_stop_command(&b"halt".to_vec()));
    assert!(!is_stop_command(&b"".to_vec()));
    assert!(!is_stop_command(&b"stopp".to_vec()));
}
