use xdp_telemetry::counter::DataRec;
use xdp_telemetry::poll::step;
use xdp_telemetry::poll::PollEvent;
use xdp_telemetry::poll::PollState;
use xdp_telemetry::rate::RateOutcome;
use xdp_telemetry::snapshot::Snapshot;

fn snap(timestamp: u64, packets: u64, bytes: u64) -> Snapshot {
    Snapshot { timestamp, total: DataRec { rx_packets: packets, rx_bytes: bytes } }
}

#[test]
fn warmup_tick_reports_and_enters_steady() {
    let first = snap(0, 0, 0);
    let next = snap(2_000_000_000, 1000, 64_000);
    let (state, out) = step(PollState::Warmup { last: first }, PollEvent::Tick(next));
    assert_eq!(state, PollState::Steady { last: next });
    let report = match out {
        Some(RateOutcome::Report(r)) => r,
        _ => panic!("expected a report"),
    };
    assert_eq!(report.packets_per_sec, 500);
    assert_eq!(report.bits_per_sec, 256_000);
}

#[test]
fn steady_tick_diffs_against_the_prior_snapshot() {
    let prior = snap(2_000_000_000, 1000, 64_000);
    let next = snap(4_000_000_000, 3000, 192_000);
    let (state, out) = step(PollState::Steady { last: prior }, PollEvent::Tick(next));
    assert_eq!(state, PollState::Steady { last: next });
    let report = match out {
        Some(RateOutcome::Report(r)) => r,
        _ => panic!("expected a report"),
    };
    assert_eq!(report.total_packets, 3000);
    assert_eq!(report.packets_per_sec, 1000);
}

#[test]
fn doubled_tick_is_suppressed_but_advances_the_snapshot() {
    let prior = snap(2_000_000_000, 1000, 64_000);
    let next = snap(2_000_000_000, 1000, 64_000);
    let (state, out) = step(PollState::Steady { last: prior }, PollEvent::Tick(next));
    assert_eq!(state, PollState::Steady { last: next });
    assert_eq!(out, Some(RateOutcome::Suppressed));
}

#[test]
fn cancel_stops_without_a_report() {
    let prior = snap(2_000_000_000, 1000, 64_000);
    let (state, out) = step(PollState::Steady { last: prior }, PollEvent::Cancel);
    assert_eq!(state, PollState::Stopped);
    assert_eq!(out, None);
    let (state2, out2) = step(PollState::Warmup { last: prior }, PollEvent::Cancel);
    assert_eq!(state2, PollState::Stopped);
    assert_eq!(out2, None);
}

#[test]
fn ticks_after_cancellation_are_inert() {
    let next = snap(9_000_000_000, 5000, 1_000_000);
    let (state, out) = step(PollState::Stopped, PollEvent::Tick(next));
    assert_eq!(state, PollState::Stopped);
    assert_eq!(out, None);
}
