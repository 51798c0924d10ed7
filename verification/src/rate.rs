//! The rate engine: given two snapshots (previous, current), derive the
//! elapsed period, the packet and byte deltas, and the throughput rates.
//!
//! Rates are carried as integers at full nanosecond precision:
//! `packets_per_sec` and `bits_per_sec` are the deltas scaled by the
//! elapsed nanoseconds (floor division). Display layers derive fractional
//! megabits per second and seconds from `bits_per_sec` and `period_ns`.

use vstd::prelude::*;

use crate::snapshot::Snapshot;

verus! {

pub const NANOSEC_PER_SEC: u64 = 1000000000;

/// One tick's derived statistics.
#[derive(Clone, Copy, Debug, PartialEq, Eq, Structural)]
pub struct RateReport {
    /// Total packets observed so far (the current snapshot's count).
    pub total_packets: u64,
    /// Packets per second over the period, rounded down.
    pub packets_per_sec: u64,
    /// Total kilobytes observed so far (total bytes / 1000, rounded down).
    pub kilobytes_total: u64,
    /// Bits per second over the period, rounded down; megabits per second
    /// is this over one million.
    pub bits_per_sec: u64,
    /// The elapsed period in nanoseconds; seconds is this over 10^9.
    pub period_ns: u64,
}

/// What one tick of the rate engine produced.
#[derive(Clone, Copy, Debug, PartialEq, Eq, Structural)]
pub enum RateOutcome {
    /// A report to emit.
    Report(RateReport),
    /// Non-positive period: a clock anomaly or a doubled tick. Not an
    /// error; the tick's report is silently skipped.
    Suppressed,
    /// A counter total decreased between the snapshots, which the counter
    /// invariant rules out: a programming-error signal. The tick's report
    /// is suppressed rather than the process crashed.
    Inconsistent,
}

/// Clamp an unbounded non-negative quantity into `u64`.
pub open spec fn sat_u64(x: int) -> u64 {
    if x > u64::MAX {
        u64::MAX as u64
    } else if x < 0 {
        0 as u64
    } else {
        x as u64
    }
}

/// The elapsed period in nanoseconds between two snapshots; zero when the
/// current snapshot is not strictly newer.
pub open spec fn spec_calc_period(curr: Snapshot, prev: Snapshot) -> u64 {
    if curr.timestamp >= prev.timestamp {
        (curr.timestamp - prev.timestamp) as u64
    } else {
        0 as u64
    }
}

/// A delta scaled to a per-second rate: `delta * scale / period_ns`,
/// clamped into `u64`. Meaningful only for `period_ns > 0`.
pub open spec fn spec_rate(delta: u64, scale: u64, period_ns: u64) -> u64 {
    sat_u64(delta * scale / (period_ns as int))
}

/// The whole outcome of one tick of the rate engine.
pub open spec fn spec_compute(curr: Snapshot, prev: Snapshot) -> RateOutcome {
    let period_ns = spec_calc_period(curr, prev);
    if period_ns == 0 {
        RateOutcome::Suppressed
    } else if curr.total.rx_packets < prev.total.rx_packets || curr.total.rx_bytes
        < prev.total.rx_bytes {
        RateOutcome::Inconsistent
    } else {
        RateOutcome::Report(RateReport {
            total_packets: curr.total.rx_packets,
            packets_per_sec: spec_rate(
                (curr.total.rx_packets - prev.total.rx_packets) as u64,
                NANOSEC_PER_SEC,
                period_ns,
            ),
            kilobytes_total: (curr.total.rx_bytes / 1000) as u64,
            bits_per_sec: spec_rate(
                (curr.total.rx_bytes - prev.total.rx_bytes) as u64,
                (8 * NANOSEC_PER_SEC) as u64,
                period_ns,
            ),
            period_ns,
        })
    }
}

/// The elapsed period in nanoseconds; zero when `curr` is not strictly
/// newer than `prev`.
pub fn calc_period(curr: &Snapshot, prev: &Snapshot) -> (r: u64)
    ensures
        r == spec_calc_period(*curr, *prev),
{
    if curr.timestamp >= prev.timestamp {
        curr.timestamp - prev.timestamp
    } else {
        0
    }
}

/// `delta * scale / period_ns` rounded down, clamped into `u64`.
fn scaled_rate(delta: u64, scale: u64, period_ns: u64) -> (r: u64)
    requires
        period_ns > 0,
        scale <= 8 * NANOSEC_PER_SEC,
    ensures
        r == spec_rate(delta, scale, period_ns),
{
    proof {
        assert((delta as int) * (scale as int) <= (u64::MAX as int) * (8 * NANOSEC_PER_SEC
            as int)) by (nonlinear_arith)
            requires
                0 <= delta <= u64::MAX,
                0 <= scale <= 8 * NANOSEC_PER_SEC,
        ;
    }
    let q: u128 = (delta as u128) * (scale as u128) / (period_ns as u128);
    if q > (u64::MAX as u128) {
        u64::MAX
    } else {
        q as u64
    }
}

/// One tick of the rate engine. Suppresses the tick on a non-positive
/// period (so it never divides by zero), flags a decreased total as an
/// internal-consistency violation, and otherwise reports the exact
/// floor-rounded rates over the elapsed period.
pub fn compute(curr: &Snapshot, prev: &Snapshot) -> (r: RateOutcome)
    ensures
        r == spec_compute(*curr, *prev),
{
    let period_ns = calc_period(curr, prev);
    if period_ns == 0 {
        return RateOutcome::Suppressed;
    }
    if curr.total.rx_packets < prev.total.rx_packets || curr.total.rx_bytes
        < prev.total.rx_bytes {
        return RateOutcome::Inconsistent;
    }
    let packet_delta = curr.total.rx_packets - prev.total.rx_packets;
    let byte_delta = curr.total.rx_bytes - prev.total.rx_bytes;
    RateOutcome::Report(RateReport {
        total_packets: curr.total.rx_packets,
        packets_per_sec: scaled_rate(packet_delta, NANOSEC_PER_SEC, period_ns),
        kilobytes_total: curr.total.rx_bytes / 1000,
        bits_per_sec: scaled_rate(byte_delta, 8 * NANOSEC_PER_SEC, period_ns),
        period_ns,
    })
}

/// For every valid snapshot pair -- current strictly newer, totals not
/// decreased -- the engine emits a report whose fields are exactly the
/// deltas over the elapsed period: `packets_per_sec` is the packet delta
/// per second and `bits_per_sec` is eight times the byte delta per second,
/// both at nanosecond precision, rounded down.
pub proof fn lemma_report_on_valid_pair(curr: Snapshot, prev: Snapshot)
    requires
        curr.timestamp > prev.timestamp,
        curr.total.rx_packets >= prev.total.rx_packets,
        curr.total.rx_bytes >= prev.total.rx_bytes,
    ensures
        ({
            let period_ns = curr.timestamp - prev.timestamp;
            let packet_delta = curr.total.rx_packets - prev.total.rx_packets;
            let byte_delta = curr.total.rx_bytes - prev.total.rx_bytes;
            spec_compute(curr, prev) == RateOutcome::Report(RateReport {
                total_packets: curr.total.rx_packets,
                packets_per_sec: sat_u64(packet_delta * NANOSEC_PER_SEC / period_ns),
                kilobytes_total: (curr.total.rx_bytes / 1000) as u64,
                bits_per_sec: sat_u64(byte_delta * (8 * NANOSEC_PER_SEC as int) / period_ns),
                period_ns: period_ns as u64,
            })
        }),
{
}

/// A tick whose current snapshot is not strictly newer than the previous
/// one is suppressed, whatever the totals: the engine emits nothing and,
/// having taken the suppression branch, divides by nothing.
pub proof fn lemma_suppressed_on_stale_snapshot(curr: Snapshot, prev: Snapshot)
    requires
        curr.timestamp <= prev.timestamp,
    ensures
        spec_compute(curr, prev) == RateOutcome::Suppressed,
{
}

} // verus!
