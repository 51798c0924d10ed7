//! Snapshots: immutable, timestamped value copies of one key's counter
//! totals. The monotonic clock itself lives with the embedding process;
//! the routine here pairs a clock reading taken first with a copy of the
//! record's fields.

use vstd::prelude::*;

use crate::counter::CounterStore;
use crate::counter::DataRec;

verus! {

/// An immutable, timestamped copy of one key's counter totals. Superseded,
/// never mutated, on each polling tick.
#[derive(Clone, Copy, Debug, PartialEq, Eq, Structural)]
pub struct Snapshot {
    /// Nanoseconds from a monotonic (never-rewound) clock.
    pub timestamp: u64,
    /// Value copy of the key's record at (about) that instant.
    pub total: DataRec,
}

/// What `snapshot` returns: the record for `key` paired with the clock
/// reading, or nothing when the key was never touched.
pub open spec fn spec_snapshot(store: CounterStore, key: u32, now: u64) -> Option<Snapshot> {
    match store.spec_read(key) {
        Some(rec) => Some(Snapshot { timestamp: now, total: rec }),
        None => None,
    }
}

/// Copy the current totals of `key` into a snapshot stamped `now`, the
/// clock reading taken just before. The timestamp and the field copies are
/// not mutually atomic with concurrent increments; the rate engine
/// tolerates that one-sample skew.
pub fn snapshot(store: &CounterStore, key: u32, now: u64) -> (r: Option<Snapshot>)
    requires
        store.wf(),
    ensures
        r == spec_snapshot(*store, key, now),
{
    match store.read(key) {
        Some(rec) => Some(Snapshot { timestamp: now, total: rec }),
        None => None,
    }
}

} // verus!
