//! The per-packet path: what one packet-processing invocation does to the
//! counter store. The invocation runs in a context that may neither block
//! nor allocate unboundedly and must answer with a pass/abort-style
//! outcome, never a loud failure.

use vstd::prelude::*;

use crate::counter::CounterEntry;
use crate::counter::CounterStore;
use crate::counter::DataRec;

verus! {

/// The outcome a packet-processing invocation hands back to the packet
/// path.
#[derive(Clone, Copy, Debug, PartialEq, Eq, Structural)]
pub enum XdpAction {
    /// The record could not be created (table full); the packet still
    /// flows, only its sample is dropped.
    Aborted,
    /// Counted; the packet passes.
    Pass,
}

/// Header fields of one observed packet, as the pass-through probe
/// variant reports them to its event consumer.
#[derive(Clone, Copy, Debug, PartialEq, Eq, Structural)]
pub struct PacketEvent {
    pub tos: u8,
    pub tot_len: u16,
    pub id: u16,
    pub frag_off: u16,
    pub ttl: u8,
    pub protocol: u8,
    pub checksum: u16,
    pub saddr: u32,
    pub daddr: u32,
}

/// One packet-processing invocation: resolve `key` via first-touch
/// creation and apply one increment step for a packet of `len` bytes.
/// A full table drops the sample (`Aborted`) and leaves every existing
/// record untouched; otherwise the key's single record -- existing or
/// just created -- absorbs exactly one step and the packet passes.
pub fn xdp_stats1_func(store: &mut CounterStore, key: u32, len: u64) -> (r: XdpAction)
    requires
        old(store).wf(),
        old(store).spec_contains(key) ==> ({
            let rec = old(store)@[old(store).spec_index_of(key)].rec;
            &&& rec.rx_packets < u64::MAX
            &&& rec.rx_bytes + len <= u64::MAX
        }),
    ensures
        final(store).wf(),
        final(store).capacity == old(store).capacity,
        if old(store).spec_contains(key) {
            &&& r == XdpAction::Pass
            &&& final(store)@ == old(store)@.update(
                old(store).spec_index_of(key),
                (CounterEntry {
                    key,
                    rec: old(store)@[old(store).spec_index_of(key)].rec.incremented(len),
                }),
            )
        } else if old(store)@.len() < old(store).capacity {
            &&& r == XdpAction::Pass
            &&& final(store)@ == old(store)@.push(
                CounterEntry { key, rec: DataRec { rx_packets: 1, rx_bytes: len } },
            )
        } else {
            &&& r == XdpAction::Aborted
            &&& *final(store) == *old(store)
        },
{
    let ghost pre = *store;
    match store.get_or_create(key) {
        Ok(h) => {
            store.increment(h, len);
            proof {
                if !pre.spec_contains(key) {
                    assert(store@ =~= pre@.push(
                        CounterEntry { key, rec: DataRec { rx_packets: 1, rx_bytes: len } },
                    ));
                }
            }
            XdpAction::Pass
        },
        Err(_) => XdpAction::Aborted,
    }
}

/// The object code of the packet-processing engine, as handed to a
/// loader. In-process builds run the per-packet path (`xdp_stats1_func`)
/// directly, so the core carries no separate object image and the result
/// is empty; embedding processes that load an engine into the kernel
/// supply their own image.
pub fn probe_code() -> (r: Vec<u8>)
    ensures
        r@ == Seq::<u8>::empty(),
{
    Vec::new()
}

} // verus!
