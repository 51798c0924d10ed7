use xdp_telemetry::counter::CounterStore;
use xdp_telemetry::counter::DataRec;
use xdp_telemetry::options::Opts;
use xdp_telemetry::probe::probe_code;
use xdp_telemetry::probe::xdp_stats1_func;
use xdp_telemetry::probe::PacketEvent;
use xdp_telemetry::probe::XdpAction;

#[test]
fn packet_path_counts_and_passes() {
    let mut store = CounterStore::new(4);
    assert_eq!(xdp_stats1_func(&mut store, 2, 100), XdpAction::Pass);
    assert_eq!(store.read(2), Some(DataRec { rx_packets: 1, rx_bytes: 100 }));
    assert_eq!(xdp_stats1_func(&mut store, 2, 60), XdpAction::Pass);
    assert_eq!(store.read(2), Some(DataRec { rx_packets: 2, rx_bytes: 160 }));
}

#[test]
fn full_table_drops_the_sample_and_keeps_counting() {
    let mut store = CounterStore::new(1);
    assert_eq!(xdp_stats1_func(&mut store, 1, 40), XdpAction::Pass);
    // A first-touch key beyond capacity is dropped without disturbing the
    // existing record.
    assert_eq!(xdp_stats1_func(&mut store, 2, 40), XdpAction::Aborted);
    assert_eq!(store.read(2), None);
    assert_eq!(xdp_stats1_func(&mut store, 1, 24), XdpAction::Pass);
    assert_eq!(store.read(1), Some(DataRec { rx_packets: 2, rx_bytes: 64 }));
}

#[test]
fn probe_code_carries_no_image() {
    assert!(probe_code().is_empty());
}

#[test]
fn packet_event_carries_header_fields() {
    let ev = PacketEvent {
        tos: 0,
        tot_len: 84,
        id: 7,
        frag_off: 0,
        ttl: 64,
        protocol: 6,
        checksum: 0x1234,
        saddr: 0x0a000001,
        daddr: 0x0a000002,
    };
    assert_eq!(ev.protocol, 6);
    assert_eq!(ev.saddr, 0x0a000001);
    assert_eq!(ev, ev);
}

#[test]
fn opts_hold_the_interface_name() {
    let opts = Opts { interface: String::from("eth0") };
    assert_eq!(opts.interface, "eth0");
}
