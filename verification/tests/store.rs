use xdp_telemetry::counter::CounterStore;
use xdp_telemetry::counter::DataRec;
use xdp_telemetry::counter::StoreError;

#[test]
fn new_store_is_empty() {
    let store = CounterStore::new(4);
    assert_eq!(store.read(2), None);
}

#[test]
fn default_record_is_zero() {
    let rec: DataRec = Default::default();
    assert_eq!(rec, DataRec { rx_packets: 0, rx_bytes: 0 });
}

#[test]
fn first_touch_creates_zero_record() {
    let mut store = CounterStore::new(4);
    let h = store.get_or_create(2).unwrap();
    assert_eq!(store.read(2), Some(DataRec { rx_packets: 0, rx_bytes: 0 }));
    store.increment(h, 60);
    assert_eq!(store.read(2), Some(DataRec { rx_packets: 1, rx_bytes: 60 }));
}

#[test]
fn increments_accumulate_exactly() {
    // After N increments of length L: packets == N and bytes == N * L.
    let mut store = CounterStore::new(4);
    let h = store.get_or_create(2).unwrap();
    for _ in 0..5 {
        store.increment(h, 64);
    }
    assert_eq!(store.read(2), Some(DataRec { rx_packets: 5, rx_bytes: 320 }));
}

#[test]
fn read_is_idempotent() {
    let mut store = CounterStore::new(4);
    let h = store.get_or_create(9).unwrap();
    store.increment(h, 1500);
    let first = store.read(9);
    let second = store.read(9);
    assert_eq!(first, second);
    assert_eq!(first, Some(DataRec { rx_packets: 1, rx_bytes: 1500 }));
}

#[test]
fn first_touch_race_converges_on_one_record() {
    // Two get_or_create calls for the same absent key return the same
    // handle; increments through both handles land in one record.
    let mut store = CounterStore::new(4);
    let h1 = store.get_or_create(7).unwrap();
    let h2 = store.get_or_create(7).unwrap();
    assert_eq!(h1, h2);
    store.increment(h1, 100);
    store.increment(h2, 40);
    assert_eq!(store.read(7), Some(DataRec { rx_packets: 2, rx_bytes: 140 }));
}

#[test]
fn capacity_exceeded_on_full_table() {
    let mut store = CounterStore::new(2);
    let h1 = store.get_or_create(1).unwrap();
    let _h2 = store.get_or_create(2).unwrap();
    assert_eq!(store.get_or_create(3), Err(StoreError::CapacityExceeded));
    // Existing keys are unaffected by the failed first touch.
    store.increment(h1, 60);
    assert_eq!(store.read(1), Some(DataRec { rx_packets: 1, rx_bytes: 60 }));
    assert_eq!(store.read(2), Some(DataRec { rx_packets: 0, rx_bytes: 0 }));
    assert_eq!(store.read(3), None);
}

#[test]
fn get_or_create_finds_existing_record() {
    let mut store = CounterStore::new(2);
    let h = store.get_or_create(5).unwrap();
    store.increment(h, 10);
    let again = store.get_or_create(5).unwrap();
    assert_eq!(again, h);
    assert_eq!(store.read(5), Some(DataRec { rx_packets: 1, rx_bytes: 10 }));
}
