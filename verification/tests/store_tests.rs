use netmon::store::{CounterStore, IfaceCounters};

fn entry(name: &str, received: u64, transmitted: u64) -> IfaceCounters {
    IfaceCounters { name: String::from(name), received, transmitted }
}

#[test]
fn delta_and_update_after_initialize() {
    // Store seeded with {"eth0": (1000, 500)}; next sample {"eth0": (1500, 800)}
    // yields delta {"eth0": (500, 300)} and the store then holds (1500, 800).
    let mut store = CounterStore::initialize(vec![entry("eth0", 1000, 500)]);
    let sample = vec![entry("eth0", 1500, 800)];
    let deltas = store.compute_delta_and_update(&sample);
    assert_eq!(deltas.len(), 1);
    assert_eq!(deltas[0].name, "eth0");
    assert_eq!(deltas[0].received, 500);
    assert_eq!(deltas[0].transmitted, 300);
    assert_eq!(store.lookup(&String::from("eth0")), Some((1500, 800)));
}

#[test]
fn first_sighting_reports_full_counters() {
    // Store seeded empty; the first real sample of an interface reports its
    // full cumulative counters as the delta.
    let mut store = CounterStore::initialize(Vec::new());
    let sample = vec![entry("wlan0", 200, 100)];
    let deltas = store.compute_delta_and_update(&sample);
    assert_eq!(deltas.len(), 1);
    assert_eq!(deltas[0].name, "wlan0");
    assert_eq!(deltas[0].received, 200);
    assert_eq!(deltas[0].transmitted, 100);
    assert_eq!(store.lookup(&String::from("wlan0")), Some((200, 100)));
}

#[test]
fn counter_reset_clamps_delta_to_zero() {
    let mut store = CounterStore::initialize(vec![entry("eth0", 1000, 500)]);
    let sample = vec![entry("eth0", 400, 600)];
    let deltas = store.compute_delta_and_update(&sample);
    assert_eq!(deltas[0].received, 0);
    assert_eq!(deltas[0].transmitted, 100);
    assert_eq!(store.lookup(&String::from("eth0")), Some((400, 600)));
}

#[test]
fn absent_interface_keeps_stale_entry_and_yields_no_delta() {
    let mut store = CounterStore::initialize(vec![entry("eth0", 10, 20), entry("lo", 30, 40)]);
    let sample = vec![entry("eth0", 15, 25)];
    let deltas = store.compute_delta_and_update(&sample);
    assert_eq!(deltas.len(), 1);
    assert_eq!(deltas[0].name, "eth0");
    assert_eq!(store.lookup(&String::from("lo")), Some((30, 40)));
}

#[test]
fn deltas_come_in_sample_order() {
    let mut store = CounterStore::new();
    let sample = vec![entry("a", 1, 2), entry("b", 3, 4), entry("c", 5, 6)];
    let deltas = store.compute_delta_and_update(&sample);
    let names: Vec<&str> = deltas.iter().map(|d| d.name.as_str()).collect();
    assert_eq!(names, vec!["a", "b", "c"]);
}

#[test]
fn lookup_of_unseen_interface_is_none() {
    let store = CounterStore::new();
    assert_eq!(store.lookup(&String::from("eth0")), None);
}

#[test]
fn consecutive_cycles_measure_each_interval() {
    let mut store = CounterStore::initialize(vec![entry("eth0", 100, 100)]);
    let d1 = store.compute_delta_and_update(&vec![entry("eth0", 250, 160)]);
    assert_eq!((d1[0].received, d1[0].transmitted), (150, 60));
    let d2 = store.compute_delta_and_update(&vec![entry("eth0", 250, 200)]);
    assert_eq!((d2[0].received, d2[0].transmitted), (0, 40));
}
