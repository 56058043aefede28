use netmon::cycle::{
    address_error_label, address_error_label_colored, clear_screen_sequence, farewell_message,
    farewell_message_colored, render_report_colored, run_cycle, run_cycle_colored,
};
use netmon::report::{render_report, AddrBinding};
use netmon::store::{CounterStore, IfaceCounters};

fn entry(name: &str, received: u64, transmitted: u64) -> IfaceCounters {
    IfaceCounters { name: String::from(name), received, transmitted }
}

fn binding(name: &str, addr: &str) -> AddrBinding {
    AddrBinding { name: String::from(name), addr: String::from(addr) }
}

#[test]
fn report_with_addresses_renders_both_sections() {
    let deltas = vec![entry("eth0", 512, 1024)];
    let addrs = Some(vec![binding("eth0", "192.168.1.2")]);
    let report = render_report(&deltas, &addrs, 12, 30, 45);
    let expected = "=== Network Interfaces ===\n\
                    Updated at: 12:30:45\n\
                    \nInterface: eth0\n  Received:  512 B/s\n  Transmitted: 1.00 KB/s\n\
                    \n=== Interface Details ===\n\
                    \nInterface: eth0\n  IP Address: 192.168.1.2\n";
    assert_eq!(report, expected);
}

#[test]
fn report_without_addresses_omits_details_section() {
    // Address enumeration failed: the throughput section still carries the
    // correct deltas and the details section is absent.
    let deltas = vec![entry("eth0", 500, 300)];
    let report = render_report(&deltas, &None, 1, 2, 3);
    assert!(report.contains("=== Network Interfaces ==="));
    assert!(report.contains("Interface: eth0"));
    assert!(report.contains("  Received:  500 B/s"));
    assert!(report.contains("  Transmitted: 300 B/s"));
    assert!(!report.contains("=== Interface Details ==="));
}

#[test]
fn report_lists_every_interface_and_address_pair() {
    let deltas = vec![entry("eth0", 0, 0), entry("wlan0", 2048, 0)];
    let addrs = Some(vec![binding("eth0", "10.0.0.1"), binding("eth0", "fe80::1")]);
    let report = render_report(&deltas, &addrs, 0, 0, 0);
    assert!(report.contains("\nInterface: eth0\n  Received:  0 B/s\n  Transmitted: 0 B/s\n"));
    assert!(report.contains("\nInterface: wlan0\n  Received:  2.00 KB/s\n  Transmitted: 0 B/s\n"));
    assert!(report.contains("\nInterface: eth0\n  IP Address: 10.0.0.1\n"));
    assert!(report.contains("\nInterface: eth0\n  IP Address: fe80::1\n"));
}

#[test]
fn cycle_computes_deltas_and_updates_store() {
    let mut store = CounterStore::initialize(vec![entry("eth0", 1000, 500)]);
    let sample = vec![entry("eth0", 1500, 800)];
    let addrs = Some(vec![binding("eth0", "192.168.1.2")]);
    let report = run_cycle(&mut store, &sample, &addrs, 8, 15, 0);
    assert!(report.contains("Updated at: 08:15:00"));
    assert!(report.contains("\nInterface: eth0\n  Received:  500 B/s\n  Transmitted: 300 B/s\n"));
    assert!(report.contains("  IP Address: 192.168.1.2"));
    assert_eq!(store.lookup(&String::from("eth0")), Some((1500, 800)));
}

#[test]
fn cycle_with_failed_address_enumeration_still_reports_deltas() {
    let mut store = CounterStore::initialize(vec![entry("eth0", 100, 100)]);
    let sample = vec![entry("eth0", 130, 150)];
    let report = run_cycle(&mut store, &sample, &None, 0, 0, 1);
    assert!(report.contains("=== Network Interfaces ==="));
    assert!(report.contains("  Received:  30 B/s"));
    assert!(report.contains("  Transmitted: 50 B/s"));
    assert!(!report.contains("=== Interface Details ==="));
    assert_eq!(store.lookup(&String::from("eth0")), Some((130, 150)));
}

#[test]
fn colored_cycle_updates_store_and_carries_the_report_text() {
    let mut store = CounterStore::new();
    let sample = vec![entry("wlan0", 200, 100)];
    let addrs = Some(vec![binding("wlan0", "10.1.1.1")]);
    let report = run_cycle_colored(&mut store, &sample, &addrs);
    assert!(report.contains("Network Interfaces"));
    assert!(report.contains("wlan0"));
    assert!(report.contains("200 B"));
    assert!(report.contains("10.1.1.1"));
    assert_eq!(store.lookup(&String::from("wlan0")), Some((200, 100)));
}

fn is_subsequence(needle: &str, hay: &str) -> bool {
    let mut rest = hay.chars();
    needle.chars().all(|c| rest.any(|h| h == c))
}

#[test]
fn colored_report_carries_the_plain_report_as_subsequence() {
    // Colouring may insert escape sequences but never deletes or alters the
    // report text.
    let deltas = vec![entry("eth0", 512, 1024), entry("wlan0", 0, 5 * 1024 * 1024)];
    let addrs = Some(vec![binding("eth0", "192.168.1.2"), binding("wlan0", "fe80::1")]);
    let plain = render_report(&deltas, &addrs, 12, 30, 45);
    let colored = render_report_colored(&deltas, &addrs, 12, 30, 45);
    assert!(is_subsequence(&plain, &colored));
}

#[test]
fn colored_report_without_addresses_carries_the_plain_report() {
    let deltas = vec![entry("eth0", 1023, 0)];
    let plain = render_report(&deltas, &None, 23, 59, 58);
    let colored = render_report_colored(&deltas, &None, 23, 59, 58);
    assert!(is_subsequence(&plain, &colored));
}

#[test]
fn colored_error_label_carries_the_text() {
    assert!(is_subsequence(
        "Error getting interface details",
        &address_error_label_colored()
    ));
}

#[test]
fn farewell_message_text() {
    assert_eq!(farewell_message(), "Exiting network monitor...");
}

#[test]
fn colored_farewell_carries_the_text() {
    assert!(farewell_message_colored().contains("Exiting network monitor..."));
}

#[test]
fn address_error_label_text() {
    assert_eq!(address_error_label(), "Error getting interface details");
}

#[test]
fn clear_screen_sequence_text() {
    assert_eq!(clear_screen_sequence(), "\x1B[2J\x1B[1;1H");
}
