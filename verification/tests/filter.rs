use ble_scan::address::Address;
use ble_scan::filter::{DiscoveryFilter, Transport};
use ble_scan::flags::Flags;

fn listed() -> Address {
    Address::new([0xAA, 0xBB, 0xCC, 0xDD, 0xEE, 0xFF])
}

fn other() -> Address {
    Address::new([0x11, 0x22, 0x33, 0x44, 0x55, 0x66])
}

#[test]
fn empty_allow_list_accepts_every_address() {
    let filter = DiscoveryFilter::new(false, false, false, &vec![]);
    assert!(filter.accepts(&listed()));
    assert!(filter.accepts(&other()));
    assert!(filter.accepts(&Address::new([0; 6])));
}

#[test]
fn allow_list_accepts_only_listed_addresses() {
    let filter = DiscoveryFilter::new(true, false, false, &vec![listed()]);
    assert!(filter.accepts(&listed()));
    assert!(!filter.accepts(&other()));
    assert!(!filter.accepts(&Address::new([0xAA, 0xBB, 0xCC, 0xDD, 0xEE, 0xFE])));
    assert!(!filter.accepts(&Address::new([0xFF, 0xEE, 0xDD, 0xCC, 0xBB, 0xAA])));
}

#[test]
fn transport_follows_the_flags() {
    assert_eq!(DiscoveryFilter::new(false, false, false, &vec![]).transport(), Transport::Auto);
    assert_eq!(DiscoveryFilter::new(true, false, false, &vec![]).transport(), Transport::Le);
    assert_eq!(DiscoveryFilter::new(false, true, false, &vec![]).transport(), Transport::BrEdr);
    assert_eq!(DiscoveryFilter::new(true, true, false, &vec![]).transport(), Transport::Le);
}

#[test]
fn track_changes_is_kept() {
    assert!(DiscoveryFilter::new(false, false, true, &vec![]).track_changes());
    assert!(!DiscoveryFilter::new(false, false, false, &vec![]).track_changes());
}

#[test]
fn packed_address_reads_octets_most_significant_first() {
    assert_eq!(listed().packed(), 0xAABB_CCDD_EEFF);
    assert_eq!(Address::new([0, 0, 0, 0, 0, 1]).packed(), 1);
    assert_eq!(Address::new([1, 0, 0, 0, 0, 0]).packed(), 0x0100_0000_0000);
    assert_eq!(Address::new([0xFF; 6]).packed(), 0xFFFF_FFFF_FFFF);
}

#[test]
fn parse_reads_colon_separated_hexadecimal() {
    assert_eq!(Address::parse("AA:BB:CC:DD:EE:FF"), Some(listed()));
    assert_eq!(Address::parse("aa:bb:cc:dd:ee:ff"), Some(listed()));
    assert_eq!(Address::parse("00:00:00:00:00:01"), Some(Address::new([0, 0, 0, 0, 0, 1])));
}

#[test]
fn parse_rejects_what_is_no_address() {
    assert_eq!(Address::parse("--le"), None);
    assert_eq!(Address::parse(""), None);
    assert_eq!(Address::parse("AA:BB:CC:DD:EE"), None);
    assert_eq!(Address::parse("AA:BB:CC:DD:EE:FF:00"), None);
    assert_eq!(Address::parse("AA:BB:CC:DD:EE:GG"), None);
    assert_eq!(Address::parse("AAA:BB:CC:DD:EE:FF"), None);
}

#[test]
fn flags_are_tested_for_presence_in_any_order() {
    let args: Vec<String> = vec![
        "scan".to_string(),
        "AA:BB:CC:DD:EE:FF".to_string(),
        "--bredr".to_string(),
        "--changes".to_string(),
        "11:22:33:44:55:66".to_string(),
    ];
    let flags = Flags::from_args(&args);
    assert!(flags.with_changes);
    assert!(!flags.all_properties);
    assert!(!flags.le_only);
    assert!(flags.br_edr_only);
    assert_eq!(flags.addresses, vec![listed(), other()]);
}

#[test]
fn flags_default_to_nothing_set() {
    let flags = Flags::from_args(&vec!["scan".to_string()]);
    assert!(!flags.with_changes);
    assert!(!flags.all_properties);
    assert!(!flags.le_only);
    assert!(!flags.br_edr_only);
    assert!(flags.addresses.is_empty());
    let filter = flags.filter();
    assert_eq!(filter.transport(), Transport::Auto);
    assert!(filter.accepts(&other()));
}

#[test]
fn flags_match_whole_tokens_only() {
    let args: Vec<String> =
        vec!["--le-only".to_string(), "--change".to_string(), "x--all-properties".to_string()];
    let flags = Flags::from_args(&args);
    assert!(!flags.with_changes);
    assert!(!flags.all_properties);
    assert!(!flags.le_only);
    assert!(!flags.br_edr_only);
}

#[test]
fn flags_build_the_filter_they_ask_for() {
    let args: Vec<String> =
        vec!["--le".to_string(), "--all-properties".to_string(), "AA:BB:CC:DD:EE:FF".to_string()];
    let flags = Flags::from_args(&args);
    assert!(flags.all_properties);
    let filter = flags.filter();
    assert_eq!(filter.transport(), Transport::Le);
    assert!(!filter.track_changes());
    assert!(filter.accepts(&listed()));
    assert!(!filter.accepts(&other()));
}

#[test]
fn text_is_upper_case_colon_hexadecimal() {
    assert_eq!(listed().text(), "AA:BB:CC:DD:EE:FF");
    assert_eq!(Address::new([0x00, 0x01, 0x0A, 0xA0, 0x9F, 0xF9]).text(), "00:01:0A:A0:9F:F9");
    assert_eq!(Address::new([0; 6]).text(), "00:00:00:00:00:00");
    assert_eq!(other().text().len(), 17);
}

#[test]
fn text_reads_back_as_the_same_address() {
    for address in [listed(), other(), Address::new([0, 1, 2, 3, 4, 5]), Address::new([0xFF; 6])] {
        assert_eq!(Address::parse(&address.text()), Some(address));
    }
}
