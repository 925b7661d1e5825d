use ble_scan::address::Address;
use ble_scan::filter::Transport;
use ble_scan::flags::Flags;
use ble_scan::query::Snapshot;
use ble_scan::scanner::{Action, Event, QueryMode, QueryResult, Scanner};
use ble_scan::sink::append;
use std::collections::HashMap;

fn listed() -> Address {
    Address::new([0xAA, 0xBB, 0xCC, 0xDD, 0xEE, 0xFF])
}

fn other() -> Address {
    Address::new([0x11, 0x22, 0x33, 0x44, 0x55, 0x66])
}

fn scanner(args: &[&str]) -> Scanner {
    let args: Vec<String> = args.iter().map(|arg| arg.to_string()).collect();
    Scanner::new(&Flags::from_args(&args))
}

fn snapshot() -> Snapshot {
    let mut data: HashMap<u16, Vec<u8>> = HashMap::new();
    data.insert(0x004C, vec![0x10, 0x05]);
    Snapshot {
        name: Some("tag".to_string()),
        rssi: Some(-67),
        tx_power: Some(8),
        manufacturer_data: Some(data),
    }
}

fn appends(actions: &[Action]) -> usize {
    actions.iter().filter(|action| matches!(action, Action::Persist(_))).count()
}

#[test]
fn startup_state_is_idle() {
    let scanner = scanner(&["scan", "--le"]);
    assert_eq!(scanner.pending(), None);
    assert_eq!(scanner.subscribing(), None);
    assert!(scanner.subscriptions().is_empty());
    assert_eq!(scanner.mode(), QueryMode::Summary);
    assert!(scanner.filter().accepts(&other()));
}

#[test]
fn mode_follows_the_all_properties_flag() {
    assert_eq!(scanner(&["--all-properties"]).mode(), QueryMode::FullDump);
    assert_eq!(scanner(&["--changes"]).mode(), QueryMode::Summary);
}

#[test]
fn add_event_for_unlisted_address_is_ignored() {
    let mut scanner = scanner(&["--le", "AA:BB:CC:DD:EE:FF"]);
    let actions = scanner.step(Event::DeviceAdded(other()), 100);
    assert!(actions.is_empty());
    assert_eq!(scanner.pending(), None);
    assert!(scanner.subscriptions().is_empty());
}

#[test]
fn add_event_for_listed_address_appends_one_record_with_its_bytes() {
    let mut scanner = scanner(&["--le", "AA:BB:CC:DD:EE:FF"]);
    let asked = scanner.step(Event::DeviceAdded(listed()), 100);
    assert_eq!(asked.len(), 2);
    assert!(matches!(&asked[0], Action::AnnounceAdded(address) if *address == listed()));
    assert!(matches!(&asked[1],
        Action::Query(address, QueryMode::Summary) if *address == listed()));
    assert_eq!(appends(&asked), 0);
    assert_eq!(scanner.pending(), Some(listed()));

    let done = scanner.step(Event::QueryFinished(QueryResult::Summary(snapshot())), 101);
    assert_eq!(done.len(), 1);
    assert_eq!(appends(&done), 1);
    match &done[0] {
        Action::Persist(record) => {
            assert_eq!(record.addr, [0xAA, 0xBB, 0xCC, 0xDD, 0xEE, 0xFF]);
            assert_eq!(record.device_id, "raspi-0");
            assert_eq!(record.time_stamp, 101);
            assert_eq!(record.name, Some("tag".to_string()));
            assert_eq!(record.tx_power, Some(8));
            assert_eq!(record.rssi, -67);
            assert_eq!(record.company_identifier, Some(0x004C));
            assert_eq!(record.manufacture_payload, Some(vec![0x10, 0x05]));
        },
        _ => panic!("the query's end asks for a record"),
    }
    assert_eq!(scanner.pending(), None);
    assert!(scanner.subscriptions().is_empty());
}

#[test]
fn low_energy_scan_with_allow_list_records_only_the_listed_device() {
    let mut scanner = scanner(&["scan", "--le", "AA:BB:CC:DD:EE:FF"]);
    assert_eq!(scanner.filter().transport(), Transport::Le);
    assert_eq!(scanner.mode(), QueryMode::Summary);
    let mut log: Vec<u8> = Vec::new();
    let mut printed = 0;
    for address in [other(), listed()] {
        let mut actions = scanner.step(Event::DeviceAdded(address), 9);
        if actions.iter().any(|action| matches!(action, Action::Query(..))) {
            actions.extend(scanner.step(Event::QueryFinished(QueryResult::Summary(snapshot())), 9));
        }
        for action in actions {
            match action {
                Action::Persist(record) => append(&mut log, &record.addr.to_vec()),
                Action::AnnounceAdded(announced) => {
                    assert_eq!(announced, listed());
                    printed += 1;
                },
                Action::Query(queried, _) => assert_eq!(queried, listed()),
                _ => panic!("nothing else is asked for"),
            }
        }
    }
    assert_eq!(printed, 1);
    assert_eq!(log, vec![0xAA, 0xBB, 0xCC, 0xDD, 0xEE, 0xFF, b',']);
}

#[test]
fn all_properties_dumps_and_never_appends() {
    for args in [&["--all-properties"][..], &["--all-properties", "AA:BB:CC:DD:EE:FF"][..]] {
        let mut scanner = scanner(args);
        let asked = scanner.step(Event::DeviceAdded(listed()), 5);
        assert_eq!(asked.len(), 2);
        assert!(matches!(&asked[0], Action::AnnounceAdded(address) if *address == listed()));
        assert!(matches!(&asked[1],
            Action::Query(address, QueryMode::FullDump) if *address == listed()));
        let done = scanner.step(Event::QueryFinished(QueryResult::Dumped), 6);
        assert!(done.is_empty());
        assert_eq!(appends(&asked) + appends(&done), 0);
    }
}

#[test]
fn all_properties_ignores_a_summary_result() {
    let mut scanner = scanner(&["--all-properties"]);
    scanner.step(Event::DeviceAdded(listed()), 5);
    let done = scanner.step(Event::QueryFinished(QueryResult::Summary(snapshot())), 6);
    assert!(done.is_empty());
    assert_eq!(scanner.pending(), None);
}

#[test]
fn changes_mode_announces_the_add_and_the_later_change() {
    let mut scanner = scanner(&["--changes"]);
    let asked = scanner.step(Event::DeviceAdded(listed()), 1);
    assert!(matches!(&asked[0], Action::AnnounceAdded(address) if *address == listed()));
    let done = scanner.step(Event::QueryFinished(QueryResult::Summary(snapshot())), 2);
    assert_eq!(done.len(), 2);
    assert!(matches!(&done[0], Action::Persist(record) if record.addr == listed().octets));
    assert!(matches!(&done[1], Action::Subscribe(address) if *address == listed()));
    assert_eq!(scanner.subscribing(), Some(listed()));
    assert!(scanner.subscriptions().is_empty());
    assert!(scanner.step(Event::Subscribed, 2).is_empty());
    assert_eq!(scanner.subscribing(), None);
    assert_eq!(scanner.subscriptions(), &vec![listed()]);

    let changed = scanner.step(Event::PropertyChanged(listed()), 3);
    assert_eq!(changed.len(), 1);
    assert!(matches!(&changed[0], Action::AnnounceChanged(address) if *address == listed()));
    assert_eq!(scanner.subscriptions(), &vec![listed()]);
}

#[test]
fn removal_keeps_the_subscription_and_later_changes_are_announced() {
    let mut scanner = scanner(&["--changes"]);
    scanner.step(Event::DeviceAdded(listed()), 1);
    scanner.step(Event::QueryFinished(QueryResult::Summary(snapshot())), 2);
    scanner.step(Event::Subscribed, 2);
    scanner.step(Event::DeviceAdded(other()), 3);
    scanner.step(Event::QueryFinished(QueryResult::Failed("gone".to_string())), 4);
    scanner.step(Event::Subscribed, 4);
    assert_eq!(scanner.subscriptions(), &vec![listed(), other()]);

    let removed = scanner.step(Event::DeviceRemoved(listed()), 5);
    assert_eq!(removed.len(), 1);
    assert!(matches!(&removed[0], Action::AnnounceRemoved(address) if *address == listed()));
    assert_eq!(scanner.subscriptions(), &vec![listed(), other()]);

    let changed = scanner.step(Event::PropertyChanged(listed()), 6);
    assert_eq!(changed.len(), 1);
    assert!(matches!(&changed[0], Action::AnnounceChanged(address) if *address == listed()));
    assert_eq!(scanner.subscriptions(), &vec![listed(), other()]);
}

#[test]
fn failed_query_is_reported_and_appends_nothing() {
    let mut scanner = scanner(&["--changes"]);
    scanner.step(Event::DeviceAdded(listed()), 1);
    let done = scanner.step(Event::QueryFinished(QueryResult::Failed("device vanished".to_string())), 2);
    assert_eq!(done.len(), 2);
    assert!(matches!(&done[0], Action::Report(message) if message == "device vanished"));
    assert!(matches!(&done[1], Action::Subscribe(address) if *address == listed()));
    assert_eq!(appends(&done), 0);
    assert_eq!(scanner.pending(), None);

    let next = scanner.step(Event::DeviceAdded(other()), 3);
    assert_eq!(next.len(), 2);
}

#[test]
fn failed_query_without_changes_only_reports() {
    let mut scanner = scanner(&[]);
    scanner.step(Event::DeviceAdded(listed()), 1);
    let done = scanner.step(Event::QueryFinished(QueryResult::Failed("timeout".to_string())), 2);
    assert_eq!(done.len(), 1);
    assert!(matches!(&done[0], Action::Report(message) if message == "timeout"));
    assert!(scanner.subscriptions().is_empty());
}

#[test]
fn query_end_without_a_query_is_ignored() {
    let mut scanner = scanner(&["--changes"]);
    let done = scanner.step(Event::QueryFinished(QueryResult::Summary(snapshot())), 2);
    assert!(done.is_empty());
    assert!(scanner.subscriptions().is_empty());
    let again = scanner.step(Event::QueryFinished(QueryResult::Failed("late".to_string())), 3);
    assert!(again.is_empty());
}

#[test]
fn other_adapter_events_are_silent() {
    let mut scanner = scanner(&["--changes"]);
    assert!(scanner.step(Event::AdapterOther, 1).is_empty());
    scanner.step(Event::DeviceAdded(listed()), 2);
    assert!(scanner.step(Event::AdapterOther, 3).is_empty());
    assert_eq!(scanner.pending(), Some(listed()));
}

#[test]
fn removal_is_announced_without_a_filter_check() {
    let mut scanner = scanner(&["AA:BB:CC:DD:EE:FF"]);
    let removed = scanner.step(Event::DeviceRemoved(other()), 1);
    assert_eq!(removed.len(), 1);
    assert!(matches!(&removed[0], Action::AnnounceRemoved(address) if *address == other()));
    let changed = scanner.step(Event::PropertyChanged(other()), 2);
    assert_eq!(changed.len(), 1);
    assert!(matches!(&changed[0], Action::AnnounceChanged(address) if *address == other()));
}

#[test]
fn without_changes_nothing_is_subscribed() {
    let mut scanner = scanner(&["--le"]);
    scanner.step(Event::DeviceAdded(listed()), 1);
    let done = scanner.step(Event::QueryFinished(QueryResult::Summary(snapshot())), 2);
    assert_eq!(done.len(), 1);
    assert!(scanner.subscriptions().is_empty());
}

#[test]
fn same_device_seen_twice_is_subscribed_twice() {
    let mut scanner = scanner(&["--changes", "--all-properties"]);
    for round in 0..2 {
        scanner.step(Event::DeviceAdded(listed()), round);
        let done = scanner.step(Event::QueryFinished(QueryResult::Dumped), round);
        assert_eq!(done.len(), 1);
        assert!(matches!(&done[0], Action::Subscribe(address) if *address == listed()));
        assert!(scanner.step(Event::Subscribed, round).is_empty());
    }
    assert_eq!(scanner.subscriptions(), &vec![listed(), listed()]);
}

#[test]
fn handle_stamps_records_with_the_wall_clock() {
    let before = std::time::SystemTime::now()
        .duration_since(std::time::UNIX_EPOCH)
        .unwrap()
        .as_secs() as i64;
    let mut scanner = scanner(&[]);
    let asked = scanner.handle(Event::DeviceAdded(listed()));
    assert_eq!(asked.len(), 2);
    let done = scanner.handle(Event::QueryFinished(QueryResult::Summary(snapshot())));
    let after = std::time::SystemTime::now()
        .duration_since(std::time::UNIX_EPOCH)
        .unwrap()
        .as_secs() as i64;
    assert_eq!(done.len(), 1);
    match &done[0] {
        Action::Persist(record) => {
            assert!(before <= record.time_stamp && record.time_stamp <= after);
            assert_eq!(record.addr, listed().octets);
        },
        _ => panic!("the query's end asks for a record"),
    }
}

#[test]
fn each_accepted_device_adds_one_framed_record_to_the_log() {
    let mut scanner = scanner(&["AA:BB:CC:DD:EE:FF", "11:22:33:44:55:66"]);
    let mut log: Vec<u8> = Vec::new();
    let mut records = 0;
    for (n, address) in [listed(), Address::new([9; 6]), other()].into_iter().enumerate() {
        let mut actions = scanner.step(Event::DeviceAdded(address), n as i64);
        if !actions.is_empty() {
            actions.extend(scanner.step(Event::QueryFinished(QueryResult::Summary(snapshot())), n as i64));
        }
        for action in actions {
            if let Action::Persist(record) = action {
                append(&mut log, &record.addr.to_vec());
                records += 1;
            }
        }
    }
    assert_eq!(records, 2);
    assert_eq!(
        log,
        vec![0xAA, 0xBB, 0xCC, 0xDD, 0xEE, 0xFF, b',', 0x11, 0x22, 0x33, 0x44, 0x55, 0x66, b',']
    );
}

#[test]
fn failed_subscription_is_reported_and_not_registered() {
    let mut scanner = scanner(&["--changes"]);
    scanner.step(Event::DeviceAdded(listed()), 1);
    let done = scanner.step(Event::QueryFinished(QueryResult::Summary(snapshot())), 2);
    assert!(matches!(done.last(), Some(Action::Subscribe(address)) if *address == listed()));

    let failed = scanner.step(Event::SubscribeFailed("no such device".to_string()), 3);
    assert_eq!(failed.len(), 1);
    assert!(matches!(&failed[0], Action::Report(message) if message == "no such device"));
    assert_eq!(appends(&failed), 0);
    assert_eq!(scanner.subscribing(), None);
    assert!(scanner.subscriptions().is_empty());
}

#[test]
fn events_after_a_failed_subscription_are_still_handled() {
    let mut scanner = scanner(&["--changes"]);
    scanner.step(Event::DeviceAdded(listed()), 1);
    scanner.step(Event::QueryFinished(QueryResult::Summary(snapshot())), 2);
    scanner.step(Event::SubscribeFailed("busy".to_string()), 3);

    let asked = scanner.step(Event::DeviceAdded(other()), 4);
    assert_eq!(asked.len(), 2);
    let done = scanner.step(Event::QueryFinished(QueryResult::Summary(snapshot())), 5);
    assert_eq!(appends(&done), 1);
    assert!(scanner.step(Event::Subscribed, 6).is_empty());
    assert_eq!(scanner.subscriptions(), &vec![other()]);
    let removed = scanner.step(Event::DeviceRemoved(listed()), 7);
    assert_eq!(removed.len(), 1);
}

#[test]
fn subscription_outcome_without_a_subscription_is_ignored() {
    let mut scanner = scanner(&["--changes"]);
    assert!(scanner.step(Event::Subscribed, 1).is_empty());
    assert!(scanner.step(Event::SubscribeFailed("late".to_string()), 2).is_empty());
    assert!(scanner.subscriptions().is_empty());

    scanner.step(Event::DeviceAdded(listed()), 3);
    scanner.step(Event::QueryFinished(QueryResult::Dumped), 4);
    assert!(scanner.step(Event::Subscribed, 5).is_empty());
    assert!(scanner.step(Event::Subscribed, 6).is_empty());
    assert_eq!(scanner.subscriptions(), &vec![listed()]);
}

#[test]
fn stamps_only_the_end_of_a_summary_query() {
    let mut scanner = scanner(&[]);
    assert!(!scanner.stamps(&Event::DeviceAdded(listed())));
    assert!(!scanner.stamps(&Event::QueryFinished(QueryResult::Summary(snapshot()))));
    scanner.step(Event::DeviceAdded(listed()), 1);
    assert!(scanner.stamps(&Event::QueryFinished(QueryResult::Summary(snapshot()))));
    assert!(!scanner.stamps(&Event::QueryFinished(QueryResult::Dumped)));
    assert!(!scanner.stamps(&Event::QueryFinished(QueryResult::Failed("x".to_string()))));
    assert!(!scanner.stamps(&Event::DeviceRemoved(listed())));
    assert!(!scanner.stamps(&Event::Subscribed));
}

#[test]
fn stamps_nothing_while_every_property_is_dumped() {
    let mut scanner = scanner(&["--all-properties"]);
    scanner.step(Event::DeviceAdded(listed()), 1);
    assert!(!scanner.stamps(&Event::QueryFinished(QueryResult::Summary(snapshot()))));
}

#[test]
fn handle_reacts_as_step_does_where_no_record_is_stamped() {
    let mut by_clock = scanner(&["--changes", "AA:BB:CC:DD:EE:FF"]);
    let mut by_hand = scanner(&["--changes", "AA:BB:CC:DD:EE:FF"]);
    let events = vec![
        Event::DeviceAdded(other()),
        Event::DeviceAdded(listed()),
        Event::QueryFinished(QueryResult::Failed("gone".to_string())),
        Event::SubscribeFailed("gone".to_string()),
        Event::DeviceRemoved(listed()),
        Event::PropertyChanged(listed()),
        Event::AdapterOther,
    ];
    let expected = [0, 2, 2, 1, 1, 1, 0];
    for (event, count) in events.into_iter().zip(expected) {
        let left = by_clock.handle(event.clone());
        let right = by_hand.step(event, 0);
        assert_eq!(left.len(), count);
        assert_eq!(right.len(), count);
        assert_eq!(by_clock.pending(), by_hand.pending());
        assert_eq!(by_clock.subscribing(), by_hand.subscribing());
        assert_eq!(by_clock.subscriptions(), by_hand.subscriptions());
    }
}
