use pinemonitor::ble::{BleCommand, BleEvent};
use pinemonitor::driver::{device_name, handshake_events, is_pinecil, live_events, Driver};
use pinemonitor::pinecil::{build_info_uuid, live_data_uuid, setting_uuid, settings_save_uuid};
use pinemonitor::protocol::{Action, Input, Target};

const SECOND: u64 = 1_000_000_000;

fn ids(names: &[&str]) -> Vec<String> {
    names.iter().map(|n| n.to_string()).collect()
}

fn name(text: &str) -> Input {
    Input::Name(Some(text.to_string()))
}

fn frame(tip: u32) -> Vec<u8> {
    let mut bytes = vec![0u8; 56];
    bytes[..4].copy_from_slice(&tip.to_le_bytes());
    bytes
}

fn show(events: &[BleEvent]) -> Vec<String> {
    events
        .iter()
        .map(|e| match e {
            BleEvent::DeviceFound(d) => format!("found {} {}", d.id, d.name),
            BleEvent::DeviceLost(id) => format!("lost {}", id),
            BleEvent::Connected(id, name) => format!("connected {} {}", id, name),
            BleEvent::ConnectFailed(id) => format!("failed {}", id),
            BleEvent::Disconnected(id) => format!("disconnected {}", id),
            BleEvent::LiveData(id, data) => format!("live {} {}", id, data.tip_temp),
            BleEvent::BuildInfo(id, info) => format!("build {} {}", id, info),
            BleEvent::ScanTick => "tick".to_string(),
            BleEvent::Error(msg) => format!("error {}", msg),
        })
        .collect()
}

fn tell(driver: &mut Driver, now: u64, input: Input) -> Vec<String> {
    show(&driver.step(now, input))
}

/// A driver that takes commands and has scanned nothing yet.
fn receiving() -> Driver {
    let mut driver = Driver::new();
    assert!(matches!(driver.action(), Action::OpenManager));
    assert!(tell(&mut driver, 0, Input::ManagerOpened).is_empty());
    assert!(matches!(driver.action(), Action::ListAdapters));
    assert!(tell(&mut driver, 0, Input::Adapters(1)).is_empty());
    assert!(matches!(driver.action(), Action::StartScan));
    assert!(tell(&mut driver, 0, Input::Done(false)).is_empty());
    assert!(matches!(driver.action(), Action::ReceiveCommand));
    driver
}

/// Connects an iron without a build text.
fn connect(driver: &mut Driver, id: &str) {
    tell(driver, 0, Input::Command(BleCommand::Connect(id.to_string())));
    tell(driver, 0, Input::Peripherals(ids(&[id])));
    tell(driver, 0, Input::Done(true));
    tell(driver, 0, Input::Done(true));
    tell(driver, 0, Input::Name(None));
    let events = tell(driver, 0, Input::Characteristics(vec![]));
    assert_eq!(events, [format!("connected {} Pinecil", id)]);
    assert!(matches!(driver.action(), Action::Keep(0, kept) if kept == id));
    tell(driver, 0, Input::Done(true));
    assert!(matches!(driver.action(), Action::ReceiveCommand));
}

#[test]
fn manager_failure_is_an_error() {
    let mut driver = Driver::new();
    let events = tell(&mut driver, 0, Input::ManagerFailed("no bus".to_string()));
    assert_eq!(events, ["error BLE manager: no bus"]);
    assert!(matches!(driver.action(), Action::Stop));
    assert!(tell(&mut driver, 0, Input::ManagerOpened).is_empty());
    assert!(matches!(driver.action(), Action::Stop));
}

#[test]
fn missing_adapter_is_an_error() {
    let mut driver = Driver::new();
    tell(&mut driver, 0, Input::ManagerOpened);
    let events = tell(&mut driver, 0, Input::Adapters(0));
    assert_eq!(events, ["error No BLE adapter found"]);
    assert!(matches!(driver.action(), Action::Stop));
}

#[test]
fn closed_commands_stop_the_driver() {
    let mut driver = receiving();
    assert!(tell(&mut driver, 0, Input::CommandsClosed).is_empty());
    assert!(matches!(driver.action(), Action::Stop));
}

#[test]
fn connection_with_build_text() {
    let mut driver = receiving();
    tell(&mut driver, 0, Input::Command(BleCommand::Connect("b".to_string())));
    assert!(matches!(driver.action(), Action::ListPeripherals));
    tell(&mut driver, 0, Input::Peripherals(ids(&["a", "b", "b"])));
    assert!(matches!(driver.action(), Action::Connect(1)));
    tell(&mut driver, 0, Input::Done(true));
    assert!(matches!(driver.action(), Action::DiscoverServices(1)));
    tell(&mut driver, 0, Input::Done(true));
    assert!(matches!(driver.action(), Action::ReadName(1)));
    tell(&mut driver, 0, name("Pinecil-1234"));
    assert!(matches!(driver.action(), Action::ListCharacteristics(Target::Listed(1))));
    tell(&mut driver, 0, Input::Characteristics(vec![5, 6, build_info_uuid()]));
    assert!(matches!(driver.action(), Action::ReadCharacteristic(Target::Listed(1), 2)));
    let events = tell(&mut driver, 0, Input::Value(Some(vec![0x32, 0x2e, 0xc3, 0xbc, 0xff])));
    assert_eq!(events, ["build b 2.ü\u{fffd}", "connected b Pinecil-1234"]);
    assert!(matches!(driver.action(), Action::Keep(1, id) if id == "b"));
    assert!(tell(&mut driver, 0, Input::Done(true)).is_empty());
    assert!(matches!(driver.action(), Action::ReceiveCommand));
}

#[test]
fn unreadable_build_text_is_left_out() {
    let mut driver = receiving();
    tell(&mut driver, 0, Input::Command(BleCommand::Connect("b".to_string())));
    tell(&mut driver, 0, Input::Peripherals(ids(&["b"])));
    tell(&mut driver, 0, Input::Done(true));
    tell(&mut driver, 0, Input::Done(true));
    tell(&mut driver, 0, Input::Name(None));
    tell(&mut driver, 0, Input::Characteristics(vec![build_info_uuid()]));
    let events = tell(&mut driver, 0, Input::Value(None));
    assert_eq!(events, ["connected b Pinecil"]);
}

#[test]
fn connection_failures_are_answered() {
    let connecting = || {
        let mut driver = receiving();
        tell(&mut driver, 0, Input::Command(BleCommand::Connect("b".to_string())));
        driver
    };
    let mut driver = connecting();
    assert_eq!(tell(&mut driver, 0, Input::Peripherals(ids(&["a"]))), ["failed b"]);
    assert!(matches!(driver.action(), Action::ReceiveCommand));
    let mut driver = connecting();
    tell(&mut driver, 0, Input::Peripherals(ids(&["b"])));
    assert_eq!(tell(&mut driver, 0, Input::Done(false)), ["failed b"]);
    assert!(matches!(driver.action(), Action::ReceiveCommand));
    let mut driver = connecting();
    tell(&mut driver, 0, Input::Peripherals(ids(&["b"])));
    tell(&mut driver, 0, Input::Done(true));
    assert_eq!(tell(&mut driver, 0, Input::Done(false)), ["failed b"]);
    assert!(matches!(driver.action(), Action::ReceiveCommand));
}

#[test]
fn connecting_twice_changes_nothing() {
    let mut driver = receiving();
    connect(&mut driver, "a");
    let events = tell(&mut driver, 0, Input::Command(BleCommand::Connect("a".to_string())));
    assert!(events.is_empty());
    assert!(matches!(driver.action(), Action::ReceiveCommand));
}

#[test]
fn disconnect_closes_then_reports() {
    let mut driver = receiving();
    connect(&mut driver, "a");
    let events = tell(&mut driver, 0, Input::Command(BleCommand::Disconnect("a".to_string())));
    assert!(events.is_empty());
    assert!(matches!(driver.action(), Action::Close(id) if id == "a"));
    assert_eq!(tell(&mut driver, 0, Input::Done(false)), ["disconnected a"]);
    let events = tell(&mut driver, 0, Input::Command(BleCommand::Disconnect("a".to_string())));
    assert!(events.is_empty());
    assert!(matches!(driver.action(), Action::ReceiveCommand));
}

#[test]
fn temperature_is_written_then_saved() {
    let mut driver = receiving();
    connect(&mut driver, "a");
    tell(&mut driver, 0, Input::Command(BleCommand::SetTemperature("a".to_string(), 0x0165)));
    assert!(matches!(driver.action(), Action::ListCharacteristics(Target::Kept(id)) if id == "a"));
    tell(
        &mut driver,
        0,
        Input::Characteristics(vec![1, settings_save_uuid(), 2, setting_uuid(0)]),
    );
    match driver.action() {
        Action::WriteCharacteristic(Target::Kept(id), 3, bytes) => {
            assert_eq!(id, "a");
            assert_eq!(bytes, [0x65, 0x01]);
        }
        _ => panic!("no write"),
    }
    tell(&mut driver, 0, Input::Done(false));
    match driver.action() {
        Action::WriteCharacteristic(Target::Kept(id), 1, bytes) => {
            assert_eq!(id, "a");
            assert_eq!(bytes, [1, 0]);
        }
        _ => panic!("no save"),
    }
    tell(&mut driver, 0, Input::Done(true));
    assert!(matches!(driver.action(), Action::ReceiveCommand));
}

#[test]
fn missing_settings_are_passed_over() {
    let set = |uuids: Vec<u128>| {
        let mut driver = receiving();
        connect(&mut driver, "a");
        tell(&mut driver, 0, Input::Command(BleCommand::SetTemperature("a".to_string(), 300)));
        tell(&mut driver, 0, Input::Characteristics(uuids));
        driver
    };
    assert!(matches!(set(vec![]).action(), Action::ReceiveCommand));
    assert!(matches!(
        set(vec![settings_save_uuid()]).action(),
        Action::WriteCharacteristic(_, 0, bytes) if bytes == [1, 0]
    ));
    let mut driver = set(vec![setting_uuid(0)]);
    assert!(matches!(
        driver.action(),
        Action::WriteCharacteristic(_, 0, bytes) if bytes == [44, 1]
    ));
    tell(&mut driver, 0, Input::Done(true));
    assert!(matches!(driver.action(), Action::ReceiveCommand));
    let mut driver = receiving();
    tell(&mut driver, 0, Input::Command(BleCommand::SetTemperature("a".to_string(), 300)));
    assert!(matches!(driver.action(), Action::ReceiveCommand));
}

#[test]
fn scan_finds_irons_once() {
    let mut driver = receiving();
    tell(&mut driver, 0, Input::NoCommand);
    assert!(matches!(driver.action(), Action::ListPeripherals));
    assert!(tell(&mut driver, 0, Input::Peripherals(ids(&["a", "b", "c"]))).is_empty());
    assert!(matches!(driver.action(), Action::ReadName(0)));
    assert_eq!(tell(&mut driver, 0, name("Pinecil-A")), ["found a Pinecil-A"]);
    assert!(matches!(driver.action(), Action::ReadName(1)));
    assert!(tell(&mut driver, 0, name("Headphones")).is_empty());
    assert_eq!(tell(&mut driver, 0, Input::Name(None)), ["found c Pinecil", "tick"]);
    assert!(matches!(driver.action(), Action::Pause));
    tell(&mut driver, 0, Input::Done(true));
    tell(&mut driver, 5 * SECOND, Input::NoCommand);
    tell(&mut driver, 5 * SECOND, Input::Peripherals(ids(&["a"])));
    assert_eq!(tell(&mut driver, 5 * SECOND, name("Pinecil-A")), ["tick"]);
}

#[test]
fn scans_are_spaced() {
    let mut driver = receiving();
    tell(&mut driver, 7, Input::NoCommand);
    assert_eq!(tell(&mut driver, 7, Input::Peripherals(vec![])), ["tick"]);
    tell(&mut driver, 7, Input::Done(true));
    tell(&mut driver, 6 + 5 * SECOND, Input::NoCommand);
    assert!(matches!(driver.action(), Action::Pause));
    tell(&mut driver, 6 + 5 * SECOND, Input::Done(true));
    tell(&mut driver, 7 + 5 * SECOND, Input::NoCommand);
    assert!(matches!(driver.action(), Action::ListPeripherals));
}

#[test]
fn silent_irons_are_lost() {
    let mut driver = receiving();
    connect(&mut driver, "b");
    let poll = |driver: &mut Driver, now: u64| {
        tell(driver, now, Input::Characteristics(vec![]));
        assert!(matches!(driver.action(), Action::Pause));
        tell(driver, now, Input::Done(true));
    };
    tell(&mut driver, 0, Input::NoCommand);
    tell(&mut driver, 0, Input::Peripherals(ids(&["a", "b", "c"])));
    tell(&mut driver, 0, name("Pinecil-A"));
    tell(&mut driver, 0, name("Pinecil-B"));
    tell(&mut driver, 1, name("Pinecil-C"));
    poll(&mut driver, 1);
    tell(&mut driver, 10 * SECOND, Input::NoCommand);
    assert_eq!(tell(&mut driver, 10 * SECOND, Input::Peripherals(vec![])), ["tick"]);
    poll(&mut driver, 10 * SECOND);
    tell(&mut driver, 15 * SECOND, Input::NoCommand);
    let events = tell(&mut driver, 15 * SECOND, Input::Peripherals(vec![]));
    assert_eq!(events, ["lost a", "lost c", "tick"]);
    poll(&mut driver, 15 * SECOND);
    tell(&mut driver, 20 * SECOND, Input::NoCommand);
    tell(&mut driver, 20 * SECOND, Input::Peripherals(ids(&["a"])));
    let events = tell(&mut driver, 20 * SECOND, name("Pinecil-A"));
    assert_eq!(events, ["found a Pinecil-A", "tick"]);
}

#[test]
fn exactly_ten_seconds_is_not_lost() {
    let mut driver = receiving();
    tell(&mut driver, 0, Input::NoCommand);
    tell(&mut driver, 0, Input::Peripherals(ids(&["a"])));
    tell(&mut driver, 0, name("Pinecil"));
    tell(&mut driver, 0, Input::Done(true));
    tell(&mut driver, 10 * SECOND, Input::NoCommand);
    assert_eq!(tell(&mut driver, 10 * SECOND, Input::Peripherals(vec![])), ["tick"]);
    tell(&mut driver, 10 * SECOND, Input::Done(true));
    tell(&mut driver, 15 * SECOND, Input::NoCommand);
    let events = tell(&mut driver, 10 * SECOND + 1, Input::Peripherals(vec![]));
    assert_eq!(events, ["lost a", "tick"]);
}

#[test]
fn every_connected_iron_is_polled() {
    let mut driver = receiving();
    connect(&mut driver, "a");
    connect(&mut driver, "b");
    connect(&mut driver, "c");
    tell(&mut driver, 0, Input::NoCommand);
    assert_eq!(tell(&mut driver, 0, Input::Peripherals(vec![])), ["tick"]);
    assert!(matches!(driver.action(), Action::ListCharacteristics(Target::Kept(id)) if id == "a"));
    tell(&mut driver, 0, Input::Characteristics(vec![9, live_data_uuid()]));
    assert!(matches!(driver.action(), Action::ReadCharacteristic(Target::Kept(id), 1) if id == "a"));
    assert_eq!(tell(&mut driver, 0, Input::Value(Some(frame(312)))), ["live a 312"]);
    tell(&mut driver, 0, Input::Characteristics(vec![live_data_uuid()]));
    assert!(tell(&mut driver, 0, Input::Value(None)).is_empty());
    assert!(matches!(driver.action(), Action::Close(id) if id == "b"));
    assert_eq!(tell(&mut driver, 0, Input::Done(true)), ["disconnected b"]);
    tell(&mut driver, 0, Input::Characteristics(vec![live_data_uuid()]));
    assert!(tell(&mut driver, 0, Input::Value(Some(frame(0)))).is_empty());
    assert!(matches!(driver.action(), Action::Pause));
    tell(&mut driver, 0, Input::Done(true));
    tell(&mut driver, 1, Input::NoCommand);
    assert!(matches!(driver.action(), Action::ListCharacteristics(Target::Kept(id)) if id == "a"));
    tell(&mut driver, 1, Input::Characteristics(vec![]));
    assert!(matches!(driver.action(), Action::ListCharacteristics(Target::Kept(id)) if id == "c"));
}

#[test]
fn unexpected_answers_are_passed_over() {
    let mut driver = receiving();
    assert!(tell(&mut driver, 0, Input::Value(None)).is_empty());
    assert!(tell(&mut driver, 0, Input::Done(true)).is_empty());
    assert!(tell(&mut driver, 0, Input::Peripherals(ids(&["a"]))).is_empty());
    assert!(matches!(driver.action(), Action::ReceiveCommand));
}

#[test]
fn names() {
    assert_eq!(device_name(None), "Pinecil");
    assert_eq!(device_name(Some("Iron".to_string())), "Iron");
    assert!(is_pinecil(&"Pinecil".to_string()));
    assert!(is_pinecil(&"Pinecil-ABCDEF".to_string()));
    assert!(!is_pinecil(&"pinecil".to_string()));
    assert!(!is_pinecil(&"Pineci".to_string()));
    assert!(!is_pinecil(&"".to_string()));
}

#[test]
fn event_helpers() {
    let id = "x".to_string();
    let events = handshake_events(&id, "N".to_string(), Some("v".to_string()));
    assert_eq!(show(&events), ["build x v", "connected x N"]);
    assert_eq!(show(&handshake_events(&id, "N".to_string(), None)), ["connected x N"]);
    assert_eq!(show(&live_events(&id, &frame(5))), ["live x 5"]);
    assert!(live_events(&id, &frame(0)).is_empty());
}
