use pinemonitor::ble::{BleCommand, BleEvent};
use pinemonitor::driver::Driver;
use pinemonitor::monitor::{PinemonitorView, Screen, SETPOINT_STEP};
use pinemonitor::panel::PanelBody;
use pinemonitor::pinecil::{build_info_uuid, setting_uuid, settings_save_uuid};
use pinemonitor::protocol::{Action, Input};

/// A driver and a monitor that takes note of its reports at once.
struct Pair {
    driver: Driver,
    monitor: PinemonitorView,
}

impl Pair {
    fn tell(&mut self, input: Input) {
        let reports: Vec<BleEvent> = self.driver.step(0, input);
        self.monitor.drain_events(reports);
    }

    fn connected() -> Pair {
        let mut pair = Pair { driver: Driver::new(), monitor: PinemonitorView::new() };
        pair.tell(Input::ManagerOpened);
        pair.tell(Input::Adapters(1));
        pair.tell(Input::Done(true));
        pair.tell(Input::NoCommand);
        pair.tell(Input::Peripherals(vec!["a".to_string()]));
        pair.tell(Input::Name(Some("Pinecil-A".to_string())));
        pair.tell(Input::Done(true));
        let row = pair.monitor.view_scan().rows.remove(0);
        let command = pair.monitor.connect(&row.id, row.can_connect).unwrap();
        pair.tell(Input::Command(command));
        pair.tell(Input::Peripherals(vec!["a".to_string()]));
        pair.tell(Input::Done(true));
        pair.tell(Input::Done(true));
        pair.tell(Input::Name(Some("Pinecil-A".to_string())));
        pair.tell(Input::Characteristics(vec![build_info_uuid()]));
        pair.tell(Input::Value(Some(b"2.23".to_vec())));
        pair.tell(Input::Done(true));
        pair
    }
}

#[test]
fn monitor_follows_the_driver() {
    let pair = Pair::connected();
    assert_eq!(pair.monitor.render(), Screen::Dashboard);
    let panel = pair.monitor.render_device_panel("a").unwrap();
    assert_eq!(panel.name, "Pinecil-A");
    assert!(matches!(panel.body, PanelBody::Waiting(_)));
    assert!(matches!(pair.driver.action(), Action::ReceiveCommand));
}

#[test]
fn changed_setpoint_reaches_the_iron() {
    let mut pair = Pair::connected();
    let command = pair.monitor.adjust_setpoint("a", SETPOINT_STEP).unwrap();
    pair.tell(Input::Command(command));
    pair.tell(Input::Characteristics(vec![setting_uuid(0), settings_save_uuid()]));
    match pair.driver.action() {
        Action::WriteCharacteristic(_, 0, bytes) => assert_eq!(bytes, 355u16.to_le_bytes()),
        _ => panic!("no write"),
    }
    pair.tell(Input::Done(true));
    assert!(matches!(pair.driver.action(), Action::WriteCharacteristic(_, 1, _)));
}

#[test]
fn user_disconnect_is_followed() {
    let mut pair = Pair::connected();
    let command = pair.monitor.disconnect("a");
    assert!(matches!(&command, BleCommand::Disconnect(id) if id == "a"));
    assert!(pair.monitor.render_device_panel("a").is_none());
    pair.tell(Input::Command(command));
    pair.tell(Input::Done(true));
    assert_eq!(pair.monitor.render(), Screen::Scan);
    assert_eq!(pair.monitor.view_scan().rows[0].button_label, "Connect →");
}
