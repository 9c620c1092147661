use pinemonitor::ble::{BleCommand, BleEvent, FoundDevice};
use pinemonitor::monitor::{PinemonitorView, Screen};
use pinemonitor::palette::{
    live_dot_color, mode_colors, tip_color, C_BG, C_BLUE, C_BLUE_BTN, C_GREEN, C_GREEN_BG,
    C_GREEN_DARK, C_LAYER1, C_LAYER2, C_LAYER3, C_ORANGE, C_RED, C_TEXT, C_TEXT2, C_TEXT3, C_WHITE,
    C_YELLOW,
};
use pinemonitor::panel::{LivePanel, PanelBody};
use pinemonitor::pinecil::{LiveData, OperatingMode};
use pinemonitor::screens::{pulse_color, scan_dots};

fn s(text: &str) -> String {
    text.to_string()
}

fn found(id: &str, name: &str) -> BleEvent {
    BleEvent::DeviceFound(FoundDevice { name: s(name), id: s(id) })
}

fn connected(id: &str) -> BleEvent {
    BleEvent::Connected(s(id), format!("Pinecil-{}", id))
}

fn reading(words: [u32; 14]) -> LiveData {
    let mut bytes = Vec::new();
    for w in words {
        bytes.extend_from_slice(&w.to_le_bytes());
    }
    LiveData::from_bulk(&bytes).unwrap()
}

fn sample() -> LiveData {
    reading([320, 350, 204, 312, 42, 3, 65, 3723, 61, 450, 1, 2, 1, 253])
}

fn with_setpoint(setpoint: u32) -> LiveData {
    let mut live = sample();
    live.setpoint = setpoint;
    live
}

fn live(id: &str, data: LiveData) -> BleEvent {
    BleEvent::LiveData(s(id), Box::new(data))
}

fn monitor(events: Vec<BleEvent>) -> PinemonitorView {
    let mut view = PinemonitorView::new();
    view.drain_events(events);
    view
}

fn setpoint(view: &PinemonitorView, id: &str) -> String {
    view.render_device_panel(id).unwrap().setpoint.value
}

fn live_panel(view: &PinemonitorView, id: &str) -> LivePanel {
    match view.render_device_panel(id).unwrap().body {
        PanelBody::Live(panel) => panel,
        PanelBody::Waiting(_) => panic!("no readings"),
    }
}

#[test]
fn starts_on_the_scanner() {
    let view = PinemonitorView::new();
    assert_eq!(view.render(), Screen::Scan);
    let scan = view.view_scan();
    assert_eq!(scan.hint, "Looking for nearby Pinecil devices");
    assert_eq!(scan.footer, "0/2 connected");
    assert_eq!(scan.dots, "");
    assert_eq!(scan.pulse_color, C_GREEN);
    assert!(!scan.has_connected);
    assert!(scan.rows.is_empty());
    assert_eq!(view.view_error(), "");
}

#[test]
fn found_irons_are_listed_once() {
    let view = monitor(vec![found("a", "A"), found("b", "B"), found("a", "A2")]);
    let rows = view.view_scan().rows;
    assert_eq!(rows.len(), 2);
    assert_eq!((rows[0].id.as_str(), rows[0].name.as_str()), ("a", "A"));
    assert_eq!((rows[1].id.as_str(), rows[1].name.as_str()), ("b", "B"));
    assert_eq!(view.view_scan().hint, "Tap a device to connect  ·  max 2");
}

#[test]
fn lost_irons_leave_list_and_attempt() {
    let mut view = monitor(vec![found("a", "A"), found("b", "B")]);
    assert!(matches!(view.connect("a", true), Some(BleCommand::Connect(id)) if id == "a"));
    assert_eq!(view.view_scan().footer, "1/2 connected");
    view.drain_events(vec![BleEvent::DeviceLost(s("a"))]);
    assert_eq!(view.view_scan().footer, "0/2 connected");
    assert_eq!(view.view_scan().rows.len(), 1);
    assert_eq!(view.view_scan().rows[0].id, "b");
}

#[test]
fn scan_rows_show_the_state() {
    let mut view = monitor(vec![found("a", "A"), found("b", "B"), found("c", "C")]);
    let row = &view.view_scan().rows[0];
    assert_eq!(row.button_label, "Connect →");
    assert_eq!((row.dot_color, row.button_bg, row.button_fg), (C_TEXT3, C_BLUE_BTN, C_WHITE));
    assert_eq!(row.button_border, C_LAYER3);
    assert!(row.can_connect);
    view.connect("a", true);
    let row = &view.view_scan().rows[0];
    assert_eq!(row.button_label, "Connecting…");
    assert_eq!((row.dot_color, row.button_bg, row.button_fg), (C_BLUE, C_LAYER2, C_WHITE));
    assert!(!row.can_connect);
    view.refresh(vec![]);
    view.refresh(vec![]);
    view.refresh(vec![connected("b")]);
    let scan = view.view_scan();
    assert!(scan.has_connected);
    assert_eq!(scan.footer, "2/2 connected");
    assert_eq!(scan.dots, ".");
    assert_eq!(scan.rows[0].dot_color, C_LAYER3);
    assert_eq!(scan.rows[1].button_label, "● Connected");
    assert_eq!(scan.rows[1].dot_color, C_GREEN);
    assert_eq!(scan.rows[1].button_bg, C_GREEN_BG);
    assert_eq!(scan.rows[1].button_fg, C_GREEN);
    assert_eq!(scan.rows[1].button_border, C_GREEN_DARK);
    assert!(!scan.rows[1].can_connect);
    assert_eq!(scan.rows[2].button_label, "Max reached");
    assert!(!scan.rows[2].can_connect);
}

#[test]
fn refused_choice_does_nothing() {
    let mut view = monitor(vec![found("a", "A")]);
    assert!(view.connect("a", false).is_none());
    assert_eq!(view.view_scan().footer, "0/2 connected");
}

#[test]
fn failed_connection_can_be_retried() {
    let mut view = monitor(vec![found("a", "A")]);
    view.connect("a", true);
    assert!(!view.view_scan().rows[0].can_connect);
    view.drain_events(vec![BleEvent::ConnectFailed(s("a"))]);
    assert!(view.view_scan().rows[0].can_connect);
}

#[test]
fn connection_shows_the_dashboard() {
    let mut view = monitor(vec![BleEvent::Error(s("broken"))]);
    assert_eq!(view.render(), Screen::Error);
    assert_eq!(view.view_error(), "broken");
    view.drain_events(vec![BleEvent::ScanTick]);
    assert_eq!(view.render(), Screen::Error);
    view.drain_events(vec![connected("a")]);
    assert_eq!(view.render(), Screen::Dashboard);
    assert_eq!(view.view_error(), "");
    let panel = view.render_device_panel("a").unwrap();
    assert_eq!(panel.name, "Pinecil-a");
    assert_eq!(panel.setpoint.value, "350");
    assert_eq!(panel.setpoint.down_id, "sp-dn-a");
    assert_eq!(panel.setpoint.up_id, "sp-up-a");
    assert!(matches!(panel.body, PanelBody::Waiting(id) if id == "dc-wait-a"));
    assert!(view.render_device_panel("b").is_none());
}

#[test]
fn error_can_be_retried() {
    let mut view = monitor(vec![connected("a"), BleEvent::Error(s("broken"))]);
    assert_eq!(view.render(), Screen::Error);
    view.retry();
    assert_eq!(view.render(), Screen::Scan);
    view.show_dashboard();
    assert_eq!(view.render(), Screen::Dashboard);
    view.show_scanner();
    assert_eq!(view.render(), Screen::Scan);
}

#[test]
fn dashboard_titles() {
    let mut view = monitor(vec![connected("a")]);
    let dashboard = view.view_dashboard();
    assert_eq!(dashboard.subtitle, "Pinecil-a");
    assert_eq!(dashboard.status, "1 device connected");
    assert_eq!(dashboard.device_ids, ["a"]);
    view.drain_events(vec![connected("b")]);
    let dashboard = view.view_dashboard();
    assert_eq!(dashboard.subtitle, "2 devices");
    assert_eq!(dashboard.status, "2 devices connected");
    let mut ids = dashboard.device_ids;
    ids.sort();
    assert_eq!(ids, ["a", "b"]);
    assert_eq!(PinemonitorView::new().view_dashboard().status, "0 devices connected");
}

#[test]
fn last_disconnect_shows_the_scanner() {
    let mut view = monitor(vec![connected("a"), connected("b")]);
    view.drain_events(vec![BleEvent::Disconnected(s("a"))]);
    assert_eq!(view.render(), Screen::Dashboard);
    view.drain_events(vec![BleEvent::Disconnected(s("b"))]);
    assert_eq!(view.render(), Screen::Scan);
    let mut view = monitor(vec![connected("a"), connected("b")]);
    assert!(matches!(view.disconnect("a"), BleCommand::Disconnect(id) if id == "a"));
    assert_eq!(view.render(), Screen::Dashboard);
    assert!(matches!(view.disconnect("b"), BleCommand::Disconnect(id) if id == "b"));
    assert_eq!(view.render(), Screen::Scan);
    assert!(matches!(view.disconnect("b"), BleCommand::Disconnect(id) if id == "b"));
}

#[test]
fn dashboard_stays_while_another_connects() {
    let mut view = monitor(vec![connected("a")]);
    view.connect("b", true);
    view.drain_events(vec![BleEvent::Disconnected(s("a"))]);
    assert_eq!(view.render(), Screen::Dashboard);
    view.drain_events(vec![BleEvent::ConnectFailed(s("b"))]);
    assert_eq!(view.render(), Screen::Scan);
}

#[test]
fn first_reading_brings_the_setpoint() {
    let mut view = monitor(vec![connected("a"), live("a", with_setpoint(300))]);
    assert_eq!(setpoint(&view, "a"), "300");
    view.drain_events(vec![live("a", with_setpoint(200))]);
    assert_eq!(setpoint(&view, "a"), "300");
    let view = monitor(vec![connected("a"), live("a", with_setpoint(49))]);
    assert_eq!(setpoint(&view, "a"), "350");
    let view = monitor(vec![connected("a"), live("a", with_setpoint(50))]);
    assert_eq!(setpoint(&view, "a"), "50");
    let view = monitor(vec![connected("a"), live("a", with_setpoint(70_000))]);
    assert_eq!(setpoint(&view, "a"), "65535");
}

#[test]
fn setpoint_is_kept_in_range() {
    let mut view = monitor(vec![connected("a"), connected("b"), live("a", with_setpoint(440))]);
    assert!(view.is_adjustable("a", 5));
    assert!(matches!(view.adjust_setpoint("a", 5), Some(BleCommand::SetTemperature(id, 445)) if id == "a"));
    assert!(matches!(view.adjust_setpoint("a", 5), Some(BleCommand::SetTemperature(_, 450))));
    assert!(matches!(view.adjust_setpoint("a", 5), Some(BleCommand::SetTemperature(_, 450))));
    assert!(matches!(view.adjust_setpoint("a", -5), Some(BleCommand::SetTemperature(_, 445))));
    assert_eq!(setpoint(&view, "a"), "445");
    assert_eq!(setpoint(&view, "b"), "350");
    assert!(matches!(view.adjust_setpoint("a", -1000), Some(BleCommand::SetTemperature(_, 100))));
    assert!(view.adjust_setpoint("c", 5).is_none());
}

#[test]
fn setpoint_steps_are_undone() {
    let mut view = monitor(vec![connected("a")]);
    view.adjust_setpoint("a", 5);
    view.adjust_setpoint("a", -5);
    assert_eq!(setpoint(&view, "a"), "350");
}

#[test]
fn huge_setpoints_wrap_and_are_caught() {
    let mut view = monitor(vec![connected("a"), live("a", with_setpoint(40_000))]);
    assert!(view.is_adjustable("a", 5));
    assert!(matches!(view.adjust_setpoint("a", 5), Some(BleCommand::SetTemperature(_, 100))));
    let view = monitor(vec![connected("a"), live("a", with_setpoint(32_765))]);
    assert!(view.is_adjustable("a", 2));
    assert!(!view.is_adjustable("a", 5));
    let view = monitor(vec![connected("a"), live("a", with_setpoint(32_768))]);
    assert!(view.is_adjustable("a", 0));
    assert!(!view.is_adjustable("a", -5));
    assert!(view.is_adjustable("nobody", -5));
}

#[test]
fn build_text_needs_a_known_iron() {
    let build = || BleEvent::BuildInfo(s("a"), s("2.23"));
    let mut view = monitor(vec![build(), connected("a"), live("a", sample())]);
    assert_eq!(live_panel(&view, "a").build, "IronOS");
    view.drain_events(vec![build()]);
    assert_eq!(live_panel(&view, "a").build, "2.23");
    view.drain_events(vec![connected("a"), live("a", sample())]);
    assert_eq!(live_panel(&view, "a").build, "IronOS");
}

#[test]
fn unknown_irons_are_ignored() {
    let view = monitor(vec![live("a", sample())]);
    assert!(view.render_device_panel("a").is_none());
    assert_eq!(view.render(), Screen::Scan);
}

#[test]
fn batches_compose() {
    let events = || vec![found("a", "A"), connected("a"), live("a", sample()), found("b", "B")];
    let whole = monitor(events());
    let mut split = PinemonitorView::new();
    for event in events() {
        split.drain_events(vec![event]);
    }
    assert_eq!(whole.render(), split.render());
    assert_eq!(setpoint(&whole, "a"), setpoint(&split, "a"));
    assert_eq!(whole.view_scan().rows.len(), split.view_scan().rows.len());
    assert_eq!(live_panel(&whole, "a").live_color, live_panel(&split, "a").live_color);
}

#[test]
fn live_panel_shows_the_readings() {
    let view = monitor(vec![connected("a"), live("a", sample())]);
    let panel = live_panel(&view, "a");
    assert_eq!(panel.tip_temp, "320");
    assert_eq!(panel.tip_color, C_ORANGE);
    assert_eq!(panel.live_color, C_GREEN_DARK);
    assert_eq!((panel.mode_bg, panel.mode_fg), (C_GREEN_BG, C_GREEN));
    assert_eq!(panel.mode_label, "SOLDERING");
    assert_eq!(panel.setpoint_label, "HEATING TO");
    assert_eq!(panel.setpoint, "350");
    assert_eq!(panel.watts, "25.3 W");
    assert_eq!(panel.pwm_text, "42%");
    assert_eq!(panel.pwm_color, C_TEXT2);
    assert_eq!(panel.bar_percent, 42);
    assert_eq!(panel.bar_color, C_BLUE_BTN);
    assert_eq!(panel.build, "IronOS");
    assert_eq!(panel.disconnect_id, "dc-a");
    let stats: Vec<(&str, &str, u32, u32)> = panel
        .stats
        .iter()
        .map(|r| (r.label.as_str(), r.value.as_str(), r.value_color, r.background))
        .collect();
    assert_eq!(
        stats,
        [
            ("VOLTAGE", "20.40 V", C_TEXT, C_BG),
            ("HANDLE TEMP", "31 °C", C_TEXT, C_LAYER1),
            ("SOURCE", "USB-PD", C_TEXT, C_BG),
            ("TIP RESISTANCE", "6.5 Ω", C_TEXT, C_LAYER1),
            ("IDLE FOR", "1:01", C_YELLOW, C_BG),
            ("UPTIME", "1:02:03", C_TEXT, C_LAYER1),
        ]
    );
}

#[test]
fn heater_thresholds_match_single_precision() {
    for pwm in (0..=300u32).chain([16_777_217, u32::MAX]) {
        let mut data = sample();
        data.power_pwm = pwm;
        let panel = live_panel(&monitor(vec![connected("a"), live("a", data)]), "a");
        let pct = (pwm as f32 / 100.0).clamp(0.0, 1.0);
        assert_eq!(panel.pwm_color == C_ORANGE, pct > 0.7, "{}", pwm);
        assert_eq!(panel.bar_color == C_RED, pct > 0.85, "{}", pwm);
        assert_eq!(panel.bar_color == C_BLUE_BTN, !(pct > 0.6), "{}", pwm);
        assert_eq!(panel.bar_percent as f32 / 100.0, pct, "{}", pwm);
        assert_eq!(panel.pwm_text, format!("{}%", pwm));
    }
}

#[test]
fn idle_warning_starts_after_a_minute() {
    let mut data = sample();
    data.last_move_secs = 60;
    let view = monitor(vec![connected("a"), live("a", data)]);
    assert_eq!(live_panel(&view, "a").stats[4].value_color, C_TEXT);
}

#[test]
fn tip_colors() {
    let steps = [(0, C_TEXT2), (99, C_TEXT2), (100, C_BLUE), (199, C_BLUE), (200, C_YELLOW)];
    for (t, color) in steps {
        assert_eq!(tip_color(t), color);
    }
    let steps = [(299, C_YELLOW), (300, C_ORANGE), (399, C_ORANGE), (400, C_RED), (u32::MAX, C_RED)];
    for (t, color) in steps {
        assert_eq!(tip_color(t), color);
    }
}

#[test]
fn mode_badges() {
    assert_eq!(mode_colors(&OperatingMode::Boost), (0x3d1a00, C_ORANGE));
    assert_eq!(mode_colors(&OperatingMode::Sleeping), (0x001d6c, C_BLUE));
    assert_eq!(mode_colors(&OperatingMode::Standby), (C_LAYER2, C_TEXT2));
    assert_eq!(mode_colors(&OperatingMode::Debug), (C_LAYER2, C_YELLOW));
    assert_eq!(mode_colors(&OperatingMode::Idle), (C_LAYER1, C_TEXT3));
    assert_eq!(mode_colors(&OperatingMode::Unknown(9)), (C_LAYER1, C_TEXT3));
}

#[test]
fn animations() {
    let dot: Vec<u32> = (0..7).map(live_dot_color).collect();
    assert_eq!(
        dot,
        [0x42be65, 0x24a148, 0x198038, 0x0e6027, 0x198038, 0x24a148, 0x42be65]
    );
    assert_eq!(pulse_color(3), C_GREEN);
    assert_eq!(pulse_color(4), C_GREEN_DARK);
    assert_eq!(pulse_color(8), 0x198038);
    assert_eq!(pulse_color(12), C_LAYER2);
    assert_eq!(pulse_color(16), C_GREEN);
    assert_eq!(scan_dots(2), "");
    assert_eq!(scan_dots(3), ".");
    assert_eq!(scan_dots(6), "..");
    assert_eq!(scan_dots(9), "...");
    assert_eq!(scan_dots(12), "");
}
