//! What values stand for in contracts: each part for the part of the same name.

use crate::ble::{events_view, BleCommand, BleEvent, CommandModel, EventModel, FoundDevice};
use crate::monitor::{devices_view, found_view, DeviceState};
use crate::panel::{DevicePanel, LivePanel, PanelBody, PanelBodyModel, SetpointRow, StatRow};
use crate::pinecil::LiveData;
use crate::protocol::{Action, ActionModel, Input, InputModel, Target, TargetModel};
use crate::screens::{ScanRow, ScanView};
use crate::text::strings_view;
use vstd::prelude::*;

verus! {

/// What a found iron and the events stand for.
pub proof fn law_events_stand_for_themselves(
    dev: FoundDevice,
    id: String,
    text: String,
    live: Box<LiveData>,
)
    ensures
        dev@.name == dev.name@ && dev@.id == dev.id@,
        BleEvent::DeviceFound(dev)@ == EventModel::DeviceFound(dev@),
        BleEvent::DeviceLost(id)@ == EventModel::DeviceLost(id@),
        BleEvent::Connected(id, text)@ == EventModel::Connected(id@, text@),
        BleEvent::ConnectFailed(id)@ == EventModel::ConnectFailed(id@),
        BleEvent::Disconnected(id)@ == EventModel::Disconnected(id@),
        BleEvent::LiveData(id, live)@ == EventModel::LiveData(id@, *live),
        BleEvent::BuildInfo(id, text)@ == EventModel::BuildInfo(id@, text@),
        BleEvent::ScanTick@ == EventModel::ScanTick,
        BleEvent::Error(text)@ == EventModel::Error(text@),
{
}

/// What the commands stand for.
pub proof fn law_commands_stand_for_themselves(id: String, temp: u16)
    ensures
        BleCommand::Connect(id)@ == CommandModel::Connect(id@),
        BleCommand::Disconnect(id)@ == CommandModel::Disconnect(id@),
        BleCommand::SetTemperature(id, temp)@ == CommandModel::SetTemperature(id@, temp),
{
}

/// What lists stand for: the same number of things, each in its place.
pub proof fn law_lists_stand_for_themselves(
    events: Seq<BleEvent>,
    strings: Seq<String>,
    found: Seq<FoundDevice>,
    i: int,
)
    ensures
        events_view(events).len() == events.len(),
        0 <= i < events.len() ==> events_view(events)[i] == events[i]@,
        strings_view(strings).len() == strings.len(),
        0 <= i < strings.len() ==> strings_view(strings)[i] == strings[i]@,
        found_view(found).len() == found.len(),
        0 <= i < found.len() ==> found_view(found)[i] == found[i]@,
{
}

/// What the irons that the monitor knows stand for.
pub proof fn law_devices_stand_for_themselves(
    devices: Map<Seq<char>, DeviceState>,
    id: Seq<char>,
    dev: DeviceState,
)
    ensures
        devices_view(devices).dom().contains(id) <==> devices.dom().contains(id),
        devices.dom().contains(id) ==> devices_view(devices)[id] == devices[id]@,
        dev@.name == dev.name@,
        dev@.build_info is Some <==> dev.build_info is Some,
        dev.build_info is Some ==> dev@.build_info->0 == dev.build_info->0@,
        dev@.data == dev.data,
        dev@.local_setpoint == dev.local_setpoint,
        dev@.tick == dev.tick,
{
}

/// What the driver's actions stand for.
pub proof fn law_actions_stand_for_themselves(
    index: usize,
    at: usize,
    id: String,
    target: Target,
    bytes: Vec<u8>,
)
    ensures
        Target::Listed(index)@ == TargetModel::Listed(index as nat),
        Target::Kept(id)@ == TargetModel::Kept(id@),
        Action::OpenManager@ == ActionModel::OpenManager,
        Action::ListAdapters@ == ActionModel::ListAdapters,
        Action::StartScan@ == ActionModel::StartScan,
        Action::ReceiveCommand@ == ActionModel::ReceiveCommand,
        Action::ListPeripherals@ == ActionModel::ListPeripherals,
        Action::Connect(index)@ == ActionModel::Connect(index as nat),
        Action::DiscoverServices(index)@ == ActionModel::DiscoverServices(index as nat),
        Action::ReadName(index)@ == ActionModel::ReadName(index as nat),
        Action::ListCharacteristics(target)@ == ActionModel::ListCharacteristics(target@),
        Action::ReadCharacteristic(target, at)@ == ActionModel::ReadCharacteristic(
            target@,
            at as nat,
        ),
        Action::WriteCharacteristic(target, at, bytes)@ == ActionModel::WriteCharacteristic(
            target@,
            at as nat,
            bytes@,
        ),
        Action::Keep(index, id)@ == ActionModel::Keep(index as nat, id@),
        Action::Close(id)@ == ActionModel::Close(id@),
        Action::Pause@ == ActionModel::Pause,
        Action::Stop@ == ActionModel::Stop,
{
}

/// What the driver is told stands for.
pub proof fn law_inputs_stand_for_themselves(
    text: String,
    count: usize,
    ok: bool,
    command: BleCommand,
    ids: Vec<String>,
    uuids: Vec<u128>,
    bytes: Vec<u8>,
)
    ensures
        Input::ManagerOpened@ == InputModel::ManagerOpened,
        Input::ManagerFailed(text)@ == InputModel::ManagerFailed(text@),
        Input::Adapters(count)@ == InputModel::Adapters(count),
        Input::Done(ok)@ == InputModel::Done(ok),
        Input::Command(command)@ == InputModel::Command(command@),
        Input::NoCommand@ == InputModel::NoCommand,
        Input::CommandsClosed@ == InputModel::CommandsClosed,
        Input::Peripherals(ids)@ == InputModel::Peripherals(strings_view(ids@)),
        Input::Name(Some(text))@ == InputModel::Name(Some(text@)),
        Input::Name(None)@ == InputModel::Name(None),
        Input::Characteristics(uuids)@ == InputModel::Characteristics(uuids@),
        Input::Value(Some(bytes))@ == InputModel::Value(Some(bytes@)),
        Input::Value(None)@ == InputModel::Value(None),
{
}

/// What the scanner stands for.
pub proof fn law_scanner_stands_for_itself(view: ScanView, row: ScanRow, i: int)
    ensures
        view@.pulse_color == view.pulse_color,
        view@.dots == view.dots@,
        view@.hint == view.hint@,
        view@.has_connected == view.has_connected,
        view@.rows.len() == view.rows@.len(),
        0 <= i < view.rows@.len() ==> view@.rows[i] == view.rows@[i]@,
        view@.footer == view.footer@,
        row@.id == row.id@ && row@.name == row.name@,
        row@.dot_color == row.dot_color,
        row@.button_bg == row.button_bg,
        row@.button_fg == row.button_fg,
        row@.button_border == row.button_border,
        row@.button_label == row.button_label@,
        row@.can_connect == row.can_connect,
{
}

/// What the panel of an iron stands for.
pub proof fn law_panel_stands_for_itself(
    panel: DevicePanel,
    row: SetpointRow,
    line: StatRow,
    button: String,
    live: LivePanel,
)
    ensures
        panel@.name == panel.name@,
        panel@.setpoint == panel.setpoint@,
        panel@.body == panel.body@,
        row@.value == row.value@ && row@.down_id == row.down_id@ && row@.up_id == row.up_id@,
        line@.label == line.label@ && line@.value == line.value@,
        line@.value_color == line.value_color && line@.background == line.background,
        PanelBody::Waiting(button)@ == PanelBodyModel::Waiting(button@),
        PanelBody::Live(live)@ == PanelBodyModel::Live(live@),
{
}

/// What the readings on a panel stand for.
pub proof fn law_live_panel_stands_for_itself(live: LivePanel, i: int)
    ensures
        live@.tip_color == live.tip_color,
        live@.tip_temp == live.tip_temp@,
        live@.live_color == live.live_color,
        live@.mode_bg == live.mode_bg && live@.mode_fg == live.mode_fg,
        live@.mode_label == live.mode_label@,
        live@.setpoint_label == live.setpoint_label@,
        live@.setpoint == live.setpoint@,
        live@.watts == live.watts@,
        live@.pwm_text == live.pwm_text@,
        live@.pwm_color == live.pwm_color,
        live@.bar_percent == live.bar_percent,
        live@.bar_color == live.bar_color,
        live@.stats.len() == live.stats@.len(),
        0 <= i < live.stats@.len() ==> live@.stats[i] == live.stats@[i]@,
        live@.build == live.build@,
        live@.disconnect_id == live.disconnect_id@,
{
}

} // verus!
