//! What passes between the Bluetooth driver and the monitor.

use crate::pinecil::LiveData;
use vstd::prelude::*;

verus! {

/// An iron that a scan has found.
#[derive(Debug, Clone)]
pub struct FoundDevice {
    pub name: String,
    pub id: String,
}

/// The name and id of a found iron.
#[verifier::ext_equal]
pub struct FoundModel {
    pub name: Seq<char>,
    pub id: Seq<char>,
}

impl View for FoundDevice {
    type V = FoundModel;

    open spec fn view(&self) -> FoundModel {
        FoundModel { name: self.name@, id: self.id@ }
    }
}

impl FoundDevice {
    /// A copy of the device.
    pub(crate) fn copy(&self) -> (r: FoundDevice)
        ensures
            r@ == self@,
    {
        FoundDevice { name: self.name.clone(), id: self.id.clone() }
    }
}

/// What the driver reports.
#[derive(Debug, Clone)]
pub enum BleEvent {
    DeviceFound(FoundDevice),
    DeviceLost(String),
    /// Id and name of a device that is now connected.
    Connected(String, String),
    /// Connecting or discovering services failed; it may be tried again.
    ConnectFailed(String),
    Disconnected(String),
    LiveData(String, Box<LiveData>),
    /// Id and firmware build text.
    BuildInfo(String, String),
    /// A scan cycle has ended.
    ScanTick,
    /// The adapter cannot be used.
    Error(String),
}

/// What the driver reports, with text as characters.
#[verifier::ext_equal]
pub enum EventModel {
    DeviceFound(FoundModel),
    DeviceLost(Seq<char>),
    Connected(Seq<char>, Seq<char>),
    ConnectFailed(Seq<char>),
    Disconnected(Seq<char>),
    LiveData(Seq<char>, LiveData),
    BuildInfo(Seq<char>, Seq<char>),
    ScanTick,
    Error(Seq<char>),
}

impl View for BleEvent {
    type V = EventModel;

    open spec fn view(&self) -> EventModel {
        match self {
            BleEvent::DeviceFound(dev) => EventModel::DeviceFound(dev@),
            BleEvent::DeviceLost(id) => EventModel::DeviceLost(id@),
            BleEvent::Connected(id, name) => EventModel::Connected(id@, name@),
            BleEvent::ConnectFailed(id) => EventModel::ConnectFailed(id@),
            BleEvent::Disconnected(id) => EventModel::Disconnected(id@),
            BleEvent::LiveData(id, data) => EventModel::LiveData(id@, **data),
            BleEvent::BuildInfo(id, info) => EventModel::BuildInfo(id@, info@),
            BleEvent::ScanTick => EventModel::ScanTick,
            BleEvent::Error(msg) => EventModel::Error(msg@),
        }
    }
}

/// The events of a batch, with text as characters.
pub open spec fn events_view(events: Seq<BleEvent>) -> Seq<EventModel> {
    events.map_values(|e: BleEvent| e@)
}

/// What the monitor asks of the driver.
pub enum BleCommand {
    Connect(String),
    Disconnect(String),
    /// Id and temperature in °C.
    SetTemperature(String, u16),
}

/// What the monitor asks of the driver, with text as characters.
#[verifier::ext_equal]
pub enum CommandModel {
    Connect(Seq<char>),
    Disconnect(Seq<char>),
    SetTemperature(Seq<char>, u16),
}

impl View for BleCommand {
    type V = CommandModel;

    open spec fn view(&self) -> CommandModel {
        match self {
            BleCommand::Connect(id) => CommandModel::Connect(id@),
            BleCommand::Disconnect(id) => CommandModel::Disconnect(id@),
            BleCommand::SetTemperature(id, temp) => CommandModel::SetTemperature(id@, *temp),
        }
    }
}

} // verus!
