//! The driver's protocol: what it asks of the Bluetooth stack, what it is told, and what it does
//! about it.
//!
//! The driver repeats one cycle: take every waiting command, rescan when a scan is due, read
//! every connected iron once, pause. [`step`] is one move of that cycle.

use crate::ble::{BleCommand, CommandModel, EventModel, FoundModel};
use crate::idmap::{with_id, without_id};
use crate::pinecil::{setting_uuid_value, LiveData, SETTING_SETPOINT};
use crate::text::{strings_view, utf8_lossy};
use vstd::prelude::*;

verus! {

/// Time between two scans, ns.
pub const SCAN_INTERVAL: u64 = 5_000_000_000;

/// Time after which an iron that no scan finds is lost, ns.
pub const LOST_AFTER: u64 = 10_000_000_000;

/// The pause at the end of a cycle, ms.
pub const PAUSE_MILLIS: u64 = 200;

/// The number of [`crate::pinecil::BULK_LIVE_DATA`].
pub const LIVE_DATA_UUID: u128 = 0x9eae1001_9d0d_48c5_aa55_33e27f9bc533;

/// The number of [`crate::pinecil::BULK_BUILD_INFO`].
pub const BUILD_INFO_UUID: u128 = 0x9eae1003_9d0d_48c5_aa55_33e27f9bc533;

/// The number of [`crate::pinecil::SETTINGS_SAVE`].
pub const SETTINGS_SAVE_UUID: u128 = 0xf6d7ffff_5a10_4eba_aa55_33e27f9bc533;

/// A peripheral of the Bluetooth stack.
pub enum Target {
    /// The one at this index of the list that was asked for last.
    Listed(usize),
    /// The one kept under this id.
    Kept(String),
}

#[verifier::ext_equal]
pub enum TargetModel {
    Listed(nat),
    Kept(Seq<char>),
}

impl View for Target {
    type V = TargetModel;

    open spec fn view(&self) -> TargetModel {
        match self {
            Target::Listed(index) => TargetModel::Listed(*index as nat),
            Target::Kept(id) => TargetModel::Kept(id@),
        }
    }
}

/// What the driver asks of the Bluetooth stack and of its surroundings.
pub enum Action {
    /// Open the Bluetooth stack; answered by [`Input::ManagerOpened`] or [`Input::ManagerFailed`].
    OpenManager,
    /// Count the adapters; answered by [`Input::Adapters`].
    ListAdapters,
    /// Start scanning on the first adapter; answered by [`Input::Done`].
    StartScan,
    /// Take the next waiting command; answered by [`Input::Command`], [`Input::NoCommand`] or
    /// [`Input::CommandsClosed`].
    ReceiveCommand,
    /// List the ids of the adapter's peripherals; answered by [`Input::Peripherals`].
    ListPeripherals,
    /// Connect to a listed peripheral; answered by [`Input::Done`].
    Connect(usize),
    /// Discover the services of a listed peripheral; answered by [`Input::Done`].
    DiscoverServices(usize),
    /// Read the advertised name of a listed peripheral; answered by [`Input::Name`].
    ReadName(usize),
    /// List the characteristics of a peripheral; answered by [`Input::Characteristics`].
    ListCharacteristics(Target),
    /// Read the characteristic at this index of that list; answered by [`Input::Value`].
    ReadCharacteristic(Target, usize),
    /// Write to the characteristic at this index of that list, without response; answered by
    /// [`Input::Done`].
    WriteCharacteristic(Target, usize, Vec<u8>),
    /// Keep a listed peripheral under this id; answered by [`Input::Done`].
    Keep(usize, String),
    /// Disconnect the peripheral kept under this id and drop it; answered by [`Input::Done`].
    Close(String),
    /// Wait for [`PAUSE_MILLIS`]; answered by [`Input::Done`].
    Pause,
    /// Nothing more is asked.
    Stop,
}

#[verifier::ext_equal]
pub enum ActionModel {
    OpenManager,
    ListAdapters,
    StartScan,
    ReceiveCommand,
    ListPeripherals,
    Connect(nat),
    DiscoverServices(nat),
    ReadName(nat),
    ListCharacteristics(TargetModel),
    ReadCharacteristic(TargetModel, nat),
    WriteCharacteristic(TargetModel, nat, Seq<u8>),
    Keep(nat, Seq<char>),
    Close(Seq<char>),
    Pause,
    Stop,
}

impl View for Action {
    type V = ActionModel;

    open spec fn view(&self) -> ActionModel {
        match self {
            Action::OpenManager => ActionModel::OpenManager,
            Action::ListAdapters => ActionModel::ListAdapters,
            Action::StartScan => ActionModel::StartScan,
            Action::ReceiveCommand => ActionModel::ReceiveCommand,
            Action::ListPeripherals => ActionModel::ListPeripherals,
            Action::Connect(index) => ActionModel::Connect(*index as nat),
            Action::DiscoverServices(index) => ActionModel::DiscoverServices(*index as nat),
            Action::ReadName(index) => ActionModel::ReadName(*index as nat),
            Action::ListCharacteristics(target) => ActionModel::ListCharacteristics(target@),
            Action::ReadCharacteristic(target, at) => ActionModel::ReadCharacteristic(
                target@,
                *at as nat,
            ),
            Action::WriteCharacteristic(target, at, bytes) => ActionModel::WriteCharacteristic(
                target@,
                *at as nat,
                bytes@,
            ),
            Action::Keep(index, id) => ActionModel::Keep(*index as nat, id@),
            Action::Close(id) => ActionModel::Close(id@),
            Action::Pause => ActionModel::Pause,
            Action::Stop => ActionModel::Stop,
        }
    }
}

/// What the driver is told in answer to an [`Action`].
pub enum Input {
    ManagerOpened,
    /// Why the Bluetooth stack could not be opened.
    ManagerFailed(String),
    /// The number of adapters; zero where they could not be listed.
    Adapters(usize),
    /// Whether the action succeeded.
    Done(bool),
    Command(BleCommand),
    NoCommand,
    /// No command will ever come again.
    CommandsClosed,
    /// Ids of the peripherals; none where they could not be listed.
    Peripherals(Vec<String>),
    /// The advertised name, if there is one.
    Name(Option<String>),
    /// UUIDs of the characteristics.
    Characteristics(Vec<u128>),
    /// The value read, if reading succeeded.
    Value(Option<Vec<u8>>),
}

#[verifier::ext_equal]
pub enum InputModel {
    ManagerOpened,
    ManagerFailed(Seq<char>),
    Adapters(usize),
    Done(bool),
    Command(CommandModel),
    NoCommand,
    CommandsClosed,
    Peripherals(Seq<Seq<char>>),
    Name(Option<Seq<char>>),
    Characteristics(Seq<u128>),
    Value(Option<Seq<u8>>),
}

impl View for Input {
    type V = InputModel;

    open spec fn view(&self) -> InputModel {
        match self {
            Input::ManagerOpened => InputModel::ManagerOpened,
            Input::ManagerFailed(why) => InputModel::ManagerFailed(why@),
            Input::Adapters(count) => InputModel::Adapters(*count),
            Input::Done(ok) => InputModel::Done(*ok),
            Input::Command(command) => InputModel::Command(command@),
            Input::NoCommand => InputModel::NoCommand,
            Input::CommandsClosed => InputModel::CommandsClosed,
            Input::Peripherals(ids) => InputModel::Peripherals(strings_view(ids@)),
            Input::Name(Some(name)) => InputModel::Name(Some(name@)),
            Input::Name(None) => InputModel::Name(None),
            Input::Characteristics(uuids) => InputModel::Characteristics(uuids@),
            Input::Value(Some(bytes)) => InputModel::Value(Some(bytes@)),
            Input::Value(None) => InputModel::Value(None),
        }
    }
}

/// Where the driver stands in its cycle.
#[verifier::ext_equal]
pub enum PhaseModel {
    OpeningManager,
    ListingAdapters,
    StartingScan,
    /// Taking commands.
    Receiving,
    /// Looking for the peripheral of this id, to connect to it.
    Locating { id: Seq<char> },
    Connecting { id: Seq<char>, index: nat },
    Discovering { id: Seq<char>, index: nat },
    Naming { id: Seq<char>, index: nat },
    /// Looking for the build text of an iron that is about to be reported as connected.
    InspectingBuild { id: Seq<char>, index: nat, name: Seq<char> },
    ReadingBuild { id: Seq<char>, index: nat, name: Seq<char>, at: nat },
    Keeping { id: Seq<char>, index: nat },
    /// Closing a connection as a command asks.
    Disconnecting { id: Seq<char> },
    InspectingSettings { id: Seq<char>, temp: u16 },
    WritingSetpoint { id: Seq<char>, temp: u16, at: nat, save_at: Option<nat> },
    WritingSave { id: Seq<char>, at: nat },
    /// Listing the peripherals of a scan.
    Scanning,
    /// Reading the name of the peripheral `ids[at]` of a scan.
    ScanningName { ids: Seq<Seq<char>>, at: nat },
    /// Looking for the live data of `ids[at]`.
    InspectingLive { ids: Seq<Seq<char>>, at: nat },
    ReadingLive { ids: Seq<Seq<char>>, at: nat, live_at: nat },
    /// Closing a connection that can no longer be read.
    Dropping { ids: Seq<Seq<char>>, at: nat },
    Pausing,
    Stopped,
}

/// The driver's state.
#[verifier::ext_equal]
pub struct DriverModel {
    pub phase: PhaseModel,
    /// When each iron was last seen by a scan.
    pub seen: Map<Seq<char>, u64>,
    /// The irons in `seen`, in the order in which they were found.
    pub seen_ids: Seq<Seq<char>>,
    /// The connected irons, in the order in which they were connected.
    pub connected: Seq<Seq<char>>,
    /// When the last scan began.
    pub last_scan: Option<u64>,
}

impl DriverModel {
    /// The iron that is being connected, as a command asked.
    pub open spec fn connecting(self) -> Option<Seq<char>> {
        match self.phase {
            PhaseModel::Locating { id } => Some(id),
            PhaseModel::Connecting { id, .. } => Some(id),
            PhaseModel::Discovering { id, .. } => Some(id),
            PhaseModel::Naming { id, .. } => Some(id),
            PhaseModel::InspectingBuild { id, .. } => Some(id),
            PhaseModel::ReadingBuild { id, .. } => Some(id),
            _ => None,
        }
    }

    /// No iron is listed twice; one that is being connected or has just been given up is not
    /// connected; those that are still to be read in this cycle are connected.
    pub open spec fn wf(self) -> bool {
        &&& self.seen_ids.no_duplicates()
        &&& self.seen.dom() == self.seen_ids.to_set()
        &&& self.connected.no_duplicates()
        &&& self.in_range()
        &&& self.connecting() matches Some(id) ==> !self.connected.contains(id)
        &&& match self.phase {
            PhaseModel::Disconnecting { id } => !self.connected.contains(id),
            PhaseModel::InspectingLive { ids, at } => self.to_poll(ids, at),
            PhaseModel::ReadingLive { ids, at, .. } => self.to_poll(ids, at),
            PhaseModel::Dropping { ids, at } => {
                &&& !self.connected.contains(ids[at as int])
                &&& self.to_poll(ids, at + 1)
            },
            _ => true,
        }
    }

    /// The irons from `ids[at]` on are distinct and connected.
    pub open spec fn to_poll(self, ids: Seq<Seq<char>>, at: nat) -> bool {
        &&& ids.no_duplicates()
        &&& forall|i: int| at <= i < ids.len() ==> self.connected.contains(#[trigger] ids[i])
    }

    /// The peripheral at hand is one of those listed.
    pub open spec fn in_range(self) -> bool {
        match self.phase {
            PhaseModel::ScanningName { ids, at } => at < ids.len(),
            PhaseModel::InspectingLive { ids, at } => at < ids.len(),
            PhaseModel::ReadingLive { ids, at, .. } => at < ids.len(),
            PhaseModel::Dropping { ids, at } => at < ids.len(),
            _ => true,
        }
    }
}

/// The first place of `x` in `s`, from `from` on.
pub open spec fn first_from<T>(s: Seq<T>, x: T, from: nat) -> Option<nat>
    decreases s.len() - from,
{
    if from >= s.len() {
        None
    } else if s[from as int] == x {
        Some(from)
    } else {
        first_from(s, x, from + 1)
    }
}

/// The time from `then` to `now`; none on a clock that ran backwards.
pub open spec fn elapsed(now: u64, then: u64) -> u64 {
    if now >= then {
        (now - then) as u64
    } else {
        0
    }
}

/// Whether an iron that was seen is lost: not connected, and not seen for too long.
pub open spec fn lost(
    connected: Seq<Seq<char>>,
    seen: Map<Seq<char>, u64>,
    now: u64,
    id: Seq<char>,
) -> bool {
    !connected.contains(id) && elapsed(now, seen[id]) > LOST_AFTER
}

/// The name of a device: the advertised one, or `Pinecil`.
pub open spec fn device_name_of(advertised: Option<Seq<char>>) -> Seq<char> {
    match advertised {
        Some(name) => name,
        None => "Pinecil"@,
    }
}

/// Whether a device with this name is an iron.
pub open spec fn is_pinecil_name(name: Seq<char>) -> bool {
    name.len() >= 7 && name.take(7) == "Pinecil"@
}

/// The two bytes of a number, least significant first.
pub open spec fn le_bytes(v: u16) -> Seq<u8> {
    seq![(v % 256) as u8, (v / 256) as u8]
}

/// The events that a completed connection causes: the build text if it could be read, then the
/// connection.
pub open spec fn handshake_events_of(
    id: Seq<char>,
    name: Seq<char>,
    info: Option<Seq<char>>,
) -> Seq<EventModel> {
    match info {
        Some(text) => seq![EventModel::BuildInfo(id, text), EventModel::Connected(id, name)],
        None => seq![EventModel::Connected(id, name)],
    }
}

/// The event that a read of live data causes, if any.
pub open spec fn live_events_of(id: Seq<char>, bytes: Seq<u8>) -> Seq<EventModel> {
    match LiveData::reading(bytes) {
        Some(data) => seq![EventModel::LiveData(id, data)],
        None => Seq::empty(),
    }
}

impl DriverModel {
    /// The state in which a driver starts.
    pub open spec fn init() -> DriverModel {
        DriverModel {
            phase: PhaseModel::OpeningManager,
            seen: Map::empty(),
            seen_ids: Seq::empty(),
            connected: Seq::empty(),
            last_scan: None,
        }
    }

    /// This state, in another phase.
    pub open spec fn at(self, phase: PhaseModel) -> DriverModel {
        DriverModel { phase, ..self }
    }

    /// What the driver asks for in this state.
    pub open spec fn action(self) -> ActionModel {
        match self.phase {
            PhaseModel::OpeningManager => ActionModel::OpenManager,
            PhaseModel::ListingAdapters => ActionModel::ListAdapters,
            PhaseModel::StartingScan => ActionModel::StartScan,
            PhaseModel::Receiving => ActionModel::ReceiveCommand,
            PhaseModel::Locating { .. } => ActionModel::ListPeripherals,
            PhaseModel::Connecting { index, .. } => ActionModel::Connect(index),
            PhaseModel::Discovering { index, .. } => ActionModel::DiscoverServices(index),
            PhaseModel::Naming { index, .. } => ActionModel::ReadName(index),
            PhaseModel::InspectingBuild { index, .. } => ActionModel::ListCharacteristics(
                TargetModel::Listed(index),
            ),
            PhaseModel::ReadingBuild { index, at, .. } => ActionModel::ReadCharacteristic(
                TargetModel::Listed(index),
                at,
            ),
            PhaseModel::Keeping { id, index } => ActionModel::Keep(index, id),
            PhaseModel::Disconnecting { id } => ActionModel::Close(id),
            PhaseModel::InspectingSettings { id, .. } => ActionModel::ListCharacteristics(
                TargetModel::Kept(id),
            ),
            PhaseModel::WritingSetpoint { id, temp, at, .. } => ActionModel::WriteCharacteristic(
                TargetModel::Kept(id),
                at,
                le_bytes(temp),
            ),
            PhaseModel::WritingSave { id, at } => ActionModel::WriteCharacteristic(
                TargetModel::Kept(id),
                at,
                le_bytes(1),
            ),
            PhaseModel::Scanning => ActionModel::ListPeripherals,
            PhaseModel::ScanningName { at, .. } => ActionModel::ReadName(at),
            PhaseModel::InspectingLive { ids, at } => ActionModel::ListCharacteristics(
                TargetModel::Kept(ids[at as int]),
            ),
            PhaseModel::ReadingLive { ids, at, live_at } => ActionModel::ReadCharacteristic(
                TargetModel::Kept(ids[at as int]),
                live_at,
            ),
            PhaseModel::Dropping { ids, at } => ActionModel::Close(ids[at as int]),
            PhaseModel::Pausing => ActionModel::Pause,
            PhaseModel::Stopped => ActionModel::Stop,
        }
    }

    /// Whether a scan is due.
    pub open spec fn scan_due(self, now: u64) -> bool {
        match self.last_scan {
            Some(then) => elapsed(now, then) >= SCAN_INTERVAL,
            None => true,
        }
    }

    /// Whether an iron that was seen is lost: not connected, and not seen for too long.
    pub open spec fn is_lost(self, now: u64, id: Seq<char>) -> bool {
        lost(self.connected, self.seen, now, id)
    }

    /// The irons that are lost, in the order in which they were found.
    pub open spec fn lost_ids(self, now: u64) -> Seq<Seq<char>> {
        let connected = self.connected;
        let seen = self.seen;
        self.seen_ids.filter(|id: Seq<char>| lost(connected, seen, now, id))
    }

    /// The irons that are not lost.
    pub open spec fn remaining_ids(self, now: u64) -> Seq<Seq<char>> {
        let connected = self.connected;
        let seen = self.seen;
        self.seen_ids.filter(|id: Seq<char>| !lost(connected, seen, now, id))
    }

    /// Reads `ids[at]` and those after it, then pauses.
    pub open spec fn poll_from(self, ids: Seq<Seq<char>>, at: nat) -> DriverModel {
        if at < ids.len() {
            self.at(PhaseModel::InspectingLive { ids, at })
        } else {
            self.at(PhaseModel::Pausing)
        }
    }

    /// Begins to read every connected iron.
    pub open spec fn poll(self) -> DriverModel {
        self.poll_from(self.connected, 0)
    }

    /// Ends a scan: forgets the irons that are lost and begins to poll.
    pub open spec fn end_scan(self, now: u64) -> (DriverModel, Seq<EventModel>) {
        let after = DriverModel {
            seen: self.seen.restrict(self.remaining_ids(now).to_set()),
            seen_ids: self.remaining_ids(now),
            ..self
        };
        let lost = self.lost_ids(now).map_values(|id: Seq<char>| EventModel::DeviceLost(id));
        (after.poll(), lost.push(EventModel::ScanTick))
    }

    /// Asks for the name of `ids[at]`, or ends the scan after the last one.
    pub open spec fn scan_from(
        self,
        now: u64,
        ids: Seq<Seq<char>>,
        at: nat,
    ) -> (DriverModel, Seq<EventModel>) {
        if at < ids.len() {
            (self.at(PhaseModel::ScanningName { ids, at }), Seq::empty())
        } else {
            self.end_scan(now)
        }
    }

    /// Takes note of a scanned peripheral.
    pub open spec fn sighted(self, now: u64, id: Seq<char>, name: Seq<char>) -> DriverModel {
        if is_pinecil_name(name) {
            DriverModel {
                seen: self.seen.insert(id, now),
                seen_ids: with_id(self.seen_ids, id),
                ..self
            }
        } else {
            self
        }
    }

    /// Reports a scanned peripheral, if it is an iron that was not known.
    pub open spec fn sighting_events(self, id: Seq<char>, name: Seq<char>) -> Seq<EventModel> {
        if is_pinecil_name(name) && !self.seen_ids.contains(id) {
            seq![EventModel::DeviceFound(FoundModel { name, id })]
        } else {
            Seq::empty()
        }
    }

    /// Reports a completed connection.
    pub open spec fn established(
        self,
        id: Seq<char>,
        index: nat,
        name: Seq<char>,
        info: Option<Seq<char>>,
    ) -> (DriverModel, Seq<EventModel>) {
        (
            DriverModel {
                phase: PhaseModel::Keeping { id, index },
                connected: with_id(self.connected, id),
                ..self
            },
            handshake_events_of(id, name, info),
        )
    }

    /// Obeys a command.
    pub open spec fn obey(self, command: CommandModel) -> DriverModel {
        match command {
            CommandModel::Connect(id) => if self.connected.contains(id) {
                self
            } else {
                self.at(PhaseModel::Locating { id })
            },
            CommandModel::Disconnect(id) => if self.connected.contains(id) {
                DriverModel {
                    phase: PhaseModel::Disconnecting { id },
                    connected: without_id(self.connected, id),
                    ..self
                }
            } else {
                self
            },
            CommandModel::SetTemperature(id, temp) => if self.connected.contains(id) {
                self.at(PhaseModel::InspectingSettings { id, temp })
            } else {
                self
            },
        }
    }

    /// Saves the settings of an iron, if it can; then takes the next command.
    pub open spec fn save(self, id: Seq<char>, save_at: Option<nat>) -> DriverModel {
        match save_at {
            Some(at) => self.at(PhaseModel::WritingSave { id, at }),
            None => self.at(PhaseModel::Receiving),
        }
    }

    /// Gives up a connection that was asked for.
    pub open spec fn refused(self, id: Seq<char>) -> (DriverModel, Seq<EventModel>) {
        (self.at(PhaseModel::Receiving), seq![EventModel::ConnectFailed(id)])
    }

    /// Stops for good.
    pub open spec fn failed(self, why: Seq<char>) -> (DriverModel, Seq<EventModel>) {
        (self.at(PhaseModel::Stopped), seq![EventModel::Error(why)])
    }

    /// Opens the Bluetooth stack and starts to scan.
    pub open spec fn step_opening(self, input: InputModel) -> (DriverModel, Seq<EventModel>) {
        let quiet = Seq::<EventModel>::empty();
        match (self.phase, input) {
            (PhaseModel::OpeningManager, InputModel::ManagerOpened) => (
                self.at(PhaseModel::ListingAdapters),
                quiet,
            ),
            (PhaseModel::OpeningManager, InputModel::ManagerFailed(why)) => self.failed(
                "BLE manager: "@ + why,
            ),
            (PhaseModel::ListingAdapters, InputModel::Adapters(count)) => if count > 0 {
                (self.at(PhaseModel::StartingScan), quiet)
            } else {
                self.failed("No BLE adapter found"@)
            },
            (PhaseModel::StartingScan, InputModel::Done(_)) => (
                self.at(PhaseModel::Receiving),
                quiet,
            ),
            _ => (self, quiet),
        }
    }

    /// Takes a command, or begins the rest of the cycle when none waits.
    pub open spec fn step_receiving(self, now: u64, input: InputModel) -> (DriverModel, Seq<EventModel>) {
        let quiet = Seq::<EventModel>::empty();
        match (self.phase, input) {
            (PhaseModel::Receiving, InputModel::Command(command)) => (self.obey(command), quiet),
            (PhaseModel::Receiving, InputModel::CommandsClosed) => (
                self.at(PhaseModel::Stopped),
                quiet,
            ),
            (PhaseModel::Receiving, InputModel::NoCommand) => if self.scan_due(now) {
                (
                    DriverModel { phase: PhaseModel::Scanning, last_scan: Some(now), ..self },
                    quiet,
                )
            } else {
                (self.poll(), quiet)
            },
            _ => (self, quiet),
        }
    }

    /// Connects to an iron, as a command asks.
    pub open spec fn step_connecting(self, input: InputModel) -> (DriverModel, Seq<EventModel>) {
        let quiet = Seq::<EventModel>::empty();
        match (self.phase, input) {
            (PhaseModel::Locating { id }, InputModel::Peripherals(ids)) => match first_from(ids, id, 0) {
                Some(index) => (self.at(PhaseModel::Connecting { id, index }), quiet),
                None => self.refused(id),
            },
            (PhaseModel::Connecting { id, index }, InputModel::Done(ok)) => if ok {
                (self.at(PhaseModel::Discovering { id, index }), quiet)
            } else {
                self.refused(id)
            },
            (PhaseModel::Discovering { id, index }, InputModel::Done(ok)) => if ok {
                (self.at(PhaseModel::Naming { id, index }), quiet)
            } else {
                self.refused(id)
            },
            (PhaseModel::Naming { id, index }, InputModel::Name(advertised)) => (
                self.at(
                    PhaseModel::InspectingBuild { id, index, name: device_name_of(advertised) },
                ),
                quiet,
            ),
            (
                PhaseModel::InspectingBuild { id, index, name },
                InputModel::Characteristics(uuids),
            ) => match first_from(uuids, BUILD_INFO_UUID, 0) {
                Some(at) => (self.at(PhaseModel::ReadingBuild { id, index, name, at }), quiet),
                None => self.established(id, index, name, None),
            },
            (PhaseModel::ReadingBuild { id, index, name, .. }, InputModel::Value(value)) => {
                let info = match value {
                    Some(bytes) => Some(utf8_lossy(bytes)),
                    None => None,
                };
                self.established(id, index, name, info)
            },
            (PhaseModel::Keeping { .. }, InputModel::Done(_)) => (
                self.at(PhaseModel::Receiving),
                quiet,
            ),
            _ => (self, quiet),
        }
    }

    /// Disconnects an iron or sets its temperature, as a command asks.
    pub open spec fn step_obeying(self, input: InputModel) -> (DriverModel, Seq<EventModel>) {
        let quiet = Seq::<EventModel>::empty();
        match (self.phase, input) {
            (PhaseModel::Disconnecting { id }, InputModel::Done(_)) => (
                self.at(PhaseModel::Receiving),
                seq![EventModel::Disconnected(id)],
            ),
            (
                PhaseModel::InspectingSettings { id, temp },
                InputModel::Characteristics(uuids),
            ) => {
                let save_at = first_from(uuids, SETTINGS_SAVE_UUID, 0);
                match first_from(uuids, setting_uuid_value(SETTING_SETPOINT) as u128, 0) {
                    Some(at) => (
                        self.at(PhaseModel::WritingSetpoint { id, temp, at, save_at }),
                        quiet,
                    ),
                    None => (self.save(id, save_at), quiet),
                }
            },
            (PhaseModel::WritingSetpoint { id, save_at, .. }, InputModel::Done(_)) => (
                self.save(id, save_at),
                quiet,
            ),
            (PhaseModel::WritingSave { .. }, InputModel::Done(_)) => (
                self.at(PhaseModel::Receiving),
                quiet,
            ),
            _ => (self, quiet),
        }
    }

    /// Scans.
    pub open spec fn step_scanning(self, now: u64, input: InputModel) -> (DriverModel, Seq<EventModel>) {
        let quiet = Seq::<EventModel>::empty();
        match (self.phase, input) {
            (PhaseModel::Scanning, InputModel::Peripherals(ids)) => self.scan_from(now, ids, 0),
            (PhaseModel::ScanningName { ids, at }, InputModel::Name(advertised)) => {
                let id = ids[at as int];
                let name = device_name_of(advertised);
                let (after, events) = self.sighted(now, id, name).scan_from(now, ids, at + 1);
                (after, self.sighting_events(id, name) + events)
            },
            _ => (self, quiet),
        }
    }

    /// Reads the connected irons and pauses.
    pub open spec fn step_polling(self, input: InputModel) -> (DriverModel, Seq<EventModel>) {
        let quiet = Seq::<EventModel>::empty();
        match (self.phase, input) {
            (
                PhaseModel::InspectingLive { ids, at },
                InputModel::Characteristics(uuids),
            ) => match first_from(uuids, LIVE_DATA_UUID, 0) {
                Some(live_at) => (self.at(PhaseModel::ReadingLive { ids, at, live_at }), quiet),
                None => (self.poll_from(ids, at + 1), quiet),
            },
            (
                PhaseModel::ReadingLive { ids, at, .. },
                InputModel::Value(value),
            ) => match value {
                Some(bytes) => (
                    self.poll_from(ids, at + 1),
                    live_events_of(ids[at as int], bytes),
                ),
                None => (
                    DriverModel {
                        phase: PhaseModel::Dropping { ids, at },
                        connected: without_id(self.connected, ids[at as int]),
                        ..self
                    },
                    quiet,
                ),
            },
            (PhaseModel::Dropping { ids, at }, InputModel::Done(_)) => (
                self.poll_from(ids, at + 1),
                seq![EventModel::Disconnected(ids[at as int])],
            ),
            (PhaseModel::Pausing, InputModel::Done(_)) => (
                self.at(PhaseModel::Receiving),
                quiet,
            ),
            _ => (self, quiet),
        }
    }

    /// One move of the driver: the state and the events after it has been told `input` at the
    /// time `now`. What does not answer the pending action is passed over.
    pub open spec fn step(self, now: u64, input: InputModel) -> (DriverModel, Seq<EventModel>) {
        match self.phase {
            PhaseModel::OpeningManager
            | PhaseModel::ListingAdapters
            | PhaseModel::StartingScan => self.step_opening(input),
            PhaseModel::Receiving => self.step_receiving(now, input),
            PhaseModel::Locating { .. }
            | PhaseModel::Connecting { .. }
            | PhaseModel::Discovering { .. }
            | PhaseModel::Naming { .. }
            | PhaseModel::InspectingBuild { .. }
            | PhaseModel::ReadingBuild { .. }
            | PhaseModel::Keeping { .. } => self.step_connecting(input),
            PhaseModel::Disconnecting { .. }
            | PhaseModel::InspectingSettings { .. }
            | PhaseModel::WritingSetpoint { .. }
            | PhaseModel::WritingSave { .. } => self.step_obeying(input),
            PhaseModel::Scanning
            | PhaseModel::ScanningName { .. } => self.step_scanning(now, input),
            PhaseModel::InspectingLive { .. }
            | PhaseModel::ReadingLive { .. }
            | PhaseModel::Dropping { .. }
            | PhaseModel::Pausing => self.step_polling(input),
            PhaseModel::Stopped => (self, Seq::empty()),
        }
    }
}

} // verus!
