//! The Bluetooth driver, as a machine that is told what happened and says what to do next.

use crate::ble::EventModel;
use crate::ble::{events_view, BleCommand, BleEvent, FoundDevice};
use crate::idmap::{lemma_with_id, IdMap};
use crate::pinecil::{build_info_uuid, live_data_uuid, setting_uuid, settings_save_uuid};
use crate::pinecil::{LiveData, SETTING_SETPOINT};
use crate::protocol::{Action, Input, Target};
use crate::protocol::{
    device_name_of, first_from, handshake_events_of, is_pinecil_name, le_bytes,
    live_events_of, lost,
};
use crate::protocol::{DriverModel, PhaseModel};
use crate::protocol::{LOST_AFTER, SCAN_INTERVAL};
use crate::protocol_laws::{law_driver_stays_sound, lemma_filter_distinct, lemma_lost};
use crate::text::{decode_lossy, owned, strings_view};
use vstd::prelude::*;

verus! {

/// Where the driver stands in its cycle; see [`PhaseModel`].
enum Phase {
    OpeningManager,
    ListingAdapters,
    StartingScan,
    Receiving,
    Locating { id: String },
    Connecting { id: String, index: usize },
    Discovering { id: String, index: usize },
    Naming { id: String, index: usize },
    InspectingBuild { id: String, index: usize, name: String },
    ReadingBuild { id: String, index: usize, name: String, at: usize },
    Keeping { id: String, index: usize },
    Disconnecting { id: String },
    InspectingSettings { id: String, temp: u16 },
    WritingSetpoint { id: String, temp: u16, at: usize, save_at: Option<usize> },
    WritingSave { id: String, at: usize },
    Scanning,
    ScanningName { ids: Vec<String>, at: usize },
    InspectingLive { ids: Vec<String>, at: usize },
    ReadingLive { ids: Vec<String>, at: usize, live_at: usize },
    Dropping { ids: Vec<String>, at: usize },
    Pausing,
    Stopped,
}

impl View for Phase {
    type V = PhaseModel;

    closed spec fn view(&self) -> PhaseModel {
        match *self {
            Phase::OpeningManager => PhaseModel::OpeningManager,
            Phase::ListingAdapters => PhaseModel::ListingAdapters,
            Phase::StartingScan => PhaseModel::StartingScan,
            Phase::Receiving => PhaseModel::Receiving,
            Phase::Locating { id } => PhaseModel::Locating { id: id@ },
            Phase::Connecting { id, index } => PhaseModel::Connecting { id: id@, index: index as nat },
            Phase::Discovering { id, index } => PhaseModel::Discovering { id: id@, index: index as nat },
            Phase::Naming { id, index } => PhaseModel::Naming { id: id@, index: index as nat },
            Phase::InspectingBuild { id, index, name } => PhaseModel::InspectingBuild {
                id: id@,
                index: index as nat,
                name: name@,
            },
            Phase::ReadingBuild { id, index, name, at } => PhaseModel::ReadingBuild {
                id: id@,
                index: index as nat,
                name: name@,
                at: at as nat,
            },
            Phase::Keeping { id, index } => PhaseModel::Keeping { id: id@, index: index as nat },
            Phase::Disconnecting { id } => PhaseModel::Disconnecting { id: id@ },
            Phase::InspectingSettings { id, temp } => PhaseModel::InspectingSettings {
                id: id@,
                temp,
            },
            Phase::WritingSetpoint { id, temp, at, save_at } => PhaseModel::WritingSetpoint {
                id: id@,
                temp,
                at: at as nat,
                save_at: match save_at {
                    Some(i) => Some(i as nat),
                    None => None,
                },
            },
            Phase::WritingSave { id, at } => PhaseModel::WritingSave { id: id@, at: at as nat },
            Phase::Scanning => PhaseModel::Scanning,
            Phase::ScanningName { ids, at } => PhaseModel::ScanningName {
                ids: strings_view(ids@),
                at: at as nat,
            },
            Phase::InspectingLive { ids, at } => PhaseModel::InspectingLive {
                ids: strings_view(ids@),
                at: at as nat,
            },
            Phase::ReadingLive { ids, at, live_at } => PhaseModel::ReadingLive {
                ids: strings_view(ids@),
                at: at as nat,
                live_at: live_at as nat,
            },
            Phase::Dropping { ids, at } => PhaseModel::Dropping {
                ids: strings_view(ids@),
                at: at as nat,
            },
            Phase::Pausing => PhaseModel::Pausing,
            Phase::Stopped => PhaseModel::Stopped,
        }
    }
}

/// The Bluetooth driver: which irons it has seen, which are connected, and what it waits for.
pub struct Driver {
    phase: Phase,
    seen: IdMap<u64>,
    connected: IdMap<()>,
    last_scan: Option<u64>,
}

impl View for Driver {
    type V = DriverModel;

    closed spec fn view(&self) -> DriverModel {
        DriverModel {
            phase: self.phase@,
            seen: self.seen@,
            seen_ids: self.seen.ids(),
            connected: self.connected.ids(),
            last_scan: self.last_scan,
        }
    }
}

/// Looks for an id.
fn find_id(ids: &Vec<String>, id: &String) -> (r: Option<usize>)
    ensures
        match r {
            Some(i) => first_from(strings_view(ids@), id@, 0) == Some(i as nat),
            None => first_from(strings_view(ids@), id@, 0) is None,
        },
        r matches Some(i) ==> i < ids@.len(),
{
    let ghost s = strings_view(ids@);
    let mut i: usize = 0;
    while i < ids.len()
        invariant
            i <= ids@.len(),
            s == strings_view(ids@),
            first_from(s, id@, 0) == first_from(s, id@, i as nat),
        decreases ids@.len() - i,
    {
        if ids[i] == *id {
            assert(s[i as int] == id@);
            return Some(i);
        }
        assert(s[i as int] != id@);
        i += 1;
    }
    None
}

/// Looks for a UUID.
fn find_uuid(uuids: &Vec<u128>, uuid: u128) -> (r: Option<usize>)
    ensures
        match r {
            Some(i) => first_from(uuids@, uuid, 0) == Some(i as nat),
            None => first_from(uuids@, uuid, 0) is None,
        },
        r matches Some(i) ==> i < uuids@.len(),
{
    let mut i: usize = 0;
    while i < uuids.len()
        invariant
            i <= uuids@.len(),
            first_from(uuids@, uuid, 0) == first_from(uuids@, uuid, i as nat),
        decreases uuids@.len() - i,
    {
        if uuids[i] == uuid {
            return Some(i);
        }
        i += 1;
    }
    None
}

/// The name of a device: the advertised one, or `Pinecil`.
pub fn device_name(advertised: Option<String>) -> (r: String)
    ensures
        r@ == device_name_of(
            match advertised {
                Some(name) => Some(name@),
                None => None,
            },
        ),
{
    match advertised {
        Some(name) => name,
        None => owned("Pinecil"),
    }
}

/// Whether a device with this name is an iron.
pub fn is_pinecil(name: &String) -> (r: bool)
    ensures
        r == is_pinecil_name(name@),
{
    proof {
        reveal_strlit("Pinecil");
    }
    let text = name.as_str();
    if text.unicode_len() < 7 {
        return false;
    }
    let prefix = owned(text.substring_char(0, 7));
    assert(prefix@ == name@.take(7));
    prefix == owned("Pinecil")
}

/// The two bytes of a number, least significant first.
fn bytes_of(v: u16) -> (r: Vec<u8>)
    ensures
        r@ == le_bytes(v),
{
    let mut r: Vec<u8> = Vec::new();
    r.push((v % 256) as u8);
    r.push((v / 256) as u8);
    r
}

/// The events that a completed connection causes.
pub fn handshake_events(id: &String, name: String, info: Option<String>) -> (r: Vec<BleEvent>)
    ensures
        events_view(r@) == handshake_events_of(
            id@,
            name@,
            match info {
                Some(text) => Some(text@),
                None => None,
            },
        ),
{
    let mut events: Vec<BleEvent> = Vec::new();
    if let Some(text) = info {
        events.push(BleEvent::BuildInfo(id.clone(), text));
    }
    events.push(BleEvent::Connected(id.clone(), name));
    events
}

/// The event that a read of live data causes, if any.
pub fn live_events(id: &String, bytes: &Vec<u8>) -> (r: Vec<BleEvent>)
    ensures
        events_view(r@) == live_events_of(id@, bytes@),
{
    let mut events: Vec<BleEvent> = Vec::new();
    if let Some(data) = LiveData::from_bulk(bytes.as_slice()) {
        events.push(BleEvent::LiveData(id.clone(), Box::new(data)));
    }
    events
}

impl Driver {
    /// The state is sound: no iron is listed twice, and those to be read are connected.
    pub open spec fn wf(&self) -> bool {
        self@.wf()
    }

    /// A driver that has not done anything yet.
    pub fn new() -> (r: Driver)
        ensures
            r.wf(),
            r@ == DriverModel::init(),
    {
        let r = Driver {
            phase: Phase::OpeningManager,
            seen: IdMap::new(),
            connected: IdMap::new(),
            last_scan: None,
        };
        assert(r@.seen.dom() =~= r@.seen_ids.to_set());
        r
    }

    /// What the driver asks for now.
    pub fn action(&self) -> (r: Action)
        requires
            self.wf(),
        ensures
            r@ == self@.action(),
    {
        match &self.phase {
            Phase::OpeningManager => Action::OpenManager,
            Phase::ListingAdapters => Action::ListAdapters,
            Phase::StartingScan => Action::StartScan,
            Phase::Receiving => Action::ReceiveCommand,
            Phase::Locating { .. } => Action::ListPeripherals,
            Phase::Connecting { index, .. } => Action::Connect(*index),
            Phase::Discovering { index, .. } => Action::DiscoverServices(*index),
            Phase::Naming { index, .. } => Action::ReadName(*index),
            Phase::InspectingBuild { index, .. } => Action::ListCharacteristics(
                Target::Listed(*index),
            ),
            Phase::ReadingBuild { index, at, .. } => Action::ReadCharacteristic(
                Target::Listed(*index),
                *at,
            ),
            Phase::Keeping { id, index } => Action::Keep(*index, id.clone()),
            Phase::Disconnecting { id } => Action::Close(id.clone()),
            Phase::InspectingSettings { id, .. } => Action::ListCharacteristics(
                Target::Kept(id.clone()),
            ),
            Phase::WritingSetpoint { id, temp, at, .. } => Action::WriteCharacteristic(
                Target::Kept(id.clone()),
                *at,
                bytes_of(*temp),
            ),
            Phase::WritingSave { id, at } => Action::WriteCharacteristic(
                Target::Kept(id.clone()),
                *at,
                bytes_of(1),
            ),
            Phase::Scanning => Action::ListPeripherals,
            Phase::ScanningName { at, .. } => Action::ReadName(*at),
            Phase::InspectingLive { ids, at } => Action::ListCharacteristics(
                Target::Kept(ids[*at].clone()),
            ),
            Phase::ReadingLive { ids, at, live_at } => Action::ReadCharacteristic(
                Target::Kept(ids[*at].clone()),
                *live_at,
            ),
            Phase::Dropping { ids, at } => Action::Close(ids[*at].clone()),
            Phase::Pausing => Action::Pause,
            Phase::Stopped => Action::Stop,
        }
    }

    /// The connected irons.
    fn connected_ids(&self) -> (r: Vec<String>)
        ensures
            strings_view(r@) == self@.connected,
    {
        let mut r: Vec<String> = Vec::new();
        let mut i: usize = 0;
        while i < self.connected.len()
            invariant
                i <= self.connected.ids().len(),
                r@.len() == i,
                forall|j: int| 0 <= j < i ==> (#[trigger] r@[j])@ == self.connected.ids()[j],
            decreases self.connected.ids().len() - i,
        {
            r.push(self.connected.id_at(i).clone());
            i += 1;
        }
        assert(strings_view(r@) =~= self.connected.ids());
        r
    }

    /// Reads the irons after `ids[at]`, then pauses.
    fn poll_after(&mut self, ids: Vec<String>, at: usize)
        requires
            at < ids@.len(),
        ensures
            final(self)@ == old(self)@.poll_from(strings_view(ids@), (at + 1) as nat),
    {
        self.phase = if at < ids.len() - 1 {
            Phase::InspectingLive { ids, at: at + 1 }
        } else {
            Phase::Pausing
        };
    }

    /// Begins to read every connected iron.
    fn poll(&mut self)
        ensures
            final(self)@ == old(self)@.poll(),
    {
        let ids = self.connected_ids();
        self.phase = if ids.len() > 0 {
            Phase::InspectingLive { ids, at: 0 }
        } else {
            Phase::Pausing
        };
    }

    /// Ends a scan: forgets the irons that are lost and begins to poll.
    fn end_scan(&mut self, now: u64, events: &mut Vec<BleEvent>)
        requires
            old(self).seen.wf(),
            old(self).connected.wf(),
        ensures
            final(self)@ == old(self)@.end_scan(now).0,
            events_view(final(events)@) == events_view(old(events)@) + old(self)@.end_scan(now).1,
    {
        let ghost m = self@;
        let ghost before = events_view(events@);
        let ghost connected = m.connected;
        let ghost seen = m.seen;
        let ghost gone = |id: Seq<char>| lost(connected, seen, now, id);
        let ghost kept = |id: Seq<char>| !lost(connected, seen, now, id);
        let mut remaining: IdMap<u64> = IdMap::new();
        let mut i: usize = 0;
        assert(m.seen_ids.take(0).filter(gone) =~= Seq::<Seq<char>>::empty()) by {
            reveal(Seq::filter);
        }
        assert(m.seen_ids.take(0).filter(kept) =~= Seq::<Seq<char>>::empty()) by {
            reveal(Seq::filter);
        }
        while i < self.seen.len()
            invariant
                i <= self.seen.ids().len(),
                self@ == m,
                m == old(self)@,
                self.seen.wf(),
                self.connected.wf(),
                remaining.wf(),
                connected == m.connected,
                seen == m.seen,
                gone == (|id: Seq<char>| lost(connected, seen, now, id)),
                kept == (|id: Seq<char>| !lost(connected, seen, now, id)),
                before == events_view(old(events)@),
                remaining.ids() == m.seen_ids.take(i as int).filter(kept),
                forall|k: Seq<char>| #[trigger]
                    remaining@.dom().contains(k) ==> remaining@[k] == m.seen[k],
                events_view(events@) == before + m.seen_ids.take(i as int).filter(
                    gone,
                ).map_values(|id: Seq<char>| EventModel::DeviceLost(id)),
            decreases self.seen.ids().len() - i,
        {
            let id = self.seen.id_at(i).clone();
            let then: u64 = *self.seen.value_at(i);
            proof {
                let upto = m.seen_ids.take(i as int);
                let next = m.seen_ids.take(i + 1);
                assert(next.drop_last() =~= upto);
                assert(next.last() == id@);
                reveal(Seq::filter);
                lemma_filter_distinct(upto, kept);
                assert(!upto.contains(id@));
                remaining.lemma_ids();
            }
            if !self.connected.contains(&id) && now.saturating_sub(then) > LOST_AFTER {
                let ghost reported = events_view(events@);
                events.push(BleEvent::DeviceLost(id));
                proof {
                    assert(gone(id@));
                    assert(events_view(events@) =~= reported.push(EventModel::DeviceLost(id@)));
                    let report = |id: Seq<char>| EventModel::DeviceLost(id);
                    assert(m.seen_ids.take(i + 1).filter(gone).map_values(report)
                        =~= m.seen_ids.take(i as int).filter(gone).map_values(report).push(
                        EventModel::DeviceLost(id@),
                    ));
                }
            } else {
                remaining.insert(id, then);
                assert(kept(id@));
            }
            i += 1;
        }
        proof {
            assert(m.seen_ids.take(i as int) =~= m.seen_ids);
            remaining.lemma_ids();
            self.seen.lemma_ids();
            lemma_lost(m, now);
            assert(remaining@ =~= m.seen.restrict(m.remaining_ids(now).to_set()));
        }
        self.seen = remaining;
        let ghost reported = events_view(events@);
        events.push(BleEvent::ScanTick);
        assert(events_view(events@) =~= reported.push(EventModel::ScanTick));
        self.poll();
    }

    /// Asks for the name of `ids[at]`, or ends the scan after the last one.
    fn scan_from(&mut self, now: u64, ids: Vec<String>, at: usize, events: &mut Vec<BleEvent>)
        requires
            old(self).seen.wf(),
            old(self).connected.wf(),
        ensures
            final(self)@ == old(self)@.scan_from(now, strings_view(ids@), at as nat).0,
            events_view(final(events)@) == events_view(old(events)@) + old(self)@.scan_from(
                now,
                strings_view(ids@),
                at as nat,
            ).1,
    {
        if at < ids.len() {
            self.phase = Phase::ScanningName { ids, at };
        } else {
            self.end_scan(now, events);
        }
    }

    /// Takes note of a scanned peripheral and reports it, if it is an iron that was not known.
    fn sight(&mut self, now: u64, id: &String, name: String, events: &mut Vec<BleEvent>)
        requires
            old(self).seen.wf(),
        ensures
            final(self)@ == old(self)@.sighted(now, id@, name@),
            final(self).seen.wf(),
            events_view(final(events)@) == events_view(old(events)@) + old(self)@.sighting_events(
                id@,
                name@,
            ),
    {
        if is_pinecil(&name) {
            let is_new = !self.seen.contains(id);
            proof {
                lemma_with_id(self.seen.ids(), id@);
            }
            self.seen.insert(id.clone(), now);
            if is_new {
                events.push(BleEvent::DeviceFound(FoundDevice { name, id: id.clone() }));
            }
        }
    }

    /// Reports a completed connection.
    fn establish(&mut self, id: String, index: usize, name: String, info: Option<String>) -> (r:
        Vec<BleEvent>)
        requires
            old(self).connected.wf(),
        ensures
            final(self)@ == old(self)@.established(
                id@,
                index as nat,
                name@,
                match info {
                    Some(text) => Some(text@),
                    None => None,
                },
            ).0,
            events_view(r@) == old(self)@.established(
                id@,
                index as nat,
                name@,
                match info {
                    Some(text) => Some(text@),
                    None => None,
                },
            ).1,
    {
        let events = handshake_events(&id, name, info);
        self.connected.insert(id.clone(), ());
        self.phase = Phase::Keeping { id, index };
        events
    }

    /// Obeys a command.
    fn obey(&mut self, command: BleCommand)
        requires
            old(self).connected.wf(),
            old(self)@.phase == PhaseModel::Receiving,
        ensures
            final(self)@ == old(self)@.obey(command@),
    {
        match command {
            BleCommand::Connect(id) => {
                if !self.connected.contains(&id) {
                    self.phase = Phase::Locating { id };
                }
            },
            BleCommand::Disconnect(id) => {
                if self.connected.contains(&id) {
                    let _ = self.connected.remove(&id);
                    self.phase = Phase::Disconnecting { id };
                }
            },
            BleCommand::SetTemperature(id, temp) => {
                if self.connected.contains(&id) {
                    self.phase = Phase::InspectingSettings { id, temp };
                }
            },
        }
    }

    /// Saves the settings of an iron, if it can; then takes the next command.
    fn save(&mut self, id: String, save_at: Option<usize>)
        ensures
            final(self)@ == old(self)@.save(
                id@,
                match save_at {
                    Some(i) => Some(i as nat),
                    None => None,
                },
            ),
    {
        self.phase = match save_at {
            Some(at) => Phase::WritingSave { id, at },
            None => Phase::Receiving,
        };
    }

    /// Whether a scan is due.
    fn scan_due(&self, now: u64) -> (r: bool)
        ensures
            r == self@.scan_due(now),
    {
        match self.last_scan {
            Some(then) => now.saturating_sub(then) >= SCAN_INTERVAL,
            None => true,
        }
    }

    /// Gives up a connection that was asked for.
    fn refuse(&mut self, id: String) -> (r: Vec<BleEvent>)
        ensures
            final(self)@ == old(self)@.refused(id@).0,
            events_view(r@) == old(self)@.refused(id@).1,
    {
        self.phase = Phase::Receiving;
        let mut events: Vec<BleEvent> = Vec::new();
        events.push(BleEvent::ConnectFailed(id));
        events
    }

    /// Stops for good.
    fn fail(&mut self, why: String) -> (r: Vec<BleEvent>)
        ensures
            final(self)@ == old(self)@.failed(why@).0,
            events_view(r@) == old(self)@.failed(why@).1,
    {
        self.phase = Phase::Stopped;
        let mut events: Vec<BleEvent> = Vec::new();
        events.push(BleEvent::Error(why));
        events
    }

    /// Opens the Bluetooth stack and starts to scan.
    fn step_opening(&mut self, input: Input) -> (r: Vec<BleEvent>)
        requires
            old(self).wf(),
        ensures
            final(self)@ == old(self)@.step_opening(input@).0,
            events_view(r@) == old(self)@.step_opening(input@).1,
    {
        let mut events: Vec<BleEvent> = Vec::new();
        assert(events_view(events@) =~= Seq::<EventModel>::empty());
        let mut phase = Phase::Receiving;
        core::mem::swap(&mut phase, &mut self.phase);
        match (phase, input) {
            (Phase::OpeningManager, Input::ManagerOpened) => {
                self.phase = Phase::ListingAdapters;
            },
            (Phase::OpeningManager, Input::ManagerFailed(why)) => {
                let mut text = owned("BLE manager: ");
                text.append(why.as_str());
                events = self.fail(text);
            },
            (Phase::ListingAdapters, Input::Adapters(count)) => {
                if count > 0 {
                    self.phase = Phase::StartingScan;
                } else {
                    events = self.fail(owned("No BLE adapter found"));
                }
            },
            (Phase::StartingScan, Input::Done(_)) => {
                self.phase = Phase::Receiving;
            },
            (phase, _) => {
                self.phase = phase;
            },
        }
        events
    }

    /// Takes a command, or begins the rest of the cycle when none waits.
    fn step_receiving(&mut self, now: u64, input: Input) -> (r: Vec<BleEvent>)
        requires
            old(self).wf(),
        ensures
            final(self)@ == old(self)@.step_receiving(now, input@).0,
            events_view(r@) == old(self)@.step_receiving(now, input@).1,
    {
        let events: Vec<BleEvent> = Vec::new();
        assert(events_view(events@) =~= Seq::<EventModel>::empty());
        let mut phase = Phase::Receiving;
        core::mem::swap(&mut phase, &mut self.phase);
        match (phase, input) {
            (Phase::Receiving, Input::Command(command)) => {
                self.obey(command);
            },
            (Phase::Receiving, Input::CommandsClosed) => {
                self.phase = Phase::Stopped;
            },
            (Phase::Receiving, Input::NoCommand) => {
                if self.scan_due(now) {
                    self.last_scan = Some(now);
                    self.phase = Phase::Scanning;
                } else {
                    self.poll();
                }
            },
            (phase, _) => {
                self.phase = phase;
            },
        }
        events
    }

    /// Connects to an iron, as a command asks.
    fn step_connecting(&mut self, input: Input) -> (r: Vec<BleEvent>)
        requires
            old(self).wf(),
        ensures
            final(self)@ == old(self)@.step_connecting(input@).0,
            events_view(r@) == old(self)@.step_connecting(input@).1,
    {
        let mut events: Vec<BleEvent> = Vec::new();
        assert(events_view(events@) =~= Seq::<EventModel>::empty());
        let mut phase = Phase::Receiving;
        core::mem::swap(&mut phase, &mut self.phase);
        match (phase, input) {
            (Phase::Locating { id }, Input::Peripherals(ids)) => {
                match find_id(&ids, &id) {
                    Some(index) => {
                        self.phase = Phase::Connecting { id, index };
                    },
                    None => {
                        events = self.refuse(id);
                    },
                }
            },
            (Phase::Connecting { id, index }, Input::Done(ok)) => {
                if ok {
                    self.phase = Phase::Discovering { id, index };
                } else {
                    events = self.refuse(id);
                }
            },
            (Phase::Discovering { id, index }, Input::Done(ok)) => {
                if ok {
                    self.phase = Phase::Naming { id, index };
                } else {
                    events = self.refuse(id);
                }
            },
            (Phase::Naming { id, index }, Input::Name(advertised)) => {
                let name = device_name(advertised);
                self.phase = Phase::InspectingBuild { id, index, name };
            },
            (Phase::InspectingBuild { id, index, name }, Input::Characteristics(uuids)) => {
                match find_uuid(&uuids, build_info_uuid()) {
                    Some(at) => {
                        self.phase = Phase::ReadingBuild { id, index, name, at };
                    },
                    None => {
                        events = self.establish(id, index, name, None);
                    },
                }
            },
            (Phase::ReadingBuild { id, index, name, .. }, Input::Value(value)) => {
                let info = match value {
                    Some(bytes) => Some(decode_lossy(&bytes)),
                    None => None,
                };
                events = self.establish(id, index, name, info);
            },
            (Phase::Keeping { .. }, Input::Done(_)) => {
                self.phase = Phase::Receiving;
            },
            (phase, _) => {
                self.phase = phase;
            },
        }
        events
    }

    /// Disconnects an iron or sets its temperature, as a command asks.
    fn step_obeying(&mut self, input: Input) -> (r: Vec<BleEvent>)
        requires
            old(self).wf(),
        ensures
            final(self)@ == old(self)@.step_obeying(input@).0,
            events_view(r@) == old(self)@.step_obeying(input@).1,
    {
        let mut events: Vec<BleEvent> = Vec::new();
        assert(events_view(events@) =~= Seq::<EventModel>::empty());
        let mut phase = Phase::Receiving;
        core::mem::swap(&mut phase, &mut self.phase);
        match (phase, input) {
            (Phase::Disconnecting { id }, Input::Done(_)) => {
                self.phase = Phase::Receiving;
                events.push(BleEvent::Disconnected(id));
            },
            (Phase::InspectingSettings { id, temp }, Input::Characteristics(uuids)) => {
                let save_at = find_uuid(&uuids, settings_save_uuid());
                match find_uuid(&uuids, setting_uuid(SETTING_SETPOINT)) {
                    Some(at) => {
                        self.phase = Phase::WritingSetpoint { id, temp, at, save_at };
                    },
                    None => {
                        self.save(id, save_at);
                    },
                }
            },
            (Phase::WritingSetpoint { id, save_at, .. }, Input::Done(_)) => {
                self.save(id, save_at);
            },
            (Phase::WritingSave { .. }, Input::Done(_)) => {
                self.phase = Phase::Receiving;
            },
            (phase, _) => {
                self.phase = phase;
            },
        }
        events
    }

    /// Scans.
    fn step_scanning(&mut self, now: u64, input: Input) -> (r: Vec<BleEvent>)
        requires
            old(self).wf(),
        ensures
            final(self)@ == old(self)@.step_scanning(now, input@).0,
            events_view(r@) == old(self)@.step_scanning(now, input@).1,
    {
        let mut events: Vec<BleEvent> = Vec::new();
        assert(events_view(events@) =~= Seq::<EventModel>::empty());
        let mut phase = Phase::Receiving;
        core::mem::swap(&mut phase, &mut self.phase);
        match (phase, input) {
            (Phase::Scanning, Input::Peripherals(ids)) => {
                self.phase = Phase::Scanning;
                self.scan_from(now, ids, 0, &mut events);
            },
            (Phase::ScanningName { ids, at }, Input::Name(advertised)) => {
                let name = device_name(advertised);
                let id = ids[at].clone();
                assert(at < ids.len());
                self.sight(now, &id, name, &mut events);
                self.scan_from(now, ids, at + 1, &mut events);
            },
            (phase, _) => {
                self.phase = phase;
            },
        }
        events
    }

    /// Reads the connected irons and pauses.
    fn step_polling(&mut self, input: Input) -> (r: Vec<BleEvent>)
        requires
            old(self)@.in_range(),
            old(self)@.connected.no_duplicates(),
        ensures
            final(self)@ == old(self)@.step_polling(input@).0,
            events_view(r@) == old(self)@.step_polling(input@).1,
    {
        let mut events: Vec<BleEvent> = Vec::new();
        assert(events_view(events@) =~= Seq::<EventModel>::empty());
        let mut phase = Phase::Receiving;
        core::mem::swap(&mut phase, &mut self.phase);
        match (phase, input) {
            (Phase::InspectingLive { ids, at }, Input::Characteristics(uuids)) => {
                match find_uuid(&uuids, live_data_uuid()) {
                    Some(live_at) => {
                        self.phase = Phase::ReadingLive { ids, at, live_at };
                    },
                    None => {
                        self.poll_after(ids, at);
                    },
                }
            },
            (Phase::ReadingLive { ids, at, .. }, Input::Value(value)) => {
                match value {
                    Some(bytes) => {
                        events = live_events(&ids[at], &bytes);
                        self.poll_after(ids, at);
                    },
                    None => {
                        let _ = self.connected.remove(&ids[at]);
                        self.phase = Phase::Dropping { ids, at };
                    },
                }
            },
            (Phase::Dropping { ids, at }, Input::Done(_)) => {
                events.push(BleEvent::Disconnected(ids[at].clone()));
                self.poll_after(ids, at);
            },
            (Phase::Pausing, Input::Done(_)) => {
                self.phase = Phase::Receiving;
            },
            (phase, _) => {
                self.phase = phase;
            },
        }
        events
    }

    /// One move of the driver: takes the answer to the pending action, given at the time `now`
    /// (ns on a clock that does not run backwards), and returns what it has to report. What does
    /// not answer the pending action is passed over.
    pub fn step(&mut self, now: u64, input: Input) -> (r: Vec<BleEvent>)
        requires
            old(self).wf(),
        ensures
            final(self).wf(),
            final(self)@ == old(self)@.step(now, input@).0,
            events_view(r@) == old(self)@.step(now, input@).1,
    {
        proof {
            law_driver_stays_sound(self@, now, input@);
        }
        match &self.phase {
            Phase::OpeningManager
            | Phase::ListingAdapters
            | Phase::StartingScan => self.step_opening(input),
            Phase::Receiving => self.step_receiving(now, input),
            Phase::Locating { .. }
            | Phase::Connecting { .. }
            | Phase::Discovering { .. }
            | Phase::Naming { .. }
            | Phase::InspectingBuild { .. }
            | Phase::ReadingBuild { .. }
            | Phase::Keeping { .. } => self.step_connecting(input),
            Phase::Disconnecting { .. }
            | Phase::InspectingSettings { .. }
            | Phase::WritingSetpoint { .. }
            | Phase::WritingSave { .. } => self.step_obeying(input),
            Phase::Scanning
            | Phase::ScanningName { .. } => self.step_scanning(now, input),
            Phase::InspectingLive { .. }
            | Phase::ReadingLive { .. }
            | Phase::Dropping { .. }
            | Phase::Pausing => self.step_polling(input),
            Phase::Stopped => Vec::new(),
        }
    }
}

} // verus!
