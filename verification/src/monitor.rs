//! The monitor: what is known of the irons, and what the user has asked for.

use crate::ble::{events_view, BleCommand, BleEvent, FoundDevice};
use crate::ble::{CommandModel, EventModel, FoundModel};
use crate::idmap::IdMap;
use crate::monitor_laws::law_monitor_stays_sound;
use crate::pinecil::LiveData;
use crate::text::owned;
use vstd::prelude::*;

verus! {

/// The setpoint of an iron that has not reported one, °C.
pub const DEFAULT_SETPOINT: u16 = 350;

/// The lowest setpoint that the user can choose, °C.
pub const MIN_SETPOINT: u16 = 100;

/// The highest setpoint that the user can choose, °C.
pub const MAX_SETPOINT: u16 = 450;

/// How far a button moves the setpoint, °C.
pub const SETPOINT_STEP: i16 = 5;

/// The lowest setpoint that is taken over from an iron, °C.
pub const SANE_SETPOINT: u32 = 50;

/// The most irons that are connected or being connected at a time.
pub const MAX_DEVICES: u128 = 2;

/// What is known of a connected iron.
pub struct DeviceState {
    pub name: String,
    pub build_info: Option<String>,
    pub data: Option<LiveData>,
    /// The setpoint that the user sees and changes, °C.
    pub local_setpoint: u16,
    /// Counts the readings, modulo 2^32.
    pub tick: u32,
}

/// What is known of a connected iron, with text as characters.
#[verifier::ext_equal]
pub struct DeviceModel {
    pub name: Seq<char>,
    pub build_info: Option<Seq<char>>,
    pub data: Option<LiveData>,
    pub local_setpoint: u16,
    pub tick: u32,
}

impl View for DeviceState {
    type V = DeviceModel;

    open spec fn view(&self) -> DeviceModel {
        DeviceModel {
            name: self.name@,
            build_info: match self.build_info {
                Some(info) => Some(info@),
                None => None,
            },
            data: self.data,
            local_setpoint: self.local_setpoint,
            tick: self.tick,
        }
    }
}

impl DeviceModel {
    /// An iron that has just been connected.
    pub open spec fn connected(name: Seq<char>) -> DeviceModel {
        DeviceModel {
            name,
            build_info: None,
            data: None,
            local_setpoint: DEFAULT_SETPOINT,
            tick: 0,
        }
    }

    /// The iron after a reading. The first reading brings the iron's own setpoint, if it looks
    /// sane.
    pub open spec fn after_reading(self, incoming: LiveData) -> DeviceModel {
        DeviceModel {
            local_setpoint: if self.data is None && incoming.setpoint >= SANE_SETPOINT {
                capped(incoming.setpoint)
            } else {
                self.local_setpoint
            },
            tick: next_tick(self.tick),
            data: Some(incoming),
            ..self
        }
    }

    /// The iron with another setpoint.
    pub open spec fn with_setpoint(self, setpoint: u16) -> DeviceModel {
        DeviceModel { local_setpoint: setpoint, ..self }
    }

    /// The iron once its build text is known.
    pub open spec fn with_build_info(self, info: Seq<char>) -> DeviceModel {
        DeviceModel { build_info: Some(info), ..self }
    }
}

/// `v` in 16 bits, or the most they hold.
pub open spec fn capped(v: u32) -> u16 {
    if v <= u16::MAX {
        v as u16
    } else {
        u16::MAX
    }
}

/// The count after `tick`, modulo 2^32.
pub open spec fn next_tick(tick: u32) -> u32 {
    if tick < u32::MAX {
        (tick + 1) as u32
    } else {
        0
    }
}

/// A setpoint read as a signed 16-bit number.
pub open spec fn signed_setpoint(setpoint: u16) -> int {
    if setpoint < 0x8000 {
        setpoint as int
    } else {
        setpoint - 0x1_0000
    }
}

/// A setpoint after a change by `delta`, kept within what the user can choose.
pub open spec fn adjusted(setpoint: u16, delta: i16) -> u16 {
    let next = signed_setpoint(setpoint) + delta;
    if next < MIN_SETPOINT {
        MIN_SETPOINT
    } else if next > MAX_SETPOINT {
        MAX_SETPOINT
    } else {
        next as u16
    }
}

/// The monitor's state.
#[verifier::ext_equal]
pub struct MonitorModel {
    /// The irons that a scan has found, in the order in which they were found.
    pub scan_list: Seq<FoundModel>,
    /// The irons that are being connected.
    pub connecting: Set<Seq<char>>,
    /// The connected irons.
    pub devices: Map<Seq<char>, DeviceModel>,
    /// Whether the user wants to see the scanner.
    pub show_scan: bool,
    /// Counts the refreshes of the screen, modulo 2^32.
    pub global_tick: u32,
    /// Why Bluetooth cannot be used.
    pub error: Option<Seq<char>>,
}

/// What the monitor shows.
#[derive(Debug, Clone, Copy, PartialEq, Eq, Structural)]
pub enum Screen {
    Error,
    Scan,
    Dashboard,
}

impl MonitorModel {
    /// No iron is in the scan list twice, and only finitely many are known.
    pub open spec fn wf(self) -> bool {
        &&& forall|i: int, j: int|
            0 <= i < j < self.scan_list.len() ==> (#[trigger] self.scan_list[i]).id != (
            #[trigger] self.scan_list[j]).id
        &&& self.connecting.finite()
        &&& self.devices.dom().finite()
    }

    /// A monitor that knows of no irons.
    pub open spec fn init() -> MonitorModel {
        MonitorModel {
            scan_list: Seq::empty(),
            connecting: Set::empty(),
            devices: Map::empty(),
            show_scan: true,
            global_tick: 0,
            error: None,
        }
    }

    /// Whether the scan list holds an iron.
    pub open spec fn listed(self, id: Seq<char>) -> bool {
        exists|i: int| 0 <= i < self.scan_list.len() && (#[trigger] self.scan_list[i]).id == id
    }

    /// Whether no iron is connected or being connected.
    pub open spec fn is_alone(self) -> bool {
        self.devices.dom() == Set::<Seq<char>>::empty() && self.connecting == Set::<
            Seq<char>,
        >::empty()
    }

    /// The number of irons that are connected or being connected.
    pub open spec fn total(self) -> nat {
        self.devices.dom().len() + self.connecting.len()
    }

    /// The monitor with another state of one iron.
    pub open spec fn with_device(self, id: Seq<char>, device: DeviceModel) -> MonitorModel {
        MonitorModel { devices: self.devices.insert(id, device), ..self }
    }

    /// The monitor after an event.
    pub open spec fn apply(self, event: EventModel) -> MonitorModel {
        match event {
            EventModel::DeviceFound(dev) => if self.listed(dev.id) {
                self
            } else {
                MonitorModel { scan_list: self.scan_list.push(dev), ..self }
            },
            EventModel::DeviceLost(id) => MonitorModel {
                scan_list: self.scan_list.filter(|d: FoundModel| d.id != id),
                connecting: self.connecting.remove(id),
                ..self
            },
            EventModel::ConnectFailed(id) => MonitorModel {
                connecting: self.connecting.remove(id),
                ..self
            },
            EventModel::ScanTick => self,
            EventModel::Connected(id, name) => MonitorModel {
                connecting: self.connecting.remove(id),
                devices: self.devices.insert(id, DeviceModel::connected(name)),
                show_scan: false,
                error: None,
                ..self
            },
            EventModel::Disconnected(id) => {
                let after = MonitorModel {
                    devices: self.devices.remove(id),
                    connecting: self.connecting.remove(id),
                    ..self
                };
                MonitorModel { show_scan: self.show_scan || after.is_alone(), ..after }
            },
            EventModel::LiveData(id, incoming) => if self.devices.dom().contains(id) {
                self.with_device(id, self.devices[id].after_reading(incoming))
            } else {
                self
            },
            EventModel::BuildInfo(id, info) => if self.devices.dom().contains(id) {
                self.with_device(id, self.devices[id].with_build_info(info))
            } else {
                self
            },
            EventModel::Error(msg) => MonitorModel { error: Some(msg), ..self },
        }
    }

    /// The monitor after a batch of events, taken in order.
    pub open spec fn apply_all(self, events: Seq<EventModel>) -> MonitorModel
        decreases events.len(),
    {
        if events.len() == 0 {
            self
        } else {
            self.apply_all(events.drop_last()).apply(events.last())
        }
    }

    /// The monitor after a refresh of the screen.
    pub open spec fn refreshed(self, events: Seq<EventModel>) -> MonitorModel {
        MonitorModel { global_tick: next_tick(self.global_tick), ..self.apply_all(events) }
    }

    /// Whether the setpoint of an iron can be changed by `delta` in 16-bit arithmetic.
    pub open spec fn is_adjustable(self, id: Seq<char>, delta: i16) -> bool {
        self.devices.dom().contains(id) ==> i16::MIN <= signed_setpoint(
            self.devices[id].local_setpoint,
        ) + delta <= i16::MAX
    }

    /// The monitor after the user has changed a setpoint.
    pub open spec fn adjust(self, id: Seq<char>, delta: i16) -> (
        MonitorModel,
        Option<CommandModel>,
    ) {
        if self.devices.dom().contains(id) {
            let next = adjusted(self.devices[id].local_setpoint, delta);
            (
                self.with_device(id, self.devices[id].with_setpoint(next)),
                Some(CommandModel::SetTemperature(id, next)),
            )
        } else {
            (self, None)
        }
    }

    /// Whether an iron in the scan list can be connected.
    pub open spec fn can_connect(self, id: Seq<char>) -> bool {
        !self.devices.dom().contains(id) && !self.connecting.contains(id) && self.total()
            < MAX_DEVICES
    }

    /// The monitor after the user has chosen an iron that could, or could not, be connected when
    /// it was shown.
    pub open spec fn choose_iron(self, id: Seq<char>, can_connect: bool) -> (
        MonitorModel,
        Option<CommandModel>,
    ) {
        if can_connect {
            (
                MonitorModel { connecting: self.connecting.insert(id), ..self },
                Some(CommandModel::Connect(id)),
            )
        } else {
            (self, None)
        }
    }

    /// The monitor after the user has asked for the scanner, or for the dashboard.
    pub open spec fn turned_to(self, scanner: bool) -> MonitorModel {
        MonitorModel { show_scan: scanner, ..self }
    }

    /// The monitor after the user has asked to try again.
    pub open spec fn retried(self) -> MonitorModel {
        MonitorModel { error: None, show_scan: true, ..self }
    }

    /// The monitor after the user has disconnected an iron.
    pub open spec fn disconnect(self, id: Seq<char>) -> MonitorModel {
        let devices = self.devices.remove(id);
        MonitorModel {
            devices,
            show_scan: self.show_scan || devices.dom() == Set::<Seq<char>>::empty(),
            ..self
        }
    }

    /// What is shown: an error first, the scanner while it is wanted or there is nothing else to
    /// show, else the dashboard.
    pub open spec fn screen(self) -> Screen {
        if self.error is Some {
            Screen::Error
        } else if self.show_scan || self.is_alone() {
            Screen::Scan
        } else {
            Screen::Dashboard
        }
    }
}

/// The monitor.
pub struct PinemonitorView {
    pub(crate) scan_list: Vec<FoundDevice>,
    pub(crate) connecting: IdMap<()>,
    pub(crate) devices: IdMap<DeviceState>,
    pub(crate) show_scan: bool,
    pub(crate) global_tick: u32,
    pub(crate) error: Option<String>,
}

/// The devices of a list, with text as characters.
pub open spec fn found_view(list: Seq<FoundDevice>) -> Seq<FoundModel> {
    list.map_values(|d: FoundDevice| d@)
}

/// The state of each iron, with text as characters.
pub open spec fn devices_view(devices: Map<Seq<char>, DeviceState>) -> Map<Seq<char>, DeviceModel> {
    Map::new(|id: Seq<char>| devices.dom().contains(id), |id: Seq<char>| devices[id]@)
}

impl View for PinemonitorView {
    type V = MonitorModel;

    closed spec fn view(&self) -> MonitorModel {
        MonitorModel {
            scan_list: found_view(self.scan_list@),
            connecting: self.connecting@.dom(),
            devices: devices_view(self.devices@),
            show_scan: self.show_scan,
            global_tick: self.global_tick,
            error: match self.error {
                Some(msg) => Some(msg@),
                None => None,
            },
        }
    }
}

impl PinemonitorView {
    /// The state is sound.
    pub closed spec fn wf(&self) -> bool {
        self.connecting.wf() && self.devices.wf() && self@.wf()
    }

    /// A monitor that knows of no irons.
    pub fn new() -> (r: PinemonitorView)
        ensures
            r.wf(),
            r@ == MonitorModel::init(),
    {
        let r = PinemonitorView {
            scan_list: Vec::new(),
            connecting: IdMap::new(),
            devices: IdMap::new(),
            show_scan: true,
            global_tick: 0,
            error: None,
        };
        assert(r@.scan_list =~= Seq::<FoundModel>::empty());
        assert(r@.devices =~= Map::<Seq<char>, DeviceModel>::empty());
        assert(r@.connecting =~= Set::<Seq<char>>::empty());
        r
    }

    /// How the parts of the monitor make up its state.
    pub(crate) proof fn lemma_parts(&self)
        ensures
            self@.scan_list == found_view(self.scan_list@),
            self@.devices == devices_view(self.devices@),
            self@.devices.dom() == self.devices@.dom(),
            self@.devices.dom() == self.devices.ids().to_set(),
            self@.connecting == self.connecting@.dom(),
            self@.show_scan == self.show_scan,
            self@.global_tick == self.global_tick,
            self@.error == match self.error {
                Some(msg) => Some(msg@),
                None => None,
            },
            self.wf() ==> self.devices.wf() && self.connecting.wf() && self@.wf(),
    {
        self.devices.lemma_ids();
        assert(self@.devices.dom() =~= self.devices@.dom());
    }

    /// How many irons there are.
    pub(crate) proof fn lemma_counts(&self)
        requires
            self.wf(),
        ensures
            self@.devices.dom().len() == self.devices.ids().len(),
            self@.connecting.len() == self.connecting.ids().len(),
            self@.devices.dom() == Set::<Seq<char>>::empty() <==> self.devices.ids().len() == 0,
            self.devices.wf(),
            self.connecting.wf(),
    {
        self.lemma_parts();
        self.devices.lemma_ids();
        self.connecting.lemma_ids();
        lemma_no_ids(self.devices.ids());
    }

    /// Whether the scan list holds an iron.
    fn is_listed(&self, id: &String) -> (r: bool)
        ensures
            r == self@.listed(id@),
    {
        let mut i: usize = 0;
        while i < self.scan_list.len()
            invariant
                i <= self.scan_list@.len(),
                forall|j: int| 0 <= j < i ==> (#[trigger] self@.scan_list[j]).id != id@,
            decreases self.scan_list@.len() - i,
        {
            if self.scan_list[i].id == *id {
                assert(self@.scan_list[i as int].id == id@);
                return true;
            }
            i += 1;
        }
        false
    }

    /// Takes an iron out of the scan list.
    fn unlist(&mut self, id: &String)
        ensures
            final(self)@ == (MonitorModel {
                scan_list: old(self)@.scan_list.filter(|d: FoundModel| d.id != id@),
                ..old(self)@
            }),
            final(self).connecting == old(self).connecting,
            final(self).devices == old(self).devices,
    {
        let ghost list = self@.scan_list;
        let ghost keep = |d: FoundModel| d.id != id@;
        let mut left: Vec<FoundDevice> = Vec::new();
        let mut i: usize = 0;
        assert(list.take(0).filter(keep) =~= Seq::<FoundModel>::empty()) by {
            reveal(Seq::filter);
        }
        assert(found_view(left@) =~= Seq::<FoundModel>::empty());
        while i < self.scan_list.len()
            invariant
                i <= self.scan_list@.len(),
                list == found_view(self.scan_list@),
                *self == *old(self),
                keep == (|d: FoundModel| d.id != id@),
                found_view(left@) == list.take(i as int).filter(keep),
            decreases self.scan_list@.len() - i,
        {
            proof {
                let next = list.take(i + 1);
                assert(next.drop_last() =~= list.take(i as int));
                assert(next.last() == self.scan_list@[i as int]@);
                reveal(Seq::filter);
            }
            if self.scan_list[i].id != *id {
                let ghost before = found_view(left@);
                left.push(self.scan_list[i].copy());
                assert(found_view(left@) =~= before.push(list[i as int]));
            }
            i += 1;
        }
        assert(list.take(i as int) =~= list);
        self.scan_list = left;
    }

    /// Takes note of an event.
    pub fn apply(&mut self, event: BleEvent)
        requires
            old(self).wf(),
        ensures
            final(self).wf(),
            final(self)@ == old(self)@.apply(event@),
    {
        let ghost m = self@;
        proof {
            law_monitor_stays_sound(m, event@);
            self.connecting.lemma_ids();
            self.devices.lemma_ids();
        }
        match event {
            BleEvent::DeviceFound(dev) => {
                if !self.is_listed(&dev.id) {
                    self.scan_list.push(dev);
                    assert(self@.scan_list =~= m.scan_list.push(dev@));
                }
            },
            BleEvent::DeviceLost(id) => {
                self.unlist(&id);
                let _ = self.connecting.remove(&id);
            },
            BleEvent::ConnectFailed(id) => {
                let _ = self.connecting.remove(&id);
            },
            BleEvent::ScanTick => {},
            BleEvent::Connected(id, name) => {
                let _ = self.connecting.remove(&id);
                let device = DeviceState {
                    name,
                    build_info: None,
                    data: None,
                    local_setpoint: DEFAULT_SETPOINT,
                    tick: 0,
                };
                self.devices.insert(id, device);
                self.show_scan = false;
                self.error = None;
                assert(self@.devices =~= m.devices.insert(id@, device@));
            },
            BleEvent::Disconnected(id) => {
                let _ = self.devices.remove(&id);
                let _ = self.connecting.remove(&id);
                assert(self@.devices =~= m.devices.remove(id@));
                if self.is_alone() {
                    self.show_scan = true;
                }
            },
            BleEvent::LiveData(id, incoming) => {
                if let Some(dev) = self.devices.get_mut(&id) {
                    if dev.data.is_none() && incoming.setpoint >= SANE_SETPOINT {
                        dev.local_setpoint = if incoming.setpoint <= 0xffff {
                            incoming.setpoint as u16
                        } else {
                            0xffff
                        };
                    }
                    dev.tick = dev.tick.wrapping_add(1);
                    dev.data = Some(*incoming);
                }
                assert(self@.devices =~= m.apply(event@).devices);
            },
            BleEvent::BuildInfo(id, info) => {
                if let Some(dev) = self.devices.get_mut(&id) {
                    dev.build_info = Some(info);
                }
                assert(self@.devices =~= m.apply(event@).devices);
            },
            BleEvent::Error(msg) => {
                self.error = Some(msg);
            },
        }
    }

    /// Takes note of a batch of events, in order.
    pub fn drain_events(&mut self, batch: Vec<BleEvent>)
        requires
            old(self).wf(),
        ensures
            final(self).wf(),
            final(self)@ == old(self)@.apply_all(events_view(batch@)),
    {
        let ghost m = self@;
        let ghost all = events_view(batch@);
        assert(all.take(0) =~= Seq::<EventModel>::empty());
        for event in iter: batch
            invariant
                self.wf(),
                all == events_view(iter.seq()),
                self@ == m.apply_all(all.take(iter.index() as int)),
        {
            proof {
                let i = iter.index();
                assert(all.take(i + 1).drop_last() =~= all.take(i as int));
                assert(all.take(i + 1).last() == event@);
            }
            self.apply(event);
        }
        assert(all.take(all.len() as int) =~= all);
    }

    /// Refreshes: takes note of the events since the last refresh.
    pub fn refresh(&mut self, batch: Vec<BleEvent>)
        requires
            old(self).wf(),
        ensures
            final(self).wf(),
            final(self)@ == old(self)@.refreshed(events_view(batch@)),
    {
        proof {
            lemma_apply_all_tick(self@, events_view(batch@));
        }
        self.drain_events(batch);
        self.global_tick = self.global_tick.wrapping_add(1);
    }

    /// Whether the setpoint of an iron can be changed by `delta` in 16-bit arithmetic.
    pub fn is_adjustable(&self, id: &str, delta: i16) -> (r: bool)
        requires
            self.wf(),
        ensures
            r == self@.is_adjustable(id@, delta),
    {
        match self.devices.get(&owned(id)) {
            Some(dev) => {
                let next: i32 = signed(dev.local_setpoint) as i32 + delta as i32;
                -0x8000 <= next && next <= 0x7fff
            },
            None => true,
        }
    }

    /// Changes the setpoint of an iron, within what the user can choose, and asks for it to be
    /// set. Does nothing for an iron that is not connected.
    pub fn adjust_setpoint(&mut self, id: &str, delta: i16) -> (r: Option<BleCommand>)
        requires
            old(self).wf(),
            old(self)@.is_adjustable(id@, delta),
        ensures
            final(self).wf(),
            final(self)@ == old(self)@.adjust(id@, delta).0,
            match r {
                Some(command) => old(self)@.adjust(id@, delta).1 == Some(command@),
                None => old(self)@.adjust(id@, delta).1 is None,
            },
    {
        let ghost m = self@;
        let key = owned(id);
        let r = match self.devices.get_mut(&key) {
            Some(dev) => {
                let next: i16 = signed(dev.local_setpoint) + delta;
                let setpoint: u16 = if next < MIN_SETPOINT as i16 {
                    MIN_SETPOINT
                } else if next > MAX_SETPOINT as i16 {
                    MAX_SETPOINT
                } else {
                    next as u16
                };
                dev.local_setpoint = setpoint;
                Some(BleCommand::SetTemperature(key, setpoint))
            },
            None => None,
        };
        assert(self@.devices =~= m.adjust(id@, delta).0.devices);
        r
    }

    /// The user has chosen an iron in the scan list. `can_connect` says whether it could be
    /// connected when it was shown.
    pub fn connect(&mut self, id: &str, can_connect: bool) -> (r: Option<BleCommand>)
        requires
            old(self).wf(),
        ensures
            final(self).wf(),
            can_connect ==> {
                &&& final(self)@ == (MonitorModel {
                    connecting: old(self)@.connecting.insert(id@),
                    ..old(self)@
                })
                &&& r matches Some(command)
                &&& command@ == CommandModel::Connect(id@)
            },
            !can_connect ==> final(self)@ == old(self)@ && r is None,
            final(self)@ == old(self)@.choose_iron(id@, can_connect).0,
            match r {
                Some(command) => old(self)@.choose_iron(id@, can_connect).1 == Some(command@),
                None => old(self)@.choose_iron(id@, can_connect).1 is None,
            },
    {
        if can_connect {
            self.connecting.insert(owned(id), ());
            Some(BleCommand::Connect(owned(id)))
        } else {
            None
        }
    }

    /// The user disconnects an iron.
    pub fn disconnect(&mut self, id: &str) -> (r: BleCommand)
        requires
            old(self).wf(),
        ensures
            final(self).wf(),
            final(self)@ == old(self)@.disconnect(id@),
            r@ == CommandModel::Disconnect(id@),
    {
        let ghost m = self@;
        let key = owned(id);
        let _ = self.devices.remove(&key);
        proof {
            self.devices.lemma_ids();
            lemma_no_ids(self.devices.ids());
            assert(self@.devices =~= m.devices.remove(id@));
            assert(self@.devices.dom() =~= self.devices@.dom());
        }
        if self.devices.len() == 0 {
            self.show_scan = true;
        }
        BleCommand::Disconnect(key)
    }

    /// The user leaves the scanner for the dashboard.
    pub fn show_dashboard(&mut self)
        requires
            old(self).wf(),
        ensures
            final(self).wf(),
            final(self)@ == (MonitorModel { show_scan: false, ..old(self)@ }),
            final(self)@ == old(self)@.turned_to(false),
    {
        self.show_scan = false;
    }

    /// The user wants to add an iron.
    pub fn show_scanner(&mut self)
        requires
            old(self).wf(),
        ensures
            final(self).wf(),
            final(self)@ == (MonitorModel { show_scan: true, ..old(self)@ }),
            final(self)@ == old(self)@.turned_to(true),
    {
        self.show_scan = true;
    }

    /// The user wants to try again after an error.
    pub fn retry(&mut self)
        requires
            old(self).wf(),
        ensures
            final(self).wf(),
            final(self)@ == (MonitorModel { error: None, show_scan: true, ..old(self)@ }),
            final(self)@ == old(self)@.retried(),
    {
        self.error = None;
        self.show_scan = true;
    }

    /// What to show.
    pub fn render(&self) -> (r: Screen)
        requires
            self.wf(),
        ensures
            r == self@.screen(),
    {
        if self.error.is_some() {
            Screen::Error
        } else if self.show_scan || self.is_alone() {
            Screen::Scan
        } else {
            Screen::Dashboard
        }
    }

    /// Whether no iron is connected or being connected.
    pub(crate) fn is_alone(&self) -> (r: bool)
        requires
            self.devices.wf(),
            self.connecting.wf(),
        ensures
            r == self@.is_alone(),
    {
        proof {
            self.connecting.lemma_ids();
            self.devices.lemma_ids();
            lemma_no_ids(self.connecting.ids());
            lemma_no_ids(self.devices.ids());
            assert(self@.devices.dom() =~= self.devices@.dom());
        }
        self.devices.len() == 0 && self.connecting.len() == 0
    }
}

/// A setpoint read as a signed 16-bit number.
fn signed(setpoint: u16) -> (r: i16)
    ensures
        r == signed_setpoint(setpoint),
{
    if setpoint < 0x8000 {
        setpoint as i16
    } else {
        (setpoint as i32 - 0x1_0000) as i16
    }
}

/// Events leave the count of refreshes alone.
proof fn lemma_apply_all_tick(m: MonitorModel, events: Seq<EventModel>)
    ensures
        m.apply_all(events).global_tick == m.global_tick,
    decreases events.len(),
{
    if events.len() > 0 {
        lemma_apply_all_tick(m, events.drop_last());
    }
}

/// A list holds no ids exactly when it is empty.
proof fn lemma_no_ids(ids: Seq<Seq<char>>)
    ensures
        ids.len() == 0 <==> ids.to_set() == Set::<Seq<char>>::empty(),
{
    if ids.len() == 0 {
        assert(ids.to_set() =~= Set::<Seq<char>>::empty());
    } else {
        assert(ids.contains(ids[0]));
        assert(ids.to_set().contains(ids[0]));
    }
}

} // verus!
