//! The driver's conversations with the Bluetooth stack, as they look from outside: what it asks
//! for, what it is told, what it reports.

use crate::ble::{CommandModel, EventModel};
use crate::idmap::without_id;
use crate::pinecil::{setting_uuid_value, LiveData, SETTING_SETPOINT};
use crate::protocol::{
    device_name_of, handshake_events_of, is_pinecil_name, le_bytes, live_events_of, ActionModel,
    DriverModel, InputModel, PhaseModel, TargetModel, PAUSE_MILLIS,
};
use crate::protocol_laws::lemma_first_from;
use crate::text::utf8_lossy;
use vstd::prelude::*;

verus! {

/// What comes of telling the driver so many things, one after the other: its state, and all that
/// it has reported.
pub open spec fn run(m: DriverModel, told: Seq<(u64, InputModel)>) -> (
    DriverModel,
    Seq<EventModel>,
)
    decreases told.len(),
{
    if told.len() == 0 {
        (m, Seq::empty())
    } else {
        let (before, reported) = run(m, told.drop_last());
        let (after, more) = before.step(told.last().0, told.last().1);
        (after, reported + more)
    }
}

/// Whether a thing that the driver is told answers what it asks for.
pub open spec fn answers(action: ActionModel, input: InputModel) -> bool {
    match action {
        ActionModel::OpenManager => input is ManagerOpened || input is ManagerFailed,
        ActionModel::ListAdapters => input is Adapters,
        ActionModel::ReceiveCommand => input is Command || input is NoCommand
            || input is CommandsClosed,
        ActionModel::ListPeripherals => input is Peripherals,
        ActionModel::ReadName(_) => input is Name,
        ActionModel::ListCharacteristics(_) => input is Characteristics,
        ActionModel::ReadCharacteristic(_, _) => input is Value,
        ActionModel::StartScan => input is Done,
        ActionModel::Connect(_) => input is Done,
        ActionModel::DiscoverServices(_) => input is Done,
        ActionModel::WriteCharacteristic(_, _, _) => input is Done,
        ActionModel::Keep(_, _) => input is Done,
        ActionModel::Close(_) => input is Done,
        ActionModel::Pause => input is Done,
        ActionModel::Stop => false,
    }
}

/// What does not answer the driver's question changes nothing and is not reported on.
pub proof fn law_other_answers_change_nothing(m: DriverModel, now: u64, input: InputModel)
    requires
        !answers(m.action(), input),
    ensures
        m.step(now, input).0 == m,
        m.step(now, input).1.len() == 0,
{
}

/// Whether a scan is due at `now`: none has begun yet, or the last one began five seconds ago or
/// earlier.
pub open spec fn is_due(m: DriverModel, now: u64) -> bool {
    m.last_scan matches Some(then) ==> then + 5_000_000_000 <= now
}

/// The time of the last scan changes when a scan begins, and at no other time.
pub proof fn law_scans_are_timed(m: DriverModel, now: u64, input: InputModel)
    ensures
        m.step(now, input).0.last_scan == if m.action() == ActionModel::ReceiveCommand
            && input is NoCommand && is_due(m, now) {
            Some(now)
        } else {
            m.last_scan
        },
{
}

/// When no command waits, a scan begins if one is due; else the connected irons are read, the first
/// one first; without any, the driver pauses. Nothing is reported, and nothing is forgotten.
pub proof fn law_cycle_goes_on(m: DriverModel, now: u64)
    requires
        m.action() == ActionModel::ReceiveCommand,
    ensures
        ({
            let (after, events) = m.step(now, InputModel::NoCommand);
            &&& events.len() == 0
            &&& after.seen == m.seen && after.connected == m.connected
            &&& after.action() == if is_due(m, now) {
                ActionModel::ListPeripherals
            } else if m.connected.len() > 0 {
                ActionModel::ListCharacteristics(TargetModel::Kept(m.connected[0]))
            } else {
                ActionModel::Pause
            }
        }),
{
}

/// After the pause the next command is taken; nothing else has changed.
pub proof fn law_pause_ends(m: DriverModel, now: u64, ok: bool)
    requires
        m.action() == ActionModel::Pause,
    ensures
        ({
            let (after, events) = m.step(now, InputModel::Done(ok));
            &&& events.len() == 0
            &&& after.action() == ActionModel::ReceiveCommand
            &&& after.seen == m.seen && after.connected == m.connected && after.last_scan
                == m.last_scan
        }),
{
}

/// The pause lasts a fifth of a second.
pub proof fn law_pause_is_short()
    ensures
        5 * PAUSE_MILLIS == 1000,
{
}

/// The driver stops when no command can come any more.
pub proof fn law_closed_commands_stop_the_driver(m: DriverModel, now: u64)
    requires
        m.action() == ActionModel::ReceiveCommand,
    ensures
        m.step(now, InputModel::CommandsClosed).0.action() == ActionModel::Stop,
        m.step(now, InputModel::CommandsClosed).1.len() == 0,
{
}

/// A new driver opens the stack, counts the adapters, starts to scan on the first and then takes
/// commands, whether or not the scan could be started. It knows of no irons, and scans at once. It
/// stops, and says why, if the stack cannot be opened or there is no adapter.
pub proof fn law_driver_opens(
    t: (u64, u64, u64),
    why: Seq<char>,
    count: usize,
    ok: bool,
)
    ensures
        ({
            let m = DriverModel::init();
            let (failed, reason) = m.step(t.0, InputModel::ManagerFailed(why));
            let (opened, quiet) = m.step(t.0, InputModel::ManagerOpened);
            let (counted, report) = opened.step(t.1, InputModel::Adapters(count));
            let (ready, silence) = counted.step(t.2, InputModel::Done(ok));
            &&& m.action() == ActionModel::OpenManager
            &&& failed.action() == ActionModel::Stop
            &&& reason == seq![EventModel::Error("BLE manager: "@ + why)]
            &&& opened.action() == ActionModel::ListAdapters && quiet.len() == 0
            &&& if count == 0 {
                &&& counted.action() == ActionModel::Stop
                &&& report == seq![EventModel::Error("No BLE adapter found"@)]
            } else {
                &&& counted.action() == ActionModel::StartScan && report.len() == 0
                &&& ready.action() == ActionModel::ReceiveCommand && silence.len() == 0
                &&& ready.seen.dom() == Set::<Seq<char>>::empty()
                &&& ready.connected.len() == 0
                &&& ready.last_scan is None
            }
        }),
{
    assert(DriverModel::init().seen.dom() =~= Set::<Seq<char>>::empty());
}

/// Whether `at` is the first place of `x` in `s`.
pub open spec fn is_first<T>(s: Seq<T>, x: T, at: nat) -> bool {
    &&& at < s.len()
    &&& s[at as int] == x
    &&& forall|j: int| 0 <= j < at ==> s[j] != x
}

/// A command to connect an iron makes the driver list the peripherals and connect to the first one
/// with that id; without one, the attempt has failed, and nothing has changed.
pub proof fn law_connect_finds_its_iron(
    m: DriverModel,
    id: Seq<char>,
    ids: Seq<Seq<char>>,
    t: (u64, u64),
)
    requires
        m.action() == ActionModel::ReceiveCommand,
        !m.connected.contains(id),
    ensures
        ({
            let (asked, quiet) = m.step(t.0, InputModel::Command(CommandModel::Connect(id)));
            let (found, report) = asked.step(t.1, InputModel::Peripherals(ids));
            &&& asked.action() == ActionModel::ListPeripherals && quiet.len() == 0
            &&& if ids.contains(id) {
                &&& found.action() matches ActionModel::Connect(index)
                &&& is_first(ids, id, index)
                &&& report.len() == 0
                &&& found.seen == m.seen && found.connected == m.connected && found.last_scan
                    == m.last_scan
            } else {
                found == m && report == seq![EventModel::ConnectFailed(id)]
            }
        }),
{
    lemma_first_from(ids, id, 0);
    if ids.contains(id) {
        assert(ids[ids.index_of(id)] == id);
    }
}

/// How a peripheral answers to an attempt to connect it.
#[verifier::ext_equal]
pub struct Attempt {
    pub connected: bool,
    pub discovered: bool,
    pub name: Option<Seq<char>>,
    pub uuids: Seq<u128>,
    pub build: Option<Seq<u8>>,
    pub kept: bool,
}

/// The rest of an attempt to connect is with the peripheral that was found: it is connected, its
/// services are discovered, its name is read, its build text is read if it has one, and it is kept
/// under its id. If connecting or discovering fails, so has the attempt, and nothing has changed.
/// Otherwise the build text, if it could be read, and the connection are reported, the iron is the
/// last of those that are connected, and nothing else has changed.
pub proof fn law_connect_is_carried_out(
    m: DriverModel,
    id: Seq<char>,
    ids: Seq<Seq<char>>,
    index: nat,
    a: Attempt,
    t: (u64, u64, u64, u64, u64, u64, u64, u64),
)
    requires
        m.action() == ActionModel::ReceiveCommand,
        !m.connected.contains(id),
        is_first(ids, id, index),
    ensures
        ({
            let m0 = m.step(t.0, InputModel::Command(CommandModel::Connect(id))).0;
            let m1 = m0.step(t.1, InputModel::Peripherals(ids)).0;
            let (m2, e2) = m1.step(t.2, InputModel::Done(a.connected));
            let (m3, e3) = m2.step(t.3, InputModel::Done(a.discovered));
            let (m4, e4) = m3.step(t.4, InputModel::Name(a.name));
            let (m5, e5) = m4.step(t.5, InputModel::Characteristics(a.uuids));
            let (m6, e6) = m5.step(t.6, InputModel::Value(a.build));
            let has_build = a.uuids.contains(0x9eae1003_9d0d_48c5_aa55_33e27f9bc533u128);
            let (reported, report) = if has_build {
                (m6, e6)
            } else {
                (m5, e5)
            };
            let (kept, e7) = reported.step(t.7, InputModel::Done(a.kept));
            let name = match a.name {
                Some(name) => name,
                None => "Pinecil"@,
            };
            &&& m1.action() == ActionModel::Connect(index)
            &&& if !a.connected {
                m2 == m && e2 == seq![EventModel::ConnectFailed(id)]
            } else {
                &&& m2.action() == ActionModel::DiscoverServices(index) && e2.len() == 0
                &&& if !a.discovered {
                    m3 == m && e3 == seq![EventModel::ConnectFailed(id)]
                } else {
                    &&& m3.action() == ActionModel::ReadName(index) && e3.len() == 0
                    &&& m4.action() == ActionModel::ListCharacteristics(TargetModel::Listed(index))
                    &&& e4.len() == 0
                    &&& has_build ==> {
                        &&& e5.len() == 0
                        &&& m5.action() matches ActionModel::ReadCharacteristic(target, at)
                        &&& target == TargetModel::Listed(index)
                        &&& is_first(a.uuids, 0x9eae1003_9d0d_48c5_aa55_33e27f9bc533u128, at)
                    }
                    &&& reported.action() == ActionModel::Keep(index, id)
                    &&& report == if has_build && a.build is Some {
                        seq![
                            EventModel::BuildInfo(id, utf8_lossy(a.build->0)),
                            EventModel::Connected(id, name),
                        ]
                    } else {
                        seq![EventModel::Connected(id, name)]
                    }
                    &&& e7.len() == 0
                    &&& kept == DriverModel { connected: m.connected.push(id), ..m }
                }
            }
        }),
{
    lemma_first_from(ids, id, 0);
    assert(ids[index as int] == id);
    lemma_first_from(a.uuids, 0x9eae1003_9d0d_48c5_aa55_33e27f9bc533u128, 0);
    if a.uuids.contains(0x9eae1003_9d0d_48c5_aa55_33e27f9bc533u128) {
        assert(a.uuids[a.uuids.index_of(0x9eae1003_9d0d_48c5_aa55_33e27f9bc533u128)]
            == 0x9eae1003_9d0d_48c5_aa55_33e27f9bc533u128);
    }
}

/// The peripheral of the last list that an action is about.
pub open spec fn listed_index(action: ActionModel) -> Option<nat> {
    match action {
        ActionModel::Connect(index) => Some(index),
        ActionModel::DiscoverServices(index) => Some(index),
        ActionModel::ReadName(index) => Some(index),
        ActionModel::ListCharacteristics(TargetModel::Listed(index)) => Some(index),
        ActionModel::ReadCharacteristic(TargetModel::Listed(index), _) => Some(index),
        ActionModel::Keep(index, _) => Some(index),
        _ => None,
    }
}

/// An attempt to connect an iron never strays to another peripheral: whatever the driver is told,
/// until it takes a command again, every action is about a peripheral of the list, and the id of
/// that peripheral is the id that was asked for.
pub proof fn law_attempt_stays_with_its_iron(
    m: DriverModel,
    id: Seq<char>,
    ids: Seq<Seq<char>>,
    t: (u64, u64),
    told: Seq<(u64, InputModel)>,
)
    requires
        m.action() == ActionModel::ReceiveCommand,
        !m.connected.contains(id),
        forall|i: int|
            0 <= i < told.len() ==> !answers(ActionModel::ReceiveCommand, (#[trigger] told[i]).1),
    ensures
        ({
            let asked = m.step(t.0, InputModel::Command(CommandModel::Connect(id))).0;
            let found = asked.step(t.1, InputModel::Peripherals(ids)).0;
            let action = run(found, told).0.action();
            action == ActionModel::ReceiveCommand || {
                &&& listed_index(action) matches Some(index)
                &&& index < ids.len()
                &&& ids[index as int] == id
                &&& action matches ActionModel::Keep(_, kept) ==> kept == id
            }
        }),
{
    let found = m.step(t.0, InputModel::Command(CommandModel::Connect(id))).0.step(
        t.1,
        InputModel::Peripherals(ids),
    ).0;
    lemma_first_from(ids, id, 0);
    lemma_attempt(found, id, ids, told);
}

/// Whether the driver takes commands, or is in the middle of connecting `id` at a place of `ids`
/// where that id stands.
pub open spec fn attempts(m: DriverModel, id: Seq<char>, ids: Seq<Seq<char>>) -> bool {
    let place = match m.phase {
        PhaseModel::Connecting { id: of, index } => Some((of, index)),
        PhaseModel::Discovering { id: of, index } => Some((of, index)),
        PhaseModel::Naming { id: of, index } => Some((of, index)),
        PhaseModel::InspectingBuild { id: of, index, .. } => Some((of, index)),
        PhaseModel::ReadingBuild { id: of, index, .. } => Some((of, index)),
        PhaseModel::Keeping { id: of, index } => Some((of, index)),
        _ => None,
    };
    m.phase == PhaseModel::Receiving || (place matches Some(p) && p.0 == id && p.1 < ids.len()
        && ids[p.1 as int] == id)
}

proof fn lemma_attempt(
    m: DriverModel,
    id: Seq<char>,
    ids: Seq<Seq<char>>,
    told: Seq<(u64, InputModel)>,
)
    requires
        attempts(m, id, ids),
        forall|i: int|
            0 <= i < told.len() ==> !answers(ActionModel::ReceiveCommand, (#[trigger] told[i]).1),
    ensures
        attempts(run(m, told).0, id, ids),
    decreases told.len(),
{
    if told.len() > 0 {
        let front = told.drop_last();
        assert forall|i: int| 0 <= i < front.len() implies !answers(
            ActionModel::ReceiveCommand,
            (#[trigger] front[i]).1,
        ) by {
            assert(front[i] == told[i]);
        }
        lemma_attempt(m, id, ids, front);
        assert(told.last() == told[told.len() - 1]);
    }
}

/// A connected iron is not connected again.
pub proof fn law_connected_iron_is_left_alone(m: DriverModel, id: Seq<char>, now: u64)
    requires
        m.action() == ActionModel::ReceiveCommand,
        m.connected.contains(id),
    ensures
        m.step(now, InputModel::Command(CommandModel::Connect(id))).0 == m,
        m.step(now, InputModel::Command(CommandModel::Connect(id))).1.len() == 0,
{
}

/// A command to disconnect an iron closes that iron, then reports it; it is no longer connected,
/// and nothing else has changed. One for an iron that is not connected changes nothing.
pub proof fn law_disconnect_is_carried_out(
    m: DriverModel,
    id: Seq<char>,
    t: (u64, u64),
    ok: bool,
)
    requires
        m.wf(),
        m.action() == ActionModel::ReceiveCommand,
    ensures
        ({
            let (closing, quiet) = m.step(t.0, InputModel::Command(CommandModel::Disconnect(id)));
            let (done, report) = closing.step(t.1, InputModel::Done(ok));
            &&& quiet.len() == 0
            &&& if m.connected.contains(id) {
                &&& closing.action() == ActionModel::Close(id)
                &&& report == seq![EventModel::Disconnected(id)]
                &&& exists|at: int|
                    0 <= at < m.connected.len() && #[trigger] m.connected[at] == id && done == (
                    DriverModel { connected: m.connected.remove(at), ..m })
            } else {
                closing == m
            }
        }),
{
    if m.connected.contains(id) {
        let at = m.connected.index_of(id);
        assert(m.connected[at] == id);
        assert(without_id(m.connected, id) == m.connected.remove(at));
    }
}

/// A command to set a temperature lists the characteristics of that iron, writes the temperature in
/// two bytes, the low one first, to the first characteristic of the setpoint, and then the number
/// one, in two bytes, to the first one that saves; what the iron lacks is left out, and what it
/// refuses is passed over. Then the next command is taken, and nothing has changed. For an iron
/// that is not connected nothing is done.
pub proof fn law_setting_is_carried_out(
    m: DriverModel,
    id: Seq<char>,
    temp: u16,
    uuids: Seq<u128>,
    t: (u64, u64, u64, u64),
    ok: (bool, bool),
)
    requires
        m.action() == ActionModel::ReceiveCommand,
    ensures
        ({
            let setpoint = 0xf6d70000_5a10_4eba_aa55_33e27f9bc533u128;
            let save = 0xf6d7ffff_5a10_4eba_aa55_33e27f9bc533u128;
            let set = InputModel::Command(CommandModel::SetTemperature(id, temp));
            let (asked, e0) = m.step(t.0, set);
            let (listed, e1) = asked.step(t.1, InputModel::Characteristics(uuids));
            let (written, e2) = if uuids.contains(setpoint) {
                listed.step(t.2, InputModel::Done(ok.0))
            } else {
                (listed, Seq::<EventModel>::empty())
            };
            let (saved, e3) = if uuids.contains(save) {
                written.step(t.3, InputModel::Done(ok.1))
            } else {
                (written, Seq::<EventModel>::empty())
            };
            &&& e0.len() == 0
            &&& if m.connected.contains(id) {
                &&& asked.action() == ActionModel::ListCharacteristics(TargetModel::Kept(id))
                &&& e1.len() == 0 && e2.len() == 0 && e3.len() == 0
                &&& uuids.contains(setpoint) ==> {
                    &&& listed.action() matches ActionModel::WriteCharacteristic(target, at, bytes)
                    &&& target == TargetModel::Kept(id)
                    &&& is_first(uuids, setpoint, at)
                    &&& bytes.len() == 2 && bytes[0] + 256 * bytes[1] == temp
                }
                &&& uuids.contains(save) ==> {
                    &&& written.action() matches ActionModel::WriteCharacteristic(target, at, bytes)
                    &&& target == TargetModel::Kept(id)
                    &&& is_first(uuids, save, at)
                    &&& bytes == seq![1u8, 0u8]
                }
                &&& saved == m
            } else {
                asked == m
            }
        }),
{
    let setpoint = 0xf6d70000_5a10_4eba_aa55_33e27f9bc533u128;
    let save = 0xf6d7ffff_5a10_4eba_aa55_33e27f9bc533u128;
    assert(setting_uuid_value(SETTING_SETPOINT) == setpoint);
    lemma_first_from(uuids, setpoint, 0);
    lemma_first_from(uuids, save, 0);
    if uuids.contains(setpoint) {
        assert(uuids[uuids.index_of(setpoint)] == setpoint);
    }
    if uuids.contains(save) {
        assert(uuids[uuids.index_of(save)] == save);
    }
}

/// A reading is reported under the iron that it was read from: the answer to a read of a kept iron
/// is reported with that iron's id and with what the bytes hold, or not at all if they hold
/// nothing. An iron that cannot be read is closed, and no other.
pub proof fn law_readings_are_reported_under_their_iron(
    m: DriverModel,
    id: Seq<char>,
    at: nat,
    bytes: Seq<u8>,
    now: u64,
)
    requires
        m.wf(),
        m.action() == ActionModel::ReadCharacteristic(TargetModel::Kept(id), at),
    ensures
        m.step(now, InputModel::Value(Some(bytes))).1 == match LiveData::reading(bytes) {
            Some(data) => seq![EventModel::LiveData(id, data)],
            None => Seq::<EventModel>::empty(),
        },
        m.step(now, InputModel::Value(Some(bytes))).0.connected == m.connected,
        m.step(now, InputModel::Value(None)).1.len() == 0,
        m.step(now, InputModel::Value(None)).0.action() == ActionModel::Close(id),
        exists|i: int|
            0 <= i < m.connected.len() && #[trigger] m.connected[i] == id && m.step(
                now,
                InputModel::Value(None),
            ).0.connected == m.connected.remove(i),
{
    match m.phase {
        PhaseModel::ReadingLive { ids, at, .. } => {
            assert(m.connected.contains(ids[at as int]));
        },
        _ => {},
    }
    let i = m.connected.index_of(id);
    assert(m.connected[i] == id);
}

/// An iron that has been closed is reported as disconnected, and no other.
pub proof fn law_closing_is_reported(m: DriverModel, id: Seq<char>, now: u64, ok: bool)
    requires
        m.action() == ActionModel::Close(id),
    ensures
        m.step(now, InputModel::Done(ok)).1 == seq![EventModel::Disconnected(id)],
        m.step(now, InputModel::Done(ok)).0.connected == m.connected,
{
}

/// Which irons are connected changes in three ways only: the one that is reported as connected is
/// added at the end; one that a command disconnects is taken out; one that cannot be read is taken
/// out.
pub proof fn law_connections_change_for_a_reason(m: DriverModel, now: u64, input: InputModel)
    requires
        m.wf(),
    ensures
        ({
            let (after, events) = m.step(now, input);
            let unwanted = input matches InputModel::Command(CommandModel::Disconnect(id))
                && m.action() == ActionModel::ReceiveCommand && m.connected.contains(id);
            let unread = input == InputModel::Value(None)
                && m.action() matches ActionModel::ReadCharacteristic(TargetModel::Kept(_), _);
            if events.len() > 0 && events.last() is Connected {
                after.connected == m.connected.push(events.last()->Connected_0)
            } else if unwanted || unread {
                &&& after.action() matches ActionModel::Close(id)
                &&& exists|i: int|
                    0 <= i < m.connected.len() && #[trigger] m.connected[i] == id && after.connected
                        == m.connected.remove(i)
            } else {
                after.connected == m.connected
            }
        }),
{
    match (m.phase, input) {
        (PhaseModel::ReadingLive { ids, at, .. }, InputModel::Value(None)) => {
            let id = ids[at as int];
            assert(m.connected.contains(id));
            assert(m.connected[m.connected.index_of(id)] == id);
        },
        (PhaseModel::Receiving, InputModel::Command(CommandModel::Disconnect(id))) => {
            if m.connected.contains(id) {
                assert(m.connected[m.connected.index_of(id)] == id);
            }
        },
        (PhaseModel::Scanning, InputModel::Peripherals(ids)) => {
            if ids.len() == 0 {
                assert(m.step(now, input).1.last() == EventModel::ScanTick);
            }
        },
        (PhaseModel::ScanningName { ids, at }, InputModel::Name(advertised)) => {
            let name = device_name_of(advertised);
            let sighted = m.sighted(now, ids[at as int], name);
            if at + 1 >= ids.len() {
                assert(sighted.end_scan(now).1.last() == EventModel::ScanTick);
                assert(m.step(now, input).1.last() == EventModel::ScanTick);
            }
        },
        _ => {},
    }
}

/// What is known of the irons nearby changes only while names are read or peripherals listed, and
/// not while an iron is being connected.
pub proof fn law_sightings_come_from_scans(m: DriverModel, now: u64, input: InputModel)
    ensures
        m.step(now, input).0.seen != m.seen ==> m.connecting() is None && (m.action() is ReadName
            || m.action() is ListPeripherals),
{
}

/// A peripheral goes by the name that it advertises, and by `Pinecil` without one; it is an iron
/// when its name begins with `Pinecil`.
pub proof fn law_irons_are_known_by_name(name: Seq<char>)
    ensures
        device_name_of(Some(name)) == name,
        device_name_of(None) == seq!['P', 'i', 'n', 'e', 'c', 'i', 'l'],
        is_pinecil_name(name) <==> seq!['P', 'i', 'n', 'e', 'c', 'i', 'l'].is_prefix_of(name),
{
    reveal_strlit("Pinecil");
    assert("Pinecil"@ =~= seq!['P', 'i', 'n', 'e', 'c', 'i', 'l']);
    if name.len() >= 7 {
        assert(name.take(7) =~= name.subrange(0, 7));
    }
}

/// A number in two bytes is its low byte and its high byte, in this order.
pub proof fn law_bytes_make_the_number(v: u16)
    ensures
        le_bytes(v).len() == 2,
        le_bytes(v)[0] + 256 * le_bytes(v)[1] == v,
{
}

/// A completed connection is reported last, with the id and the name; ahead of it stands the build
/// text and nothing else, if there is one.
pub proof fn law_handshake_is_reported(id: Seq<char>, name: Seq<char>, info: Option<Seq<char>>)
    ensures
        handshake_events_of(id, name, info).last() == EventModel::Connected(id, name),
        handshake_events_of(id, name, info).len() == if info is Some {
            2int
        } else {
            1
        },
        info is Some ==> handshake_events_of(id, name, info)[0] == EventModel::BuildInfo(
            id,
            info->0,
        ),
{
}

/// Bytes that hold readings are reported once, under the id that is given; others are not.
pub proof fn law_live_data_is_reported(id: Seq<char>, bytes: Seq<u8>)
    ensures
        LiveData::reading(bytes) is None ==> live_events_of(id, bytes).len() == 0,
        LiveData::reading(bytes) matches Some(data) ==> live_events_of(id, bytes)
            =~= seq![EventModel::LiveData(id, data)],
{
}

} // verus!
