//! What holds of the driver whatever it is told.

use crate::ble::{CommandModel, EventModel};
use crate::idmap::{lemma_with_id, lemma_without_id};
use crate::pinecil::{setting_uuid_value, SETTING_SETPOINT};
use crate::protocol::{
    device_name_of, elapsed, first_from, is_pinecil_name, lost, ActionModel, DriverModel,
    InputModel, PhaseModel, TargetModel,
};
use crate::protocol::{LOST_AFTER, SCAN_INTERVAL, SETTINGS_SAVE_UUID};
use vstd::prelude::*;

verus! {

/// A filtered list of distinct ids is a list of distinct ids.
pub proof fn lemma_filter_distinct(ids: Seq<Seq<char>>, keep: spec_fn(Seq<char>) -> bool)
    requires
        ids.no_duplicates(),
    ensures
        ids.filter(keep).no_duplicates(),
        forall|id: Seq<char>|
            #[trigger] ids.filter(keep).contains(id) <==> ids.contains(id) && keep(id),
    decreases ids.len(),
{
    reveal(Seq::filter);
    if ids.len() > 0 {
        let front = ids.drop_last();
        let last = ids.last();
        lemma_filter_distinct(front, keep);
        assert(ids =~= front.push(last));
        assert(!front.contains(last));
        let kept = ids.filter(keep);
        if keep(last) {
            assert(kept =~= front.filter(keep).push(last));
            assert(kept[kept.len() - 1] == last);
            assert(!front.filter(keep).contains(last));
            assert forall|i: int, j: int| 0 <= i < j < kept.len() implies kept[i] != kept[j] by {
                assert(front.filter(keep).contains(kept[i]));
            }
        }
        assert forall|id: Seq<char>| #[trigger] kept.contains(id) <==> ids.contains(id) && keep(
            id,
        ) by {
            if front.filter(keep).contains(id) {
                let i = front.filter(keep).index_of(id);
                assert(kept[i] == id);
            }
            if front.contains(id) {
                assert(ids[front.index_of(id)] == id);
            }
            if kept.contains(id) {
                let i = kept.index_of(id);
                if i < front.filter(keep).len() {
                    assert(front.filter(keep)[i] == id);
                }
            }
            if ids.contains(id) {
                let i = ids.index_of(id);
                if i < front.len() {
                    assert(front[i] == id);
                }
            }
        }
    }
}

/// Which irons a scan forgets: those, of the ones seen, that are lost.
pub proof fn lemma_lost(m: DriverModel, now: u64)
    requires
        m.seen_ids.no_duplicates(),
    ensures
        m.lost_ids(now).no_duplicates(),
        m.remaining_ids(now).no_duplicates(),
        forall|id: Seq<char>|
            #[trigger] m.lost_ids(now).contains(id) <==> m.seen_ids.contains(id) && m.is_lost(
                now,
                id,
            ),
        forall|id: Seq<char>|
            #[trigger] m.remaining_ids(now).contains(id) <==> m.seen_ids.contains(id)
                && !m.is_lost(now, id),
{
    let connected = m.connected;
    let seen = m.seen;
    lemma_filter_distinct(m.seen_ids, |id: Seq<char>| lost(connected, seen, now, id));
    lemma_filter_distinct(m.seen_ids, |id: Seq<char>| !lost(connected, seen, now, id));
}

/// Ending a scan keeps the state sound.
proof fn lemma_end_scan_wf(m: DriverModel, now: u64)
    requires
        m.seen_ids.no_duplicates(),
        m.seen.dom() == m.seen_ids.to_set(),
        m.connected.no_duplicates(),
    ensures
        m.end_scan(now).0.wf(),
{
    lemma_lost(m, now);
    let after = m.end_scan(now).0;
    assert(after.seen.dom() =~= after.seen_ids.to_set());
}

/// The driver's state stays sound whatever it is told: no iron is listed twice, and an iron
/// that is still to be read in this cycle is connected.
pub proof fn law_driver_stays_sound(m: DriverModel, now: u64, input: InputModel)
    requires
        m.wf(),
    ensures
        m.step(now, input).0.wf(),
{
    let after = m.step(now, input).0;
    match (m.phase, input) {
        (PhaseModel::Scanning, InputModel::Peripherals(ids)) => {
            if ids.len() == 0 {
                lemma_end_scan_wf(m, now);
            }
        },
        (PhaseModel::ScanningName { ids, at }, InputModel::Name(advertised)) => {
            let id = ids[at as int];
            let name = device_name_of(advertised);
            let sighted = m.sighted(now, id, name);
            lemma_with_id(m.seen_ids, id);
            assert(sighted.seen.dom() =~= sighted.seen_ids.to_set());
            if at + 1 >= ids.len() {
                lemma_end_scan_wf(sighted, now);
            }
        },
        (PhaseModel::InspectingBuild { id, .. }, _) => {
            lemma_with_id(m.connected, id);
        },
        (PhaseModel::ReadingBuild { id, .. }, _) => {
            lemma_with_id(m.connected, id);
        },
        (PhaseModel::Receiving, InputModel::Command(CommandModel::Disconnect(id))) => {
            lemma_without_id(m.connected, id);
        },
        (PhaseModel::ReadingLive { ids, at, .. }, _) => {
            lemma_without_id(m.connected, ids[at as int]);
        },
        _ => {},
    }
}

/// What a report says of the state before and after it.
pub open spec fn report_is_true(
    event: EventModel,
    before: DriverModel,
    now: u64,
    after: DriverModel,
) -> bool {
    match event {
        EventModel::DeviceFound(dev) => {
            &&& is_pinecil_name(dev.name)
            &&& !before.seen.dom().contains(dev.id)
            &&& after.seen.dom().contains(dev.id)
            &&& after.seen[dev.id] == now
        },
        EventModel::DeviceLost(id) => {
            &&& before.seen.dom().contains(id)
            &&& elapsed(now, before.seen[id]) > LOST_AFTER
            &&& !after.seen.dom().contains(id)
            &&& !after.connected.contains(id)
        },
        EventModel::Connected(id, _) => {
            !before.connected.contains(id) && after.connected.contains(id)
        },
        EventModel::ConnectFailed(id) => !after.connected.contains(id),
        EventModel::Disconnected(id) => !after.connected.contains(id),
        EventModel::LiveData(id, _) => {
            before.connected.contains(id) && after.connected.contains(id)
        },
        EventModel::BuildInfo(id, _) => after.connected.contains(id),
        EventModel::ScanTick => true,
        EventModel::Error(_) => after.phase == PhaseModel::Stopped,
    }
}

proof fn lemma_end_scan_reports(m: DriverModel, now: u64)
    requires
        m.seen_ids.no_duplicates(),
        m.seen.dom() == m.seen_ids.to_set(),
    ensures
        forall|i: int|
            0 <= i < m.end_scan(now).1.len() ==> report_is_true(
                #[trigger] m.end_scan(now).1[i],
                m,
                now,
                m.end_scan(now).0,
            ),
        forall|i: int|
            0 <= i < m.end_scan(now).1.len() ==> ((#[trigger] m.end_scan(now).1[i]) is ScanTick
                || m.end_scan(now).1[i] is DeviceLost),
{
    lemma_lost(m, now);
    let (after, events) = m.end_scan(now);
    assert(after.seen.dom() =~= after.seen_ids.to_set());
    assert forall|i: int| 0 <= i < events.len() implies report_is_true(
        #[trigger] events[i],
        m,
        now,
        after,
    ) by {
        if i < m.lost_ids(now).len() {
            let id = m.lost_ids(now)[i];
            assert(m.lost_ids(now).contains(id));
            assert(m.is_lost(now, id));
            assert(!after.seen_ids.contains(id));
        }
    }
}

/// Every report is true: a found iron was unknown and is known now, a lost one was not seen for
/// too long and is forgotten, an iron reported as connected is connected, one reported as
/// failed, lost or disconnected is not, and readings come from connected irons only.
pub proof fn law_reports_are_true(m: DriverModel, now: u64, input: InputModel)
    requires
        m.wf(),
    ensures
        forall|i: int|
            0 <= i < m.step(now, input).1.len() ==> report_is_true(
                #[trigger] m.step(now, input).1[i],
                m,
                now,
                m.step(now, input).0,
            ),
{
    let (after, events) = m.step(now, input);
    match (m.phase, input) {
        (PhaseModel::Scanning, InputModel::Peripherals(ids)) => {
            if ids.len() == 0 {
                lemma_end_scan_reports(m, now);
            }
        },
        (PhaseModel::ScanningName { ids, at }, InputModel::Name(advertised)) => {
            let id = ids[at as int];
            let name = device_name_of(advertised);
            let sighted = m.sighted(now, id, name);
            let found = m.sighting_events(id, name);
            lemma_with_id(m.seen_ids, id);
            assert(sighted.seen.dom() =~= sighted.seen_ids.to_set());
            if at + 1 >= ids.len() {
                lemma_end_scan_reports(sighted, now);
                lemma_lost(sighted, now);
                let ended = sighted.end_scan(now);
                assert(after == ended.0 && events == found + ended.1);
                assert forall|i: int| 0 <= i < events.len() implies report_is_true(
                    #[trigger] events[i],
                    m,
                    now,
                    after,
                ) by {
                    if i < found.len() {
                        assert(events[i] == found[i]);
                        assert(!sighted.is_lost(now, id));
                        assert(sighted.remaining_ids(now).contains(id));
                    } else {
                        let e = ended.1[i - found.len()];
                        assert(events[i] == e);
                        assert(report_is_true(e, sighted, now, after));
                        if let EventModel::DeviceLost(gone) = e {
                            assert(gone != id || !is_pinecil_name(name));
                        }
                    }
                }
            } else {
                assert(events =~= found);
            }
        },
        (PhaseModel::InspectingBuild { id, .. }, _) => {
            lemma_with_id(m.connected, id);
        },
        (PhaseModel::ReadingBuild { id, .. }, _) => {
            lemma_with_id(m.connected, id);
        },
        _ => {},
    }
}

/// An attempt to connect ends with exactly one answer: while it lasts, the driver reports nothing
/// and takes no other command, and the last report of the move that ends it says that the iron is
/// connected, or that the attempt has failed. Only the build text can be reported ahead of it.
pub proof fn law_connect_is_answered(m: DriverModel, now: u64, input: InputModel)
    requires
        m.connecting() is Some,
    ensures
        m.action() != ActionModel::ReceiveCommand,
        ({
            let id = m.connecting()->0;
            let (after, events) = m.step(now, input);
            if after.connecting() is Some {
                after.connecting() == Some(id) && events.len() == 0
            } else {
                &&& 1 <= events.len() <= 2
                &&& match events.last() {
                    EventModel::Connected(answered, _) => {
                        &&& answered == id
                        &&& after.action() matches ActionModel::Keep(_, kept) && kept == id
                    },
                    EventModel::ConnectFailed(answered) => {
                        &&& answered == id
                        &&& after.action() == ActionModel::ReceiveCommand
                    },
                    _ => false,
                }
                &&& events.len() == 2 ==> (events[0] matches EventModel::BuildInfo(of, _) && of
                    == id)
            }
        }),
{
}

/// A command to connect an iron that is not connected begins the attempt at once; commands that
/// make no sense (connecting a connected iron, disconnecting or setting one that is not) change
/// nothing.
pub proof fn law_commands_are_taken(m: DriverModel, now: u64, id: Seq<char>, temp: u16)
    requires
        m.phase == PhaseModel::Receiving,
    ensures
        ({
            let connect = m.step(now, InputModel::Command(CommandModel::Connect(id)));
            let disconnect = m.step(now, InputModel::Command(CommandModel::Disconnect(id)));
            let set = m.step(now, InputModel::Command(CommandModel::SetTemperature(id, temp)));
            let unchanged = (m, Seq::<EventModel>::empty());
            if m.connected.contains(id) {
                &&& connect == unchanged
                &&& disconnect.0.action() == ActionModel::Close(id)
                &&& set.0.action() == ActionModel::ListCharacteristics(TargetModel::Kept(id))
            } else {
                &&& connect.0.connecting() == Some(id)
                &&& disconnect == unchanged
                &&& set == unchanged
            }
        }),
{
}

/// A disconnected iron is reported once its connection is closed, and can be connected again.
pub proof fn law_disconnect_is_answered(m: DriverModel, now: u64, later: u64, id: Seq<char>, ok: bool)
    requires
        m.wf(),
        m.phase == PhaseModel::Receiving,
        m.connected.contains(id),
    ensures
        ({
            let (closing, nothing) = m.step(now, InputModel::Command(CommandModel::Disconnect(id)));
            let (after, events) = closing.step(later, InputModel::Done(ok));
            &&& nothing.len() == 0
            &&& events == seq![EventModel::Disconnected(id)]
            &&& !after.connected.contains(id)
            &&& after.action() == ActionModel::ReceiveCommand
            &&& forall|other: Seq<char>|
                other != id ==> (#[trigger] after.connected.contains(other)
                    <==> m.connected.contains(other))
        }),
{
    lemma_without_id(m.connected, id);
}

/// Where `first_from` looks, it finds the first occurrence, and it finds one if there is any.
pub proof fn lemma_first_from<T>(s: Seq<T>, x: T, from: nat)
    ensures
        match first_from(s, x, from) {
            Some(i) => from <= i < s.len() && s[i as int] == x && forall|j: int|
                from <= j < i ==> s[j] != x,
            None => forall|j: int| from <= j < s.len() ==> s[j] != x,
        },
    decreases s.len() - from,
{
    if from < s.len() && s[from as int] != x {
        lemma_first_from(s, x, from + 1);
    }
}

/// Setting the temperature of a connected iron writes it, least significant byte first, to the
/// characteristic of the setpoint, then writes one to the characteristic that saves, and then
/// the next command is taken.
pub proof fn law_temperature_is_written_then_saved(
    m: DriverModel,
    id: Seq<char>,
    temp: u16,
    uuids: Seq<u128>,
    t: (u64, u64, u64, u64),
    ok: (bool, bool),
)
    requires
        m.phase == PhaseModel::Receiving,
        m.connected.contains(id),
        uuids.contains(setting_uuid_value(SETTING_SETPOINT) as u128),
        uuids.contains(SETTINGS_SAVE_UUID),
    ensures
        ({
            let set = InputModel::Command(CommandModel::SetTemperature(id, temp));
            let inspecting = m.step(t.0, set).0;
            let writing = inspecting.step(t.1, InputModel::Characteristics(uuids)).0;
            let saving = writing.step(t.2, InputModel::Done(ok.0)).0;
            let done = saving.step(t.3, InputModel::Done(ok.1)).0;
            &&& writing.action() matches ActionModel::WriteCharacteristic(target, at, bytes)
            &&& target == TargetModel::Kept(id)
            &&& at < uuids.len()
            &&& uuids[at as int] == setting_uuid_value(SETTING_SETPOINT)
            &&& bytes == seq![(temp % 256) as u8, (temp / 256) as u8]
            &&& saving.action() matches ActionModel::WriteCharacteristic(save_target, save_at, one)
            &&& save_target == TargetModel::Kept(id)
            &&& save_at < uuids.len()
            &&& uuids[save_at as int] == SETTINGS_SAVE_UUID
            &&& one == seq![1u8, 0u8]
            &&& done == m
        }),
{
    let setpoint = setting_uuid_value(SETTING_SETPOINT) as u128;
    lemma_first_from(uuids, setpoint, 0);
    lemma_first_from(uuids, SETTINGS_SAVE_UUID, 0);
    assert(setting_uuid_value(SETTING_SETPOINT) == 0xf6d7_0000_5a10_4eba_aa55_33e2_7f9b_c533);
    assert(uuids[uuids.index_of(setpoint)] == setpoint);
    assert(uuids[uuids.index_of(SETTINGS_SAVE_UUID)] == SETTINGS_SAVE_UUID);
}

/// The first scan begins as soon as no command waits, and from then on scans begin when the
/// interval has passed, and not before.
pub proof fn law_scans_are_spaced(m: DriverModel, now: u64)
    requires
        m.phase == PhaseModel::Receiving,
    ensures
        ({
            let after = m.step(now, InputModel::NoCommand).0;
            &&& after.phase == PhaseModel::Scanning <==> match m.last_scan {
                None => true,
                Some(then) => now >= then + SCAN_INTERVAL,
            }
            &&& after.phase == PhaseModel::Scanning ==> after.last_scan == Some(now)
            &&& after.phase != PhaseModel::Scanning ==> after.last_scan == m.last_scan
        }),
{
}

/// The scan that ends reports every iron that was not seen for too long and is not connected,
/// forgets those and no others, and closes with a tick; a connected iron is never lost.
pub proof fn law_silent_irons_are_lost(m: DriverModel, now: u64, id: Seq<char>)
    requires
        m.wf(),
        m.seen.dom().contains(id),
    ensures
        ({
            let (after, events) = m.end_scan(now);
            let silent = !m.connected.contains(id) && now > m.seen[id] + LOST_AFTER;
            &&& events.contains(EventModel::DeviceLost(id)) <==> silent
            &&& after.seen.dom().contains(id) <==> !silent
            &&& !silent ==> after.seen[id] == m.seen[id]
            &&& events.last() == EventModel::ScanTick
        }),
{
    lemma_lost(m, now);
    let (after, events) = m.end_scan(now);
    assert(after.seen.dom() =~= after.seen_ids.to_set());
    if m.is_lost(now, id) {
        let i = m.lost_ids(now).index_of(id);
        assert(m.lost_ids(now).contains(id));
        assert(events[i] == EventModel::DeviceLost(id));
    }
    if events.contains(EventModel::DeviceLost(id)) {
        let i = events.index_of(EventModel::DeviceLost(id));
        assert(events[i] == EventModel::DeviceLost(id));
        assert(m.lost_ids(now)[i] == id);
        assert(m.lost_ids(now).contains(id));
    }
}

/// A scanned peripheral without a name counts as an iron; one whose name does not begin with
/// `Pinecil` is passed over.
pub proof fn law_only_irons_are_noticed(m: DriverModel, now: u64, id: Seq<char>, name: Seq<char>)
    ensures
        is_pinecil_name(device_name_of(None)),
        !is_pinecil_name(name) ==> m.sighted(now, id, name) == m && m.sighting_events(
            id,
            name,
        ).len() == 0,
        is_pinecil_name(name) ==> m.sighted(now, id, name).seen[id] == now,
{
    reveal_strlit("Pinecil");
    assert("Pinecil"@.take(7) =~= "Pinecil"@);
}

/// A driver that has stopped stays as it is and reports nothing.
pub proof fn law_stopped_driver_is_silent(m: DriverModel, now: u64, input: InputModel)
    requires
        m.phase == PhaseModel::Stopped,
    ensures
        m.step(now, input) == (m, Seq::<EventModel>::empty()),
        m.action() == ActionModel::Stop,
{
}

/// An iron that can no longer be read is dropped: it is closed, reported as disconnected, and
/// the irons after it are still read.
pub proof fn law_unreadable_iron_is_dropped(
    m: DriverModel,
    now: u64,
    later: u64,
    ids: Seq<Seq<char>>,
    at: nat,
    live_at: nat,
    ok: bool,
)
    requires
        m.wf(),
        m.phase == (PhaseModel::ReadingLive { ids, at, live_at }),
    ensures
        ({
            let (closing, nothing) = m.step(now, InputModel::Value(None));
            let (after, events) = closing.step(later, InputModel::Done(ok));
            &&& closing.action() == ActionModel::Close(ids[at as int])
            &&& nothing.len() == 0
            &&& events == seq![EventModel::Disconnected(ids[at as int])]
            &&& !after.connected.contains(ids[at as int])
            &&& if at + 1 < ids.len() {
                after.action() == ActionModel::ListCharacteristics(
                    TargetModel::Kept(ids[at as int + 1]),
                )
            } else {
                after.action() == ActionModel::Pause
            }
        }),
{
    lemma_without_id(m.connected, ids[at as int]);
}

} // verus!
