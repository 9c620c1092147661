//! What holds of the driver and the monitor together.

use crate::ble::{CommandModel, EventModel};
use crate::idmap::{lemma_with_id, lemma_without_id};
use crate::monitor::{DeviceModel, MonitorModel};
use crate::monitor_laws::law_setpoint_is_kept_in_range;
use crate::pinecil::{setting_uuid_value, SETTING_SETPOINT};
use crate::protocol::{
    device_name_of, handshake_events_of, ActionModel, DriverModel, InputModel, PhaseModel,
    TargetModel,
};
use crate::protocol::SETTINGS_SAVE_UUID;
use crate::protocol_laws::{law_disconnect_is_answered, law_temperature_is_written_then_saved};
use crate::text::utf8_lossy;
use vstd::prelude::*;

verus! {

/// The iron that the driver has given up but not reported yet.
pub open spec fn leaving(d: DriverModel) -> Option<Seq<char>> {
    match d.phase {
        PhaseModel::Disconnecting { id } => Some(id),
        PhaseModel::Dropping { ids, at } => Some(ids[at as int]),
        _ => None,
    }
}

/// The monitor shows the irons that the driver is connected to, and one that is just leaving.
pub open spec fn in_step(d: DriverModel, m: MonitorModel) -> bool {
    forall|id: Seq<char>|
        #[trigger] m.devices.dom().contains(id) <==> d.connected.contains(id) || leaving(d) == Some(
            id,
        )
}

/// Whether an event leaves the connected irons alone.
pub open spec fn is_about_scanning(event: EventModel) -> bool {
    event is DeviceFound || event is DeviceLost || event is ScanTick
}

proof fn lemma_scanning_keeps_devices(m: MonitorModel, events: Seq<EventModel>)
    requires
        forall|i: int| 0 <= i < events.len() ==> is_about_scanning(#[trigger] events[i]),
    ensures
        m.apply_all(events).devices == m.devices,
    decreases events.len(),
{
    if events.len() > 0 {
        let front = events.drop_last();
        assert forall|i: int| 0 <= i < front.len() implies is_about_scanning(
            #[trigger] front[i],
        ) by {
            assert(is_about_scanning(events[i]));
        }
        lemma_scanning_keeps_devices(m, front);
        assert(is_about_scanning(events[events.len() - 1]));
    }
}

proof fn lemma_one_event(m: MonitorModel, event: EventModel)
    ensures
        m.apply_all(seq![event]) == m.apply(event),
{
    let one = seq![event];
    assert(one.drop_last() =~= Seq::<EventModel>::empty());
    assert(one.last() == event);
    assert(m.apply_all(one.drop_last()) == m);
}

/// A connection leaves a fresh iron: the build text that the driver reports ahead of the
/// connection is not kept, because the iron is unknown until it is connected.
pub proof fn law_connection_starts_afresh(
    m: MonitorModel,
    id: Seq<char>,
    name: Seq<char>,
    info: Option<Seq<char>>,
)
    ensures
        m.apply_all(handshake_events_of(id, name, info)).devices == m.devices.insert(
            id,
            DeviceModel::connected(name),
        ),
{
    match info {
        Some(text) => {
            let both = handshake_events_of(id, name, info);
            assert(both.drop_last() =~= seq![EventModel::BuildInfo(id, text)]);
            lemma_one_event(m, EventModel::BuildInfo(id, text));
            assert(m.apply_all(both).devices =~= m.devices.insert(
                id,
                DeviceModel::connected(name),
            ));
        },
        None => {
            lemma_one_event(m, EventModel::Connected(id, name));
        },
    }
}

/// The monitor follows the driver: whatever the driver is told, once its reports have been taken
/// note of, the monitor shows exactly the irons that the driver is connected to (and one that is
/// just leaving).
pub proof fn law_monitor_follows_driver(
    d: DriverModel,
    m: MonitorModel,
    now: u64,
    input: InputModel,
)
    requires
        d.wf(),
        in_step(d, m),
    ensures
        in_step(d.step(now, input).0, m.apply_all(d.step(now, input).1)),
{
    let events = d.step(now, input).1;
    match d.phase {
        PhaseModel::InspectingBuild { id, name, .. } => {
            lemma_with_id(d.connected, id);
            law_connection_starts_afresh(m, id, name, None);
        },
        PhaseModel::ReadingBuild { id, name, .. } => {
            lemma_with_id(d.connected, id);
            if let InputModel::Value(value) = input {
                let info = match value {
                    Some(bytes) => Some(utf8_lossy(bytes)),
                    None => None,
                };
                law_connection_starts_afresh(m, id, name, info);
            }
        },
        PhaseModel::Receiving => {
            if let InputModel::Command(CommandModel::Disconnect(id)) = input {
                lemma_without_id(d.connected, id);
            }
        },
        PhaseModel::Scanning | PhaseModel::ScanningName { .. } => {
            assert forall|i: int| 0 <= i < events.len() implies is_about_scanning(
                #[trigger] events[i],
            ) by {
                lemma_scan_events(d, now, input, i);
            }
            lemma_scanning_keeps_devices(m, events);
        },
        PhaseModel::ReadingLive { ids, at, .. } => {
            lemma_without_id(d.connected, ids[at as int]);
            if events.len() == 1 {
                assert(events =~= seq![events[0]]);
                lemma_one_event(m, events[0]);
            }
        },
        _ => {
            if events.len() == 1 {
                assert(events =~= seq![events[0]]);
                lemma_one_event(m, events[0]);
            }
        },
    }
}

/// A driver and a monitor that have just been started are in step.
pub proof fn law_start_in_step()
    ensures
        DriverModel::init().wf(),
        MonitorModel::init().wf(),
        in_step(DriverModel::init(), MonitorModel::init()),
{
    assert(DriverModel::init().seen.dom() =~= DriverModel::init().seen_ids.to_set());
}

/// An iron that the user disconnects is gone from the monitor at once; when the driver has closed
/// the connection and the monitor has taken note, they are in step again.
pub proof fn law_user_disconnect_is_followed(
    d: DriverModel,
    m: MonitorModel,
    id: Seq<char>,
    now: u64,
    later: u64,
    ok: bool,
)
    requires
        d.wf(),
        d.phase == PhaseModel::Receiving,
        d.connected.contains(id),
        in_step(d, m),
    ensures
        !m.disconnect(id).devices.dom().contains(id),
        ({
            let closing = d.step(now, InputModel::Command(CommandModel::Disconnect(id))).0;
            let (after, events) = closing.step(later, InputModel::Done(ok));
            in_step(after, m.disconnect(id).apply_all(events))
        }),
{
    law_disconnect_is_answered(d, now, later, id, ok);
    lemma_one_event(m.disconnect(id), EventModel::Disconnected(id));
}

/// A setpoint that the user changes reaches the iron: what the monitor shows is what the driver
/// writes, least significant byte first, and saves.
pub proof fn law_setpoint_reaches_the_iron(
    d: DriverModel,
    m: MonitorModel,
    id: Seq<char>,
    delta: i16,
    uuids: Seq<u128>,
    t: (u64, u64, u64),
    ok: bool,
)
    requires
        d.phase == PhaseModel::Receiving,
        d.connected.contains(id),
        m.devices.dom().contains(id),
        uuids.contains(setting_uuid_value(SETTING_SETPOINT) as u128),
        uuids.contains(SETTINGS_SAVE_UUID),
    ensures
        ({
            let (shown, command) = m.adjust(id, delta);
            let setpoint = shown.devices[id].local_setpoint;
            let inspecting = d.step(t.0, InputModel::Command(command->0)).0;
            let writing = inspecting.step(t.1, InputModel::Characteristics(uuids)).0;
            let saving = writing.step(t.2, InputModel::Done(ok)).0;
            &&& command is Some
            &&& writing.action() matches ActionModel::WriteCharacteristic(target, at, bytes)
            &&& target == TargetModel::Kept(id)
            &&& at < uuids.len()
            &&& uuids[at as int] == setting_uuid_value(SETTING_SETPOINT)
            &&& bytes == seq![(setpoint % 256) as u8, (setpoint / 256) as u8]
            &&& saving.action() matches ActionModel::WriteCharacteristic(save_target, save_at, _)
            &&& save_target == TargetModel::Kept(id)
            &&& save_at < uuids.len()
            &&& uuids[save_at as int] == SETTINGS_SAVE_UUID
        }),
{
    law_setpoint_is_kept_in_range(m, id, delta);
    let setpoint = m.adjust(id, delta).0.devices[id].local_setpoint;
    law_temperature_is_written_then_saved(d, id, setpoint, uuids, (t.0, t.1, t.2, 0), (ok, ok));
}

proof fn lemma_scan_events(d: DriverModel, now: u64, input: InputModel, i: int)
    requires
        d.phase is Scanning || d.phase is ScanningName,
        0 <= i < d.step(now, input).1.len(),
    ensures
        is_about_scanning(d.step(now, input).1[i]),
{
    match (d.phase, input) {
        (PhaseModel::ScanningName { ids, at }, InputModel::Name(advertised)) => {
            let id = ids[at as int];
            let name = device_name_of(advertised);
            let found = d.sighting_events(id, name);
            let sighted = d.sighted(now, id, name);
            let rest = sighted.scan_from(now, ids, at + 1).1;
            assert(d.step(now, input).1 == found + rest);
            if i >= found.len() {
                assert((found + rest)[i] == rest[i - found.len()]);
            }
        },
        _ => {},
    }
}

} // verus!
