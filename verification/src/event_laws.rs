//! What each event, and each thing that the user does, changes in the monitor, and that it changes
//! nothing else.

use crate::ble::{CommandModel, EventModel, FoundModel};
use crate::monitor::{DeviceModel, MonitorModel, Screen, SETPOINT_STEP};
use crate::monitor_laws::lemma_scan_list_without;
use crate::pinecil::LiveData;
use vstd::prelude::*;

verus! {

/// A monitor starts with the scanner, with no irons and without an error.
pub proof fn law_monitor_starts_empty()
    ensures
        ({
            let m = MonitorModel::init();
            &&& m.scan_list.len() == 0
            &&& forall|id: Seq<char>| !m.connecting.contains(id)
            &&& forall|id: Seq<char>| !(#[trigger] m.devices.dom().contains(id))
            &&& m.error is None
            &&& m.global_tick == 0
            &&& m.screen() == Screen::Scan
        }),
{
}

/// A found iron is put at the end of the scan list, unless one of that id is in it already.
pub proof fn law_found_iron_is_listed_last(m: MonitorModel, dev: FoundModel)
    ensures
        ({
            let after = m.apply(EventModel::DeviceFound(dev));
            &&& after == MonitorModel { scan_list: after.scan_list, ..m }
            &&& if exists|i: int|
                0 <= i < m.scan_list.len() && (#[trigger] m.scan_list[i]).id == dev.id {
                after.scan_list == m.scan_list
            } else {
                after.scan_list == m.scan_list.push(dev)
            }
        }),
{
}

/// A lost iron is taken out of the scan list, and the others stay in their order; it is no longer
/// being connected. Connected irons stay connected.
pub proof fn law_lost_iron_is_unlisted(m: MonitorModel, id: Seq<char>)
    requires
        m.wf(),
    ensures
        ({
            let after = m.apply(EventModel::DeviceLost(id));
            &&& after == MonitorModel {
                scan_list: after.scan_list,
                connecting: m.connecting.remove(id),
                ..m
            }
            &&& forall|i: int|
                0 <= i < m.scan_list.len() && (#[trigger] m.scan_list[i]).id == id
                    ==> after.scan_list == m.scan_list.remove(i)
            &&& (forall|i: int|
                0 <= i < m.scan_list.len() ==> (#[trigger] m.scan_list[i]).id != id)
                ==> after.scan_list == m.scan_list
        }),
{
    lemma_unlist(m.scan_list, id);
}

proof fn lemma_unlist(list: Seq<FoundModel>, id: Seq<char>)
    requires
        forall|i: int, j: int|
            0 <= i < j < list.len() ==> (#[trigger] list[i]).id != (#[trigger] list[j]).id,
    ensures
        ({
            let left = list.filter(|d: FoundModel| d.id != id);
            &&& forall|i: int|
                0 <= i < list.len() && (#[trigger] list[i]).id == id ==> left == list.remove(i)
            &&& (forall|i: int| 0 <= i < list.len() ==> (#[trigger] list[i]).id != id) ==> left
                == list
        }),
    decreases list.len(),
{
    reveal(Seq::filter);
    let keep = |d: FoundModel| d.id != id;
    let left = list.filter(keep);
    if list.len() > 0 {
        let front = list.drop_last();
        let last = list.last();
        assert forall|i: int, j: int| 0 <= i < j < front.len() implies (#[trigger] front[i]).id
            != (#[trigger] front[j]).id by {
            assert(list[i].id != list[j].id);
        }
        lemma_unlist(front, id);
        lemma_scan_list_without(front, id);
        let rest = front.filter(keep);
        assert(left == if last.id != id {
            rest.push(last)
        } else {
            rest
        });
        assert forall|i: int| 0 <= i < list.len() && (#[trigger] list[i]).id == id implies left
            == list.remove(i) by {
            if i < front.len() {
                assert(front[i].id == id);
                assert(list[list.len() - 1].id != id);
                assert(rest == front.remove(i));
                assert(left =~= list.remove(i));
            } else {
                assert forall|j: int| 0 <= j < front.len() implies (#[trigger] front[j]).id
                    != id by {
                    assert(list[j].id != list[i].id);
                }
                assert(left =~= list.remove(i));
            }
        }
        if forall|i: int| 0 <= i < list.len() ==> (#[trigger] list[i]).id != id {
            assert forall|j: int| 0 <= j < front.len() implies (#[trigger] front[j]).id != id by {
                assert(list[j].id != id);
            }
            assert(list[list.len() - 1].id != id);
            assert(left =~= list);
        }
    } else {
        assert(left =~= list);
    }
}

/// After a failed attempt an iron is no longer being connected; nothing else changes.
pub proof fn law_failed_attempt_is_over(m: MonitorModel, id: Seq<char>)
    ensures
        m.apply(EventModel::ConnectFailed(id)) == (MonitorModel {
            connecting: m.connecting.remove(id),
            ..m
        }),
{
}

/// The end of a scan changes nothing.
pub proof fn law_tick_changes_nothing(m: MonitorModel)
    ensures
        m.apply(EventModel::ScanTick) == m,
{
}

/// A connected iron is known by its name, without build text and readings, with a setpoint of
/// 350 °C; it is no longer being connected, an error is cleared and the scanner left.
pub proof fn law_connected_iron_is_new(m: MonitorModel, id: Seq<char>, name: Seq<char>)
    ensures
        m.apply(EventModel::Connected(id, name)) == (MonitorModel {
            connecting: m.connecting.remove(id),
            devices: m.devices.insert(
                id,
                DeviceModel {
                    name,
                    build_info: None,
                    data: None,
                    local_setpoint: 350,
                    tick: 0,
                },
            ),
            show_scan: false,
            error: None,
            ..m
        }),
{
}

/// Whether no iron is connected or being connected.
pub open spec fn nobody(m: MonitorModel) -> bool {
    &&& forall|id: Seq<char>| !(#[trigger] m.devices.dom().contains(id))
    &&& forall|id: Seq<char>| !(#[trigger] m.connecting.contains(id))
}

proof fn lemma_nobody(m: MonitorModel)
    ensures
        nobody(m) <==> m.is_alone(),
{
    if nobody(m) {
        assert(m.devices.dom() =~= Set::<Seq<char>>::empty());
        assert(m.connecting =~= Set::<Seq<char>>::empty());
    }
}

/// A disconnected iron is forgotten; when no other is connected or being connected, the scanner is
/// wanted. Nothing else changes.
pub proof fn law_disconnected_iron_is_forgotten(m: MonitorModel, id: Seq<char>)
    ensures
        ({
            let after = m.apply(EventModel::Disconnected(id));
            &&& after == MonitorModel {
                devices: m.devices.remove(id),
                connecting: m.connecting.remove(id),
                show_scan: after.show_scan,
                ..m
            }
            &&& after.show_scan <==> m.show_scan || nobody(after)
        }),
{
    let after = m.apply(EventModel::Disconnected(id));
    lemma_nobody(after);
}

/// A reading of a connected iron is kept as it is, and counted, modulo 2^32. If it is the first and
/// its setpoint is at least 50 °C, that becomes the setpoint that the user sees, up to 65535.
/// Nothing else changes.
pub proof fn law_reading_is_kept(m: MonitorModel, id: Seq<char>, live: LiveData)
    requires
        m.devices.dom().contains(id),
    ensures
        ({
            let before = m.devices[id];
            let setpoint = if before.data is None && live.setpoint >= 50 {
                if live.setpoint < 65536 {
                    live.setpoint as u16
                } else {
                    65535u16
                }
            } else {
                before.local_setpoint
            };
            m.apply(EventModel::LiveData(id, live)) == MonitorModel {
                devices: m.devices.insert(
                    id,
                    DeviceModel {
                        name: before.name,
                        build_info: before.build_info,
                        data: Some(live),
                        local_setpoint: setpoint,
                        tick: ((before.tick + 1) % 0x1_0000_0000) as u32,
                    },
                ),
                ..m
            }
        }),
{
}

/// The build text of a connected iron is kept; nothing else changes.
pub proof fn law_build_text_is_kept(m: MonitorModel, id: Seq<char>, info: Seq<char>)
    requires
        m.devices.dom().contains(id),
    ensures
        m.apply(EventModel::BuildInfo(id, info)) == (MonitorModel {
            devices: m.devices.insert(
                id,
                DeviceModel { build_info: Some(info), ..m.devices[id] },
            ),
            ..m
        }),
{
}

/// What comes of an iron that is not connected is passed over.
pub proof fn law_strangers_are_passed_over(
    m: MonitorModel,
    id: Seq<char>,
    live: LiveData,
    info: Seq<char>,
)
    requires
        !m.devices.dom().contains(id),
    ensures
        m.apply(EventModel::LiveData(id, live)) == m,
        m.apply(EventModel::BuildInfo(id, info)) == m,
{
}

/// An error is kept; nothing else changes.
pub proof fn law_error_is_kept(m: MonitorModel, msg: Seq<char>)
    ensures
        m.apply(EventModel::Error(msg)) == (MonitorModel { error: Some(msg), ..m }),
{
}

/// A batch is taken event by event, in order: no event changes nothing, and one more event is taken
/// after those before it.
pub proof fn law_batch_is_taken_in_order(m: MonitorModel, events: Seq<EventModel>, event: EventModel)
    ensures
        m.apply_all(Seq::empty()) == m,
        m.apply_all(events.push(event)) == m.apply_all(events).apply(event),
{
    assert(events.push(event).drop_last() =~= events);
}

/// A refresh takes note of the events and counts itself, modulo 2^32; it changes nothing else.
pub proof fn law_refresh_is_counted(m: MonitorModel, events: Seq<EventModel>)
    ensures
        ({
            let after = m.refreshed(events);
            &&& after == MonitorModel { global_tick: after.global_tick, ..m.apply_all(events) }
            &&& after.global_tick == (m.global_tick + 1) % 0x1_0000_0000
        }),
{
}

/// A setpoint read as a two's complement number of 16 bits.
pub open spec fn as_signed(setpoint: u16) -> int {
    if setpoint < 32768 {
        setpoint as int
    } else {
        setpoint - 65536
    }
}

/// A setpoint that the user changes is the sum, or the nearest temperature from 100 to 450 °C; the
/// iron is asked for it, and nothing else changes. For an iron that is not connected nothing
/// happens.
pub proof fn law_setpoint_is_changed(m: MonitorModel, id: Seq<char>, delta: i16)
    ensures
        ({
            let (after, command) = m.adjust(id, delta);
            if m.devices.dom().contains(id) {
                let sum = as_signed(m.devices[id].local_setpoint) + delta;
                let setpoint = after.devices[id].local_setpoint;
                &&& 100 <= setpoint <= 450
                &&& 100 <= sum <= 450 ==> setpoint == sum
                &&& sum < 100 ==> setpoint == 100
                &&& sum > 450 ==> setpoint == 450
                &&& command == Some(CommandModel::SetTemperature(id, setpoint))
                &&& after == MonitorModel {
                    devices: m.devices.insert(
                        id,
                        DeviceModel { local_setpoint: setpoint, ..m.devices[id] },
                    ),
                    ..m
                }
            } else {
                after == m && command is None
            }
        }),
{
}

/// A setpoint can be changed exactly when the sum fits in 16 bits with a sign, or there is no such
/// iron.
pub proof fn law_sums_fit(m: MonitorModel, id: Seq<char>, delta: i16)
    ensures
        m.is_adjustable(id, delta) <==> !m.devices.dom().contains(id) || -32768 <= as_signed(
            m.devices[id].local_setpoint,
        ) + delta <= 32767,
{
}

/// An iron can be connected exactly when it is neither connected nor being connected, and fewer
/// than two irons are.
pub proof fn law_two_irons_are_the_most(m: MonitorModel, id: Seq<char>)
    ensures
        m.can_connect(id) <==> !m.devices.dom().contains(id) && !m.connecting.contains(id)
            && m.devices.dom().len() + m.connecting.len() < 2,
        m.total() == m.devices.dom().len() + m.connecting.len(),
{
}

/// An iron that the user chooses is being connected, and the driver is asked to connect that iron,
/// if it could be connected when it was shown; else nothing happens. No iron but the chosen one is
/// affected.
pub proof fn law_chosen_iron_is_connected(
    m: MonitorModel,
    id: Seq<char>,
    can_connect: bool,
    other: Seq<char>,
)
    ensures
        ({
            let (after, command) = m.choose_iron(id, can_connect);
            &&& after == MonitorModel { connecting: after.connecting, ..m }
            &&& after.connecting.contains(other) <==> m.connecting.contains(other) || (can_connect
                && other == id)
            &&& can_connect ==> command == Some(CommandModel::Connect(id))
            &&& !can_connect ==> command is None && after == m
        }),
{
}

/// The user turns to the scanner or to the dashboard; nothing else changes. Turned to, the scanner
/// is shown unless there is an error, and the dashboard if there is an iron to show as well.
pub proof fn law_user_turns_to_a_screen(m: MonitorModel, scanner: bool)
    ensures
        m.turned_to(scanner) == (MonitorModel { show_scan: scanner, ..m }),
        m.error is None ==> m.turned_to(true).screen() == Screen::Scan,
        m.error is None && !nobody(m) ==> m.turned_to(false).screen() == Screen::Dashboard,
{
    lemma_nobody(m);
}

/// Trying again clears the error and shows the scanner; nothing else changes.
pub proof fn law_retry_clears_the_error(m: MonitorModel)
    ensures
        m.retried() == (MonitorModel { error: None, show_scan: true, ..m }),
        m.retried().screen() == Screen::Scan,
{
}

/// A button moves the setpoint by five degrees.
pub proof fn law_button_moves_five_degrees(m: MonitorModel, id: Seq<char>)
    requires
        m.devices.dom().contains(id),
        105 <= m.devices[id].local_setpoint <= 445,
    ensures
        m.adjust(id, SETPOINT_STEP).0.devices[id].local_setpoint == m.devices[id].local_setpoint
            + 5,
        m.adjust(id, (-SETPOINT_STEP) as i16).0.devices[id].local_setpoint
            == m.devices[id].local_setpoint - 5,
{
}

/// An iron that the user disconnects is forgotten; when no other is connected, the scanner is
/// wanted. Nothing else changes.
pub proof fn law_user_disconnects_one_iron(m: MonitorModel, id: Seq<char>)
    ensures
        ({
            let after = m.disconnect(id);
            &&& after == MonitorModel {
                devices: m.devices.remove(id),
                show_scan: after.show_scan,
                ..m
            }
            &&& after.show_scan <==> m.show_scan || forall|other: Seq<char>|
                !(#[trigger] after.devices.dom().contains(other))
        }),
{
    let after = m.disconnect(id);
    if forall|other: Seq<char>| !(#[trigger] after.devices.dom().contains(other)) {
        assert(after.devices.dom() =~= Set::<Seq<char>>::empty());
    }
}

/// An error comes first; else the scanner is shown when it is wanted, or when no iron is connected
/// or being connected; else the dashboard.
pub proof fn law_screen_is_chosen(m: MonitorModel)
    ensures
        m.screen() == Screen::Error <==> m.error is Some,
        m.screen() == Screen::Scan <==> m.error is None && (m.show_scan || nobody(m)),
        m.screen() == Screen::Dashboard <==> m.error is None && !m.show_scan && !nobody(m),
{
    lemma_nobody(m);
}

} // verus!
