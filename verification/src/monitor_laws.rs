//! What holds of the monitor whatever happens.

use crate::ble::{CommandModel, EventModel, FoundModel};
use crate::monitor::{next_tick, DeviceModel, MonitorModel, Screen};
use crate::monitor::{MAX_DEVICES, MAX_SETPOINT, MIN_SETPOINT, SANE_SETPOINT, SETPOINT_STEP};
use crate::pinecil::LiveData;
use vstd::prelude::*;

verus! {

/// What is left of a scan list when one iron is taken out: the others, in order.
pub proof fn lemma_scan_list_without(list: Seq<FoundModel>, id: Seq<char>)
    ensures
        ({
            let left = list.filter(|d: FoundModel| d.id != id);
            &&& forall|d: FoundModel| #[trigger] left.contains(d) <==> list.contains(d) && d.id != id
            &&& forall|i: int|
                0 <= i < left.len() ==> (#[trigger] left[i]).id != id && list.contains(left[i])
            &&& (forall|i: int, j: int|
                0 <= i < j < list.len() ==> (#[trigger] list[i]).id != (#[trigger] list[j]).id) ==> (
            forall|i: int, j: int|
                0 <= i < j < left.len() ==> (#[trigger] left[i]).id != (#[trigger] left[j]).id)
        }),
    decreases list.len(),
{
    reveal(Seq::filter);
    let keep = |d: FoundModel| d.id != id;
    let left = list.filter(keep);
    if list.len() > 0 {
        let front = list.drop_last();
        let last = list.last();
        lemma_scan_list_without(front, id);
        let rest = front.filter(keep);
        assert(list =~= front.push(last));
        assert(left == if last.id != id {
            rest.push(last)
        } else {
            rest
        });
        assert forall|d: FoundModel| #[trigger] left.contains(d) <==> list.contains(d) && d.id
            != id by {
            if rest.contains(d) {
                assert(left[rest.index_of(d)] == d);
            }
            if front.contains(d) {
                assert(list[front.index_of(d)] == d);
            }
            if d == last {
                assert(list[list.len() - 1] == d);
                if last.id != id {
                    assert(left[left.len() - 1] == d);
                }
            }
            if left.contains(d) && d != last {
                let i = left.index_of(d);
                assert(rest[i] == d);
            }
            if list.contains(d) && d != last {
                let i = list.index_of(d);
                assert(front[i] == d);
            }
        }
        assert forall|i: int| 0 <= i < left.len() implies (#[trigger] left[i]).id != id
            && list.contains(left[i]) by {
            assert(left.contains(left[i]));
        }
        if forall|i: int, j: int|
            0 <= i < j < list.len() ==> (#[trigger] list[i]).id != (#[trigger] list[j]).id {
            assert forall|i: int, j: int| 0 <= i < j < front.len() implies (#[trigger] front[i]).id
                != (#[trigger] front[j]).id by {
                assert(list[i].id != list[j].id);
            }
            assert forall|i: int, j: int| 0 <= i < j < left.len() implies (#[trigger] left[i]).id
                != (#[trigger] left[j]).id by {
                if j < rest.len() {
                    assert(rest[i].id != rest[j].id);
                } else {
                    assert(rest.contains(rest[i]));
                    let k = front.index_of(rest[i]);
                    assert(list[k].id != list[list.len() - 1].id);
                }
            }
        }
    }
}

/// The monitor's state stays sound whatever is reported: no iron is in the scan list twice.
pub proof fn law_monitor_stays_sound(m: MonitorModel, event: EventModel)
    requires
        m.wf(),
    ensures
        m.apply(event).wf(),
{
    match event {
        EventModel::DeviceFound(dev) => {
            if !m.listed(dev.id) {
                let after = m.apply(event);
                assert forall|i: int, j: int| 0 <= i < j < after.scan_list.len() implies (
                #[trigger] after.scan_list[i]).id != (#[trigger] after.scan_list[j]).id by {
                    assert(m.scan_list[i].id != dev.id);
                }
            }
        },
        EventModel::DeviceLost(id) => {
            lemma_scan_list_without(m.scan_list, id);
        },
        _ => {},
    }
}

/// Batches can be split anywhere: taking note of two batches is taking note of both at once.
pub proof fn law_batches_compose(m: MonitorModel, first: Seq<EventModel>, second: Seq<EventModel>)
    ensures
        m.apply_all(first + second) == m.apply_all(first).apply_all(second),
    decreases second.len(),
{
    if second.len() == 0 {
        assert(first + second =~= first);
    } else {
        assert((first + second).drop_last() =~= first + second.drop_last());
        law_batches_compose(m, first, second.drop_last());
    }
}

/// A changed setpoint is one that the user can choose, it is what the iron is asked for, and
/// nothing else changes.
pub proof fn law_setpoint_is_kept_in_range(m: MonitorModel, id: Seq<char>, delta: i16)
    ensures
        ({
            let (after, command) = m.adjust(id, delta);
            &&& after.scan_list == m.scan_list && after.connecting == m.connecting
            &&& after.show_scan == m.show_scan && after.error == m.error
            &&& after.devices.dom() == m.devices.dom()
            &&& forall|other: Seq<char>|
                other != id ==> #[trigger] after.devices[other] == m.devices[other]
            &&& if m.devices.dom().contains(id) {
                let setpoint = after.devices[id].local_setpoint;
                &&& MIN_SETPOINT <= setpoint <= MAX_SETPOINT
                &&& command == Some(CommandModel::SetTemperature(id, setpoint))
                &&& after.devices[id] == m.devices[id].with_setpoint(setpoint)
            } else {
                after == m && command is None
            }
        }),
{
    let after = m.adjust(id, delta).0;
    assert(after.devices.dom() =~= m.devices.dom());
}

/// Within the range that the user can choose, a change is exact, and the opposite change takes
/// it back.
pub proof fn law_setpoint_steps_are_undone(m: MonitorModel, id: Seq<char>, delta: i16)
    requires
        m.devices.dom().contains(id),
        delta > i16::MIN,
        MIN_SETPOINT <= m.devices[id].local_setpoint <= MAX_SETPOINT,
        MIN_SETPOINT <= m.devices[id].local_setpoint + delta <= MAX_SETPOINT,
    ensures
        m.adjust(id, delta).0.devices[id].local_setpoint == m.devices[id].local_setpoint + delta,
        m.adjust(id, delta).0.adjust(id, (-delta) as i16).0 == m,
{
    let back = m.adjust(id, delta).0.adjust(id, (-delta) as i16).0;
    assert(back.devices =~= m.devices);
}

/// A setpoint that the user can choose, or any other up to 32762, can be changed by the steps
/// that the buttons make.
pub proof fn law_buttons_are_safe(m: MonitorModel, id: Seq<char>, delta: i16)
    requires
        -SETPOINT_STEP <= delta <= SETPOINT_STEP,
        m.devices.dom().contains(id) ==> m.devices[id].local_setpoint <= 32762,
    ensures
        m.is_adjustable(id, delta),
{
}

/// The first reading of an iron brings its setpoint if that is sane; no later reading changes
/// the setpoint that the user sees. Every reading is kept as the latest, and counted.
pub proof fn law_readings_update_an_iron(m: MonitorModel, id: Seq<char>, reading: LiveData)
    requires
        m.devices.dom().contains(id),
    ensures
        ({
            let before = m.devices[id];
            let after = m.apply(EventModel::LiveData(id, reading)).devices[id];
            &&& after.data == Some(reading)
            &&& after.tick == next_tick(before.tick)
            &&& after.name == before.name && after.build_info == before.build_info
            &&& before.data is Some || reading.setpoint < SANE_SETPOINT ==> after.local_setpoint
                == before.local_setpoint
            &&& before.data is None && SANE_SETPOINT <= reading.setpoint <= u16::MAX
                ==> after.local_setpoint == reading.setpoint
        }),
{
}

/// Which iron an event is about.
pub open spec fn subject(event: EventModel) -> Option<Seq<char>> {
    match event {
        EventModel::DeviceFound(dev) => Some(dev.id),
        EventModel::DeviceLost(id) => Some(id),
        EventModel::Connected(id, _) => Some(id),
        EventModel::ConnectFailed(id) => Some(id),
        EventModel::Disconnected(id) => Some(id),
        EventModel::LiveData(id, _) => Some(id),
        EventModel::BuildInfo(id, _) => Some(id),
        EventModel::ScanTick => None,
        EventModel::Error(_) => None,
    }
}

/// An event changes nothing of the irons that it is not about.
pub proof fn law_events_touch_one_iron(m: MonitorModel, event: EventModel, other: Seq<char>)
    requires
        subject(event) != Some(other),
    ensures
        ({
            let after = m.apply(event);
            &&& after.devices.dom().contains(other) == m.devices.dom().contains(other)
            &&& after.devices[other] == m.devices[other] || !m.devices.dom().contains(other)
            &&& after.connecting.contains(other) == m.connecting.contains(other)
            &&& after.listed(other) == m.listed(other)
        }),
{
    let after = m.apply(event);
    match event {
        EventModel::DeviceFound(dev) => {
            if m.listed(other) {
                let i = choose|i: int|
                    0 <= i < m.scan_list.len() && (#[trigger] m.scan_list[i]).id == other;
                assert(after.scan_list[i].id == other);
            }
            if after.listed(other) {
                let i = choose|i: int|
                    0 <= i < after.scan_list.len() && (#[trigger] after.scan_list[i]).id == other;
                assert(m.scan_list[i].id == other);
            }
        },
        EventModel::DeviceLost(id) => {
            lemma_scan_list_without(m.scan_list, id);
            if m.listed(other) {
                let i = choose|i: int|
                    0 <= i < m.scan_list.len() && (#[trigger] m.scan_list[i]).id == other;
                assert(m.scan_list.contains(m.scan_list[i]));
                assert(after.scan_list.contains(m.scan_list[i]));
                let j = after.scan_list.index_of(m.scan_list[i]);
                assert(after.scan_list[j].id == other);
            }
            if after.listed(other) {
                let i = choose|i: int|
                    0 <= i < after.scan_list.len() && (#[trigger] after.scan_list[i]).id == other;
                assert(m.scan_list.contains(after.scan_list[i]));
                let j = m.scan_list.index_of(after.scan_list[i]);
                assert(m.scan_list[j].id == other);
            }
        },
        _ => {},
    }
}

/// Readings and build texts of irons that are not connected are passed over.
pub proof fn law_unknown_irons_are_ignored(
    m: MonitorModel,
    id: Seq<char>,
    reading: LiveData,
    info: Seq<char>,
)
    requires
        !m.devices.dom().contains(id),
    ensures
        m.apply(EventModel::LiveData(id, reading)) == m,
        m.apply(EventModel::BuildInfo(id, info)) == m,
{
}

/// A found iron is listed, once; a lost one is neither listed nor being connected.
pub proof fn law_scan_list_follows_the_scan(m: MonitorModel, dev: FoundModel)
    ensures
        m.apply(EventModel::DeviceFound(dev)).listed(dev.id),
        m.apply(EventModel::DeviceFound(dev)).apply(EventModel::DeviceFound(dev)) == m.apply(
            EventModel::DeviceFound(dev),
        ),
        !m.apply(EventModel::DeviceLost(dev.id)).listed(dev.id),
        !m.apply(EventModel::DeviceLost(dev.id)).connecting.contains(dev.id),
{
    let after = m.apply(EventModel::DeviceFound(dev));
    if !m.listed(dev.id) {
        assert(after.scan_list[m.scan_list.len() as int].id == dev.id);
    }
    lemma_scan_list_without(m.scan_list, dev.id);
}

/// A new connection shows the dashboard and clears an error.
pub proof fn law_connection_shows_dashboard(m: MonitorModel, id: Seq<char>, name: Seq<char>)
    ensures
        ({
            let after = m.apply(EventModel::Connected(id, name));
            &&& after.screen() == Screen::Dashboard
            &&& after.error is None
            &&& !after.connecting.contains(id)
            &&& after.devices.dom().contains(id)
            &&& after.devices[id] == DeviceModel::connected(name)
        }),
{
    let after = m.apply(EventModel::Connected(id, name));
    assert(after.devices.dom().contains(id));
    assert(!Set::<Seq<char>>::empty().contains(id));
}

/// When the last iron is gone, whoever disconnected it, the scanner is shown.
pub proof fn law_last_disconnect_shows_scanner(m: MonitorModel, id: Seq<char>)
    requires
        m.error is None,
        forall|other: Seq<char>| #[trigger] m.devices.dom().contains(other) ==> other == id,
    ensures
        m.disconnect(id).screen() == Screen::Scan,
        (forall|other: Seq<char>| #[trigger] m.connecting.contains(other) ==> other == id)
            ==> m.apply(EventModel::Disconnected(id)).screen() == Screen::Scan,
{
    let gone = m.devices.remove(id);
    assert(gone.dom() =~= Set::<Seq<char>>::empty());
    if forall|other: Seq<char>| #[trigger] m.connecting.contains(other) ==> other == id {
        assert(m.connecting.remove(id) =~= Set::<Seq<char>>::empty());
    }
}

/// An error is shown until an iron is connected or the user tries again; then the scanner is
/// shown.
pub proof fn law_error_is_shown_until_cleared(m: MonitorModel, msg: Seq<char>, event: EventModel)
    ensures
        m.apply(EventModel::Error(msg)).screen() == Screen::Error,
        m.apply(EventModel::Error(msg)).error == Some(msg),
        m.screen() == Screen::Error && event !is Connected ==> m.apply(event).screen()
            == Screen::Error,
        (MonitorModel { error: None, show_scan: true, ..m }).screen() == Screen::Scan,
{
}

/// At most two irons: choosing one that can be connected never exceeds the limit, no event but an
/// unasked connection makes them more, and a connection that was asked for moves an iron without
/// changing the number.
pub proof fn law_at_most_two_irons(m: MonitorModel, id: Seq<char>, event: EventModel)
    requires
        m.wf(),
    ensures
        m.can_connect(id) ==> (MonitorModel {
            connecting: m.connecting.insert(id),
            ..m
        }).total() <= MAX_DEVICES,
        match event {
            EventModel::Connected(at, _) => {
                &&& m.connecting.contains(at) || m.devices.dom().contains(at)
                    ==> m.apply(event).total() <= m.total()
                &&& m.connecting.contains(at) && !m.devices.dom().contains(at)
                    ==> m.apply(event).total() == m.total()
            },
            _ => m.apply(event).total() <= m.total(),
        },
        m.disconnect(id).total() <= m.total(),
{
    let after = m.apply(event);
    match event {
        EventModel::LiveData(..) | EventModel::BuildInfo(..) => {
            assert(after.devices.dom() =~= m.devices.dom());
        },
        _ => {},
    }
}

/// After a failed attempt an iron can be chosen again.
pub proof fn law_failed_connect_can_be_retried(m: MonitorModel, id: Seq<char>)
    requires
        m.wf(),
        m.connecting.contains(id),
        !m.devices.dom().contains(id),
        m.total() <= MAX_DEVICES,
    ensures
        m.apply(EventModel::ConnectFailed(id)).can_connect(id),
{
}

} // verus!
