//! What a scan does: it looks at every peripheral, finds every iron, and loses the silent ones.

use crate::ble::{EventModel, FoundModel};
use crate::driver_laws::{is_due, run};
use crate::idmap::lemma_with_id;
use crate::protocol::{
    device_name_of, is_pinecil_name, ActionModel, DriverModel, InputModel, PhaseModel, TargetModel,
};
use crate::protocol_laws::{law_driver_stays_sound, lemma_lost};
use vstd::prelude::*;

verus! {

/// The names that peripherals answer with, at these times, in this order.
pub open spec fn names_told(names: Seq<Option<Seq<char>>>, times: Seq<u64>) -> Seq<
    (u64, InputModel),
> {
    Seq::new(names.len(), |k: int| (times[k], InputModel::Name(names[k])))
}

/// What a peripheral is called: as it says, or `Pinecil`.
pub open spec fn called(name: Option<Seq<char>>) -> Seq<char> {
    match name {
        Some(name) => name,
        None => "Pinecil"@,
    }
}

/// Whether a peripheral is an iron: its name begins with `Pinecil`.
pub open spec fn is_iron(name: Option<Seq<char>>) -> bool {
    "Pinecil"@.is_prefix_of(called(name))
}

/// The driver once it has been told the peripherals of a scan that began at `now`.
pub open spec fn scanning(m: DriverModel, now: u64, listed_at: u64, ids: Seq<Seq<char>>) -> (
    DriverModel,
    Seq<EventModel>,
) {
    m.step(now, InputModel::NoCommand).0.step(listed_at, InputModel::Peripherals(ids))
}

/// Whether a scan ends as it should at `now`, when the irons `seen` are known: it reports, each
/// once, the irons that are not connected and were last seen more than ten seconds ago, and then,
/// last, a tick; it forgets those irons and no others, and the cycle goes on with the connected
/// irons as it does when no scan is due.
pub open spec fn ends_scan(
    seen: Map<Seq<char>, u64>,
    connected: Seq<Seq<char>>,
    now: u64,
    after: DriverModel,
    events: Seq<EventModel>,
) -> bool {
    &&& events.len() > 0
    &&& events.last() == EventModel::ScanTick
    &&& events.no_duplicates()
    &&& forall|i: int| 0 <= i < events.len() - 1 ==> (#[trigger] events[i]) is DeviceLost
    &&& forall|id: Seq<char>|
        #![trigger events.contains(EventModel::DeviceLost(id))]
        #![trigger after.seen.dom().contains(id)]
        {
            let silent = !connected.contains(id) && seen[id] + 10_000_000_000 < now;
            &&& events.contains(EventModel::DeviceLost(id)) <==> seen.dom().contains(id) && silent
            &&& after.seen.dom().contains(id) <==> seen.dom().contains(id) && !silent
            &&& after.seen.dom().contains(id) ==> after.seen[id] == seen[id]
        }
    &&& after.connected == connected
    &&& after.action() == if connected.len() > 0 {
        ActionModel::ListCharacteristics(TargetModel::Kept(connected[0]))
    } else {
        ActionModel::Pause
    }
    &&& after.last_scan matches Some(then) ==> after == (DriverModel {
        phase: PhaseModel::Receiving,
        ..after
    }).step(then, InputModel::NoCommand).0
}

proof fn lemma_ends_scan(m: DriverModel, now: u64)
    requires
        m.seen_ids.no_duplicates(),
        m.seen.dom() == m.seen_ids.to_set(),
    ensures
        ends_scan(m.seen, m.connected, now, m.end_scan(now).0, m.end_scan(now).1),
{
    lemma_lost(m, now);
    let (after, events) = m.end_scan(now);
    let lost = m.lost_ids(now);
    assert(after.seen.dom() =~= after.seen_ids.to_set());
    assert(events.len() == lost.len() + 1);
    assert forall|i: int| 0 <= i < lost.len() implies #[trigger] events[i]
        == EventModel::DeviceLost(lost[i]) by {}
    assert forall|i: int, j: int| 0 <= i < events.len() && 0 <= j < events.len() && i
        != j implies events[i] != events[j] by {
        if i < lost.len() && j < lost.len() {
            assert(lost[i] != lost[j]);
        }
    }
    assert forall|id: Seq<char>|
        #![trigger events.contains(EventModel::DeviceLost(id))]
        #![trigger after.seen.dom().contains(id)]
        {
            let silent = !m.connected.contains(id) && m.seen[id] + 10_000_000_000 < now;
            &&& events.contains(EventModel::DeviceLost(id)) <==> m.seen.dom().contains(id) && silent
            &&& after.seen.dom().contains(id) <==> m.seen.dom().contains(id) && !silent
            &&& after.seen.dom().contains(id) ==> after.seen[id] == m.seen[id]
        } by {
        if m.lost_ids(now).contains(id) {
            let i = lost.index_of(id);
            assert(events[i] == EventModel::DeviceLost(id));
        }
        if events.contains(EventModel::DeviceLost(id)) {
            let i = events.index_of(EventModel::DeviceLost(id));
            assert(lost[i] == id);
            assert(lost.contains(id));
        }
        assert(after.seen_ids.contains(id) <==> m.seen_ids.contains(id) && !m.is_lost(now, id));
    }
}

/// A scan that is due begins when no command waits. If there are no peripherals, it ends there.
pub proof fn law_scan_begins(m: DriverModel, now: u64, listed_at: u64, ids: Seq<Seq<char>>)
    requires
        m.wf(),
        m.action() == ActionModel::ReceiveCommand,
        is_due(m, now),
    ensures
        m.step(now, InputModel::NoCommand).0.action() == ActionModel::ListPeripherals,
        m.step(now, InputModel::NoCommand).1.len() == 0,
        ({
            let (listed, events) = scanning(m, now, listed_at, ids);
            &&& listed.last_scan == Some(now)
            &&& ids.len() == 0 ==> ends_scan(m.seen, m.connected, listed_at, listed, events)
            &&& ids.len() > 0 ==> {
                &&& events.len() == 0
                &&& listed.action() == ActionModel::ReadName(0)
                &&& listed.seen == m.seen && listed.connected == m.connected
            }
        }),
{
    if ids.len() == 0 {
        lemma_ends_scan(m.step(now, InputModel::NoCommand).0, listed_at);
    }
}

/// Where a scan stands after `k` names.
proof fn lemma_scan_progress(
    m: DriverModel,
    now: u64,
    listed_at: u64,
    ids: Seq<Seq<char>>,
    names: Seq<Option<Seq<char>>>,
    times: Seq<u64>,
    k: nat,
)
    requires
        m.wf(),
        m.action() == ActionModel::ReceiveCommand,
        is_due(m, now),
        names.len() == ids.len(),
        times.len() == ids.len(),
        k < ids.len(),
    ensures
        ({
            let (s, events) = run(
                scanning(m, now, listed_at, ids).0,
                names_told(names, times).take(k as int),
            );
            &&& s.phase == (PhaseModel::ScanningName { ids, at: k })
            &&& s.wf()
            &&& s.connected == m.connected
            &&& s.last_scan == Some(now)
            &&& k == 0 ==> s.seen == m.seen && events.len() == 0
            &&& forall|i: int| 0 <= i < events.len() ==> (#[trigger] events[i]) is DeviceFound
        }),
    decreases k,
{
    let told = names_told(names, times);
    let start = scanning(m, now, listed_at, ids).0;
    let begun = m.step(now, InputModel::NoCommand).0;
    law_driver_stays_sound(m, now, InputModel::NoCommand);
    law_driver_stays_sound(begun, listed_at, InputModel::Peripherals(ids));
    if k == 0 {
        assert(told.take(0).len() == 0);
    } else {
        let j = (k - 1) as nat;
        lemma_scan_progress(m, now, listed_at, ids, names, times, j);
        lemma_take_next(told, j as int);
        let (s, events) = run(start, told.take(j as int));
        let input = InputModel::Name(names[j as int]);
        assert(told[j as int] == (times[j as int], input));
        law_driver_stays_sound(s, times[j as int], input);
        let (after, more) = s.step(times[j as int], input);
        let found = s.sighting_events(ids[j as int], device_name_of(names[j as int]));
        assert(more =~= found);
        assert(run(start, told.take(k as int)) == (after, events + more));
        assert forall|i: int| 0 <= i < (events + more).len() implies (#[trigger] (events
            + more)[i]) is DeviceFound by {
            if i < events.len() {
                assert((events + more)[i] == events[i]);
            } else {
                assert((events + more)[i] == more[i - events.len()]);
            }
        }
    }
}

proof fn lemma_take_next<T>(s: Seq<T>, k: int)
    requires
        0 <= k < s.len(),
    ensures
        s.take(k + 1).drop_last() == s.take(k),
        s.take(k + 1).last() == s[k],
{
    assert(s.take(k + 1).drop_last() =~= s.take(k));
}

proof fn lemma_is_iron(name: Option<Seq<char>>)
    ensures
        called(name) == device_name_of(name),
        is_iron(name) <==> is_pinecil_name(called(name)),
{
    reveal_strlit("Pinecil");
    let text = called(name);
    if text.len() >= 7 {
        assert(text.take(7) =~= text.subrange(0, 7));
    }
}

/// A scan asks for the name of every peripheral that it was told of, in order, and reports no tick
/// before it has asked for the last. A peripheral whose name begins with `Pinecil` is noted as
/// seen when its name came, and reported as found, with its own id and name, if it was not known;
/// any other is passed over. After the last name the scan ends.
pub proof fn law_scan_looks_at_every_peripheral(
    m: DriverModel,
    now: u64,
    listed_at: u64,
    ids: Seq<Seq<char>>,
    names: Seq<Option<Seq<char>>>,
    times: Seq<u64>,
    k: nat,
)
    requires
        m.wf(),
        m.action() == ActionModel::ReceiveCommand,
        is_due(m, now),
        names.len() == ids.len(),
        times.len() == ids.len(),
        k < ids.len(),
    ensures
        ({
            let told = names_told(names, times);
            let start = scanning(m, now, listed_at, ids).0;
            let (before, reported) = run(start, told.take(k as int));
            let (after, events) = before.step(times[k as int], InputModel::Name(names[k as int]));
            let id = ids[k as int];
            let name = names[k as int];
            let is_new = is_iron(name) && !before.seen.dom().contains(id);
            let noted = if is_iron(name) {
                before.seen.insert(id, times[k as int])
            } else {
                before.seen
            };
            let rest = if is_new {
                events.skip(1)
            } else {
                events
            };
            &&& before.action() == ActionModel::ReadName(k)
            &&& before.connected == m.connected && before.last_scan == Some(now)
            &&& k == 0 ==> before.seen == m.seen
            &&& forall|i: int| 0 <= i < reported.len() ==> (#[trigger] reported[i]) is DeviceFound
            &&& run(start, told.take(k as int + 1)) == (after, reported + events)
            &&& is_new ==> events.len() > 0 && events[0] == EventModel::DeviceFound(
                FoundModel { name: called(name), id },
            )
            &&& k + 1 < ids.len() ==> {
                &&& rest.len() == 0
                &&& after.seen == noted
                &&& after.action() == ActionModel::ReadName(k + 1)
            }
            &&& k + 1 == ids.len() ==> ends_scan(noted, m.connected, times[k as int], after, rest)
        }),
{
    let told = names_told(names, times);
    let start = scanning(m, now, listed_at, ids).0;
    lemma_scan_progress(m, now, listed_at, ids, names, times, k);
    lemma_take_next(told, k as int);
    let (before, reported) = run(start, told.take(k as int));
    let id = ids[k as int];
    let name = names[k as int];
    let at = times[k as int];
    assert(told[k as int] == (at, InputModel::Name(name)));
    lemma_is_iron(name);
    let (after, events) = before.step(at, InputModel::Name(name));
    let sighted = before.sighted(at, id, called(name));
    let found = before.sighting_events(id, called(name));
    assert(before.seen.dom().contains(id) <==> before.seen_ids.contains(id));
    lemma_with_id(before.seen_ids, id);
    assert(sighted.seen.dom() =~= sighted.seen_ids.to_set());
    if k + 1 < ids.len() {
        assert(events =~= found);
    } else {
        lemma_ends_scan(sighted, at);
        let ended = sighted.end_scan(at);
        assert(events == found + ended.1);
        assert(after == ended.0);
        if found.len() > 0 {
            assert(events.skip(1) =~= ended.1);
        } else {
            assert(events =~= ended.1);
        }
    }
}

/// Whether an iron of this id is reported as found.
pub open spec fn is_found(events: Seq<EventModel>, id: Seq<char>) -> bool {
    exists|i: int|
        0 <= i < events.len() && (#[trigger] events[i]) is DeviceFound && events[i]->DeviceFound_0.id
            == id
}

/// A whole scan finds every iron: of the peripherals that it was told of, each one whose name
/// begins with `Pinecil` was known before or has been reported as found when the scan reports its
/// tick, which is the last thing that it reports, and which it reports once.
pub proof fn law_scan_finds_every_iron(
    m: DriverModel,
    now: u64,
    listed_at: u64,
    ids: Seq<Seq<char>>,
    names: Seq<Option<Seq<char>>>,
    times: Seq<u64>,
)
    requires
        m.wf(),
        m.action() == ActionModel::ReceiveCommand,
        is_due(m, now),
        names.len() == ids.len(),
        times.len() == ids.len(),
        ids.len() > 0,
    ensures
        ({
            let events = run(scanning(m, now, listed_at, ids).0, names_told(names, times)).1;
            &&& events.len() > 0 && events.last() == EventModel::ScanTick
            &&& forall|i: int| 0 <= i < events.len() - 1 ==> (#[trigger] events[i]) !is ScanTick
            &&& forall|k: int|
                0 <= k < ids.len() && #[trigger] is_iron(names[k]) ==> m.seen.dom().contains(ids[k])
                    || is_found(events, ids[k])
        }),
{
    let told = names_told(names, times);
    let last = (ids.len() - 1) as nat;
    let start = scanning(m, now, listed_at, ids).0;
    law_scan_looks_at_every_peripheral(m, now, listed_at, ids, names, times, last);
    lemma_found_so_far(m, now, listed_at, ids, names, times, last);
    assert(told.take(last as int + 1) =~= told);
    let (before, reported) = run(start, told.take(last as int));
    let (after, events) = before.step(times[last as int], InputModel::Name(names[last as int]));
    let all = reported + events;
    assert(all.last() == events.last());
    assert forall|i: int| 0 <= i < all.len() - 1 implies (#[trigger] all[i]) !is ScanTick by {
        if i < reported.len() {
            assert(all[i] == reported[i]);
        } else {
            assert(all[i] == events[i - reported.len()]);
            let is_new = is_iron(names[last as int]) && !before.seen.dom().contains(
                ids[last as int],
            );
            if is_new && i - reported.len() > 0 {
                assert(events[i - reported.len()] == events.skip(1)[i - reported.len() - 1]);
            }
        }
    }
    assert forall|k: int| 0 <= k < ids.len() && #[trigger] is_iron(
        names[k],
    ) implies m.seen.dom().contains(ids[k]) || is_found(all, ids[k]) by {
        if k < last {
            lemma_found_grows(reported, events, ids[k]);
        } else if !before.seen.dom().contains(ids[k]) {
            assert(events[0]->DeviceFound_0.id == ids[k]);
            assert(all[reported.len() as int] == events[0]);
        } else if !m.seen.dom().contains(ids[k]) {
            assert(is_found(reported, ids[k]));
            lemma_found_grows(reported, events, ids[k]);
        }
    }
}

proof fn lemma_found_grows(reported: Seq<EventModel>, events: Seq<EventModel>, id: Seq<char>)
    ensures
        is_found(reported, id) ==> is_found(reported + events, id),
{
    if is_found(reported, id) {
        let i = choose|i: int|
            0 <= i < reported.len() && (#[trigger] reported[i]) is DeviceFound
                && reported[i]->DeviceFound_0.id == id;
        assert((reported + events)[i] == reported[i]);
    }
}

proof fn lemma_found_so_far(
    m: DriverModel,
    now: u64,
    listed_at: u64,
    ids: Seq<Seq<char>>,
    names: Seq<Option<Seq<char>>>,
    times: Seq<u64>,
    k: nat,
)
    requires
        m.wf(),
        m.action() == ActionModel::ReceiveCommand,
        is_due(m, now),
        names.len() == ids.len(),
        times.len() == ids.len(),
        k < ids.len(),
    ensures
        ({
            let (s, events) = run(
                scanning(m, now, listed_at, ids).0,
                names_told(names, times).take(k as int),
            );
            &&& forall|id: Seq<char>| #[trigger]
                s.seen.dom().contains(id) ==> m.seen.dom().contains(id) || is_found(events, id)
            &&& forall|j: int|
                0 <= j < k && #[trigger] is_iron(names[j]) ==> m.seen.dom().contains(ids[j])
                    || is_found(events, ids[j])
        }),
    decreases k,
{
    let told = names_told(names, times);
    let start = scanning(m, now, listed_at, ids).0;
    if k == 0 {
        law_scan_looks_at_every_peripheral(m, now, listed_at, ids, names, times, 0);
    } else {
        let j = (k - 1) as nat;
        lemma_found_so_far(m, now, listed_at, ids, names, times, j);
        law_scan_looks_at_every_peripheral(m, now, listed_at, ids, names, times, j);
        let (before, reported) = run(start, told.take(j as int));
        let (after, events) = before.step(times[j as int], InputModel::Name(names[j as int]));
        let all = reported + events;
        let is_new = is_iron(names[j as int]) && !before.seen.dom().contains(ids[j as int]);
        if is_new {
            assert(all[reported.len() as int] == events[0]);
            assert(is_found(all, ids[j as int]));
        }
        assert forall|id: Seq<char>| #[trigger] after.seen.dom().contains(
            id,
        ) implies m.seen.dom().contains(id) || is_found(all, id) by {
            lemma_found_grows(reported, events, id);
            if before.seen.dom().contains(id) {
            } else {
                assert(id == ids[j as int]);
            }
        }
        assert forall|i: int| 0 <= i < k && #[trigger] is_iron(
            names[i],
        ) implies m.seen.dom().contains(ids[i]) || is_found(all, ids[i]) by {
            lemma_found_grows(reported, events, ids[i]);
            if i == j && !is_new {
                assert(before.seen.dom().contains(ids[i]));
            }
        }
    }
}

} // verus!
