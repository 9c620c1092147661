//! What polling does: every connected iron is read once in a cycle, and what it answers is
//! reported under its own id.

use crate::ble::EventModel;
use crate::driver_laws::{is_due, is_first};
use crate::idmap::lemma_without_id;
use crate::pinecil::LiveData;
use crate::protocol::{ActionModel, DriverModel, InputModel, PhaseModel, TargetModel};
use crate::protocol_laws::{law_driver_stays_sound, lemma_first_from};
use vstd::prelude::*;

verus! {

/// How an iron answers when it is read: its characteristics, the value of the live data if it can
/// be read, and, if not, whether it could be closed.
#[verifier::ext_equal]
pub struct Visit {
    pub at: u64,
    pub uuids: Seq<u128>,
    pub value: Option<Seq<u8>>,
    pub closed: bool,
}

/// Whether an iron has live data to be read.
pub open spec fn has_live(v: Visit) -> bool {
    v.uuids.contains(0x9eae1001_9d0d_48c5_aa55_33e27f9bc533u128)
}

/// The conversation with one iron.
pub open spec fn visit(m: DriverModel, v: Visit) -> (DriverModel, Seq<EventModel>) {
    let (listed, e0) = m.step(v.at, InputModel::Characteristics(v.uuids));
    if !has_live(v) {
        (listed, e0)
    } else {
        let (read, e1) = listed.step(v.at, InputModel::Value(v.value));
        if v.value is Some {
            (read, e0 + e1)
        } else {
            let (closed, e2) = read.step(v.at, InputModel::Done(v.closed));
            (closed, e0 + e1 + e2)
        }
    }
}

/// The driver after the conversations with so many irons.
pub open spec fn visits(m: DriverModel, all: Seq<Visit>) -> DriverModel
    decreases all.len(),
{
    if all.len() == 0 {
        m
    } else {
        visit(visits(m, all.drop_last()), all.last()).0
    }
}

proof fn lemma_visit(m: DriverModel, ids: Seq<Seq<char>>, k: nat, v: Visit)
    requires
        m.wf(),
        m.phase == (PhaseModel::InspectingLive { ids, at: k }),
    ensures
        ({
            let (after, events) = visit(m, v);
            &&& after.wf()
            &&& after.phase == if k + 1 < ids.len() {
                PhaseModel::InspectingLive { ids, at: k + 1 }
            } else {
                PhaseModel::Pausing
            }
            &&& after.seen == m.seen && after.last_scan == m.last_scan
            &&& forall|id: Seq<char>| #[trigger]
                after.connected.contains(id) <==> m.connected.contains(id) && !(id == ids[k as int]
                    && has_live(v) && v.value is None)
            &&& has_live(v) ==> {
                let listed = m.step(v.at, InputModel::Characteristics(v.uuids)).0;
                &&& listed.action() matches ActionModel::ReadCharacteristic(target, at)
                &&& target == TargetModel::Kept(ids[k as int])
                &&& is_first(v.uuids, 0x9eae1001_9d0d_48c5_aa55_33e27f9bc533u128, at)
            }
            &&& m.step(v.at, InputModel::Characteristics(v.uuids)).1.len() == 0
            &&& events == if !has_live(v) {
                Seq::<EventModel>::empty()
            } else {
                match v.value {
                    None => seq![EventModel::Disconnected(ids[k as int])],
                    Some(bytes) => match LiveData::reading(bytes) {
                        Some(data) => seq![EventModel::LiveData(ids[k as int], data)],
                        None => Seq::<EventModel>::empty(),
                    },
                }
            }
        }),
{
    let live = 0x9eae1001_9d0d_48c5_aa55_33e27f9bc533u128;
    lemma_first_from(v.uuids, live, 0);
    if v.uuids.contains(live) {
        assert(v.uuids[v.uuids.index_of(live)] == live);
    }
    lemma_without_id(m.connected, ids[k as int]);
    let (listed, e0) = m.step(v.at, InputModel::Characteristics(v.uuids));
    law_driver_stays_sound(m, v.at, InputModel::Characteristics(v.uuids));
    if has_live(v) {
        let (read, e1) = listed.step(v.at, InputModel::Value(v.value));
        law_driver_stays_sound(listed, v.at, InputModel::Value(v.value));
        if v.value is None {
            law_driver_stays_sound(read, v.at, InputModel::Done(v.closed));
        }
    }
}

proof fn lemma_poll_progress(m: DriverModel, now: u64, all: Seq<Visit>, k: nat)
    requires
        m.wf(),
        m.action() == ActionModel::ReceiveCommand,
        !is_due(m, now),
        k < m.connected.len(),
        k <= all.len(),
    ensures
        ({
            let s = visits(m.step(now, InputModel::NoCommand).0, all.take(k as int));
            &&& s.wf()
            &&& s.phase == (PhaseModel::InspectingLive { ids: m.connected, at: k })
            &&& s.seen == m.seen && s.last_scan == m.last_scan
        }),
    decreases k,
{
    let begun = m.step(now, InputModel::NoCommand).0;
    law_driver_stays_sound(m, now, InputModel::NoCommand);
    if k == 0 {
        assert(all.take(0).len() == 0);
    } else {
        let j = (k - 1) as nat;
        lemma_poll_progress(m, now, all, j);
        assert(all.take(k as int).drop_last() =~= all.take(j as int));
        assert(all.take(k as int).last() == all[j as int]);
        lemma_visit(visits(begun, all.take(j as int)), m.connected, j, all[j as int]);
    }
}

/// Every connected iron is read once in a cycle, in the order in which they were connected: the
/// driver lists the characteristics of the iron and reads the first one that is live data. What
/// was read is reported under the id of that iron, if it holds readings; an iron that cannot be
/// read is closed, reported and no longer connected; one without live data is passed over. No
/// other iron is affected. After the last iron the driver pauses.
pub proof fn law_poll_visits_every_iron(m: DriverModel, now: u64, all: Seq<Visit>, k: nat)
    requires
        m.wf(),
        m.action() == ActionModel::ReceiveCommand,
        !is_due(m, now),
        all.len() == m.connected.len(),
        k < m.connected.len(),
    ensures
        ({
            let id = m.connected[k as int];
            let v = all[k as int];
            let begun = m.step(now, InputModel::NoCommand).0;
            let before = visits(begun, all.take(k as int));
            let (listed, quiet) = before.step(v.at, InputModel::Characteristics(v.uuids));
            let (after, events) = visit(before, v);
            &&& before.action() == ActionModel::ListCharacteristics(TargetModel::Kept(id))
            &&& quiet.len() == 0
            &&& has_live(v) ==> {
                &&& listed.action() matches ActionModel::ReadCharacteristic(target, at)
                &&& target == TargetModel::Kept(id)
                &&& is_first(v.uuids, 0x9eae1001_9d0d_48c5_aa55_33e27f9bc533u128, at)
            }
            &&& events == if !has_live(v) {
                Seq::<EventModel>::empty()
            } else {
                match v.value {
                    None => seq![EventModel::Disconnected(id)],
                    Some(bytes) => match LiveData::reading(bytes) {
                        Some(data) => seq![EventModel::LiveData(id, data)],
                        None => Seq::<EventModel>::empty(),
                    },
                }
            }
            &&& forall|other: Seq<char>| #[trigger]
                after.connected.contains(other) <==> before.connected.contains(other) && !(other
                    == id && has_live(v) && v.value is None)
            &&& visits(begun, all.take(k as int + 1)) == after
            &&& after.seen == m.seen && after.last_scan == m.last_scan
            &&& after.action() == if k + 1 < m.connected.len() {
                ActionModel::ListCharacteristics(TargetModel::Kept(m.connected[k as int + 1]))
            } else {
                ActionModel::Pause
            }
        }),
{
    let begun = m.step(now, InputModel::NoCommand).0;
    lemma_poll_progress(m, now, all, k);
    lemma_visit(visits(begun, all.take(k as int)), m.connected, k, all[k as int]);
    assert(all.take(k as int + 1).drop_last() =~= all.take(k as int));
    assert(all.take(k as int + 1).last() == all[k as int]);
}

} // verus!
