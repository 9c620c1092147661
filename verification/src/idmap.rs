//! A map keyed by device id that remembers the order in which ids were added.

use vstd::prelude::*;

verus! {

/// The position of `id` in `ids`, or their number where it does not occur.
pub open spec fn position_in(ids: Seq<Seq<char>>, id: Seq<char>) -> int {
    if ids.contains(id) {
        ids.index_of(id)
    } else {
        ids.len() as int
    }
}

/// The ids once `id` has been added: at the end, unless it is there already.
pub open spec fn with_id(ids: Seq<Seq<char>>, id: Seq<char>) -> Seq<Seq<char>> {
    if ids.contains(id) {
        ids
    } else {
        ids.push(id)
    }
}

/// The ids once `id` has been taken out; the others keep their order.
pub open spec fn without_id(ids: Seq<Seq<char>>, id: Seq<char>) -> Seq<Seq<char>> {
    if ids.contains(id) {
        ids.remove(ids.index_of(id))
    } else {
        ids
    }
}

/// Adding an id to distinct ids keeps them distinct.
pub proof fn lemma_with_id(ids: Seq<Seq<char>>, id: Seq<char>)
    requires
        ids.no_duplicates(),
    ensures
        with_id(ids, id).no_duplicates(),
        forall|k: Seq<char>| #[trigger] with_id(ids, id).contains(k) <==> k == id || ids.contains(k),
        with_id(ids, id).len() == ids.len() + if ids.contains(id) { 0int } else { 1int },
{
    let after = with_id(ids, id);
    if !ids.contains(id) {
        assert(after[ids.len() as int] == id);
        assert forall|k: Seq<char>| ids.contains(k) implies #[trigger] after.contains(k) by {
            assert(after[ids.index_of(k)] == k);
        }
    }
}

/// Taking an id out of distinct ids takes out that id and nothing else.
pub proof fn lemma_without_id(ids: Seq<Seq<char>>, id: Seq<char>)
    requires
        ids.no_duplicates(),
    ensures
        without_id(ids, id).no_duplicates(),
        forall|k: Seq<char>|
            #[trigger] without_id(ids, id).contains(k) <==> k != id && ids.contains(k),
        without_id(ids, id).len() == ids.len() - if ids.contains(id) { 1int } else { 0int },
{
    let after = without_id(ids, id);
    if ids.contains(id) {
        let at = ids.index_of(id);
        assert forall|k: Seq<char>| k != id && ids.contains(k) implies #[trigger] after.contains(
            k,
        ) by {
            let i = ids.index_of(k);
            if i < at {
                assert(after[i] == k);
            } else {
                assert(after[i - 1] == k);
            }
        }
        assert forall|k: Seq<char>| #[trigger] after.contains(k) implies k != id && ids.contains(
            k,
        ) by {
            let i = after.index_of(k);
            if i < at {
                assert(ids[i] == k);
            } else {
                assert(ids[i + 1] == k);
            }
        }
    }
}

/// An id that is added comes last; those that were there before it stay where they are.
pub proof fn law_added_id_comes_last(ids: Seq<Seq<char>>, id: Seq<char>)
    ensures
        with_id(ids, id).take(ids.len() as int) == ids,
        !ids.contains(id) ==> with_id(ids, id).len() == ids.len() + 1 && with_id(ids, id).last()
            == id,
        ids.contains(id) ==> with_id(ids, id).len() == ids.len(),
{
    assert(with_id(ids, id).take(ids.len() as int) =~= ids);
}

/// Of an id that is taken out, one occurrence is gone, and the others stay in their order; an id
/// that does not occur changes nothing.
pub proof fn law_removed_id_leaves_the_order(ids: Seq<Seq<char>>, id: Seq<char>)
    ensures
        ids.contains(id) ==> exists|at: int|
            0 <= at < ids.len() && #[trigger] ids[at] == id && without_id(ids, id) == ids.take(at)
                + ids.skip(at + 1),
        !ids.contains(id) ==> without_id(ids, id) == ids,
{
    if ids.contains(id) {
        let at = ids.index_of(id);
        assert(ids[at] == id);
        assert(ids.remove(at) =~= ids.take(at) + ids.skip(at + 1));
    }
}

/// A map from device ids to values, with each id at most once.
pub struct IdMap<V> {
    entries: Vec<(String, V)>,
}

impl<V> IdMap<V> {
    /// The ids, in the order in which they were added.
    pub closed spec fn ids(&self) -> Seq<Seq<char>> {
        self.entries@.map_values(|e: (String, V)| e.0@)
    }

    closed spec fn values(&self) -> Seq<V> {
        self.entries@.map_values(|e: (String, V)| e.1)
    }

    /// No id occurs twice.
    pub open spec fn wf(&self) -> bool {
        self.ids().no_duplicates()
    }
}

impl<V> View for IdMap<V> {
    type V = Map<Seq<char>, V>;

    closed spec fn view(&self) -> Map<Seq<char>, V> {
        Map::new(|k: Seq<char>| self.ids().contains(k), |k: Seq<char>| self.values()[self.ids().index_of(k)])
    }
}

impl<V> IdMap<V> {
    /// The ids are those that the map knows.
    pub proof fn lemma_ids(&self)
        ensures
            forall|k: Seq<char>| #[trigger] self@.dom().contains(k) <==> self.ids().contains(k),
            self@.dom() == self.ids().to_set(),
            self.wf() ==> self@.dom().finite() && self@.dom().len() == self.ids().len(),
    {
        assert(self@.dom() =~= self.ids().to_set());
        if self.wf() {
            self.ids().unique_seq_to_set();
        }
    }

    /// A map without ids.
    pub fn new() -> (r: IdMap<V>)
        ensures
            r.wf(),
            r.ids() == Seq::<Seq<char>>::empty(),
            r@ == Map::<Seq<char>, V>::empty(),
    {
        let r = IdMap { entries: Vec::new() };
        assert(r.ids() =~= Seq::<Seq<char>>::empty());
        assert(r@ =~= Map::<Seq<char>, V>::empty());
        r
    }

    /// The number of ids.
    pub fn len(&self) -> (r: usize)
        ensures
            r == self.ids().len(),
    {
        self.entries.len()
    }

    /// The id at `i`, in the order in which ids were added.
    pub fn id_at(&self, i: usize) -> (r: &String)
        requires
            i < self.ids().len(),
        ensures
            r@ == self.ids()[i as int],
    {
        &self.entries[i].0
    }

    /// The value of the id at `i`.
    pub fn value_at(&self, i: usize) -> (r: &V)
        requires
            self.wf(),
            i < self.ids().len(),
        ensures
            *r == self@[self.ids()[i as int]],
    {
        proof {
            assert(self.ids()[i as int] == self.entries@[i as int].0@);
            assert(self.ids().contains(self.ids()[i as int]));
        }
        &self.entries[i].1
    }

    /// Where `id` stands; the number of ids if it does not occur.
    fn find(&self, id: &String) -> (r: usize)
        requires
            self.wf(),
        ensures
            r == position_in(self.ids(), id@),
    {
        let mut i: usize = 0;
        while i < self.entries.len()
            invariant
                self.wf(),
                i <= self.entries@.len(),
                forall|j: int| 0 <= j < i ==> #[trigger] self.ids()[j] != id@,
            decreases self.entries@.len() - i,
        {
            if self.entries[i].0 == *id {
                assert(self.ids()[i as int] == id@);
                return i;
            }
            i += 1;
        }
        i
    }

    /// Whether `id` occurs.
    pub fn contains(&self, id: &String) -> (r: bool)
        requires
            self.wf(),
        ensures
            r == self.ids().contains(id@),
            r == self@.dom().contains(id@),
    {
        self.find(id) < self.entries.len()
    }

    /// The value of `id`.
    pub fn get(&self, id: &String) -> (r: Option<&V>)
        requires
            self.wf(),
        ensures
            self@.dom().contains(id@) ==> r == Some(&self@[id@]),
            !self@.dom().contains(id@) ==> r is None,
    {
        let i: usize = self.find(id);
        if i < self.entries.len() {
            Some(&self.entries[i].1)
        } else {
            None
        }
    }

    /// The value of `id`, to be changed in place.
    pub fn get_mut(&mut self, id: &String) -> (r: Option<&mut V>)
        requires
            old(self).wf(),
        ensures
            final(self).wf(),
            final(self).ids() == old(self).ids(),
            match r {
                Some(v) => {
                    &&& old(self)@.dom().contains(id@)
                    &&& *v == old(self)@[id@]
                    &&& final(self)@ == old(self)@.insert(id@, *final(v))
                },
                None => {
                    &&& !old(self)@.dom().contains(id@)
                    &&& final(self)@ == old(self)@
                },
            },
    {
        let i: usize = self.find(id);
        if i < self.entries.len() {
            let v = &mut self.entries[i].1;
            assert(after_borrow(self).ids() =~= old(self).ids());
            assert(after_borrow(self)@ =~= old(self)@.insert(id@, *final(v)));
            Some(v)
        } else {
            None
        }
    }

    /// Sets the value of `id`.
    pub fn insert(&mut self, id: String, value: V)
        requires
            old(self).wf(),
        ensures
            final(self).wf(),
            final(self).ids() == with_id(old(self).ids(), id@),
            final(self)@ == old(self)@.insert(id@, value),
    {
        let i: usize = self.find(&id);
        let ghost before = *self;
        if i < self.entries.len() {
            self.entries.set(i, (id, value));
            assert(self.ids() =~= before.ids());
        } else {
            self.entries.push((id, value));
            assert(self.ids() =~= before.ids().push(id@));
        }
        proof {
            lemma_with_id(before.ids(), id@);
        }
        assert(self@ =~= before@.insert(id@, value));
    }

    /// Takes `id` out; says whether it occurred.
    pub fn remove(&mut self, id: &String) -> (r: bool)
        requires
            old(self).wf(),
        ensures
            r == old(self)@.dom().contains(id@),
            final(self).wf(),
            final(self).ids() == without_id(old(self).ids(), id@),
            final(self)@ == old(self)@.remove(id@),
    {
        let i: usize = self.find(id);
        let ghost before = *self;
        proof {
            lemma_without_id(before.ids(), id@);
        }
        if i < self.entries.len() {
            let _ = self.entries.remove(i);
            assert(self.ids() =~= before.ids().remove(i as int));
            assert(self@ =~= before@.remove(id@));
            true
        } else {
            assert(self@ =~= before@.remove(id@));
            false
        }
    }
}

} // verus!
