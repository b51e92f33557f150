//! The directory of instances: each instance's id and the handle by which
//! the runtime reaches it. Ids are unique; entries keep their order of
//! creation, and none is ever removed.
use vstd::prelude::*;

verus! {

/// Relies on `uuid::Uuid::new_v4`, a random version-4 UUID, taken as its
/// 128-bit value by `uuid::Uuid::as_u128`.
#[verifier::external_body]
fn random_id() -> (r: u128) {
    uuid::Uuid::new_v4().as_u128()
}

/// The ids of `entries`, in order.
pub open spec fn ids_of<H>(entries: Seq<(u128, H)>) -> Seq<u128> {
    entries.map_values(|e: (u128, H)| e.0)
}

pub struct Lobby<H> {
    entries: Vec<(u128, H)>,
}

impl<H> View for Lobby<H> {
    type V = Seq<(u128, H)>;

    closed spec fn view(&self) -> Seq<(u128, H)> {
        self.entries@
    }
}

impl<H> Lobby<H> {
    /// No two entries share an id.
    pub open spec fn wf(&self) -> bool {
        ids_of(self@).no_duplicates()
    }

    /// An empty directory.
    pub fn new() -> (r: Lobby<H>)
        ensures
            r.wf(),
            r@ == Seq::<(u128, H)>::empty(),
    {
        Lobby { entries: Vec::new() }
    }

    /// Number of instances.
    pub fn len(&self) -> (r: usize)
        ensures
            r == self@.len(),
    {
        self.entries.len()
    }

    /// Position of `id`, if an instance has it.
    fn position(&self, id: u128) -> (r: Option<usize>)
        ensures
            match r {
                Some(i) => i < self@.len() && self@[i as int].0 == id,
                None => !ids_of(self@).contains(id),
            },
    {
        let mut i: usize = 0;
        while i < self.entries.len()
            invariant
                0 <= i <= self@.len(),
                forall|j: int| 0 <= j < i ==> self@[j].0 != id,
            decreases self@.len() - i,
        {
            if self.entries[i].0 == id {
                return Some(i);
            }
            i = i + 1;
        }
        proof {
            if ids_of(self@).contains(id) {
                let j = choose|j: int| 0 <= j < ids_of(self@).len() && ids_of(self@)[j] == id;
                assert(self@[j].0 == id);
            }
        }
        None
    }

    /// The id and handle of the `i`-th instance created.
    pub fn entry(&self, i: usize) -> (r: (u128, &H))
        requires
            i < self@.len(),
        ensures
            r.0 == self@[i as int].0,
            *r.1 == self@[i as int].1,
    {
        let e = &self.entries[i];
        (e.0, &e.1)
    }

    /// The handle of the instance with id `id`.
    pub fn get_host(&self, id: u128) -> (r: Option<&H>)
        requires
            self.wf(),
        ensures
            match r {
                Some(h) => exists|i: int| 0 <= i < self@.len() && self@[i] == (id, *h),
                None => !ids_of(self@).contains(id),
            },
    {
        match self.position(id) {
            Some(i) => Some(&self.entries[i].1),
            None => None,
        }
    }

    /// Records an instance under `id`, its handle made by `make` from `id`,
    /// exactly when no instance has `id` yet; returns whether it did.
    pub fn insert_host<F: FnOnce(u128) -> H>(&mut self, id: u128, make: F) -> (r: bool)
        requires
            old(self).wf(),
            make.requires((id,)),
        ensures
            final(self).wf(),
            r == !ids_of(old(self)@).contains(id),
            r ==> {
                &&& final(self)@.len() == old(self)@.len() + 1
                &&& final(self)@.take(old(self)@.len() as int) == old(self)@
                &&& final(self)@.last().0 == id
                &&& make.ensures((id,), final(self)@.last().1)
            },
            !r ==> final(self)@ == old(self)@,
    {
        match self.position(id) {
            Some(i) => {
                assert(ids_of(self@)[i as int] == id);
                false
            },
            None => {
                let h = make(id);
                let ghost before = self@;
                self.entries.push((id, h));
                proof {
                    assert(self@.take(before.len() as int) =~= before);
                    assert(ids_of(self@) =~= ids_of(before).push(id));
                }
                true
            },
        }
    }

    /// Records an instance under a freshly drawn id, its handle made by
    /// `make` from that id; returns the id. Where the drawn id is taken
    /// already, nothing is made or recorded and the result is `None`.
    pub fn new_host<F: FnOnce(u128) -> H>(&mut self, make: F) -> (r: Option<u128>)
        requires
            old(self).wf(),
            forall|id: u128| make.requires((id,)),
        ensures
            final(self).wf(),
            match r {
                Some(id) => {
                    &&& !ids_of(old(self)@).contains(id)
                    &&& final(self)@.len() == old(self)@.len() + 1
                    &&& final(self)@.take(old(self)@.len() as int) == old(self)@
                    &&& final(self)@.last().0 == id
                    &&& make.ensures((id,), final(self)@.last().1)
                },
                None => final(self)@ == old(self)@,
            },
    {
        let id = random_id();
        if self.insert_host(id, make) {
            Some(id)
        } else {
            None
        }
    }
}

} // verus!
