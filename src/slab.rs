//! A slab of items under small, stable, 1-based ids.
use vstd::prelude::*;

verus! {

/// The largest id a slab hands out.
pub const MAX_ID: u16 = 65535;

/// Items under ids `1..=MAX_ID`; id `0` is never used. An id stays with its
/// item until the item is removed, and the smallest free id is handed out first.
pub struct Slab<T> {
    items: Vec<Option<T>>,
}

impl<T> Slab<T> {
    pub closed spec fn wf(&self) -> bool {
        self.items@.len() <= MAX_ID
    }

    /// Whether `id` names a live item.
    pub closed spec fn contains(&self, id: u16) -> bool {
        1 <= id <= self.items@.len() && self.items@[id - 1] is Some
    }

    /// The live items by id.
    pub closed spec fn view(&self) -> Map<u16, T> {
        Map::new(|id: u16| self.contains(id), |id: u16| self.items@[id - 1]->0)
    }

    pub fn new() -> (r: Self)
        ensures
            r.wf(),
            r@ == Map::<u16, T>::empty(),
    {
        let r = Slab { items: Vec::new() };
        assert(r@ =~= Map::<u16, T>::empty());
        r
    }

    /// Whether `id` names a live item.
    pub fn is_live(&self, id: u16) -> (r: bool)
        ensures
            r == self@.contains_key(id),
    {
        id >= 1 && (id as usize) <= self.items.len() && self.items[(id - 1) as usize].is_some()
    }

    /// Stores `item` under the smallest id that is free, or hands the item
    /// back when all ids are taken.
    pub fn new_item(&mut self, item: T) -> (r: Result<u16, T>)
        requires
            old(self).wf(),
        ensures
            final(self).wf(),
            match r {
                Ok(id) => {
                    &&& 1 <= id
                    &&& !old(self)@.contains_key(id)
                    &&& forall|j: u16| 1 <= j < id ==> old(self)@.contains_key(j)
                    &&& final(self)@ == old(self)@.insert(id, item)
                },
                Err(back) => {
                    &&& back == item
                    &&& forall|j: u16| 1 <= j ==> old(self)@.contains_key(j)
                    &&& final(self)@ == old(self)@
                },
            },
    {
        let mut i: usize = 0;
        while i < self.items.len()
            invariant
                i <= self.items@.len(),
                self.items@.len() <= MAX_ID,
                self == old(self),
                forall|j: int| 0 <= j < i ==> self.items@[j] is Some,
            decreases self.items@.len() - i,
        {
            if self.items[i].is_none() {
                self.items.push(Some(item));
                let _free = self.items.swap_remove(i);
                let id: u16 = (i + 1) as u16;
                proof {
                    assert forall|j: u16| 1 <= j < id implies old(self)@.contains_key(j) by {
                        assert(old(self).items@[j - 1] is Some);
                    }
                    assert(self@ =~= old(self)@.insert(id, item));
                }
                return Ok(id);
            }
            i = i + 1;
        }
        if self.items.len() >= MAX_ID as usize {
            proof {
                assert forall|j: u16| 1 <= j implies old(self)@.contains_key(j) by {
                    assert(old(self).items@[j - 1] is Some);
                }
            }
            return Err(item);
        }
        self.items.push(Some(item));
        let id: u16 = self.items.len() as u16;
        proof {
            assert forall|j: u16| 1 <= j < id implies old(self)@.contains_key(j) by {
                assert(old(self).items@[j - 1] is Some);
            }
            assert(self@ =~= old(self)@.insert(id, item));
        }
        Ok(id)
    }

    /// The item under `id`, if it is live.
    pub fn get_item(&self, id: u16) -> (r: Option<&T>)
        ensures
            match r {
                Some(x) => self@.contains_key(id) && *x == self@[id],
                None => !self@.contains_key(id),
            },
    {
        if id >= 1 && (id as usize) <= self.items.len() {
            self.items[(id - 1) as usize].as_ref()
        } else {
            None
        }
    }

    /// Takes the item under `id` out of the slab, which frees the id.
    pub fn remove_item(&mut self, id: u16) -> (r: Option<T>)
        requires
            old(self).wf(),
        ensures
            final(self).wf(),
            final(self)@ == old(self)@.remove(id),
            match r {
                Some(x) => old(self)@.contains_key(id) && x == old(self)@[id],
                None => !old(self)@.contains_key(id),
            },
    {
        if id >= 1 && (id as usize) <= self.items.len() {
            let i: usize = (id - 1) as usize;
            self.items.push(None);
            let taken = self.items.swap_remove(i);
            assert(self@ =~= old(self)@.remove(id));
            taken
        } else {
            assert(self@ =~= old(self)@.remove(id));
            None
        }
    }

    /// Puts `item` back under `id`, an id that is free.
    pub fn restore_item(&mut self, id: u16, item: T)
        requires
            old(self).wf(),
            1 <= id,
            !old(self)@.contains_key(id),
        ensures
            final(self).wf(),
            final(self)@ == old(self)@.insert(id, item),
    {
        while self.items.len() < id as usize
            invariant
                self.items@.len() <= id || self.items@.len() == old(self).items@.len(),
                old(self).items@.len() <= self.items@.len(),
                old(self).wf(),
                forall|j: int|
                    0 <= j < self.items@.len() ==> self.items@[j] == if j < old(self).items@.len() {
                        old(self).items@[j]
                    } else {
                        None
                    },
            decreases id - self.items@.len(),
        {
            self.items.push(None);
        }
        let i: usize = (id - 1) as usize;
        self.items.push(Some(item));
        let _free = self.items.swap_remove(i);
        assert(self@ =~= old(self)@.insert(id, item));
    }

    /// Takes every live item out, each with its id; the slab is left empty.
    pub fn drain(&mut self) -> (r: Vec<(u16, T)>)
        requires
            old(self).wf(),
        ensures
            final(self).wf(),
            final(self)@ == Map::<u16, T>::empty(),
            forall|i: int|
                0 <= i < r@.len() ==> old(self)@.contains_key(#[trigger] r@[i].0) && r@[i].1
                    == old(self)@[r@[i].0],
            forall|id: u16|
                old(self)@.contains_key(id) ==> exists|i: int| 0 <= i < r@.len() && #[trigger] r@[i].0 == id,
            forall|i: int, j: int| 0 <= i < j < r@.len() ==> r@[i].0 != r@[j].0,
    {
        let mut out: Vec<(u16, T)> = Vec::new();
        while self.items.len() > 0
            invariant
                self.items@.len() <= old(self).items@.len() <= MAX_ID,
                forall|j: int| 0 <= j < self.items@.len() ==> self.items@[j] == old(self).items@[j],
                forall|i: int|
                    0 <= i < out@.len() ==> self.items@.len() < (#[trigger] out@[i]).0 && old(self)@.contains_key(out@[i].0) && out@[i].1 == old(self)@[out@[i].0],
                forall|id: u16|
                    old(self)@.contains_key(id) && self.items@.len() < id ==> exists|i: int|
                        0 <= i < out@.len() && #[trigger] out@[i].0 == id,
                forall|i: int, j: int| 0 <= i < j < out@.len() ==> out@[i].0 > out@[j].0,
            decreases self.items@.len(),
        {
            let ghost n = self.items@.len();
            let slot = self.items.pop();
            match slot {
                Some(Some(x)) => {
                    let id: u16 = (self.items.len() + 1) as u16;
                    proof {
                        assert(old(self)@.contains_key(id));
                    }
                    let ghost out0 = out@;
                    out.push((id, x));
                    proof {
                        assert forall|k: u16|
                            old(self)@.contains_key(k) && self.items@.len() < k implies exists|
                            i: int,
                        | 0 <= i < out@.len() && #[trigger] out@[i].0 == k by {
                            if k == id {
                                assert(out@[out@.len() - 1].0 == k);
                            } else {
                                assert(n < k);
                                let i = choose|i: int| 0 <= i < out0.len() && #[trigger] out0[i].0 == k;
                                assert(out@[i] == out0[i]);
                            }
                        }
                    }
                },
                _ => {
                    proof {
                        assert forall|k: u16|
                            old(self)@.contains_key(k) && self.items@.len() < k implies exists|
                            i: int,
                        | 0 <= i < out@.len() && #[trigger] out@[i].0 == k by {
                            if k as int == n {
                                assert(old(self).items@[k - 1] is Some);
                            }
                        }
                    }
                },
            }
        }
        assert(self@ =~= Map::<u16, T>::empty());
        out
    }

    /// The id that the next item would get: the smallest free one, if any.
    pub fn vacant_id(&self) -> (r: Option<u16>)
        requires
            self.wf(),
        ensures
            match r {
                Some(id) => {
                    &&& 1 <= id
                    &&& !self@.contains_key(id)
                    &&& forall|j: u16| 1 <= j < id ==> self@.contains_key(j)
                },
                None => forall|j: u16| 1 <= j ==> self@.contains_key(j),
            },
    {
        let mut i: usize = 0;
        while i < self.items.len()
            invariant
                i <= self.items@.len() <= MAX_ID,
                forall|j: int| 0 <= j < i ==> self.items@[j] is Some,
            decreases self.items@.len() - i,
        {
            if self.items[i].is_none() {
                let id: u16 = (i + 1) as u16;
                assert forall|j: u16| 1 <= j < id implies self@.contains_key(j) by {
                    assert(self.items@[j - 1] is Some);
                }
                return Some(id);
            }
            i = i + 1;
        }
        if self.items.len() >= MAX_ID as usize {
            assert forall|j: u16| 1 <= j implies self@.contains_key(j) by {
                assert(self.items@[j - 1] is Some);
            }
            return None;
        }
        let id: u16 = (self.items.len() + 1) as u16;
        assert forall|j: u16| 1 <= j < id implies self@.contains_key(j) by {
            assert(self.items@[j - 1] is Some);
        }
        Some(id)
    }
}

/// Ids are never zero: every live id is at least one.
pub proof fn lemma_live_ids_positive<T>(s: &Slab<T>, id: u16)
    requires
        s@.contains_key(id),
    ensures
        id >= 1,
{
}

} // verus!
