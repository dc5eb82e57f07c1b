//! The connections of a server, by communication window.
use vstd::prelude::*;
use crate::connection::{InputMethod, XimConnection};
use crate::slab::Slab;
use crate::wire::Endian;

verus! {

#[verifier::external_type_specification]
#[verifier::external_body]
#[verifier::reject_recursive_types(K)]
#[verifier::reject_recursive_types(V)]
#[verifier::reject_recursive_types(S)]
pub struct ExAHashMap<K, V, S>(ahash::AHashMap<K, V, S>);

#[verifier::external_type_specification]
#[verifier::external_body]
pub struct ExRandomState(ahash::RandomState);

/// The entries of a map from communication window to slot id.
pub uninterp spec fn index_of(m: ahash::AHashMap<u32, u16>) -> Map<u32, u16>;

/// The map with no entries.
pub open spec fn no_entries() -> Map<u32, u16> {
    Map::empty()
}

/// Relies on `ahash::AHashMap::new`: the map starts empty.
#[verifier::external_body]
fn index_new() -> (r: ahash::AHashMap<u32, u16>)
    ensures
        index_of(r) == no_entries(),
{
    ahash::AHashMap::new()
}

/// Relies on `ahash::AHashMap::get`: the value under the key, if any.
#[verifier::external_body]
fn index_get(m: &ahash::AHashMap<u32, u16>, k: u32) -> (r: Option<u16>)
    ensures
        r == (if index_of(*m).contains_key(k) {
            Some(index_of(*m)[k])
        } else {
            None::<u16>
        }),
{
    m.get(&k).copied()
}

/// Relies on `ahash::AHashMap::insert`: the key now maps to the value.
#[verifier::external_body]
fn index_insert(m: &mut ahash::AHashMap<u32, u16>, k: u32, v: u16) -> (r: Option<u16>)
    ensures
        index_of(*final(m)) == index_of(*old(m)).insert(k, v),
        r == (if index_of(*old(m)).contains_key(k) {
            Some(index_of(*old(m))[k])
        } else {
            None::<u16>
        }),
{
    m.insert(k, v)
}

/// Relies on `ahash::AHashMap::remove`: the key no longer maps to anything.
#[verifier::external_body]
fn index_remove(m: &mut ahash::AHashMap<u32, u16>, k: u32) -> (r: Option<u16>)
    ensures
        index_of(*final(m)) == index_of(*old(m)).remove(k),
        r == (if index_of(*old(m)).contains_key(k) {
            Some(index_of(*old(m))[k])
        } else {
            None::<u16>
        }),
{
    m.remove(&k)
}

/// The connections of a server, each under its communication window.
pub struct XimConnections<T> {
    index: ahash::AHashMap<u32, u16>,
    connections: Slab<XimConnection<T>>,
}

impl<T> XimConnections<T> {
    /// Each window maps to its own live slot, which holds a well-formed
    /// connection.
    pub closed spec fn wf(&self) -> bool {
        &&& self.connections.wf()
        &&& forall|k: u32| #[trigger]
            index_of(self.index).contains_key(k) ==> self.connections@.contains_key(
                index_of(self.index)[k],
            ) && self.connections@[index_of(self.index)[k]].wf()
        &&& forall|k1: u32, k2: u32|
            #[trigger] index_of(self.index).contains_key(k1) && #[trigger] index_of(
                self.index,
            ).contains_key(k2) && index_of(self.index)[k1] == index_of(self.index)[k2] ==> k1
                == k2
    }

    /// Whether every slot id is taken: as many connections are live as a
    /// `u16` id can number.
    pub closed spec fn is_full(&self) -> bool {
        forall|j: u16| 1 <= j ==> self.connections@.contains_key(j)
    }

    /// The connections by communication window.
    pub closed spec fn view(&self) -> Map<u32, XimConnection<T>> {
        Map::new(
            |k: u32| index_of(self.index).contains_key(k),
            |k: u32| self.connections@[index_of(self.index)[k]],
        )
    }

    pub fn new() -> (r: Self)
        ensures
            r.wf(),
            r@ == Map::<u32, XimConnection<T>>::empty(),
    {
        let r = XimConnections { index: index_new(), connections: Slab::new() };
        assert(r@ =~= Map::<u32, XimConnection<T>>::empty());
        r
    }

    /// Adds a fresh connection for the client window `client_win` under
    /// `com_win`, replacing any connection there. `false` only when every
    /// slot is taken (see `is_full`), and then nothing changes.
    pub fn new_connection(&mut self, com_win: u32, client_win: u32) -> (r: bool)
        requires
            old(self).wf(),
        ensures
            final(self).wf(),
            r ==> {
                &&& final(self)@.dom() == old(self)@.dom().insert(com_win)
                &&& forall|k: u32| #[trigger]
                    old(self)@.contains_key(k) && k != com_win ==> final(self)@[k] == old(self)@[k]
                &&& final(self)@[com_win].client_win == client_win
                &&& !final(self)@[com_win].disconnected
                &&& final(self)@[com_win].last_focused is None
                &&& final(self)@[com_win].endian == Endian::Little
                &&& final(self)@[com_win].input_methods@ == Map::<u16, InputMethod<T>>::empty()
            },
            !r ==> final(self)@ == old(self)@ && !old(self)@.contains_key(com_win) && old(self).is_full(),
    {
        let conn = XimConnection::new(client_win);
        match index_get(&self.index, com_win) {
            Some(id) => {
                let _old = self.connections.remove_item(id);
                proof {
                    crate::slab::lemma_live_ids_positive(&old(self).connections, id);
                }
                self.connections.restore_item(id, conn);
                proof {
                    assert(self@.dom() =~= old(self)@.dom().insert(com_win));
                }
                true
            },
            None => {
                match self.connections.new_item(conn) {
                    Ok(id) => {
                        let _none = index_insert(&mut self.index, com_win, id);
                        proof {
                            assert(self@.dom() =~= old(self)@.dom().insert(com_win));
                            assert forall|k: u32| #[trigger]
                                old(self)@.contains_key(k) && k != com_win implies self@[k]
                                == old(self)@[k] by {
                                assert(index_of(old(self).index)[k] != id);
                            }
                        }
                        true
                    },
                    Err(_) => {
                        assert(self@ =~= old(self)@);
                        false
                    },
                }
            },
        }
    }

    /// The connection under `com_win`, if any.
    pub fn get_connection(&self, com_win: u32) -> (r: Option<&XimConnection<T>>)
        requires
            self.wf(),
        ensures
            match r {
                Some(c) => self@.contains_key(com_win) && *c == self@[com_win] && c.wf(),
                None => !self@.contains_key(com_win),
            },
    {
        match index_get(&self.index, com_win) {
            Some(id) => self.connections.get_item(id),
            None => None,
        }
    }

    /// Takes the connection under `com_win` out of the registry.
    pub fn remove_connection(&mut self, com_win: u32) -> (r: Option<XimConnection<T>>)
        requires
            old(self).wf(),
        ensures
            final(self).wf(),
            final(self)@ == old(self)@.remove(com_win),
            match r {
                Some(c) => old(self)@.contains_key(com_win) && c == old(self)@[com_win] && c.wf(),
                None => !old(self)@.contains_key(com_win),
            },
    {
        match index_remove(&mut self.index, com_win) {
            Some(id) => {
                let c = self.connections.remove_item(id);
                proof {
                    assert forall|k: u32| #[trigger]
                        index_of(self.index).contains_key(k) implies self.connections@.contains_key(
                        index_of(self.index)[k],
                    ) && self.connections@[index_of(self.index)[k]].wf() by {
                        assert(index_of(old(self).index)[k] != id);
                    }
                    assert(self@ =~= old(self)@.remove(com_win));
                }
                c
            },
            None => {
                assert(self@ =~= old(self)@.remove(com_win));
                None
            },
        }
    }
}

} // verus!
