//! The token signing keys, by key id, one of them active.
use vstd::prelude::*;

use crate::keyed::{entry_views, lemma_entry_views_last, map_of_entries, KeyTable};

verus! {

/// The mathematical content of a [`PasetoKeyRing`].
pub struct KeyRingView {
    pub active_kid: Seq<char>,
    pub keys: Map<Seq<char>, Seq<u8>>,
}

/// Ed25519 key pairs (32-byte seed, then 32-byte public key) by key id, one of them active for
/// signing.
pub struct PasetoKeyRing {
    active_kid: String,
    keys: KeyTable<[u8; 64]>,
}

impl View for PasetoKeyRing {
    type V = KeyRingView;

    closed spec fn view(&self) -> KeyRingView {
        KeyRingView { active_kid: self.active_kid@, keys: self.keys@ }
    }
}

impl PasetoKeyRing {
    /// A ring of the given key pairs; a later pair for the same id replaces an earlier one.
    pub fn new(active_kid: String, keys: Vec<(String, [u8; 64])>) -> (r: Self)
        ensures
            r@ == (KeyRingView { active_kid: active_kid@, keys: map_of_entries(entry_views(keys@)) }),
            forall|i: int|
                0 <= i < keys@.len() && (forall|j: int| i < j < keys@.len() ==> keys@[j].0@ != keys@[i].0@)
                    ==> r@.keys.dom().contains(#[trigger] keys@[i].0@) && r@.keys[keys@[i].0@] == keys@[i].1@,
    {
        proof {
            assert forall|i: int|
                0 <= i < keys@.len() && (forall|j: int| i < j < keys@.len() ==> keys@[j].0@ != keys@[i].0@)
                    implies map_of_entries(entry_views(keys@)).dom().contains(#[trigger] keys@[i].0@)
                    && map_of_entries(entry_views(keys@))[keys@[i].0@] == keys@[i].1@ by {
                lemma_entry_views_last(keys@, i);
            }
        }
        PasetoKeyRing { active_kid, keys: KeyTable::from_pairs(keys) }
    }

    /// The id of the key that signs new tokens.
    pub fn active_kid(&self) -> (r: &str)
        ensures
            r@ == self@.active_kid,
    {
        self.active_kid.as_str()
    }

    /// The key pair that signs new tokens; the active id must name a key of the ring.
    pub fn active_key(&self) -> (r: &[u8; 64])
        requires
            self@.keys.dom().contains(self@.active_kid),
        ensures
            r@ == self@.keys[self@.active_kid],
    {
        match self.keys.get(self.active_kid.as_str()) {
            Some(k) => k,
            None => {
                proof {
                    assert(false);
                }
                self.keys.get(self.active_kid.as_str()).unwrap()
            },
        }
    }

    /// The key pair with id `kid`, if the ring has one.
    pub fn key_for(&self, kid: &str) -> (r: Option<&[u8; 64]>)
        ensures
            r is Some ==> self@.keys.dom().contains(kid@) && r->Some_0@ == self@.keys[kid@],
            r is None ==> !self@.keys.dom().contains(kid@),
    {
        self.keys.get(kid)
    }
}

} // verus!
