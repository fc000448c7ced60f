//! What is kept between proofs, over the caches: which of their slots are filled.
//!
//! The slots themselves are cells outside, each filled once at most. The states of the
//! provers name the only places where one is filled.
use crate::cache::{
    cached, law_others_keep_their_slots, law_same_slot_again, lemma_asked_wf, lemma_place,
    CacheView,
};
use vstd::prelude::*;

verus! {

/// A cache of slots, and the slots that are filled.
#[verifier::ext_equal]
pub struct Shelf {
    pub cache: CacheView,
    pub filled: Set<u64>,
}

impl Shelf {
    /// Only slots that were made are filled, and one more can be made.
    pub open spec fn wf(self) -> bool {
        &&& self.cache.wf()
        &&& self.cache.made < u64::MAX
        &&& forall|slot: u64| #[trigger] self.filled.contains(slot) ==> slot < self.cache.made
    }

    /// Is there something under this key?
    pub open spec fn keeps(self, key: Seq<char>) -> bool {
        cached(self.cache.entries, key) is Some && self.filled.contains(self.cache.slot_for(key))
    }

    /// The shelf after a key was asked for.
    pub open spec fn asked(self, key: Seq<char>) -> Shelf {
        Shelf { cache: self.cache.asked(key), ..self }
    }

    /// The shelf after a slot was filled.
    pub open spec fn with(self, slot: u64) -> Shelf {
        Shelf { filled: self.filled.insert(slot), ..self }
    }
}

/// What is kept between proofs: programs, and the keys by which they are proved.
#[verifier::ext_equal]
pub struct Memory {
    pub programs: Shelf,
    pub keys: Shelf,
}

/// The slot of a key is filled exactly if there is something under the key; a new slot is
/// empty.
pub proof fn law_slot_is_filled_if_kept(shelf: Shelf, key: Seq<char>)
    requires
        shelf.wf(),
    ensures
        shelf.filled.contains(shelf.cache.slot_for(key)) <==> shelf.keeps(key),
{
    lemma_place(shelf.cache.entries, key);
}

/// Asking for a key neither brings nor takes anything under it, and afterwards there is
/// something under it exactly if its slot is filled.
pub proof fn law_asking_keeps(shelf: Shelf, key: Seq<char>)
    requires
        shelf.wf(),
    ensures
        shelf.asked(key).keeps(key) <==> shelf.keeps(key),
        shelf.asked(key).with(shelf.cache.slot_for(key)).keeps(key),
        shelf.asked(key).cache.slot_for(key) == shelf.cache.slot_for(key),
        cached(shelf.asked(key).cache.entries, key) is Some,
{
    law_same_slot_again(shelf.cache, key);
    law_slot_is_filled_if_kept(shelf, key);
}

/// What is under a key stays there while others are asked for, as long as the cache holds
/// the key.
pub proof fn law_others_are_kept(shelf: Shelf, key: Seq<char>, other: Seq<char>)
    requires
        shelf.wf(),
        shelf.keeps(other),
        other != key,
    ensures
        shelf.asked(key).keeps(other) <==> cached(shelf.asked(key).cache.entries, other) is Some,
{
    law_others_keep_their_slots(shelf.cache, key, other);
}

/// A shelf stays in order while slot numbers are left.
pub proof fn lemma_shelf_wf(shelf: Shelf, key: Seq<char>)
    requires
        shelf.wf(),
        shelf.cache.made + 1 < u64::MAX,
    ensures
        shelf.asked(key).wf(),
        shelf.asked(key).with(shelf.cache.slot_for(key)).wf(),
{
    lemma_asked_wf(shelf.cache, key);
    law_same_slot_again(shelf.cache, key);
    lemma_place(shelf.cache.entries, key);
    lemma_place(shelf.asked(key).cache.entries, key);
}

} // verus!
