//! Which programs and keys are kept for the next proof.
//!
//! A cache tells, by a program's identity, the number of the slot that holds the
//! program or its keys. It keeps the slots that were asked for last.
use lru::LruCache;
use std::num::NonZeroUsize;
use vstd::prelude::*;

verus! {

/// How many programs, and how many keys, are kept.
pub const DEFAULT_CACHE_SIZE: usize = 5;

/// The number of a slot for a pair of keys.
pub type KeySlot = u64;

/// The number of a slot for a program.
pub type ProgramSlot = u64;

/// `lru::LruCache`, of which nothing is known here but what the functions below say.
#[verifier::external_type_specification]
#[verifier::external_body]
#[verifier::reject_recursive_types(K)]
#[verifier::reject_recursive_types(V)]
#[verifier::reject_recursive_types(S)]
pub struct ExLruCache<K, V, S>(LruCache<K, V, S>);

/// `lru::DefaultHasher`, by which an [`LruCache`] finds its entries.
#[verifier::external_type_specification]
#[verifier::external_body]
pub struct ExDefaultHasher(lru::DefaultHasher);

/// The entries of an [`LruCache`], from the most to the least recently used.
pub uninterp spec fn lru_entries(cache: LruCache<String, u64>) -> Seq<(Seq<char>, u64)>;

/// How many entries an [`LruCache`] was made to hold.
pub uninterp spec fn lru_capacity(cache: LruCache<String, u64>) -> nat;

/// Where the first entry with a key stands.
pub open spec fn place_of(entries: Seq<(Seq<char>, u64)>, key: Seq<char>) -> Option<int>
    decreases entries.len(),
{
    if entries.len() == 0 {
        None
    } else if entries[0].0 == key {
        Some(0)
    } else {
        match place_of(entries.skip(1), key) {
            Some(i) => Some(i + 1),
            None => None,
        }
    }
}

/// What the entry with a key holds.
pub open spec fn cached(entries: Seq<(Seq<char>, u64)>, key: Seq<char>) -> Option<u64> {
    match place_of(entries, key) {
        Some(i) => Some(entries[i].1),
        None => None,
    }
}

/// The entries after the one with a key, if there is one, was asked for.
pub open spec fn touched(entries: Seq<(Seq<char>, u64)>, key: Seq<char>) -> Seq<
    (Seq<char>, u64),
> {
    match place_of(entries, key) {
        Some(i) => seq![entries[i]] + entries.remove(i),
        None => entries,
    }
}

/// The entries after a key and a value were put in front: in place of the entry with
/// that key, else in place of the last entry where there is no room for another.
pub open spec fn pushed(
    entries: Seq<(Seq<char>, u64)>,
    capacity: nat,
    key: Seq<char>,
    value: u64,
) -> Seq<(Seq<char>, u64)> {
    match place_of(entries, key) {
        Some(i) => seq![(key, value)] + entries.remove(i),
        None => if entries.len() == capacity {
            seq![(key, value)] + entries.drop_last()
        } else {
            seq![(key, value)] + entries
        },
    }
}

/// The entry that had to go for it.
pub open spec fn expelled(
    entries: Seq<(Seq<char>, u64)>,
    capacity: nat,
    key: Seq<char>,
) -> Option<(Seq<char>, u64)> {
    match place_of(entries, key) {
        Some(i) => Some(entries[i]),
        None => if entries.len() == capacity {
            Some(entries.last())
        } else {
            None
        },
    }
}

/// `LruCache::new`: an empty cache for so many entries.
///
/// Memory for all of them is reserved at once, which fails for zero and for sizes that
/// no address space can hold.
#[verifier::external_body]
fn lru_new(size: usize) -> (r: LruCache<String, u64>)
    requires
        0 < size <= isize::MAX / 64,
    ensures
        lru_entries(r) == Seq::<(Seq<char>, u64)>::empty(),
        lru_capacity(r) == size,
{
    LruCache::new(NonZeroUsize::new(size).unwrap())
}

/// `LruCache::get`: what the entry with this key holds. That entry becomes the most
/// recently used.
#[verifier::external_body]
fn lru_get(cache: &mut LruCache<String, u64>, key: &str) -> (r: Option<u64>)
    ensures
        r == cached(lru_entries(*old(cache)), key@),
        lru_entries(*final(cache)) == touched(lru_entries(*old(cache)), key@),
        lru_capacity(*final(cache)) == lru_capacity(*old(cache)),
{
    cache.get(key).copied()
}

/// `LruCache::push`: puts a key and a value in front and hands back the entry that had
/// to go for it.
#[verifier::external_body]
fn lru_push(cache: &mut LruCache<String, u64>, key: String, value: u64) -> (r: Option<
    (String, u64),
>)
    ensures
        lru_entries(*final(cache)) == pushed(
            lru_entries(*old(cache)),
            lru_capacity(*old(cache)),
            key@,
            value,
        ),
        lru_capacity(*final(cache)) == lru_capacity(*old(cache)),
        match (r, expelled(lru_entries(*old(cache)), lru_capacity(*old(cache)), key@)) {
            (Some(e), Some(v)) => e.0@ == v.0 && e.1 == v.1,
            (None, None) => true,
            _ => false,
        },
{
    cache.push(key, value)
}

/// What a cache of slots holds.
pub struct CacheView {
    /// Keys and their slots, from the most to the least recently used.
    pub entries: Seq<(Seq<char>, u64)>,
    /// How many may be held.
    pub capacity: nat,
    /// How many slots were ever made. They are numbered from zero.
    pub made: nat,
}

impl CacheView {
    /// Every key has one slot, no two keys share one, and no more are held than may be.
    pub open spec fn wf(self) -> bool {
        &&& 0 < self.capacity
        &&& self.entries.len() <= self.capacity
        &&& forall|i: int, j: int|
            0 <= i < j < self.entries.len() ==> (#[trigger] self.entries[i]).0 != (
            #[trigger] self.entries[j]).0 && self.entries[i].1 != self.entries[j].1
        &&& forall|i: int|
            0 <= i < self.entries.len() ==> (#[trigger] self.entries[i]).1 < self.made
    }

    /// The slot that a key gets: its own, or a new one.
    pub open spec fn slot_for(self, key: Seq<char>) -> u64 {
        match cached(self.entries, key) {
            Some(slot) => slot,
            None => self.made as u64,
        }
    }

    /// What is held after a key was asked for.
    pub open spec fn asked(self, key: Seq<char>) -> CacheView {
        match cached(self.entries, key) {
            Some(_) => CacheView { entries: touched(self.entries, key), ..self },
            None => CacheView {
                entries: pushed(self.entries, self.capacity, key, self.made as u64),
                made: self.made + 1,
                ..self
            },
        }
    }

    /// The slot that is no longer held for it.
    pub open spec fn let_go(self, key: Seq<char>) -> Option<u64> {
        match cached(self.entries, key) {
            Some(_) => None,
            None => match expelled(self.entries, self.capacity, key) {
                Some(e) => Some(e.1),
                None => None,
            },
        }
    }
}

/// What a cache answers.
#[derive(Clone, Copy, PartialEq, Eq, Structural, Debug)]
pub struct Grant {
    /// The slot of the key.
    pub slot: u64,
    /// The slot that is no longer held, if one had to go.
    pub let_go: Option<u64>,
}

/// The slots of the keys by which programs are proved.
pub struct StarkKeyCache {
    cache: LruCache<String, u64>,
    made: u64,
}

/// The slots of programs.
pub struct ProgramCache {
    cache: LruCache<String, u64>,
    made: u64,
}

impl View for StarkKeyCache {
    type V = CacheView;

    closed spec fn view(&self) -> CacheView {
        CacheView {
            entries: lru_entries(self.cache),
            capacity: lru_capacity(self.cache),
            made: self.made as nat,
        }
    }
}

impl View for ProgramCache {
    type V = CacheView;

    closed spec fn view(&self) -> CacheView {
        CacheView {
            entries: lru_entries(self.cache),
            capacity: lru_capacity(self.cache),
            made: self.made as nat,
        }
    }
}

impl StarkKeyCache {
    /// An empty cache for `size` slots.
    pub fn new(size: usize) -> (r: Self)
        requires
            0 < size <= isize::MAX / 64,
        ensures
            r@.entries.len() == 0,
            r@.capacity == size,
            r@.made == 0,
            r@.wf(),
    {
        StarkKeyCache { cache: lru_new(size), made: 0 }
    }

    /// How many slots were ever made.
    pub fn made(&self) -> (r: u64)
        ensures
            r == self@.made,
    {
        self.made
    }

    /// The slot of a key: the one held for it, else a new one, for which the slot that
    /// was not asked for longest is let go where there is no room.
    pub fn get_or_init_slot(&mut self, key: &str) -> (r: Grant)
        requires
            old(self)@.wf(),
            old(self)@.made < u64::MAX,
        ensures
            final(self)@ == old(self)@.asked(key@),
            final(self)@.wf(),
            r.slot == old(self)@.slot_for(key@),
            r.let_go == old(self)@.let_go(key@),
    {
        proof {
            lemma_asked_wf(self@, key@);
        }
        grant(&mut self.cache, &mut self.made, key)
    }
}

impl ProgramCache {
    /// An empty cache for `size` slots.
    pub fn new(size: usize) -> (r: Self)
        requires
            0 < size <= isize::MAX / 64,
        ensures
            r@.entries.len() == 0,
            r@.capacity == size,
            r@.made == 0,
            r@.wf(),
    {
        ProgramCache { cache: lru_new(size), made: 0 }
    }

    /// How many slots were ever made.
    pub fn made(&self) -> (r: u64)
        ensures
            r == self@.made,
    {
        self.made
    }

    /// The slot of a program: the one held for it, else a new one, for which the slot
    /// that was not asked for longest is let go where there is no room.
    pub fn get_or_init_slot(&mut self, key: &str) -> (r: Grant)
        requires
            old(self)@.wf(),
            old(self)@.made < u64::MAX,
        ensures
            final(self)@ == old(self)@.asked(key@),
            final(self)@.wf(),
            r.slot == old(self)@.slot_for(key@),
            r.let_go == old(self)@.let_go(key@),
    {
        proof {
            lemma_asked_wf(self@, key@);
        }
        grant(&mut self.cache, &mut self.made, key)
    }
}

/// What is held, by the parts of a cache.
spec fn held(cache: LruCache<String, u64>, made: u64) -> CacheView {
    CacheView { entries: lru_entries(cache), capacity: lru_capacity(cache), made: made as nat }
}

fn grant(cache: &mut LruCache<String, u64>, made: &mut u64, key: &str) -> (r: Grant)
    requires
        *old(made) < u64::MAX,
    ensures
        held(*final(cache), *final(made)) == held(*old(cache), *old(made)).asked(key@),
        r.slot == held(*old(cache), *old(made)).slot_for(key@),
        r.let_go == held(*old(cache), *old(made)).let_go(key@),
{
    match lru_get(cache, key) {
        Some(slot) => Grant { slot, let_go: None },
        None => {
            let slot: u64 = *made;
            *made = slot + 1;
            let let_go: Option<u64> = match lru_push(cache, key.to_string(), slot) {
                Some(entry) => Some(entry.1),
                None => None,
            };
            Grant { slot, let_go }
        },
    }
}

/// The entry at the place of a key has that key; without a place no entry has it.
pub proof fn lemma_place(entries: Seq<(Seq<char>, u64)>, key: Seq<char>)
    ensures
        match place_of(entries, key) {
            Some(i) => 0 <= i < entries.len() && entries[i].0 == key,
            None => forall|j: int| 0 <= j < entries.len() ==> (#[trigger] entries[j]).0 != key,
        },
    decreases entries.len(),
{
    if entries.len() > 0 && entries[0].0 != key {
        lemma_place(entries.skip(1), key);
        if place_of(entries, key) is None {
            assert forall|j: int| 0 <= j < entries.len() implies (#[trigger] entries[j]).0
                != key by {
                if j > 0 {
                    assert(entries.skip(1)[j - 1] == entries[j]);
                }
            }
        }
    }
}

/// What is held stays in order when a key is asked for.
pub proof fn lemma_asked_wf(v: CacheView, key: Seq<char>)
    requires
        v.wf(),
        v.made < u64::MAX,
    ensures
        v.asked(key).wf(),
{
    lemma_place(v.entries, key);
    let after = v.asked(key).entries;
    match place_of(v.entries, key) {
        Some(k) => {
            assert forall|i: int| 0 <= i < after.len() implies #[trigger] after[i] == (if i == 0 {
                v.entries[k]
            } else if i <= k {
                v.entries[i - 1]
            } else {
                v.entries[i]
            }) by {}
        },
        None => {
            assert forall|i: int| 0 < i < after.len() implies #[trigger] after[i] == v.entries[i
                - 1] by {}
        },
    }
}

/// A key that was asked for is held, in front, and asking for it again changes nothing
/// and gives the same slot.
pub proof fn law_same_slot_again(v: CacheView, key: Seq<char>)
    requires
        v.wf(),
        v.made < u64::MAX,
    ensures
        cached(v.asked(key).entries, key) == Some(v.slot_for(key)),
        v.asked(key).entries[0] == (key, v.slot_for(key)),
        v.asked(key).asked(key) == v.asked(key),
        v.asked(key).slot_for(key) == v.slot_for(key),
{
    lemma_place(v.entries, key);
    let once = v.asked(key);
    assert(once.entries[0] == (key, v.slot_for(key)));
    assert(place_of(once.entries, key) == Some(0int));
    assert(touched(once.entries, key) =~= once.entries);
}

/// A slot stays with its key while others are asked for, unless it was asked for
/// longest ago of as many as the cache holds and a new key needs the room.
pub proof fn law_others_keep_their_slots(v: CacheView, key: Seq<char>, other: Seq<char>)
    requires
        v.wf(),
        v.made < u64::MAX,
        other != key,
    ensures
        cached(v.asked(key).entries, other) == (if cached(v.entries, key) is None
            && v.entries.len() == v.capacity && v.entries.last().0 == other {
            None
        } else {
            cached(v.entries, other)
        }),
{
    let after = v.asked(key);
    lemma_asked_wf(v, key);
    lemma_place(v.entries, key);
    lemma_place(v.entries, other);
    lemma_place(after.entries, other);
    match place_of(v.entries, key) {
        Some(k) => {
            assert forall|i: int| 0 <= i < after.entries.len() implies #[trigger] after.entries[i]
                == (if i == 0 {
                v.entries[k]
            } else if i <= k {
                v.entries[i - 1]
            } else {
                v.entries[i]
            }) by {}
            match place_of(v.entries, other) {
                Some(j) => {
                    let at = if j < k {
                        j + 1
                    } else {
                        j
                    };
                    assert(after.entries[at] == v.entries[j]);
                },
                None => {},
            }
        },
        None => {
            assert forall|i: int| 0 < i < after.entries.len() implies #[trigger] after.entries[i]
                == v.entries[i - 1] by {}
            match place_of(v.entries, other) {
                Some(j) => {
                    if j + 1 < after.entries.len() {
                        assert(after.entries[j + 1] == v.entries[j]);
                    }
                },
                None => {},
            }
        },
    }
}

/// A new key gets a slot that no key had before.
pub proof fn law_new_slots_are_new(v: CacheView, key: Seq<char>, other: Seq<char>)
    requires
        v.wf(),
        v.made < u64::MAX,
        cached(v.entries, key) is None,
    ensures
        cached(v.entries, other) != Some(v.slot_for(key)),
{
    lemma_place(v.entries, other);
}

/// A slot is let go exactly where a new key comes to a full cache; it is then the slot of a
/// key that the cache held and holds no more. Where none is let go, every key keeps its
/// slot.
pub proof fn law_one_goes_for_one_that_comes(v: CacheView, key: Seq<char>, other: Seq<char>)
    requires
        v.wf(),
        v.made < u64::MAX,
    ensures
        v.let_go(key) is Some <==> cached(v.entries, key) is None && v.entries.len()
            == v.capacity,
        v.let_go(key) matches Some(slot) ==> {
            let gone = v.entries.last().0;
            &&& cached(v.entries, gone) == Some(slot)
            &&& cached(v.asked(key).entries, gone) is None
        },
        v.let_go(key) is None && other != key ==> cached(v.asked(key).entries, other) == cached(
            v.entries,
            other,
        ),
{
    lemma_place(v.entries, key);
    if v.let_go(key) is Some {
        let gone = v.entries.last().0;
        lemma_place(v.entries, gone);
        law_others_keep_their_slots(v, key, gone);
    }
    if other != key {
        law_others_keep_their_slots(v, key, other);
    }
}

/// A cache counts the slots that it makes, one for every key that it does not hold, and
/// stays as large as it was made.
pub proof fn law_slots_are_counted(v: CacheView, key: Seq<char>)
    requires
        v.wf(),
        v.made < u64::MAX,
    ensures
        cached(v.entries, key) is None ==> v.asked(key).made == v.made + 1 && v.slot_for(key)
            == v.made,
        cached(v.entries, key) is Some ==> v.asked(key).made == v.made && v.asked(
            key,
        ).entries.len() == v.entries.len(),
        cached(v.entries, key) is None && v.entries.len() < v.capacity ==> v.asked(
            key,
        ).entries.len() == v.entries.len() + 1,
        v.asked(key).capacity == v.capacity,
        v.asked(key).entries.len() <= v.capacity,
{
    lemma_place(v.entries, key);
}

/// Asking for a key puts it before all others, and the others stay in their order.
pub proof fn law_order_of_use(v: CacheView, key: Seq<char>, i: int, j: int)
    requires
        v.wf(),
        v.made < u64::MAX,
        0 <= i < j < v.entries.len(),
        v.entries[i].0 != key,
        v.entries[j].0 != key,
        cached(v.asked(key).entries, v.entries[j].0) is Some,
    ensures
        v.asked(key).entries[0].0 == key,
        exists|a: int, b: int|
            0 < a < b < v.asked(key).entries.len() && #[trigger] v.asked(key).entries[a]
                == v.entries[i] && #[trigger] v.asked(key).entries[b] == v.entries[j],
{
    let after = v.asked(key).entries;
    lemma_place(v.entries, key);
    lemma_place(after, v.entries[j].0);
    match place_of(v.entries, key) {
        Some(k) => {
            let a = if i < k {
                i + 1
            } else {
                i
            };
            let b = if j < k {
                j + 1
            } else {
                j
            };
            assert(after[a] == v.entries[i]);
            assert(after[b] == v.entries[j]);
        },
        None => {
            let p = place_of(after, v.entries[j].0)->0;
            if j + 1 >= after.len() {
                assert(p > 0);
                assert(after[p] == v.entries[p - 1]);
                assert(false);
            }
            assert(after[i + 1] == v.entries[i]);
            assert(after[j + 1] == v.entries[j]);
        },
    }
}

/// In a cache that is in order no key is held twice, no slot belongs to two keys or is
/// numbered beyond those that were made, and no more is held than may be.
pub proof fn law_what_order_means(state: CacheView, i: int, j: int)
    requires
        state.wf(),
        0 <= i < state.entries.len(),
        0 <= j < state.entries.len(),
    ensures
        state.entries.len() <= state.capacity,
        i != j ==> state.entries[i].0 != state.entries[j].0,
        i != j ==> state.entries[i].1 != state.entries[j].1,
        state.entries[i].1 < state.made,
{
    if i < j {
        assert(state.entries[i].0 != state.entries[j].0);
    } else if j < i {
        assert(state.entries[j].0 != state.entries[i].0);
    }
}

} // verus!
