//! The runtime pieces of a generated store: an arena collection per model,
//! typed keys, and the two relationship fields that models hold.

use core::marker::PhantomData;
use slotmap::{DefaultKey, Key, KeyData, SlotMap};
use std::slice::Iter;
use vstd::prelude::*;
use vstd::std_specs::iter::IteratorSpec;

verus! {

/// A generational key of a record of model `M`. Keys of different models
/// have different types.
///
/// Its view is the key's 64-bit form in `slotmap`: the slot's version in the
/// high 32 bits and the slot's index in the low 32 bits.
#[derive(Debug)]
pub struct Id<M> {
    bits: u64,
    marker: PhantomData<M>,
}

impl<M> View for Id<M> {
    type V = u64;

    closed spec fn view(&self) -> u64 {
        self.bits
    }
}

impl<M> Id<M> {
    /// The index of the slot that the key names.
    pub open spec fn index(self) -> int {
        self@ as int % 0x1_0000_0000
    }

    /// The version of the slot that the key names.
    pub open spec fn version(self) -> int {
        self@ as int / 0x1_0000_0000
    }
}

/// Two keys are the same key exactly when their 64-bit forms are equal.
pub proof fn lemma_id_view_injective<M>(a: Id<M>, b: Id<M>)
    ensures
        (a@ == b@) == (a == b),
{
}

/// Calls `DefaultKey::default` and `KeyData::as_ffi`. The default key is
/// `KeyData::null()`, index `u32::MAX` and version 1, whose 64-bit form is
/// `(1 << 32) | u32::MAX`.
#[verifier::external_body]
fn null_key_bits() -> (r: u64)
    ensures
        r == 0x1_ffff_ffff,
{
    DefaultKey::default().data().as_ffi()
}

impl<M> Clone for Id<M> {
    fn clone(&self) -> (r: Self)
        ensures
            r == *self,
    {
        *self
    }
}

impl<M> Copy for Id<M> {
}

impl<M> PartialEq for Id<M> {
    fn eq(&self, other: &Self) -> (r: bool) {
        self.bits == other.bits
    }
}

impl<M> vstd::std_specs::cmp::PartialEqSpecImpl for Id<M> {
    open spec fn obeys_eq_spec() -> bool {
        true
    }

    open spec fn eq_spec(&self, other: &Self) -> bool {
        *self == *other
    }
}

impl<M> Eq for Id<M> {
}

impl<M> Default for Id<M> {
    /// The null key: its slot index is `u32::MAX`, a slot that no collection
    /// ever has, so it never names a record.
    fn default() -> (r: Self)
        ensures
            r@ == 0x1_ffff_ffff,
            r.index() == u32::MAX,
    {
        Id { bits: null_key_bits(), marker: PhantomData }
    }
}

/// The version that a slot has while it holds its `j`-th record (counting
/// from 0): a new slot starts at version 1, and each removal and each refill
/// add 1 to it, wrapping at 32 bits.
pub open spec fn version_of_use(j: nat) -> int {
    ((2 * j + 1) % 0x1_0000_0000) as int
}

/// The slot map of a collection. `SlotMap` cannot be declared to Verus (its
/// key parameter is bounded by slotmap's `Key` trait, which Verus does not
/// accept as a bound), so the map is held here, opaque, and is reached only by
/// the functions below.
#[verifier::external_body]
#[verifier::reject_recursive_types(V)]
struct Slots<V> {
    map: SlotMap<DefaultKey, V>,
}

/// An arena-allocated storage collection for the records of one model. It
/// owns the records and hands out generational keys.
///
/// Its view is the map from each live key to its record. That map, and the
/// number of records each slot has held, are kept in ghost fields beside the
/// slot map; every function below that touches the slot map states what it
/// does to them, and no other code reaches the slot map.
#[verifier::reject_recursive_types(V)]
pub struct Collection<V> {
    slots: Slots<V>,
    contents: Ghost<Map<Id<V>, V>>,
    fills: Ghost<Map<int, nat>>,
}

impl<V> View for Collection<V> {
    type V = Map<Id<V>, V>;

    closed spec fn view(&self) -> Map<Id<V>, V> {
        self.contents@
    }
}

impl<V> Collection<V> {
    /// How many records the slot with the given index has held so far.
    pub closed spec fn uses_of(&self, index: int) -> nat {
        if self.fills@.contains_key(index) {
            self.fills@[index]
        } else {
            0
        }
    }

    /// Whether the collection has handed out the key at some time: the key
    /// names a slot the collection can have, with the version of one of the
    /// records that slot has held.
    pub open spec fn handed_out(&self, k: Id<V>) -> bool {
        &&& 0 <= k.index() < u32::MAX
        &&& exists|j: nat| j < self.uses_of(k.index()) && #[trigger] version_of_use(j) == k.version()
    }

    /// Well-formedness: every live key is a key the collection handed out.
    pub open spec fn wf(&self) -> bool {
        forall|k: Id<V>| #[trigger] self@.contains_key(k) ==> self.handed_out(k)
    }
}

/// Calls `SlotMap::new`: a slot map with no record and no slot besides its
/// sentinel.
#[verifier::external_body]
fn slot_map_new<V>() -> (r: Collection<V>)
    ensures
        r@.dom() == Set::<Id<V>>::empty(),
        forall|i: int| #[trigger] r.uses_of(i) == 0,
{
    Collection { slots: Slots { map: SlotMap::new() }, contents: Ghost(Map::empty()), fills: Ghost(Map::empty()) }
}

/// Calls `SlotMap::insert`. The value goes into a free slot or a new one, and
/// its key is that slot's index, below `u32::MAX`, with the slot's version for
/// its next record (`version_of_use` of the records it held before). No live
/// key names that slot. It panics only when it has no free slot and its slot
/// vector, which also holds one sentinel slot, already has `u32::MAX` slots;
/// so it never panics while it holds fewer than `u32::MAX - 1` records.
#[verifier::external_body]
fn slot_map_insert<V>(c: &mut Collection<V>, value: V) -> (k: Id<V>)
    requires
        old(c)@.len() + 1 < u32::MAX,
    ensures
        0 <= k.index() < u32::MAX,
        k.version() == version_of_use(old(c).uses_of(k.index())),
        forall|k2: Id<V>| #[trigger] old(c)@.contains_key(k2) ==> k2.index() != k.index(),
        final(c)@ == old(c)@.insert(k, value),
        final(c).uses_of(k.index()) == old(c).uses_of(k.index()) + 1,
        forall|i: int| i != k.index() ==> #[trigger] final(c).uses_of(i) == old(c).uses_of(i),
{
    Id { bits: c.slots.map.insert(value).data().as_ffi(), marker: PhantomData }
}

/// Calls `SlotMap::remove`: the record under a live key is taken out and
/// returned (its slot's version moves on); any other key leaves the slot map
/// as it was and gives `None`.
#[verifier::external_body]
fn slot_map_remove<V>(c: &mut Collection<V>, key: Id<V>) -> (r: Option<V>)
    ensures
        r == (if old(c)@.contains_key(key) {
            Some(old(c)@[key])
        } else {
            None::<V>
        }),
        final(c)@ == old(c)@.remove(key),
        forall|i: int| #[trigger] final(c).uses_of(i) == old(c).uses_of(i),
{
    c.slots.map.remove(KeyData::from_ffi(key.bits).into())
}

/// Calls `SlotMap::get`: the record under a live key, `None` for any other key.
#[verifier::external_body]
fn slot_map_get<'a, V>(c: &'a Collection<V>, key: Id<V>) -> (r: Option<&'a V>)
    ensures
        r == (if c@.contains_key(key) {
            Some(&c@[key])
        } else {
            None::<&V>
        }),
{
    c.slots.map.get(KeyData::from_ffi(key.bits).into())
}

/// Calls `SlotMap::get_mut`: a mutable borrow of the record under a live key,
/// whose final value is what the slot map then holds under that key; `None`,
/// and no change, for any other key.
#[verifier::external_body]
fn slot_map_get_mut<'a, V>(c: &'a mut Collection<V>, key: Id<V>) -> (r: Option<&'a mut V>)
    ensures
        old(c)@.contains_key(key) ==> (r matches Some(v) && *v == old(c)@[key] && final(c)@
            == old(c)@.insert(key, *final(v))),
        !old(c)@.contains_key(key) ==> (r is None && final(c)@ == old(c)@),
        forall|i: int| #[trigger] final(c).uses_of(i) == old(c).uses_of(i),
{
    c.slots.map.get_mut(KeyData::from_ffi(key.bits).into())
}

/// Calls `SlotMap::clone`: the copy has the same slots with the same versions,
/// so the same live keys and the same history of each slot, and each occupied
/// slot holds `V::clone` of its record.
#[verifier::external_body]
fn slot_map_clone<V: Clone>(c: &Collection<V>) -> (r: Collection<V>)
    ensures
        r@.dom() == c@.dom(),
        forall|k: Id<V>| #[trigger] r@.contains_key(k) ==> cloned::<V>(c@[k], r@[k]),
        forall|i: int| #[trigger] r.uses_of(i) == c.uses_of(i),
{
    Collection { slots: Slots { map: c.slots.map.clone() }, contents: Ghost(arbitrary()), fills: Ghost(c.fills@) }
}

/// Inserting a key that the collection had not handed out keeps every key it
/// had handed out handed out, and adds the new one.
proof fn lemma_insert_handed_out<V>(before: Collection<V>, after: Collection<V>, k: Id<V>)
    requires
        0 <= k.index() < u32::MAX,
        k.version() == version_of_use(before.uses_of(k.index())),
        after.uses_of(k.index()) == before.uses_of(k.index()) + 1,
        forall|i: int| i != k.index() ==> #[trigger] after.uses_of(i) == before.uses_of(i),
    ensures
        after.handed_out(k),
        forall|k2: Id<V>| #[trigger] before.handed_out(k2) ==> after.handed_out(k2),
        before.uses_of(k.index()) < 0x8000_0000 ==> !before.handed_out(k),
{
    let u = before.uses_of(k.index());
    assert(version_of_use(u) == k.version());
    assert forall|k2: Id<V>| #[trigger] before.handed_out(k2) implies after.handed_out(k2) by {
        let j = choose|j: nat| j < before.uses_of(k2.index()) && #[trigger] version_of_use(j) == k2.version();
        assert(version_of_use(j) == k2.version());
    }
    if u < 0x8000_0000 && before.handed_out(k) {
        let j = choose|j: nat| j < before.uses_of(k.index()) && #[trigger] version_of_use(j) == k.version();
        assert(version_of_use(j) == version_of_use(u));
        assert((2 * j + 1) % 0x1_0000_0000 == 2 * j + 1);
        assert((2 * u + 1) % 0x1_0000_0000 == 2 * u + 1);
    }
}

impl<V> Collection<V> {
    /// Creates a new, empty collection.
    pub fn new() -> (r: Self)
        ensures
            r@ == Map::<Id<V>, V>::empty(),
            r.wf(),
            forall|i: int| #[trigger] r.uses_of(i) == 0,
    {
        let r = slot_map_new();
        assert(r@ =~= Map::<Id<V>, V>::empty());
        r
    }

    /// Inserts a value, returning the key it is stored under: a key no live
    /// record has and, unless its slot has already held `2^31` records (when
    /// the 32-bit version wraps), a key the collection never handed out before.
    pub fn insert(&mut self, value: V) -> (k: Id<V>)
        requires
            old(self).wf(),
            old(self)@.len() + 1 < u32::MAX,
        ensures
            final(self).wf(),
            !old(self)@.contains_key(k),
            final(self)@ == old(self)@.insert(k, value),
            old(self).uses_of(k.index()) < 0x8000_0000 ==> !old(self).handed_out(k),
            final(self).handed_out(k),
            forall|k2: Id<V>| #[trigger] old(self).handed_out(k2) ==> final(self).handed_out(k2),
            final(self).uses_of(k.index()) == old(self).uses_of(k.index()) + 1,
            forall|i: int| i != k.index() ==> #[trigger] final(self).uses_of(i) == old(self).uses_of(i),
    {
        let ghost before = *self;
        let k = slot_map_insert(self, value);
        proof {
            lemma_insert_handed_out(before, *self, k);
            assert forall|k2: Id<V>| #[trigger] self@.contains_key(k2) implies self.handed_out(k2) by {
                if k2 != k {
                    assert(before@.contains_key(k2));
                }
            }
        }
        k
    }

    /// Removes the value stored under a key, returning it if the key was live.
    pub fn remove(&mut self, key: Id<V>) -> (r: Option<V>)
        requires
            old(self).wf(),
        ensures
            final(self).wf(),
            r == (if old(self)@.contains_key(key) {
                Some(old(self)@[key])
            } else {
                None::<V>
            }),
            final(self)@ == old(self)@.remove(key),
            forall|i: int| #[trigger] final(self).uses_of(i) == old(self).uses_of(i),
    {
        let ghost before = *self;
        let r = slot_map_remove(self, key);
        proof {
            assert forall|k2: Id<V>| #[trigger] self@.contains_key(k2) implies self.handed_out(k2) by {
                assert(before@.contains_key(k2));
                assert(before.handed_out(k2));
                let j = choose|j: nat| j < before.uses_of(k2.index()) && #[trigger] version_of_use(j) == k2.version();
                assert(version_of_use(j) == k2.version());
            }
        }
        r
    }

    /// Returns a shared reference to the value stored under a key, if it is live.
    pub fn get(&self, key: Id<V>) -> (r: Option<&V>)
        ensures
            r == (if self@.contains_key(key) {
                Some(&self@[key])
            } else {
                None::<&V>
            }),
    {
        slot_map_get(self, key)
    }

    /// Returns a mutable reference to the value stored under a key, if it is live.
    pub fn get_mut(&mut self, key: Id<V>) -> (r: Option<&mut V>)
        ensures
            old(self)@.contains_key(key) ==> (r matches Some(v) && *v == old(self)@[key]
                && final(self)@ == old(self)@.insert(key, *final(v))),
            !old(self)@.contains_key(key) ==> (r is None && final(self)@ == old(self)@),
            forall|i: int| #[trigger] final(self).uses_of(i) == old(self).uses_of(i),
    {
        slot_map_get_mut(self, key)
    }
}

impl<V: Clone> Clone for Collection<V> {
    /// A copy with the same keys, each holding a clone of its record, and the
    /// same history of each slot.
    fn clone(&self) -> (r: Self)
        ensures
            r@.dom() == self@.dom(),
            forall|k: Id<V>| #[trigger] r@.contains_key(k) ==> cloned::<V>(self@[k], r@[k]),
            forall|i: int| #[trigger] r.uses_of(i) == self.uses_of(i),
            self.wf() ==> r.wf(),
    {
        let r = slot_map_clone(self);
        proof {
            if self.wf() {
                assert forall|k2: Id<V>| #[trigger] r@.contains_key(k2) implies r.handed_out(k2) by {
                    assert(self@.contains_key(k2));
                    assert(self.handed_out(k2));
                    let j = choose|j: nat| j < self.uses_of(k2.index()) && #[trigger] version_of_use(j) == k2.version();
                    assert(version_of_use(j) == k2.version());
                }
            }
        }
        r
    }
}

impl<V> Default for Collection<V> {
    fn default() -> (r: Self)
        ensures
            r@ == Map::<Id<V>, V>::empty(),
            r.wf(),
            forall|i: int| #[trigger] r.uses_of(i) == 0,
    {
        Self::new()
    }
}

/// A one-to-many or many-to-many relationship: the keys of the child records,
/// in the order they were added.
#[derive(Debug, Clone)]
pub struct HasMany<K> {
    children: Vec<K>,
}

impl<K> View for HasMany<K> {
    type V = Seq<K>;

    closed spec fn view(&self) -> Seq<K> {
        self.children@
    }
}

impl<M> HasMany<Id<M>> {
    /// Creates a new, empty relationship.
    pub fn new() -> (r: Self)
        ensures
            r@ == Seq::<Id<M>>::empty(),
    {
        HasMany { children: Vec::new() }
    }

    /// Returns an iterator over the stored child keys, in order.
    pub fn iter(&self) -> (r: Iter<'_, Id<M>>)
        ensures
            IteratorSpec::remaining(&r) == self@.as_ref(),
    {
        broadcast use vstd::std_specs::slice::axiom_spec_slice_iter;

        self.children.as_slice().iter()
    }

    /// Adds a child key at the end.
    pub fn push(&mut self, id: Id<M>)
        ensures
            final(self)@ == old(self)@.push(id),
    {
        self.children.push(id);
    }

    /// Removes every occurrence of a child key, keeping the others in order.
    pub fn remove(&mut self, id: Id<M>)
        ensures
            final(self)@ == old(self)@.filter(|x: Id<M>| x != id),
    {
        let ghost s = self.children@;
        let mut kept: Vec<Id<M>> = Vec::new();
        let mut i: usize = 0;
        while i < self.children.len()
            invariant
                i <= self.children.len(),
                s == self.children@,
                kept@ == s.take(i as int).filter(|x: Id<M>| x != id),
            decreases self.children.len() - i,
        {
            let x = self.children[i];
            proof {
                reveal_with_fuel(Seq::<_>::filter, 1);
                assert(s.take(i + 1).drop_last() =~= s.take(i as int));
                assert(s.take(i + 1).last() == x);
            }
            if x.bits != id.bits {
                kept.push(x);
            }
            i = i + 1;
        }
        proof {
            assert(s.take(s.len() as int) =~= s);
        }
        self.children = kept;
    }
}

impl<M> Default for HasMany<Id<M>> {
    fn default() -> (r: Self)
        ensures
            r@ == Seq::<Id<M>>::empty(),
    {
        Self::new()
    }
}

/// A foreign key: the key of the parent record.
#[derive(Debug, Clone)]
pub struct BelongsTo<K> {
    parent_id: K,
}

impl<K> View for BelongsTo<K> {
    type V = K;

    closed spec fn view(&self) -> K {
        self.parent_id
    }
}

impl<M> BelongsTo<Id<M>> {
    /// Creates a relationship pointing to the given parent key.
    pub fn new(parent_id: Id<M>) -> (r: Self)
        ensures
            r@ == parent_id,
    {
        BelongsTo { parent_id }
    }

    /// Returns the key of the parent record.
    pub fn id(&self) -> (r: Id<M>)
        ensures
            r == self@,
    {
        self.parent_id
    }
}

} // verus!
