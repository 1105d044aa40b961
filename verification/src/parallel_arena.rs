use vstd::prelude::*;

use thunderdome::Index;

verus! {

#[verifier::external_type_specification]
#[verifier::external_body]
pub struct ExIndex(Index);

/// The slot of a `thunderdome::Index`: its position in an arena, without
/// the generation.
pub uninterp spec fn index_slot(index: Index) -> u32;

/// `thunderdome::Index::slot`, which returns the slot the index was made
/// with. Stated: the result is `index_slot` of the index.
#[verifier::external_body]
fn slot_of(index: Index) -> (r: u32)
    ensures
        r == index_slot(index),
{
    index.slot()
}

/// Storage that parallels a `thunderdome::Arena`: entries are kept at the
/// slot of the arena index they belong to.
#[derive(Debug, Clone)]
pub struct ParallelArena<T> {
    storage: Vec<Option<T>>,
}

impl<T> ParallelArena<T> {
    /// The stored slots, in order.
    pub closed spec fn slots(self) -> Seq<Option<T>> {
        self.storage@
    }

    /// The entry at `slot`, if one is stored there.
    pub open spec fn entry(self, slot: int) -> Option<T> {
        if 0 <= slot < self.slots().len() {
            self.slots()[slot]
        } else {
            None
        }
    }

    /// An empty arena.
    pub fn new() -> (r: Self)
        ensures
            r.slots() == Seq::<Option<T>>::empty(),
    {
        ParallelArena { storage: Vec::new() }
    }

    /// Stores `entry` at the slot of `index`, growing the storage with empty
    /// slots as needed. Returns the entry that was stored there before.
    pub fn insert_at(&mut self, index: Index, entry: T) -> (prev: Option<T>)
        ensures
            prev == old(self).entry(index_slot(index) as int),
            final(self).entry(index_slot(index) as int) == Some(entry),
            forall|s: int| s != index_slot(index) ==> #[trigger] final(self).entry(s) == old(self).entry(s),
            final(self).slots().len() == if old(self).slots().len() <= index_slot(index) {
                index_slot(index) + 1
            } else {
                old(self).slots().len() as int
            },
    {
        let slot = slot_of(index) as usize;
        if self.storage.len() <= slot {
            let ghost old_storage = self.storage@;
            while self.storage.len() <= slot
                invariant
                    old_storage.len() <= self.storage@.len() <= slot + 1,
                    forall|s: int| 0 <= s < old_storage.len() ==> #[trigger] self.storage@[s] == old_storage[s],
                    forall|s: int| old_storage.len() <= s < self.storage@.len() ==> #[trigger] self.storage@[s] is None,
                decreases slot + 1 - self.storage.len(),
            {
                self.storage.push(None);
            }
            self.storage.set(slot, Some(entry));
            None
        } else {
            let mut e = Some(entry);
            std::mem::swap(&mut e, &mut self.storage[slot]);
            e
        }
    }

    /// The entry at the slot of `index`, if any.
    pub fn get(&self, index: Index) -> (r: Option<&T>)
        ensures
            r is Some <==> self.entry(index_slot(index) as int) is Some,
            r matches Some(v) ==> self.entry(index_slot(index) as int) == Some(*v),
    {
        let slot = slot_of(index) as usize;
        if slot < self.storage.len() {
            match &self.storage[slot] {
                Some(e) => Some(e),
                None => None,
            }
        } else {
            None
        }
    }

    /// An iterator over the stored entries, in slot order.
    pub fn iter(&self) -> (r: Iter<'_, T>)
        ensures
            r.items() == self.slots(),
            r.position() == 0,
    {
        Iter { storage: &self.storage, pos: 0 }
    }

    /// An iterator over mutable references to the stored entries, in slot
    /// order.
    pub fn iter_mut(&mut self) -> (r: IterMut<'_, T>)
        ensures
            r.items() == old(self).slots(),
            r.position() == 0,
            final(self).slots() == final(r.arena()).slots(),
    {
        IterMut { arena: self, pos: 0 }
    }

    /// Mutable access to the entry at the slot of `index`, if any. Writes
    /// through the reference change that entry only.
    pub fn get_mut(&mut self, index: Index) -> (r: Option<&mut T>)
        ensures
            r is Some <==> old(self).entry(index_slot(index) as int) is Some,
            r matches Some(v) ==> {
                &&& old(self).entry(index_slot(index) as int) == Some(*v)
                &&& final(self).slots() == old(self).slots().update(
                    index_slot(index) as int,
                    Some(*final(v)),
                )
            },
            r is None ==> final(self).slots() == old(self).slots(),
    {
        let slot = slot_of(index) as usize;
        if slot < self.storage.len() {
            match &mut self.storage[slot] {
                Some(e) => Some(e),
                None => None,
            }
        } else {
            None
        }
    }
}

/// Iterator over the entries of a `ParallelArena`, skipping empty slots.
pub struct Iter<'a, T> {
    storage: &'a Vec<Option<T>>,
    pos: usize,
}

impl<'a, T> Iter<'a, T> {
    /// The slots being iterated over.
    pub closed spec fn items(self) -> Seq<Option<T>> {
        self.storage@
    }

    /// The next slot to look at.
    pub closed spec fn position(self) -> int {
        self.pos as int
    }

    /// The next stored entry after the current position: every slot passed
    /// over on the way is empty. `None` once no entry is left.
    pub fn next(&mut self) -> (r: Option<&'a T>)
        requires
            old(self).position() <= old(self).items().len(),
        ensures
            final(self).items() == old(self).items(),
            old(self).position() <= final(self).position() <= final(self).items().len(),
            forall|s: int|
                old(self).position() <= s < final(self).position() - (if r is Some {
                    1int
                } else {
                    0int
                }) ==> #[trigger] old(self).items()[s] is None,
            r matches Some(v) ==> final(self).position() >= 1 && old(self).items()[final(self).position() - 1]
                == Some(*v),
            r is None ==> final(self).position() == final(self).items().len(),
    {
        while self.pos < self.storage.len()
            invariant
                self.storage@ == old(self).storage@,
                old(self).pos <= self.pos <= self.storage@.len(),
                forall|s: int| old(self).pos <= s < self.pos ==> #[trigger] self.storage@[s] is None,
            decreases self.storage@.len() - self.pos,
        {
            let i = self.pos;
            self.pos = self.pos + 1;
            match &self.storage[i] {
                Some(e) => {
                    return Some(e);
                },
                None => {},
            }
        }
        None
    }
}

/// Iterator over mutable references to the entries of a `ParallelArena`,
/// skipping empty slots.
pub struct IterMut<'a, T> {
    arena: &'a mut ParallelArena<T>,
    pos: usize,
}

impl<'a, T> IterMut<'a, T> {
    /// The slots being iterated over.
    pub closed spec fn items(self) -> Seq<Option<T>> {
        self.arena.storage@
    }

    /// The next slot to look at.
    pub closed spec fn position(self) -> int {
        self.pos as int
    }

    /// The arena being iterated over.
    pub closed spec fn arena(self) -> &'a mut ParallelArena<T> {
        self.arena
    }

    /// Mutable access to the next stored entry after the current position:
    /// every slot passed over on the way is empty. `None` once no entry is
    /// left. Writes through the reference change that entry only.
    pub fn next(&mut self) -> (r: Option<&mut T>)
        requires
            old(self).position() <= old(self).items().len(),
        ensures
            old(self).position() <= final(self).position() <= old(self).items().len(),
            forall|s: int|
                old(self).position() <= s < final(self).position() - (if r is Some {
                    1int
                } else {
                    0int
                }) ==> #[trigger] old(self).items()[s] is None,
            r matches Some(v) ==> {
                &&& final(self).position() >= 1
                &&& old(self).items()[final(self).position() - 1] == Some(*v)
                &&& final(self).items() == old(self).items().update(
                    final(self).position() - 1,
                    Some(*final(v)),
                )
            },
            r is None ==> final(self).position() == old(self).items().len() && final(self).items()
                == old(self).items(),
    {
        while self.pos < self.arena.storage.len()
            invariant
                self.arena.storage@ == old(self).arena.storage@,
                old(self).pos <= self.pos <= self.arena.storage@.len(),
                forall|s: int| old(self).pos <= s < self.pos ==> #[trigger] self.arena.storage@[s] is None,
            decreases self.arena.storage@.len() - self.pos,
        {
            let i = self.pos;
            self.pos = self.pos + 1;
            if self.arena.storage[i].is_some() {
                return match &mut self.arena.storage[i] {
                    Some(e) => Some(e),
                    None => None,
                };
            }
        }
        None
    }
}

} // verus!
