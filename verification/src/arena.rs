//! Handles: opaque positive integers that name entities owned by the
//! embedding host. An entity lives from the call that allocates it to the
//! call that frees it; nothing else ends its life. A handle is issued once
//! and never again, so a stale handle can never come to name another entity.

use vstd::prelude::*;

verus! {

/// The entities of one kind that are outstanding, by handle.
#[derive(Debug)]
pub struct Arena<T> {
    /// Slot `i` belongs to handle `i + 1`. It is vacated by `free` and
    /// never filled again.
    slots: Vec<Option<T>>,
}

impl<T> Arena<T> {
    #[verifier::type_invariant]
    spec fn fits(&self) -> bool {
        self.slots@.len() <= i32::MAX
    }

    /// The live entities, by handle.
    pub closed spec fn view(&self) -> Map<int, T> {
        Map::new(
            |h: int| 0 < h <= self.slots@.len() && self.slots@[h - 1] is Some,
            |h: int| self.slots@[h - 1]->0,
        )
    }

    /// How many handles were ever issued: exactly `1 ..= issued()`.
    pub closed spec fn issued(&self) -> nat {
        self.slots@.len()
    }

    /// Every live handle was issued; zero and the negative numbers name
    /// nothing.
    pub proof fn lemma_live_handles_were_issued(&self)
        ensures
            forall|h: int| #[trigger] self@.contains_key(h) ==> 0 < h <= self.issued(),
    {
    }

    pub fn new() -> (r: Self)
        ensures
            r@ == Map::<int, T>::empty(),
            r.issued() == 0,
    {
        Arena { slots: Vec::new() }
    }

    /// Takes `entity` in and issues the next handle for it. When every
    /// handle has been issued already, nothing is taken in and the result
    /// is `0`, which names nothing.
    pub fn allocate(&mut self, entity: T) -> (handle: i32)
        ensures
            old(self).issued() < i32::MAX ==> {
                &&& handle == old(self).issued() + 1
                &&& final(self)@ == old(self)@.insert(handle as int, entity)
                &&& final(self).issued() == old(self).issued() + 1
            },
            old(self).issued() >= i32::MAX ==> {
                &&& handle == 0
                &&& final(self)@ == old(self)@
                &&& final(self).issued() == old(self).issued()
            },
    {
        proof {
            use_type_invariant(&*self);
        }
        let n: usize = self.slots.len();
        if n >= 0x7fff_ffff {
            return 0;
        }
        let mut slots: Vec<Option<T>> = Vec::new();
        core::mem::swap(&mut slots, &mut self.slots);
        slots.push(Some(entity));
        core::mem::swap(&mut slots, &mut self.slots);
        (n + 1) as i32
    }

    /// Ends the life of the entity that `handle` names and hands it out.
    /// A handle that names nothing changes nothing.
    pub fn free(&mut self, handle: i32) -> (r: Option<T>)
        ensures
            final(self).issued() == old(self).issued(),
            final(self)@ == old(self)@.remove(handle as int),
            match r {
                Some(entity) => old(self)@.contains_key(handle as int) && entity == old(
                    self,
                )@[handle as int],
                None => !old(self)@.contains_key(handle as int),
            },
    {
        proof {
            use_type_invariant(&*self);
        }
        if handle <= 0 || handle as usize > self.slots.len() {
            return None;
        }
        let i: usize = (handle - 1) as usize;
        let mut taken: Option<T> = None;
        let slot = &mut self.slots[i];
        core::mem::swap(slot, &mut taken);
        taken
    }

    /// Whether `handle` names a live entity.
    pub fn contains(&self, handle: i32) -> (r: bool)
        ensures
            r == self@.contains_key(handle as int),
    {
        if handle <= 0 || handle as usize > self.slots.len() {
            return false;
        }
        self.slots[(handle - 1) as usize].is_some()
    }

    /// Resolves `handle` for reading. The entity stays outstanding.
    pub fn get(&self, handle: i32) -> (r: Option<&T>)
        ensures
            match r {
                Some(entity) => self@.contains_key(handle as int) && *entity == self@[handle as int],
                None => !self@.contains_key(handle as int),
            },
    {
        if handle <= 0 || handle as usize > self.slots.len() {
            return None;
        }
        self.slots[(handle - 1) as usize].as_ref()
    }

    /// Resolves `handle` for one operation that changes the entity. The
    /// entity stays outstanding under the same handle, and no other entity
    /// is touched.
    pub fn get_mut(&mut self, handle: i32) -> (r: Option<&mut T>)
        ensures
            final(self).issued() == old(self).issued(),
            match r {
                Some(entity) => {
                    &&& old(self)@.contains_key(handle as int)
                    &&& *entity == old(self)@[handle as int]
                    &&& final(self)@ == old(self)@.insert(handle as int, *final(entity))
                },
                None => !old(self)@.contains_key(handle as int) && final(self)@ == old(self)@,
            },
    {
        proof {
            use_type_invariant(&*self);
        }
        if handle <= 0 || handle as usize > self.slots.len() {
            return None;
        }
        let i: usize = (handle - 1) as usize;
        let slot = &mut self.slots[i];
        match slot {
            Some(entity) => Some(entity),
            None => None,
        }
    }
}

} // verus!
