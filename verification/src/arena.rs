use vstd::prelude::*;

verus! {

/// An opaque reference to one entity of an [`Arena`]: a slot together with
/// the generation of the occupant it was handed out for.
#[derive(Clone, Copy, Debug, PartialEq, Eq, Structural)]
pub struct Handle {
    index: usize,
    generation: u64,
}

/// One state slot. `generation` counts the occupants the slot has had so far,
/// less one; `value` is the present occupant, if it is still alive.
struct Slot<T> {
    generation: u64,
    value: Option<T>,
}

/// Owns the state of every entity and hands out generation-checked handles.
///
/// A handle is honoured only while the entity it was created for is alive:
/// once the entity is removed, the handle stays dead for good, even when the
/// slot is given to a later entity.
pub struct Arena<T> {
    slots: Vec<Slot<T>>,
}

impl<T> View for Arena<T> {
    type V = Map<Handle, T>;

    /// The live entities, each under its handle.
    closed spec fn view(&self) -> Map<Handle, T> {
        Map::new(
            |h: Handle|
                h.index < self.slots@.len() && self.slots@[h.index as int].generation
                    == h.generation && self.slots@[h.index as int].value.is_some(),
            |h: Handle| self.slots@[h.index as int].value.unwrap(),
        )
    }
}

impl<T> Arena<T> {
    /// Whether `h` has been handed out by this arena at some time, be its
    /// entity alive or not.
    pub closed spec fn issued(&self, h: Handle) -> bool {
        h.index < self.slots@.len() && h.generation <= self.slots@[h.index as int].generation
    }

    /// Every live handle has been handed out.
    pub proof fn lemma_live_is_issued(&self, h: Handle)
        requires
            self@.dom().contains(h),
        ensures
            self.issued(h),
    {
    }

    /// A handle that was never handed out names no live entity.
    pub proof fn lemma_unissued_is_dead(&self, h: Handle)
        requires
            !self.issued(h),
        ensures
            !self@.dom().contains(h),
    {
    }

    /// An arena without entities, which has handed out no handle yet.
    pub fn new() -> (arena: Self)
        ensures
            arena@ == Map::<Handle, T>::empty(),
            forall|h: Handle| !arena.issued(h),
    {
        Arena { slots: Vec::new() }
    }

    /// Takes ownership of `value` as a new entity and returns its handle.
    ///
    /// The handle is one that was never handed out before, so no handle kept
    /// from an earlier entity can reach the new one.
    pub fn create(&mut self, value: T) -> (h: Handle)
        ensures
            !old(self).issued(h),
            final(self)@ == old(self)@.insert(h, value),
            forall|g: Handle| final(self).issued(g) <==> old(self).issued(g) || g == h,
    {
        let mut i: usize = 0;
        while i < self.slots.len()
            invariant
                i <= self.slots@.len(),
                *self == *old(self),
            decreases self.slots@.len() - i,
        {
            if self.slots[i].value.is_none() && self.slots[i].generation < u64::MAX {
                let generation: u64 = self.slots[i].generation + 1;
                self.slots[i] = Slot { generation, value: Some(value) };
                return Handle { index: i, generation };
            }
            i += 1;
        }
        let index: usize = self.slots.len();
        self.slots.push(Slot { generation: 0, value: Some(value) });
        Handle { index, generation: 0 }
    }

    /// Whether the entity that `h` was handed out for is alive.
    pub fn contains(&self, h: Handle) -> (live: bool)
        ensures
            live == self@.dom().contains(h),
    {
        h.index < self.slots.len() && self.slots[h.index].generation == h.generation
            && self.slots[h.index].value.is_some()
    }

    /// The state of the entity behind `h`, or `None` where it is gone.
    pub fn get(&self, h: Handle) -> (state: Option<&T>)
        ensures
            match state {
                Some(value) => self@.dom().contains(h) && *value == self@[h],
                None => !self@.dom().contains(h),
            },
    {
        if h.index < self.slots.len() && self.slots[h.index].generation == h.generation {
            self.slots[h.index].value.as_ref()
        } else {
            None
        }
    }

    /// The state of the live entity behind `h`.
    pub fn read(&self, h: Handle) -> (state: &T)
        requires
            self@.dom().contains(h),
        ensures
            *state == self@[h],
    {
        self.slots[h.index].value.as_ref().unwrap()
    }

    /// Destroys the live entity behind `h` and returns its last state.
    ///
    /// The handle, and every copy of it, is dead from here on.
    pub fn remove(&mut self, h: Handle) -> (last: T)
        requires
            old(self)@.dom().contains(h),
        ensures
            last == old(self)@[h],
            final(self)@ == old(self)@.remove(h),
            forall|g: Handle| final(self).issued(g) <==> old(self).issued(g),
    {
        self.slots[h.index].value.take().unwrap()
    }

    /// Applies the transition `f` to the state of the live entity behind `h`.
    pub fn update<F: FnOnce(T) -> T>(&mut self, h: Handle, f: F)
        requires
            old(self)@.dom().contains(h),
            f.requires((old(self)@[h],)),
        ensures
            final(self)@.dom() == old(self)@.dom(),
            f.ensures((old(self)@[h],), final(self)@[h]),
            forall|g: Handle| g != h && old(self)@.dom().contains(g) ==> final(self)@[g] == old(self)@[g],
            forall|g: Handle| final(self).issued(g) <==> old(self).issued(g),
    {
        let before = self.slots[h.index].value.take().unwrap();
        let after = f(before);
        self.slots[h.index].value = Some(after);
    }

    /// The handles of the live entities, each once.
    pub fn handles(&self) -> (live: Vec<Handle>)
        ensures
            live@.no_duplicates(),
            forall|h: Handle| live@.contains(h) <==> self@.dom().contains(h),
    {
        let mut live: Vec<Handle> = Vec::new();
        let mut i: usize = 0;
        while i < self.slots.len()
            invariant
                i <= self.slots@.len(),
                forall|k: int| 0 <= k < live@.len() ==> (#[trigger] live@[k]).index < i,
                forall|k: int| 0 <= k < live@.len() ==> self@.dom().contains(#[trigger] live@[k]),
                forall|j: int, k: int| 0 <= j < k < live@.len() ==> live@[j] != live@[k],
                forall|h: Handle| self@.dom().contains(h) && h.index < i ==> live@.contains(h),
            decreases self.slots@.len() - i,
        {
            if self.slots[i].value.is_some() {
                let h = Handle { index: i, generation: self.slots[i].generation };
                let ghost before = live@;
                live.push(h);
                assert forall|g: Handle| self@.dom().contains(g) && g.index < i + 1 implies live@.contains(g) by {
                    if g.index < i {
                        assert(before.contains(g));
                        let k = choose|k: int| 0 <= k < before.len() && before[k] == g;
                        assert(live@[k] == g);
                    } else {
                        assert(live@[before.len() as int] == g);
                    }
                }
            }
            i += 1;
        }
        live
    }
}

} // verus!
