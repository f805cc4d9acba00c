//! Sets of slots of R.

use vstd::prelude::*;

verus! {

/// A set of slots of R.
pub struct SlotSet {
    flags: Vec<bool>,
}

impl View for SlotSet {
    type V = Set<u8>;

    closed spec fn view(&self) -> Set<u8> {
        Set::new(|s: u8| (s as int) < self.flags@.len() && self.flags@[s as int])
    }
}

impl SlotSet {
    /// Every set has room for all 256 slots.
    pub closed spec fn wf(&self) -> bool {
        self.flags@.len() == 256
    }

    /// The empty set.
    pub fn new() -> (s: SlotSet)
        ensures
            s.wf(),
            s@ == Set::<u8>::empty(),
    {
        let mut flags: Vec<bool> = Vec::new();
        let mut i: usize = 0;
        while i < 256
            invariant
                i <= 256,
                flags@.len() == i,
                forall|j: int| 0 <= j < i ==> !flags@[j],
            decreases 256 - i,
        {
            flags.push(false);
            i += 1;
        }
        let s = SlotSet { flags };
        assert(s@ =~= Set::<u8>::empty());
        s
    }

    /// Whether the slot is in the set.
    pub fn contains(&self, slot: u8) -> (b: bool)
        requires
            self.wf(),
        ensures
            b == self@.contains(slot),
    {
        self.flags[slot as usize]
    }

    /// Puts the slot into the set.
    pub fn insert(&mut self, slot: u8)
        requires
            old(self).wf(),
        ensures
            final(self).wf(),
            final(self)@ == old(self)@.insert(slot),
    {
        self.flags.set(slot as usize, true);
        assert(self@ =~= old(self)@.insert(slot));
    }

    /// Takes the slot out of the set.
    pub fn remove(&mut self, slot: u8)
        requires
            old(self).wf(),
        ensures
            final(self).wf(),
            final(self)@ == old(self)@.remove(slot),
    {
        self.flags.set(slot as usize, false);
        assert(self@ =~= old(self)@.remove(slot));
    }

    /// Empties the set.
    pub fn clear(&mut self)
        requires
            old(self).wf(),
        ensures
            final(self).wf(),
            final(self)@ == Set::<u8>::empty(),
    {
        let mut i: usize = 0;
        while i < 256
            invariant
                i <= 256,
                self.flags@.len() == 256,
                forall|j: int| 0 <= j < i ==> !self.flags@[j],
            decreases 256 - i,
        {
            self.flags.set(i, false);
            i += 1;
        }
        assert(self@ =~= Set::<u8>::empty());
    }

    /// Puts every slot of `other` into the set.
    pub fn add_all(&mut self, other: &SlotSet)
        requires
            old(self).wf(),
            other.wf(),
        ensures
            final(self).wf(),
            final(self)@ == old(self)@.union(other@),
    {
        let ghost start = self.flags@;
        let mut i: usize = 0;
        while i < 256
            invariant
                i <= 256,
                self.flags@.len() == 256,
                start.len() == 256,
                other.flags@.len() == 256,
                forall|j: int| 0 <= j < i ==> #[trigger] self.flags@[j] == (start[j] || other.flags@[j]),
                forall|j: int| i <= j < 256 ==> #[trigger] self.flags@[j] == start[j],
            decreases 256 - i,
        {
            if other.flags[i] {
                self.flags.set(i, true);
            }
            i += 1;
        }
        assert forall|s: u8| self@.contains(s) == (old(self)@.contains(s) || other@.contains(s)) by {
            assert(self.flags@[s as int] == (start[s as int] || other.flags@[s as int]));
        }
        assert(self@ =~= old(self)@.union(other@));
    }
}

} // verus!
