use crate::slot::SlotDescriptor;
use vstd::prelude::*;

verus! {

/// The slots that one map request established in this process, held until
/// their host mappings are released.
///
/// It does not count references itself: shared through an `Arc`, the holder
/// that drops the last reference releases the mappings, once, in the order of
/// `unmap_list`.
pub struct AutoMunmap {
    memslots: Vec<SlotDescriptor>,
}

/// The host range `(address, length)` that releasing slot `s` unmaps.
pub open spec fn unmap_range(s: SlotDescriptor) -> (u64, u64) {
    (s.host_base, s.map_size)
}

impl AutoMunmap {
    /// The slots this guard is responsible for, in the mediator's order.
    pub closed spec fn slots(&self) -> Seq<SlotDescriptor> {
        self.memslots@
    }

    /// Takes responsibility for `memslots`. They must be the slots that a
    /// map request of this process has just returned: releasing them unmaps
    /// each `(host_base, map_size)`.
    pub fn new(memslots: Vec<SlotDescriptor>) -> (r: Self)
        ensures
            r.slots() == memslots@,
    {
        AutoMunmap { memslots }
    }

    /// The number of slots held.
    pub fn len(&self) -> (r: usize)
        ensures
            r == self.slots().len(),
    {
        self.memslots.len()
    }

    /// The host ranges to unmap on release: one per slot, each once, in the
    /// mediator's order. Empty where the map request reported no slot.
    pub fn unmap_list(&self) -> (r: Vec<(u64, u64)>)
        ensures
            r@.len() == self.slots().len(),
            forall|i: int| 0 <= i < r@.len() ==> r@[i] == unmap_range(#[trigger] self.slots()[i]),
    {
        let mut out: Vec<(u64, u64)> = Vec::new();
        let mut i: usize = 0;
        while i < self.memslots.len()
            invariant
                i <= self.memslots@.len(),
                out@.len() == i,
                forall|j: int| 0 <= j < i ==> out@[j] == unmap_range(#[trigger] self.memslots@[j]),
            decreases self.memslots@.len() - i,
        {
            let s = self.memslots[i];
            out.push((s.host_base, s.map_size));
            i = i + 1;
        }
        out
    }
}

} // verus!
