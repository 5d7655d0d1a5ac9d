use crate::error::KvmError;
use crate::memmap::{
    clone_memory_map,
    entries_fit,
    entry_end,
    last_below,
    map_entries,
    new_memory_map,
    push_index,
    push_remap,
};
use crate::slot::{pairwise_disjoint, SlotDescriptor};
use memflow::mem::MemoryMap;
use memflow::types::Address;
use std::sync::Arc;
use vstd::prelude::*;

verus! {

/// The memory-map entry that slot `s` becomes: guest base, size, host base.
pub open spec fn slot_entry(s: SlotDescriptor) -> (u64, u64, u64) {
    (s.base, s.map_size, s.host_base)
}

/// A slot table that a translator is built from: every slot well formed,
/// and no two slots sharing a guest-physical address.
pub open spec fn table_accepted(s: Seq<SlotDescriptor>) -> bool {
    &&& forall|i: int| 0 <= i < s.len() ==> (#[trigger] s[i]).well_formed()
    &&& pairwise_disjoint(s)
}

/// The mappings are in ascending order of base, each ending at or below the
/// base of the next.
pub open spec fn entries_sorted(s: Seq<(u64, u64, u64)>) -> bool {
    forall|a: int, b: int| 0 <= a < b < s.len() ==> entry_end(#[trigger] s[a]) <= (#[trigger] s[b]).0
}

/// Decides whether a translator can be built from `slots`.
pub fn table_is_valid(slots: &Vec<SlotDescriptor>) -> (r: bool)
    ensures
        r == table_accepted(slots@),
{
    let n = slots.len();
    let mut j: usize = 0;
    while j < n
        invariant
            n == slots@.len(),
            j <= n,
            forall|h: int| 0 <= h < j ==> (#[trigger] slots@[h]).well_formed(),
            forall|a: int, b: int|
                0 <= a < j && 0 <= b < j && a != b ==> (#[trigger] slots@[a]).disjoint(
                    #[trigger] slots@[b],
                ),
        decreases n - j,
    {
        let s = slots[j];
        if s.map_size == 0 || s.base > u64::MAX - s.map_size || s.host_base > u64::MAX
            - s.map_size {
            proof {
                assert(!slots@[j as int].well_formed());
            }
            return false;
        }
        let mut i: usize = 0;
        while i < j
            invariant
                i <= j < n,
                n == slots@.len(),
                s == slots@[j as int],
                s.well_formed(),
                forall|h: int| 0 <= h < j ==> (#[trigger] slots@[h]).well_formed(),
                forall|h: int| 0 <= h < i ==> (#[trigger] slots@[h]).disjoint(s),
            decreases j - i,
        {
            let p = slots[i];
            if !(p.base + p.map_size <= s.base || s.base + s.map_size <= p.base) {
                proof {
                    assert(!slots@[i as int].disjoint(slots@[j as int]));
                }
                return false;
            }
            i = i + 1;
        }
        j = j + 1;
    }
    true
}

/// Entry `e` is the memory-map entry of some slot of `s`.
pub open spec fn in_table(s: Seq<SlotDescriptor>, e: (u64, u64, u64)) -> bool {
    exists|i: int| 0 <= i < s.len() && slot_entry(#[trigger] s[i]) == e
}

/// Slot `s` covers the `len` bytes at guest-physical `addr`: `addr` lies in
/// the slot and the range ends no later than the slot does.
pub open spec fn covers(s: SlotDescriptor, addr: u64, len: u64) -> bool {
    s.base <= addr < s.end() && addr + len <= s.end()
}

/// Where a guest-physical range landed: the index of its slot, the host
/// address of its first byte, and its offset within the slot.
#[derive(Debug, Clone, Copy, PartialEq, Eq, Structural)]
pub struct Resolved {
    pub slot: usize,
    pub host_addr: u64,
    pub offset: u64,
}

/// Resolves guest-physical ranges to host-mapped ranges over the slots of
/// one map request. Clones share the guard `G`, whose last drop releases the
/// mappings.
pub struct AddressTranslator<G> {
    handle: Arc<G>,
    slots: Vec<SlotDescriptor>,
    map: MemoryMap<(Address, u64)>,
}

/// A mapping whose base lies at or above the end of every mapping of `s`
/// goes in at the end.
proof fn lemma_push_appends(s: Seq<(u64, u64, u64)>, base: u64)
    requires
        forall|k: int| 0 <= k < s.len() ==> entry_end(#[trigger] s[k]) <= base,
    ensures
        push_index(s, base) == s.len(),
{
    if s.len() > 0 {
        assert(entry_end(s[s.len() - 1]) <= base);
        assert(last_below(s, base) == s.len() - 1);
    }
}

impl<G> AddressTranslator<G> {
    /// The slots, in the mediator's order.
    pub closed spec fn view(&self) -> Seq<SlotDescriptor> {
        self.slots@
    }

    /// The mappings of the memflow memory map that the translator presents.
    pub closed spec fn entries(&self) -> Seq<(u64, u64, u64)> {
        map_entries(self.map)
    }

    /// The slots are an accepted table, and the memory map holds exactly the
    /// entries of the slots, in ascending order of guest base.
    pub closed spec fn wf(&self) -> bool {
        &&& table_accepted(self.slots@)
        &&& entries_fit(self.entries())
        &&& entries_sorted(self.entries())
        &&& forall|i: int|
            0 <= i < self.slots@.len() ==> self.entries().contains(
                slot_entry(#[trigger] self.slots@[i]),
            )
        &&& forall|k: int|
            0 <= k < self.entries().len() ==> in_table(self.slots@, #[trigger] self.entries()[k])
    }

    /// Builds the translator for the slots of a map request, sharing `handle`,
    /// the guard that owns their mappings. The slots keep the mediator's
    /// order; the memory map receives them in ascending order of guest base.
    /// Fails with `MappingFailure` where a slot is empty or runs past the end
    /// of the address space, or two slots overlap.
    pub fn build(slots: Vec<SlotDescriptor>, handle: Arc<G>) -> (r: Result<Self, KvmError>)
        ensures
            r.is_ok() <==> table_accepted(slots@),
            r.is_err() ==> r == Err::<Self, KvmError>(KvmError::MappingFailure),
            r matches Ok(t) ==> t.wf() && t@ == slots@,
    {
        if !table_is_valid(&slots) {
            return Err(KvmError::MappingFailure);
        }
        let n = slots.len();
        let mut map = new_memory_map();
        let mut cur: u64 = 0;
        let mut done = false;
        while !done
            invariant
                n == slots@.len(),
                table_accepted(slots@),
                entries_sorted(map_entries(map)),
                entries_fit(map_entries(map)),
                forall|k: int|
                    0 <= k < map_entries(map).len() ==> entry_end(#[trigger] map_entries(map)[k])
                        <= cur,
                forall|k: int|
                    0 <= k < map_entries(map).len() ==> in_table(
                        slots@,
                        #[trigger] map_entries(map)[k],
                    ),
                forall|i: int|
                    0 <= i < n && (#[trigger] slots@[i]).base < cur ==> map_entries(map).contains(
                        slot_entry(slots@[i]),
                    ),
                done ==> forall|i: int| 0 <= i < n ==> (#[trigger] slots@[i]).base < cur,
            decreases 2 * (u64::MAX as int - cur as int) + if done {
                0int
            } else {
                1int
            },
        {
            let mut best: usize = n;
            let mut i: usize = 0;
            while i < n
                invariant
                    n == slots@.len(),
                    i <= n,
                    best <= n,
                    best == n ==> forall|h: int| 0 <= h < i ==> (#[trigger] slots@[h]).base < cur,
                    best < n ==> best < i && slots@[best as int].base >= cur && forall|h: int|
                        0 <= h < i && (#[trigger] slots@[h]).base >= cur ==> slots@[best as int].base
                            <= slots@[h].base,
                decreases n - i,
            {
                let b = slots[i].base;
                if b >= cur && (best == n || b < slots[best].base) {
                    best = i;
                }
                i = i + 1;
            }
            if best == n {
                done = true;
            } else {
                let s = slots[best];
                let ghost before = map_entries(map);
                proof {
                    assert(slots@[best as int].well_formed());
                    lemma_push_appends(before, s.base);
                }
                push_remap(&mut map, s.base, s.map_size, s.host_base);
                proof {
                    let after = map_entries(map);
                    let e = slot_entry(s);
                    assert(after =~= before.push(e));
                    assert(after[before.len() as int] == e);
                    assert(in_table(slots@, e));
                    assert forall|k: int| 0 <= k < after.len() implies in_table(
                        slots@,
                        #[trigger] after[k],
                    ) by {
                        if k < before.len() {
                            assert(after[k] == before[k]);
                        }
                    }
                    assert forall|k: int| 0 <= k < after.len() implies entry_end(#[trigger] after[k])
                        <= s.base + s.map_size by {
                        if k < before.len() {
                            assert(after[k] == before[k]);
                        }
                    }
                    assert forall|a: int, b: int| 0 <= a < b < after.len() implies entry_end(
                        #[trigger] after[a],
                    ) <= (#[trigger] after[b]).0 by {
                        assert(after[a] == before[a]);
                        if b < before.len() {
                            assert(after[b] == before[b]);
                        }
                    }
                    assert forall|h: int|
                        0 <= h < n && (#[trigger] slots@[h]).base < s.base + s.map_size implies after.contains(
                        slot_entry(slots@[h]),
                    ) by {
                        if slots@[h].base < cur {
                            let x = choose|x: int|
                                0 <= x < before.len() && before[x] == slot_entry(slots@[h]);
                            assert(after[x] == before[x]);
                        } else if h != best {
                            assert(slots@[h].disjoint(slots@[best as int]));
                            assert(slots@[h].well_formed());
                            assert(false);
                        }
                    }
                }
                cur = s.base + s.map_size;
            }
        }
        let t = AddressTranslator { handle, slots, map };
        proof {
            assert(t.entries() == map_entries(map));
        }
        Ok(t)
    }

    /// Finds the slot that covers the `len` bytes at guest-physical `addr`.
    /// A range that runs past the end of its slot, across a gap or into the
    /// next slot, is a miss: splitting it is the caller's work.
    pub fn resolve(&self, addr: u64, len: u64) -> (r: Result<Resolved, KvmError>)
        requires
            self.wf(),
        ensures
            r.is_ok() <==> exists|i: int| 0 <= i < self@.len() && covers(#[trigger] self@[i], addr, len),
            r.is_err() ==> r == Err::<Resolved, KvmError>(KvmError::TranslationMiss),
            r matches Ok(v) ==> {
                &&& v.slot < self@.len()
                &&& covers(self@[v.slot as int], addr, len)
                &&& v.offset == addr - self@[v.slot as int].base
                &&& v.host_addr == self@[v.slot as int].host_base + v.offset
            },
    {
        let mut i: usize = 0;
        while i < self.slots.len()
            invariant
                self.wf(),
                i <= self@.len(),
                forall|h: int| 0 <= h < i ==> !covers(#[trigger] self@[h], addr, len),
            decreases self@.len() - i,
        {
            let s = self.slots[i];
            proof {
                assert(self@[i as int].well_formed());
            }
            if s.base <= addr && addr - s.base < s.map_size && len <= s.map_size - (addr - s.base) {
                let offset = addr - s.base;
                return Ok(Resolved { slot: i, host_addr: s.host_base + offset, offset });
            }
            i = i + 1;
        }
        Err(KvmError::TranslationMiss)
    }

    /// A copy that shares the guard and holds the same slots and the same
    /// memory map. It makes no request to the mediator.
    pub fn share(&self) -> (r: Self)
        ensures
            r@ == self@,
            r.entries() == self.entries(),
            self.wf() ==> r.wf(),
    {
        let mut slots: Vec<SlotDescriptor> = Vec::new();
        let mut i: usize = 0;
        while i < self.slots.len()
            invariant
                i <= self@.len(),
                slots@ == self@.take(i as int),
            decreases self@.len() - i,
        {
            slots.push(self.slots[i]);
            i = i + 1;
            proof {
                assert(slots@ =~= self@.take(i as int));
            }
        }
        proof {
            assert(self@.take(self@.len() as int) =~= self@);
        }
        AddressTranslator { handle: Arc::clone(&self.handle), slots, map: clone_memory_map(&self.map) }
    }

    /// The slots, in the mediator's order.
    pub fn slots(&self) -> (r: &Vec<SlotDescriptor>)
        ensures
            r@ == self@,
    {
        &self.slots
    }

    /// The memflow memory map over the slots: guest base and size of each,
    /// remapped to its host base.
    pub fn memory_map(&self) -> (r: &MemoryMap<(Address, u64)>)
        ensures
            map_entries(*r) == self.entries(),
    {
        &self.map
    }

    /// The guard that owns the slots' host mappings.
    pub fn guard(&self) -> &Arc<G> {
        &self.handle
    }
}

impl<G> Clone for AddressTranslator<G> {
    /// The same as `share`.
    fn clone(&self) -> (r: Self)
        ensures
            r@ == self@,
            r.entries() == self.entries(),
            self.wf() ==> r.wf(),
    {
        self.share()
    }
}

/// The slots of a translator never share a guest-physical address.
pub proof fn lemma_slots_disjoint<G>(t: &AddressTranslator<G>)
    requires
        t.wf(),
    ensures
        pairwise_disjoint(t@),
{
}

/// At most one slot of a translator covers a given range, so the slot that
/// `resolve` returns is the only one that covers it.
pub proof fn lemma_covering_slot_unique<G>(t: &AddressTranslator<G>, addr: u64, len: u64, i: int, j: int)
    requires
        t.wf(),
        0 <= i < t@.len(),
        0 <= j < t@.len(),
        covers(t@[i], addr, len),
        covers(t@[j], addr, len),
    ensures
        i == j,
{
    lemma_slots_disjoint(t);
    if i != j {
        assert(t@[i].disjoint(t@[j]));
    }
}

/// A translator built from no slots resolves no range at all.
pub proof fn lemma_empty_translator_misses<G>(t: &AddressTranslator<G>, addr: u64, len: u64)
    requires
        t@.len() == 0,
    ensures
        !exists|i: int| 0 <= i < t@.len() && covers(#[trigger] t@[i], addr, len),
{
}

} // verus!
