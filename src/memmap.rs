use memflow::mem::MemoryMap;
use memflow::types::Address;
use vstd::prelude::*;

verus! {

#[verifier::external_type_specification]
#[verifier::external_body]
pub struct ExAddress(Address);

#[verifier::external_type_specification]
#[verifier::external_body]
#[verifier::reject_recursive_types(M)]
pub struct ExMemoryMap<M>(MemoryMap<M>);

/// The mappings that a memflow memory map holds, in its own order: for each,
/// the guest-physical base, the size, and the address it is remapped to.
pub uninterp spec fn map_entries(m: MemoryMap<(Address, u64)>) -> Seq<(u64, u64, u64)>;

/// The first address past a mapping.
pub open spec fn entry_end(e: (u64, u64, u64)) -> int {
    e.0 + e.1
}

/// No mapping runs past the end of the address space.
pub open spec fn entries_fit(s: Seq<(u64, u64, u64)>) -> bool {
    forall|i: int| 0 <= i < s.len() ==> entry_end(#[trigger] s[i]) <= u64::MAX
}

/// A mapping `[base, base + size)` can be added to `s`: for each mapping of
/// `s` it lies wholly above it, or ends strictly below its base.
pub open spec fn can_push(s: Seq<(u64, u64, u64)>, base: u64, size: u64) -> bool {
    forall|i: int|
        0 <= i < s.len() ==> entry_end(#[trigger] s[i]) <= base || base + size < s[i].0
}

/// The index of the last mapping of `s` that ends at or below `base`, or -1
/// where there is none.
pub open spec fn last_below(s: Seq<(u64, u64, u64)>, base: u64) -> int
    decreases s.len(),
{
    if s.len() == 0 {
        -1
    } else if entry_end(s.last()) <= base {
        s.len() - 1
    } else {
        last_below(s.drop_last(), base)
    }
}

/// Where a new mapping at `base` goes: just after the last mapping that ends
/// at or below `base`, or at the end where there is none.
pub open spec fn push_index(s: Seq<(u64, u64, u64)>, base: u64) -> int {
    if last_below(s, base) < 0 {
        s.len() as int
    } else {
        last_below(s, base) + 1
    }
}

/// Relies on memflow's `MemoryMap::new`: a map with no mappings.
#[verifier::external_body]
pub(crate) fn new_memory_map() -> (r: MemoryMap<(Address, u64)>)
    ensures
        map_entries(r) == Seq::<(u64, u64, u64)>::empty(),
{
    MemoryMap::new()
}

/// Relies on memflow's `MemoryMap::push_remap`: walking the mappings from
/// the last one back, it inserts the new one just after the first that ends
/// at or below `base`, or at the end where none does. It panics where the new
/// range starts inside a mapping it walks past or ends inside or at the base
/// of one, and where `base + size` overflows: `requires` leaves those out.
#[verifier::external_body]
pub(crate) fn push_remap(map: &mut MemoryMap<(Address, u64)>, base: u64, size: u64, real_base: u64)
    requires
        size > 0,
        base + size <= u64::MAX,
        entries_fit(map_entries(*old(map))),
        can_push(map_entries(*old(map)), base, size),
    ensures
        map_entries(*final(map)) == map_entries(*old(map)).insert(
            push_index(map_entries(*old(map)), base),
            (base, size, real_base),
        ),
{
    map.push_remap(Address::from(base), size, Address::from(real_base));
}

/// Relies on memflow's derived `Clone` for `MemoryMap`: the copy holds the
/// same mappings.
#[verifier::external_body]
pub(crate) fn clone_memory_map(map: &MemoryMap<(Address, u64)>) -> (r: MemoryMap<(Address, u64)>)
    ensures
        map_entries(r) == map_entries(*map),
{
    map.clone()
}

} // verus!
