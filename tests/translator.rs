use memflow_kvm::error::KvmError;
use memflow_kvm::guard::AutoMunmap;
use memflow_kvm::slot::SlotDescriptor;
use memflow_kvm::translator::{AddressTranslator, Resolved};
use std::sync::{Arc, Mutex};

const HOST_A: u64 = 0x7f00_0000_0000;
const HOST_B: u64 = 0x7f00_1000_0000;

fn slot(base: u64, map_size: u64, host_base: u64) -> SlotDescriptor {
    SlotDescriptor { base, map_size, host_base }
}

fn two_slots() -> Vec<SlotDescriptor> {
    vec![slot(0x1000, 0x1000, HOST_A), slot(0x5000, 0x1000, HOST_B)]
}

fn translator(slots: Vec<SlotDescriptor>) -> AddressTranslator<AutoMunmap> {
    let guard = Arc::new(AutoMunmap::new(slots.clone()));
    AddressTranslator::build(slots, guard).unwrap()
}

/// Records each range it would unmap when the last reference goes.
struct CountingGuard {
    inner: AutoMunmap,
    unmapped: Arc<Mutex<Vec<(u64, u64)>>>,
}

impl Drop for CountingGuard {
    fn drop(&mut self) {
        let mut log = self.unmapped.lock().unwrap();
        for r in self.inner.unmap_list() {
            log.push(r);
        }
    }
}

#[test]
fn resolve_inside_first_slot() {
    let t = translator(two_slots());
    let r = t.resolve(0x1500, 0x100).unwrap();
    assert_eq!(r, Resolved { slot: 0, host_addr: HOST_A + 0x500, offset: 0x500 });
}

#[test]
fn resolve_inside_second_slot() {
    let t = translator(two_slots());
    let r = t.resolve(0x5ff0, 0x10).unwrap();
    assert_eq!(r, Resolved { slot: 1, host_addr: HOST_B + 0xff0, offset: 0xff0 });
}

#[test]
fn resolve_in_gap_misses() {
    let t = translator(two_slots());
    assert_eq!(t.resolve(0x3000, 0x10), Err(KvmError::TranslationMiss));
}

#[test]
fn resolve_into_gap_misses() {
    let t = translator(two_slots());
    assert_eq!(t.resolve(0x1F00, 0x200), Err(KvmError::TranslationMiss));
}

#[test]
fn resolve_whole_slot_and_one_more_byte() {
    let t = translator(two_slots());
    assert_eq!(t.resolve(0x1000, 0x1000).unwrap().host_addr, HOST_A);
    assert_eq!(t.resolve(0x1000, 0x1001), Err(KvmError::TranslationMiss));
    assert_eq!(t.resolve(0x2000, 0), Err(KvmError::TranslationMiss));
}

#[test]
fn resolve_across_adjacent_slots_misses() {
    let t = translator(vec![slot(0x1000, 0x1000, HOST_A), slot(0x2000, 0x1000, HOST_B)]);
    assert_eq!(t.resolve(0x1ff8, 0x10), Err(KvmError::TranslationMiss));
    assert_eq!(t.resolve(0x1ff8, 0x8).unwrap().slot, 0);
    assert_eq!(t.resolve(0x2000, 0x8).unwrap(), Resolved { slot: 1, host_addr: HOST_B, offset: 0 });
}

#[test]
fn empty_table_misses_everywhere() {
    let t = translator(Vec::new());
    for addr in [0u64, 0x1000, 0xffff_ffff, u64::MAX] {
        assert_eq!(t.resolve(addr, 1), Err(KvmError::TranslationMiss));
        assert_eq!(t.resolve(addr, 0), Err(KvmError::TranslationMiss));
    }
    assert!(t.memory_map().is_empty());
}

#[test]
fn empty_guard_releases_nothing() {
    let g = AutoMunmap::new(Vec::new());
    assert_eq!(g.len(), 0);
    assert!(g.unmap_list().is_empty());
}

#[test]
fn unmap_list_gives_host_ranges() {
    let g = AutoMunmap::new(two_slots());
    assert_eq!(g.unmap_list(), vec![(HOST_A, 0x1000), (HOST_B, 0x1000)]);
}

#[test]
fn build_rejects_overlap() {
    let slots = vec![slot(0x1000, 0x2000, HOST_A), slot(0x2000, 0x1000, HOST_B)];
    let guard = Arc::new(AutoMunmap::new(slots.clone()));
    assert_eq!(AddressTranslator::build(slots, guard).err(), Some(KvmError::MappingFailure));
}

#[test]
fn build_rejects_empty_slot() {
    let slots = vec![slot(0x1000, 0, HOST_A)];
    let guard = Arc::new(AutoMunmap::new(slots.clone()));
    assert_eq!(AddressTranslator::build(slots, guard).err(), Some(KvmError::MappingFailure));
}

#[test]
fn build_rejects_slot_past_address_space() {
    let slots = vec![slot(u64::MAX - 0xfff, 0x1000, HOST_A)];
    let guard = Arc::new(AutoMunmap::new(slots.clone()));
    assert_eq!(AddressTranslator::build(slots, guard).err(), Some(KvmError::MappingFailure));
}

#[test]
fn build_accepts_later_slot_ending_at_earlier_base() {
    let slots = vec![slot(0x2000, 0x1000, HOST_A), slot(0x1000, 0x1000, HOST_B)];
    let t = translator(slots.clone());
    assert_eq!(t.slots(), &slots);
    let bases: Vec<u64> = t.memory_map().iter().map(|m| m.base().to_umem()).collect();
    assert_eq!(bases, vec![0x1000, 0x2000]);
    assert_eq!(t.resolve(0x1ff0, 0x10).unwrap(), Resolved { slot: 1, host_addr: HOST_B + 0xff0, offset: 0xff0 });
    assert_eq!(t.resolve(0x2000, 0x10).unwrap(), Resolved { slot: 0, host_addr: HOST_A, offset: 0 });
    assert_eq!(t.resolve(0x1ff0, 0x20), Err(KvmError::TranslationMiss));
}

#[test]
fn build_rejects_contained_slot() {
    let slots = vec![slot(0x3000, 0x100, HOST_A), slot(0x1000, 0x8000, HOST_B)];
    let guard = Arc::new(AutoMunmap::new(slots.clone()));
    assert_eq!(AddressTranslator::build(slots, guard).err(), Some(KvmError::MappingFailure));
}

#[test]
fn build_sorts_memory_map_by_base() {
    let slots = vec![slot(0x5000, 0x1000, HOST_B), slot(0x1000, 0x1000, HOST_A)];
    let t = translator(slots.clone());
    assert_eq!(t.slots(), &slots);
    let bases: Vec<u64> = t.memory_map().iter().map(|m| m.base().to_umem()).collect();
    assert_eq!(bases, vec![0x1000, 0x5000]);
    let outputs: Vec<(u64, u64)> =
        t.memory_map().iter().map(|m| (m.output().0.to_umem(), m.output().1)).collect();
    assert_eq!(outputs, vec![(HOST_A, 0x1000), (HOST_B, 0x1000)]);
    assert_eq!(t.resolve(0x5008, 8).unwrap(), Resolved { slot: 0, host_addr: HOST_B + 8, offset: 8 });
}

#[test]
fn memory_map_sorted_for_any_table_order() {
    let slots = vec![
        slot(0x1000, 0x1000, HOST_A),
        slot(0x8000, 0x1000, HOST_B),
        slot(0x4000, 0x1000, HOST_B + 0x1000),
    ];
    let t = translator(slots);
    let bases: Vec<u64> = t.memory_map().iter().map(|m| m.base().to_umem()).collect();
    assert_eq!(bases, vec![0x1000, 0x4000, 0x8000]);
    let t = translator(vec![
        slot(0x8000, 0x1000, HOST_B),
        slot(0x4000, 0x1000, HOST_B + 0x1000),
        slot(0x1000, 0x1000, HOST_A),
    ]);
    let c = t.clone();
    let bases: Vec<u64> = c.memory_map().iter().map(|m| m.base().to_umem()).collect();
    assert_eq!(bases, vec![0x1000, 0x4000, 0x8000]);
}

#[test]
fn clone_shares_guard_and_slots() {
    let t = translator(two_slots());
    let before = Arc::strong_count(t.guard());
    let c = t.clone();
    assert_eq!(Arc::strong_count(t.guard()), before + 1);
    assert!(Arc::ptr_eq(t.guard(), c.guard()));
    assert_eq!(c.slots(), t.slots());
    assert_eq!(c.memory_map().iter().count(), 2);
    assert_eq!(c.resolve(0x1500, 0x100), t.resolve(0x1500, 0x100));
}

#[test]
fn release_happens_once_after_last_clone() {
    let slots = vec![
        slot(0x1000, 0x1000, HOST_A),
        slot(0x5000, 0x2000, HOST_B),
        slot(0x9000, 0x1000, HOST_B + 0x2000),
    ];
    let unmapped = Arc::new(Mutex::new(Vec::new()));
    let guard = Arc::new(CountingGuard {
        inner: AutoMunmap::new(slots.clone()),
        unmapped: unmapped.clone(),
    });
    let t = AddressTranslator::build(slots, guard).unwrap();
    let clones: Vec<AddressTranslator<CountingGuard>> = (0..5).map(|_| t.clone()).collect();
    drop(t);
    let mut rest = clones;
    let last = rest.pop().unwrap();
    drop(rest);
    assert!(unmapped.lock().unwrap().is_empty());
    drop(last);
    assert_eq!(
        *unmapped.lock().unwrap(),
        vec![(HOST_A, 0x1000), (HOST_B, 0x2000), (HOST_B + 0x2000, 0x1000)]
    );
}
