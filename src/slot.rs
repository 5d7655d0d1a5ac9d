use crate::error::KvmError;
use vstd::prelude::*;

verus! {

/// The probe capacity conventionally used for layout and map requests.
pub const DEFAULT_SLOT_CAPACITY: usize = 64;

/// One slot as the mediator reports it: the guest-physical range
/// `[base, base + map_size)` and, after a map request, the host-virtual
/// address `host_base` at which it is mapped.
#[derive(Debug, Clone, Copy, PartialEq, Eq, Structural)]
pub struct SlotDescriptor {
    pub base: u64,
    pub map_size: u64,
    pub host_base: u64,
}

impl SlotDescriptor {
    /// The first guest-physical address past the slot.
    pub open spec fn end(self) -> int {
        self.base + self.map_size
    }

    /// The slot is nonempty and neither its guest range nor its host range
    /// runs past the end of the 64-bit address space.
    pub open spec fn well_formed(self) -> bool {
        &&& self.map_size > 0
        &&& self.base + self.map_size <= u64::MAX
        &&& self.host_base + self.map_size <= u64::MAX
    }

    /// The two slots' guest-physical ranges share no address.
    pub open spec fn disjoint(self, other: SlotDescriptor) -> bool {
        self.end() <= other.base || other.end() <= self.base
    }
}

/// No two slots of `s` share a guest-physical address.
pub open spec fn pairwise_disjoint(s: Seq<SlotDescriptor>) -> bool {
    forall|i: int, j: int|
        0 <= i < s.len() && 0 <= j < s.len() && i != j ==> (#[trigger] s[i]).disjoint(
            #[trigger] s[j],
        )
}

/// The answer to a layout query: the VM's owner process, the number of slots
/// the mediator says the VM has, and the slots that fit in the buffer, in the
/// mediator's order.
#[derive(Debug, Clone)]
pub struct VmLayout {
    pub pid: i32,
    pub actual_count: u32,
    pub slots: Vec<SlotDescriptor>,
}

impl VmLayout {
    /// The reply may have been cut short: the mediator knows at least as many
    /// slots as the buffer could hold, so a request with a larger capacity
    /// may return more.
    pub fn maybe_truncated(&self, capacity: usize) -> (r: bool)
        ensures
            r == (self.actual_count as int >= capacity as int),
    {
        self.actual_count as u64 >= capacity as u64
    }
}

/// The slots that a reply keeps: the first `count` of the buffer, or the
/// whole buffer where the mediator reports more slots than it holds.
pub open spec fn kept_slots(buffer: Seq<SlotDescriptor>, count: u32) -> Seq<SlotDescriptor> {
    if count as int <= buffer.len() {
        buffer.take(count as int)
    } else {
        buffer
    }
}

/// Cuts the buffer that the mediator filled down to the slots it reported.
pub fn truncate_reply(buffer: Vec<SlotDescriptor>, count: u32) -> (r: Vec<SlotDescriptor>)
    ensures
        r@ == kept_slots(buffer@, count),
        r@.len() == if count as int <= buffer@.len() { count as int } else { buffer@.len() as int },
{
    let mut buffer = buffer;
    if (count as u64) < (buffer.len() as u64) {
        buffer.truncate(count as usize);
    }
    buffer
}

/// Turns the outcome of a layout request into its result: `ret` is what the
/// request returned, `code` the OS error code where it failed, `pid`,
/// `count` and `buffer` what the mediator wrote.
pub fn layout_from_reply(ret: i32, code: i32, pid: i32, count: u32, buffer: Vec<SlotDescriptor>) -> (r:
    Result<VmLayout, KvmError>)
    ensures
        ret < 0 ==> r == Err::<VmLayout, KvmError>(KvmError::ProtocolError(code)),
        ret >= 0 ==> r.is_ok() && r.unwrap().pid == pid && r.unwrap().actual_count == count
            && r.unwrap().slots@ == kept_slots(buffer@, count),
{
    if ret < 0 {
        Err(KvmError::ProtocolError(code))
    } else {
        let slots = truncate_reply(buffer, count);
        Ok(VmLayout { pid, actual_count: count, slots })
    }
}

/// Turns the outcome of a map request into the slots that are now mapped.
pub fn mapped_from_reply(ret: i32, code: i32, count: u32, buffer: Vec<SlotDescriptor>) -> (r: Result<
    Vec<SlotDescriptor>,
    KvmError,
>)
    ensures
        ret < 0 ==> r == Err::<Vec<SlotDescriptor>, KvmError>(KvmError::ProtocolError(code)),
        ret >= 0 ==> r.is_ok() && r.unwrap()@ == kept_slots(buffer@, count),
{
    if ret < 0 {
        Err(KvmError::ProtocolError(code))
    } else {
        Ok(truncate_reply(buffer, count))
    }
}

/// The selector that an open-VM request carries: zero, meaning any VM, where
/// none is given.
pub fn vm_selector(pid: Option<i32>) -> (r: i32)
    ensures
        r == match pid {
            Some(p) => p,
            None => 0i32,
        },
{
    match pid {
        Some(p) => p,
        None => 0,
    }
}

/// A layout reply from a buffer smaller than the VM's slot count keeps every
/// slot of the buffer, in the mediator's order, and still reports the true
/// count, which differs from the buffer's capacity.
pub proof fn lemma_short_buffer_keeps_prefix(buffer: Seq<SlotDescriptor>, count: u32)
    requires
        buffer.len() < count,
    ensures
        kept_slots(buffer, count) == buffer,
        kept_slots(buffer, count).len() != count,
{
}

} // verus!
