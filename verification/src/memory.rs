use vstd::prelude::*;
use crate::win32::{
    mem_commit, page_execute_read, page_execute_readwrite, page_execute_writecopy, page_guard,
    page_noaccess, page_readonly, page_readwrite, page_writecopy,
};

#[allow(unused_imports)]
use crate::win32::{
    MEM_COMMIT, PAGE_EXECUTE_READ, PAGE_EXECUTE_READWRITE, PAGE_EXECUTE_WRITECOPY, PAGE_GUARD,
    PAGE_NOACCESS, PAGE_READONLY, PAGE_READWRITE, PAGE_WRITECOPY,
};

verus! {

/// A run of pages with the same state and protection.
#[derive(Clone, Copy, Debug, PartialEq, Eq, Structural)]
pub struct MemoryRegion {
    pub base: usize,
    pub size: usize,
    pub state: u32,
    pub protect: u32,
}

impl MemoryRegion {
    /// The address behind the region, or the last address where the region reaches beyond it.
    pub open spec fn end(self) -> usize {
        if self.base + self.size <= usize::MAX {
            (self.base + self.size) as usize
        } else {
            usize::MAX
        }
    }

    /// The address behind the region.
    pub fn region_end(&self) -> (r: usize)
        ensures
            r == self.end(),
    {
        self.base.saturating_add(self.size)
    }
}

/// The kinds of access under which bytes can be read.
pub open spec fn readable_kind(kind: u32) -> bool {
    ||| kind == PAGE_READONLY
    ||| kind == PAGE_READWRITE
    ||| kind == PAGE_WRITECOPY
    ||| kind == PAGE_EXECUTE_READ
    ||| kind == PAGE_EXECUTE_READWRITE
    ||| kind == PAGE_EXECUTE_WRITECOPY
}

/// The region holds bytes that can be read without raising an alarm.
pub open spec fn readable_committed(region: MemoryRegion) -> bool {
    &&& region.state == MEM_COMMIT
    &&& region.protect & PAGE_GUARD == 0
    &&& region.protect & PAGE_NOACCESS == 0
    &&& readable_kind(region.protect & 0xff)
}

/// Whether the bytes of a region can be read.
pub fn is_readable_committed_region(region: &MemoryRegion) -> (r: bool)
    ensures
        r == readable_committed(*region),
{
    let protect: u32 = region.protect;
    if region.state != mem_commit() {
        return false;
    }
    assert(protect & (0x100u32 | 0x01u32) == 0 <==> (protect & 0x100u32 == 0 && protect & 0x01u32
        == 0)) by (bit_vector);
    if (protect & (page_guard() | page_noaccess())) != 0 {
        return false;
    }
    let kind: u32 = protect & 0xff;
    kind == page_readonly() || kind == page_readwrite() || kind == page_writecopy() || kind
        == page_execute_read() || kind == page_execute_readwrite() || kind
        == page_execute_writecopy()
}

/// A region that can be read raises no alarm, and the access that it grants is neither "none" nor
/// "run only".
pub proof fn law_readable_region_grants_reading(region: MemoryRegion)
    requires
        readable_committed(region),
    ensures
        region.protect & 0xff != 0,
        region.protect & 0xff != PAGE_NOACCESS,
        region.protect & 0xff != 0x10,
        region.protect & PAGE_GUARD == 0,
{
}

/// The bytes of a region can be read: it is backed by storage, its guard bit is not set, and the low
/// byte of its protection names one of the six kinds of access that grant reading.
pub open spec fn can_be_read(region: MemoryRegion) -> bool {
    let kind = region.protect as int % 0x100;
    &&& region.state == 0x1000
    &&& (region.protect as int / 0x100) % 2 == 0
    &&& {
        ||| kind == 2
        ||| kind == 4
        ||| kind == 8
        ||| kind == 32
        ||| kind == 64
        ||| kind == 128
    }
}

/// The regions that count as readable are exactly those whose bytes can be read.
pub proof fn law_readable_exactly(region: MemoryRegion)
    ensures
        readable_committed(region) <==> can_be_read(region),
{
    let protect = region.protect;
    assert(protect & 0xff == protect % 0x100) by (bit_vector);
    assert(protect & 0x100 == 0 <==> (protect / 0x100) % 2 == 0) by (bit_vector);
    assert(protect & 0x01 == 1 ==> (protect % 0x100) % 2 == 1) by (bit_vector);
    assert(protect & 0x01 == 0 || protect & 0x01 == 1) by (bit_vector);
}

/// A region ends `size` bytes behind its base, or at the last address where that lies beyond it.
pub proof fn law_region_end(region: MemoryRegion)
    ensures
        region.base + region.size <= usize::MAX ==> region.end() - region.base == region.size,
        region.base + region.size > usize::MAX ==> region.end() == usize::MAX,
{
}

} // verus!
