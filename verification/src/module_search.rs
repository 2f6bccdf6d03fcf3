use vstd::prelude::*;
use crate::memory::{is_readable_committed_region, MemoryRegion};
use crate::pattern::{matches_at, parse_pattern};

#[allow(unused_imports)]
use crate::memory::{can_be_read, law_readable_exactly, readable_committed};
#[allow(unused_imports)]
use crate::pattern::{fits_at, written_pattern};

verus! {

/// Where a loaded module lies in memory.
#[derive(Clone, Copy, Debug, PartialEq, Eq, Structural)]
pub struct ModuleImage {
    pub base: usize,
    pub size: u32,
}

/// A search that is under way: the module's bounds, the address that comes next and the place where
/// the pattern has been seen.
#[derive(Debug, PartialEq, Eq)]
pub struct Scan {
    pub pattern: Vec<Option<u8>>,
    pub module_start: usize,
    pub module_end: usize,
    pub cursor: usize,
    pub found: Option<usize>,
}

/// The search for the one place in a module where a pattern fits. Each state but the last waits for
/// the answer to one question.
#[derive(Debug, PartialEq, Eq)]
pub enum ModuleSearch {
    /// Where does the module lie?
    Inspect { module: usize, pattern: Vec<Option<u8>> },
    /// Which region holds the address `scan.cursor`?
    Query { scan: Scan },
    /// Which bytes lie from `start` to before `end`? The search goes on at `next`.
    Read { scan: Scan, start: usize, end: usize, next: usize },
    /// The search is over.
    Done { found: Option<usize> },
}

/// The answer to a search's question.
#[derive(Debug)]
pub enum SearchReply<'a> {
    /// The module's place, unless it could not be had.
    Image(Option<ModuleImage>),
    /// The region, unless it could not be had.
    Region(Option<MemoryRegion>),
    /// The bytes.
    Bytes(&'a [u8]),
}

/// The addresses at which the pattern fits bytes that lie at `start`, in rising order, as far as
/// their offset is below `limit`.
pub open spec fn hits_below(
    pattern: Seq<Option<u8>>,
    start: usize,
    bytes: Seq<u8>,
    limit: int,
) -> Seq<usize>
    decreases limit,
{
    if limit <= 0 {
        seq![]
    } else if fits_at(pattern, bytes, limit - 1) {
        hits_below(pattern, start, bytes, limit - 1).push((start + limit - 1) as usize)
    } else {
        hits_below(pattern, start, bytes, limit - 1)
    }
}

/// The addresses at which the pattern fits bytes that lie at `start`, in rising order.
pub open spec fn hits(pattern: Seq<Option<u8>>, start: usize, bytes: Seq<u8>) -> Seq<usize> {
    hits_below(pattern, start, bytes, (bytes.len() + 1) as int)
}

/// What is known so far as a sequence of at most one address.
pub open spec fn known(found: Option<usize>) -> Seq<usize> {
    match found {
        Some(address) => seq![address],
        None => seq![],
    }
}

/// The only element of a sequence, if it has just one.
pub open spec fn sole(addresses: Seq<usize>) -> Option<usize> {
    if addresses.len() == 1 {
        Some(addresses[0])
    } else {
        None
    }
}

/// The part of a region that lies in the module: its first address.
pub open spec fn clipped_start(scan: Scan, region: MemoryRegion) -> usize {
    if region.base < scan.module_start {
        scan.module_start
    } else {
        region.base
    }
}

/// The part of a region that lies in the module: the address behind it.
pub open spec fn clipped_end(scan: Scan, region: MemoryRegion) -> usize {
    if region.end() < scan.module_end {
        region.end()
    } else {
        scan.module_end
    }
}

/// The region's part in the module can be read and has room for the pattern.
pub open spec fn worth_reading(scan: Scan, region: MemoryRegion) -> bool {
    &&& readable_committed(region)
    &&& clipped_start(scan, region) < clipped_end(scan, region)
    &&& scan.pattern@.len() <= clipped_end(scan, region) - clipped_start(scan, region)
}

impl Scan {
    /// The search goes on at `next`, unless that is no progress or lies behind the module.
    pub open spec fn resumed(self, next: usize) -> ModuleSearch {
        if self.cursor < next < self.module_end {
            ModuleSearch::Query { scan: Scan { cursor: next, ..self } }
        } else {
            ModuleSearch::Done { found: self.found }
        }
    }

    /// Goes on at `next`.
    fn resume(self, next: usize) -> (r: ModuleSearch)
        ensures
            r == self.resumed(next),
    {
        if next <= self.cursor || next >= self.module_end {
            ModuleSearch::Done { found: self.found }
        } else {
            ModuleSearch::Query {
                scan: Scan {
                    pattern: self.pattern,
                    module_start: self.module_start,
                    module_end: self.module_end,
                    cursor: next,
                    found: self.found,
                },
            }
        }
    }
}

impl ModuleSearch {
    /// What follows once the module's place is known.
    pub open spec fn after_image(self, image: Option<ModuleImage>) -> ModuleSearch {
        match (self, image) {
            (ModuleSearch::Inspect { module, pattern }, Some(image)) => {
                let end = image.base + image.size;
                if pattern@.len() > image.size || end > usize::MAX || image.size == 0 {
                    ModuleSearch::Done { found: None }
                } else {
                    ModuleSearch::Query { scan: first_scan(pattern, image) }
                }
            },
            (ModuleSearch::Inspect { module, pattern }, None) => ModuleSearch::Done { found: None },
            _ => self,
        }
    }

    /// What follows once the region at the cursor is known.
    pub open spec fn after_region(self, region: Option<MemoryRegion>) -> ModuleSearch {
        match (self, region) {
            (ModuleSearch::Query { scan }, Some(region)) => if worth_reading(scan, region) {
                ModuleSearch::Read {
                    scan,
                    start: clipped_start(scan, region),
                    end: clipped_end(scan, region),
                    next: region.end(),
                }
            } else {
                scan.resumed(region.end())
            },
            (ModuleSearch::Query { scan }, None) => ModuleSearch::Done { found: scan.found },
            _ => self,
        }
    }

    /// What follows once the bytes are known: a second hit ends the search, with nothing found.
    pub open spec fn after_bytes(self, bytes: Seq<u8>) -> ModuleSearch {
        match self {
            ModuleSearch::Read { scan, start, end, next } => if start + bytes.len() == end {
                let all = known(scan.found) + hits(scan.pattern@, start, bytes);
                if all.len() > 1 {
                    ModuleSearch::Done { found: None }
                } else {
                    (Scan { found: sole(all), ..scan }).resumed(next)
                }
            } else {
                self
            },
            _ => self,
        }
    }

    /// What follows upon a reply. One that answers another question changes nothing.
    pub open spec fn after(self, reply: SearchReply<'_>) -> ModuleSearch {
        match reply {
            SearchReply::Image(image) => self.after_image(image),
            SearchReply::Region(region) => self.after_region(region),
            SearchReply::Bytes(bytes) => self.after_bytes(bytes@),
        }
    }

    /// Takes the answer to the search's question.
    pub fn step(self, reply: SearchReply<'_>) -> (r: ModuleSearch)
        ensures
            r == self.after(reply),
    {
        match (self, reply) {
            (ModuleSearch::Inspect { module: _, pattern }, SearchReply::Image(image)) => match image {
                None => ModuleSearch::Done { found: None },
                Some(image) => {
                    let size: usize = image.size as usize;
                    if pattern.len() > size {
                        return ModuleSearch::Done { found: None };
                    }
                    match image.base.checked_add(size) {
                        None => ModuleSearch::Done { found: None },
                        Some(end) => if image.base < end {
                            ModuleSearch::Query {
                                scan: Scan {
                                    pattern,
                                    module_start: image.base,
                                    module_end: end,
                                    cursor: image.base,
                                    found: None,
                                },
                            }
                        } else {
                            ModuleSearch::Done { found: None }
                        },
                    }
                },
            },
            (ModuleSearch::Query { scan }, SearchReply::Region(region)) => match region {
                None => ModuleSearch::Done { found: scan.found },
                Some(region) => {
                    let next: usize = region.region_end();
                    let start: usize = if region.base < scan.module_start {
                        scan.module_start
                    } else {
                        region.base
                    };
                    let end: usize = if next < scan.module_end {
                        next
                    } else {
                        scan.module_end
                    };
                    if is_readable_committed_region(&region) && end > start && end - start
                        >= scan.pattern.len() {
                        ModuleSearch::Read { scan, start, end, next }
                    } else {
                        scan.resume(next)
                    }
                },
            },
            (ModuleSearch::Read { scan, start, end, next }, SearchReply::Bytes(bytes)) => {
                if start > end || end - start != bytes.len() {
                    return ModuleSearch::Read { scan, start, end, next };
                }
                scan.take_bytes(start, bytes, next)
            },
            (state, _) => state,
        }
    }
}

impl Scan {
    /// Looks for the pattern in the bytes that lie at `start` and goes on at `next`.
    fn take_bytes(self, start: usize, bytes: &[u8], next: usize) -> (r: ModuleSearch)
        requires
            start + bytes@.len() <= usize::MAX,
        ensures
            r == ({
                let all = known(self.found) + hits(self.pattern@, start, bytes@);
                if all.len() > 1 {
                    ModuleSearch::Done { found: None }
                } else {
                    (Scan { found: sole(all), ..self }).resumed(next)
                }
            }),
    {
        let count: usize = bytes.len();
        let width: usize = self.pattern.len();
        let mut found: Option<usize> = self.found;
        let ghost pattern = self.pattern@;
        if count >= width {
            let mut offset: usize = 0;
            let last: usize = count - width;
            assert(known(found) + hits_below(pattern, start, bytes@, 0) =~= known(found));
            let mut more: bool = true;
            while more
                invariant
                    count == bytes@.len(),
                    width == pattern.len(),
                    pattern == self.pattern@,
                    start + count <= usize::MAX,
                    last == count - width,
                    more ==> offset <= last && known(self.found) + hits_below(
                        pattern,
                        start,
                        bytes@,
                        offset as int,
                    ) == known(found),
                    !more ==> known(self.found) + hits_below(pattern, start, bytes@, last + 1)
                        == known(found),
                decreases
                    (if more {
                        last - offset + 1
                    } else {
                        0
                    }),
            {
                let ghost seen = hits_below(pattern, start, bytes@, offset as int);
                let ghost now = hits_below(pattern, start, bytes@, offset + 1);
                if matches_at(&self.pattern, bytes, offset) {
                    assert(known(self.found) + now =~= (known(self.found) + seen).push(
                        (start + offset) as usize,
                    ));
                    if found.is_some() {
                        proof {
                            lemma_hits_grow(pattern, start, bytes@, offset + 1, count + 1);
                        }
                        return ModuleSearch::Done { found: None };
                    }
                    found = Some(start + offset);
                    assert(known(self.found) + now =~= known(found));
                }
                if offset == last {
                    more = false;
                } else {
                    offset = offset + 1;
                }
            }
            proof {
                lemma_no_hits_behind(pattern, start, bytes@, last + 1, count + 1);
            }
        } else {
            proof {
                lemma_no_hits_behind(pattern, start, bytes@, 0, count + 1);
                assert(known(found) + hits(pattern, start, bytes@) =~= known(found));
            }
        }
        assert(sole(known(found)) == found);
        let next_scan = Scan {
            pattern: self.pattern,
            module_start: self.module_start,
            module_end: self.module_end,
            cursor: self.cursor,
            found,
        };
        next_scan.resume(next)
    }
}

/// Begins the search for the one place in a module where a pattern fits. A text that is no pattern,
/// or an empty one, is found nowhere.
pub fn search_module_unique(module: usize, pattern: &str) -> (r: ModuleSearch)
    ensures
        match written_pattern(pattern@) {
            Some(bytes) => if bytes.len() > 0 {
                r matches ModuleSearch::Inspect { module: handle, pattern: parsed } && handle
                    == module && parsed@ == bytes
            } else {
                r == (ModuleSearch::Done { found: None })
            },
            None => r == (ModuleSearch::Done { found: None }),
        },
{
    match parse_pattern(pattern) {
        Some(parsed) => if parsed.len() == 0 {
            ModuleSearch::Done { found: None }
        } else {
            ModuleSearch::Inspect { module, pattern: parsed }
        },
        None => ModuleSearch::Done { found: None },
    }
}

/// The bytes from `start` to before `end`.
pub open spec fn bytes_between(memory: spec_fn(int) -> u8, start: usize, end: usize) -> Seq<u8> {
    Seq::new((end - start) as nat, |i: int| memory(start + i))
}

/// The places in one region where the pattern fits.
pub open spec fn region_hits(
    memory: spec_fn(int) -> u8,
    scan: Scan,
    region: MemoryRegion,
) -> Seq<usize> {
    if worth_reading(scan, region) {
        let start = clipped_start(scan, region);
        hits(scan.pattern@, start, bytes_between(memory, start, clipped_end(scan, region)))
    } else {
        seq![]
    }
}

/// The places where the pattern fits in the regions from `cursor` on, each region on its own. The
/// walk ends behind the module, at an address without a region, and at a region that ends where the
/// walk already is.
pub open spec fn walked_hits(
    regions: spec_fn(usize) -> Option<MemoryRegion>,
    memory: spec_fn(int) -> u8,
    scan: Scan,
    cursor: usize,
) -> Seq<usize>
    decreases usize::MAX - cursor,
{
    if cursor < scan.module_end {
        match regions(cursor) {
            None => seq![],
            Some(region) => if cursor < region.end() {
                region_hits(memory, scan, region) + walked_hits(
                    regions,
                    memory,
                    scan,
                    region.end(),
                )
            } else {
                region_hits(memory, scan, region)
            },
        }
    } else {
        seq![]
    }
}

/// The search in a module as it begins.
pub open spec fn first_scan(pattern: Vec<Option<u8>>, image: ModuleImage) -> Scan {
    Scan {
        pattern,
        module_start: image.base,
        module_end: (image.base + image.size) as usize,
        cursor: image.base,
        found: None,
    }
}

/// The one place in a module where the pattern fits.
pub open spec fn unique_match(
    regions: spec_fn(usize) -> Option<MemoryRegion>,
    memory: spec_fn(int) -> u8,
    pattern: Vec<Option<u8>>,
    image: ModuleImage,
) -> Option<usize> {
    let end = image.base + image.size;
    if pattern@.len() <= image.size && end <= usize::MAX {
        sole(walked_hits(regions, memory, first_scan(pattern, image), image.base))
    } else {
        None
    }
}

impl ModuleSearch {
    /// Where the search stands after `steps` answers out of a memory that does not change.
    pub open spec fn driven(
        self,
        regions: spec_fn(usize) -> Option<MemoryRegion>,
        memory: spec_fn(int) -> u8,
        steps: nat,
    ) -> ModuleSearch
        decreases steps,
    {
        if steps == 0 {
            self
        } else {
            let next = match self {
                ModuleSearch::Query { scan } => self.after_region(regions(scan.cursor)),
                ModuleSearch::Read { scan, start, end, next } => self.after_bytes(
                    bytes_between(memory, start, end),
                ),
                _ => self,
            };
            next.driven(regions, memory, (steps - 1) as nat)
        }
    }
}

/// A search that is over stays where it is.
proof fn lemma_done_stays(
    regions: spec_fn(usize) -> Option<MemoryRegion>,
    memory: spec_fn(int) -> u8,
    found: Option<usize>,
    steps: nat,
)
    ensures
        (ModuleSearch::Done { found }).driven(regions, memory, steps) == (ModuleSearch::Done {
            found,
        }),
    decreases steps,
{
    if steps > 0 {
        lemma_done_stays(regions, memory, found, (steps - 1) as nat);
    }
}

/// The walk depends on the pattern and the module's bounds alone.
proof fn lemma_walk_ignores_progress(
    regions: spec_fn(usize) -> Option<MemoryRegion>,
    memory: spec_fn(int) -> u8,
    one: Scan,
    other: Scan,
    cursor: usize,
)
    requires
        one.pattern == other.pattern,
        one.module_start == other.module_start,
        one.module_end == other.module_end,
    ensures
        walked_hits(regions, memory, one, cursor) == walked_hits(regions, memory, other, cursor),
    decreases usize::MAX - cursor,
{
    if cursor < one.module_end {
        if let Some(region) = regions(cursor) {
            if cursor < region.end() {
                lemma_walk_ignores_progress(regions, memory, one, other, region.end());
            }
        }
    }
}

/// A search that is under way ends with the one hit among what it knows and what the rest of its
/// walk holds.
pub proof fn law_scan_ends_with_sole_hit(
    regions: spec_fn(usize) -> Option<MemoryRegion>,
    memory: spec_fn(int) -> u8,
    scan: Scan,
    steps: nat,
)
    requires
        scan.cursor < scan.module_end,
        steps >= 2 * (scan.module_end - scan.cursor),
    ensures
        (ModuleSearch::Query { scan }).driven(regions, memory, steps) == (ModuleSearch::Done {
            found: sole(known(scan.found) + walked_hits(regions, memory, scan, scan.cursor)),
        }),
    decreases scan.module_end - scan.cursor,
{
    let state = ModuleSearch::Query { scan };
    let before = known(scan.found);
    match regions(scan.cursor) {
        None => {
            lemma_done_stays(regions, memory, scan.found, (steps - 1) as nat);
            assert(before + walked_hits(regions, memory, scan, scan.cursor) =~= before);
        },
        Some(region) => {
            let here = region_hits(memory, scan, region);
            let all = before + here;
            let later = if scan.cursor < region.end() {
                walked_hits(regions, memory, scan, region.end())
            } else {
                seq![]
            };
            assert(before + walked_hits(regions, memory, scan, scan.cursor) =~= all + later);
            let resumed = Scan { found: sole(all), ..scan };
            let after = state.after_region(regions(scan.cursor));
            let left: nat = if worth_reading(scan, region) {
                (steps - 2) as nat
            } else {
                (steps - 1) as nat
            };
            if worth_reading(scan, region) {
                let start = clipped_start(scan, region);
                let end = clipped_end(scan, region);
                let bytes = bytes_between(memory, start, end);
                assert(here == hits(scan.pattern@, start, bytes));
                assert(state.driven(regions, memory, steps) == after.driven(
                    regions,
                    memory,
                    (steps - 1) as nat,
                ));
                assert(after.driven(regions, memory, (steps - 1) as nat) == after.after_bytes(
                    bytes,
                ).driven(regions, memory, left));
            } else {
                assert(all =~= before);
                assert(resumed == scan);
            }
            if all.len() > 1 {
                lemma_done_stays(regions, memory, None, left);
            } else {
                assert(known(sole(all)) =~= all);
                if scan.cursor < region.end() && region.end() < scan.module_end {
                    let onward = Scan { cursor: region.end(), ..resumed };
                    law_scan_ends_with_sole_hit(regions, memory, onward, left);
                    lemma_walk_ignores_progress(regions, memory, scan, onward, region.end());
                } else {
                    lemma_done_stays(regions, memory, sole(all), left);
                    assert(all + later =~= all);
                }
            }
        },
    }
}

/// A search in a memory that does not change ends with the one place in the module where the pattern
/// fits, and with nothing where it fits nowhere or more than once.
pub proof fn law_search_finds_unique_match(
    regions: spec_fn(usize) -> Option<MemoryRegion>,
    memory: spec_fn(int) -> u8,
    module: usize,
    pattern: Vec<Option<u8>>,
    image: ModuleImage,
    steps: nat,
)
    requires
        steps >= 2 * image.size,
    ensures
        (ModuleSearch::Inspect { module, pattern }).after_image(Some(image)).driven(regions, memory, steps)
            == (ModuleSearch::Done { found: unique_match(regions, memory, pattern, image) }),
{
    let state = (ModuleSearch::Inspect { module, pattern }).after_image(Some(image));
    match state {
        ModuleSearch::Query { scan } => {
            law_scan_ends_with_sole_hit(regions, memory, scan, steps);
            let walked = walked_hits(regions, memory, scan, image.base);
            assert(known(None) + walked =~= walked);
        },
        _ => {
            lemma_done_stays(regions, memory, None, steps);
        },
    }
}

/// Each address among the hits of some bytes is one at which the pattern fits them.
proof fn lemma_hits_fit(
    pattern: Seq<Option<u8>>,
    start: usize,
    bytes: Seq<u8>,
    limit: int,
    at: int,
)
    requires
        start + bytes.len() <= usize::MAX,
        0 <= at < hits_below(pattern, start, bytes, limit).len(),
    ensures
        fits_at(pattern, bytes, hits_below(pattern, start, bytes, limit)[at] - start),
    decreases limit,
{
    if limit > 0 && at < hits_below(pattern, start, bytes, limit - 1).len() {
        lemma_hits_fit(pattern, start, bytes, limit - 1, at);
    }
}

/// The pattern fits the memory at an address.
pub open spec fn fits_memory(
    pattern: Seq<Option<u8>>,
    memory: spec_fn(int) -> u8,
    address: int,
) -> bool {
    forall|i: int|
        0 <= i < pattern.len() ==> (#[trigger] pattern[i] matches Some(byte) ==> memory(address + i)
            == byte)
}

/// Each address that the walk meets lies in the module, with room for the pattern, and the pattern
/// fits there.
proof fn lemma_walk_stays_in_module(
    regions: spec_fn(usize) -> Option<MemoryRegion>,
    memory: spec_fn(int) -> u8,
    scan: Scan,
    cursor: usize,
    at: int,
)
    requires
        0 <= at < walked_hits(regions, memory, scan, cursor).len(),
    ensures
        ({
            let address = walked_hits(regions, memory, scan, cursor)[at];
            &&& scan.module_start <= address
            &&& address + scan.pattern@.len() <= scan.module_end
            &&& fits_memory(scan.pattern@, memory, address as int)
        }),
    decreases usize::MAX - cursor,
{
    if let Some(region) = regions(cursor) {
        let here = region_hits(memory, scan, region);
        if at < here.len() {
            let start = clipped_start(scan, region);
            let bytes = bytes_between(memory, start, clipped_end(scan, region));
            lemma_hits_fit(scan.pattern@, start, bytes, (bytes.len() + 1) as int, at);
            let address = here[at];
            assert forall|i: int| 0 <= i < scan.pattern@.len() implies (
            #[trigger] scan.pattern@[i] matches Some(byte) ==> memory(address + i) == byte) by {
                if let Some(byte) = scan.pattern@[i] {
                    assert(bytes[address - start + i] == byte);
                }
            }
        } else {
            lemma_walk_stays_in_module(regions, memory, scan, region.end(), at - here.len());
        }
    }
}

/// The one place that a search finds lies in the module, with room for the whole pattern, and the
/// memory there fits the pattern.
pub proof fn law_unique_match_lies_in_module(
    regions: spec_fn(usize) -> Option<MemoryRegion>,
    memory: spec_fn(int) -> u8,
    pattern: Vec<Option<u8>>,
    image: ModuleImage,
)
    ensures
        unique_match(regions, memory, pattern, image) matches Some(address) ==> {
            &&& image.base <= address
            &&& address + pattern@.len() <= image.base + image.size
            &&& fits_memory(pattern@, memory, address as int)
        },
{
    if let Some(address) = unique_match(regions, memory, pattern, image) {
        let scan = first_scan(pattern, image);
        lemma_walk_stays_in_module(regions, memory, scan, image.base, 0);
    }
}

/// A higher limit leaves the hits below a lower one in place.
proof fn lemma_hits_grow(
    pattern: Seq<Option<u8>>,
    start: usize,
    bytes: Seq<u8>,
    low: int,
    high: int,
)
    requires
        low <= high,
    ensures
        hits_below(pattern, start, bytes, low).len() <= hits_below(
            pattern,
            start,
            bytes,
            high,
        ).len(),
    decreases high - low,
{
    if low < high {
        lemma_hits_grow(pattern, start, bytes, low, high - 1);
    }
}

/// No hit lies where the pattern has no room.
proof fn lemma_no_hits_behind(
    pattern: Seq<Option<u8>>,
    start: usize,
    bytes: Seq<u8>,
    low: int,
    high: int,
)
    requires
        0 <= low <= high,
        bytes.len() - pattern.len() < low,
    ensures
        hits_below(pattern, start, bytes, high) == hits_below(pattern, start, bytes, low),
    decreases high - low,
{
    if low < high {
        lemma_no_hits_behind(pattern, start, bytes, low, high - 1);
    }
}

impl ModuleSearch {
    /// The search is in a module from `low` to before `high`, for a pattern of `width` bytes: it
    /// reads only there, and what it has found lies there with room for the pattern.
    pub open spec fn confined(self, low: usize, high: usize, width: nat) -> bool {
        let lies_inside = |found: Option<usize>|
            found matches Some(address) ==> low <= address && address + width <= high;
        match self {
            ModuleSearch::Inspect { module, pattern } => false,
            ModuleSearch::Query { scan } => {
                &&& scan.pattern@.len() == width
                &&& scan.module_start == low
                &&& scan.module_end == high
                &&& lies_inside(scan.found)
            },
            ModuleSearch::Read { scan, start, end, next } => {
                &&& scan.pattern@.len() == width
                &&& scan.module_start == low
                &&& scan.module_end == high
                &&& low <= start < end <= high
                &&& lies_inside(scan.found)
            },
            ModuleSearch::Done { found } => lies_inside(found),
        }
    }

    /// The reply answers the question that the search asks.
    pub open spec fn answers(self, reply: SearchReply<'_>) -> bool {
        match (self, reply) {
            (ModuleSearch::Inspect { module, pattern }, SearchReply::Image(image)) => true,
            (ModuleSearch::Query { scan }, SearchReply::Region(region)) => true,
            (
                ModuleSearch::Read { scan, start, end, next },
                SearchReply::Bytes(bytes),
            ) => start + bytes@.len() == end,
            _ => false,
        }
    }

    /// How many answers may still be asked for, at most.
    pub open spec fn distance(self) -> int {
        match self {
            ModuleSearch::Inspect { module, pattern } => 2 * usize::MAX + 2,
            ModuleSearch::Query { scan } => if scan.cursor < scan.module_end {
                2 * (scan.module_end - scan.cursor) + 1
            } else {
                2
            },
            ModuleSearch::Read { scan, start, end, next } => if scan.cursor < scan.module_end {
                2 * (scan.module_end - scan.cursor)
            } else {
                1
            },
            ModuleSearch::Done { found } => 0,
        }
    }
}

/// Whatever is answered, a search that has learned where its module lies reads nothing outside it,
/// and finds only places inside it with room for the whole pattern.
pub proof fn law_search_stays_in_module(
    state: ModuleSearch,
    reply: SearchReply<'_>,
    low: usize,
    high: usize,
    width: nat,
)
    ensures
        state.confined(low, high, width) ==> state.after(reply).confined(low, high, width),
        state matches ModuleSearch::Inspect { module, pattern } ==> reply matches SearchReply::Image(
            Some(image),
        ) ==> image.base == low && image.base + image.size == high && pattern@.len() == width
            ==> state.after(reply).confined(low, high, width),
{
    if let (ModuleSearch::Read { scan, start, end, next }, SearchReply::Bytes(bytes)) = (
        state,
        reply,
    ) {
        let seen = hits(scan.pattern@, start, bytes@);
        if state.confined(low, high, width) && start + bytes@.len() == end && seen.len() > 0 {
            lemma_hits_fit(scan.pattern@, start, bytes@, (bytes@.len() + 1) as int, 0);
            let all = known(scan.found) + seen;
            if scan.found is None {
                assert(all =~= seen);
            }
        }
    }
}

/// Every answer brings a search nearer to its end, so that it ends whatever is answered.
pub proof fn law_search_ends(state: ModuleSearch, reply: SearchReply<'_>)
    requires
        state.answers(reply),
    ensures
        0 <= state.after(reply).distance() < state.distance(),
{
}

/// The part of a region that is read, in a memory that does not change.
pub open spec fn region_bytes(
    memory: spec_fn(int) -> u8,
    scan: Scan,
    region: MemoryRegion,
) -> Seq<u8> {
    bytes_between(memory, clipped_start(scan, region), clipped_end(scan, region))
}

/// The regions that the walk from `cursor` on meets.
pub open spec fn walked_regions(
    regions: spec_fn(usize) -> Option<MemoryRegion>,
    scan: Scan,
    cursor: usize,
) -> Seq<MemoryRegion>
    decreases usize::MAX - cursor,
{
    if cursor < scan.module_end {
        match regions(cursor) {
            None => seq![],
            Some(region) => if cursor < region.end() {
                seq![region] + walked_regions(regions, scan, region.end())
            } else {
                seq![region]
            },
        }
    } else {
        seq![]
    }
}

/// Each offset at which the pattern fits gives one of the hits.
proof fn lemma_fits_are_hits(
    pattern: Seq<Option<u8>>,
    start: usize,
    bytes: Seq<u8>,
    limit: int,
    offset: int,
)
    requires
        0 <= offset < limit,
        fits_at(pattern, bytes, offset),
    ensures
        hits_below(pattern, start, bytes, limit).contains((start + offset) as usize),
    decreases limit,
{
    let all = hits_below(pattern, start, bytes, limit);
    if offset == limit - 1 {
        assert(all.last() == (start + offset) as usize);
    } else {
        lemma_fits_are_hits(pattern, start, bytes, limit - 1, offset);
        let fewer = hits_below(pattern, start, bytes, limit - 1);
        let at = choose|i: int|
            0 <= i < fewer.len() && fewer[i] == (start + offset) as usize;
        assert(all[at] == fewer[at]);
    }
}

/// Each place where the pattern fits in a region that the walk meets is among the walk's hits.
proof fn lemma_walk_misses_nothing(
    regions: spec_fn(usize) -> Option<MemoryRegion>,
    memory: spec_fn(int) -> u8,
    scan: Scan,
    cursor: usize,
    at: int,
    offset: int,
)
    requires
        0 <= at < walked_regions(regions, scan, cursor).len(),
        worth_reading(scan, walked_regions(regions, scan, cursor)[at]),
        fits_at(
            scan.pattern@,
            region_bytes(memory, scan, walked_regions(regions, scan, cursor)[at]),
            offset,
        ),
    ensures
        walked_hits(regions, memory, scan, cursor).contains(
            (clipped_start(scan, walked_regions(regions, scan, cursor)[at]) + offset) as usize,
        ),
    decreases usize::MAX - cursor,
{
    let region = regions(cursor)->0;
    let here = region_hits(memory, scan, region);
    let all = walked_hits(regions, memory, scan, cursor);
    let place = (clipped_start(scan, walked_regions(regions, scan, cursor)[at]) + offset) as usize;
    if at == 0 {
        let bytes = region_bytes(memory, scan, region);
        lemma_fits_are_hits(
            scan.pattern@,
            clipped_start(scan, region),
            bytes,
            (bytes.len() + 1) as int,
            offset,
        );
        let i = choose|i: int| 0 <= i < here.len() && here[i] == place;
        assert(all[i] == place);
    } else {
        lemma_walk_misses_nothing(regions, memory, scan, region.end(), at - 1, offset);
        let later = walked_hits(regions, memory, scan, region.end());
        let i = choose|i: int| 0 <= i < later.len() && later[i] == place;
        assert(all[here.len() + i] == place);
    }
}

/// Where a search finds a place, the pattern fits nowhere else in the regions that can be read: any
/// place in them where it fits is the one that was found.
pub proof fn law_found_place_is_the_only_one(
    regions: spec_fn(usize) -> Option<MemoryRegion>,
    memory: spec_fn(int) -> u8,
    pattern: Vec<Option<u8>>,
    image: ModuleImage,
    region: MemoryRegion,
    offset: int,
)
    requires
        unique_match(regions, memory, pattern, image) is Some,
        walked_regions(regions, first_scan(pattern, image), image.base).contains(region),
        worth_reading(first_scan(pattern, image), region),
        fits_at(pattern@, region_bytes(memory, first_scan(pattern, image), region), offset),
    ensures
        unique_match(regions, memory, pattern, image) == Some(
            (clipped_start(first_scan(pattern, image), region) + offset) as usize,
        ),
{
    let scan = first_scan(pattern, image);
    let met = walked_regions(regions, scan, image.base);
    let at = choose|i: int| 0 <= i < met.len() && met[i] == region;
    lemma_walk_misses_nothing(regions, memory, scan, image.base, at, offset);
}

/// The pattern fits at an address inside the part of a region that is read.
pub open spec fn fits_in_region(
    memory: spec_fn(int) -> u8,
    scan: Scan,
    region: MemoryRegion,
    address: usize,
) -> bool {
    &&& worth_reading(scan, region)
    &&& fits_at(
        scan.pattern@,
        region_bytes(memory, scan, region),
        address - clipped_start(scan, region),
    )
}

/// The pattern fits at an address in one of the regions that the walk from `cursor` on meets.
pub open spec fn fits_in_walk(
    regions: spec_fn(usize) -> Option<MemoryRegion>,
    memory: spec_fn(int) -> u8,
    scan: Scan,
    cursor: usize,
    address: usize,
) -> bool {
    exists|at: int|
        0 <= at < walked_regions(regions, scan, cursor).len() && fits_in_region(
            memory,
            scan,
            #[trigger] walked_regions(regions, scan, cursor)[at],
            address,
        )
}

/// No two of the regions overlap.
pub open spec fn regions_apart(met: Seq<MemoryRegion>) -> bool {
    forall|i: int, j: int|
        0 <= i < j < met.len() ==> (#[trigger] met[i]).end() <= (#[trigger] met[j]).base
            || met[j].end() <= met[i].base
}

/// A hit below a limit lies below the limit, and no hit comes twice.
proof fn lemma_hits_rise(pattern: Seq<Option<u8>>, start: usize, bytes: Seq<u8>, limit: int)
    requires
        start + bytes.len() <= usize::MAX,
    ensures
        forall|i: int|
            0 <= i < hits_below(pattern, start, bytes, limit).len() ==> start <= #[trigger] hits_below(
                pattern,
                start,
                bytes,
                limit,
            )[i] < start + limit,
        hits_below(pattern, start, bytes, limit).no_duplicates(),
    decreases limit,
{
    if limit > 0 {
        lemma_hits_rise(pattern, start, bytes, limit - 1);
    }
}

/// Each hit of the walk fits in one of the regions that the walk meets.
proof fn lemma_walk_hit_has_region(
    regions: spec_fn(usize) -> Option<MemoryRegion>,
    memory: spec_fn(int) -> u8,
    scan: Scan,
    cursor: usize,
    at: int,
)
    requires
        0 <= at < walked_hits(regions, memory, scan, cursor).len(),
    ensures
        fits_in_walk(
            regions,
            memory,
            scan,
            cursor,
            walked_hits(regions, memory, scan, cursor)[at],
        ),
    decreases usize::MAX - cursor,
{
    let region = regions(cursor)->0;
    let here = region_hits(memory, scan, region);
    let address = walked_hits(regions, memory, scan, cursor)[at];
    let met = walked_regions(regions, scan, cursor);
    if at < here.len() {
        let bytes = region_bytes(memory, scan, region);
        lemma_hits_fit(
            scan.pattern@,
            clipped_start(scan, region),
            bytes,
            (bytes.len() + 1) as int,
            at,
        );
        assert(met[0] == region);
        assert(fits_in_region(memory, scan, met[0], address));
    } else {
        lemma_walk_hit_has_region(regions, memory, scan, region.end(), at - here.len());
        let later = walked_regions(regions, scan, region.end());
        let i = choose|i: int|
            0 <= i < later.len() && fits_in_region(memory, scan, #[trigger] later[i], address);
        assert(met[i + 1] == later[i]);
    }
}

/// Each place in the walk where the pattern fits is among the walk's hits.
pub proof fn lemma_walk_fit_is_hit(
    regions: spec_fn(usize) -> Option<MemoryRegion>,
    memory: spec_fn(int) -> u8,
    scan: Scan,
    cursor: usize,
    address: usize,
)
    requires
        fits_in_walk(regions, memory, scan, cursor, address),
    ensures
        walked_hits(regions, memory, scan, cursor).contains(address),
{
    let met = walked_regions(regions, scan, cursor);
    let at = choose|at: int|
        0 <= at < met.len() && fits_in_region(memory, scan, #[trigger] met[at], address);
    lemma_walk_misses_nothing(
        regions,
        memory,
        scan,
        cursor,
        at,
        address - clipped_start(scan, met[at]),
    );
}

/// Where the pattern fits in the walk, it fits the memory; where it fits another memory at the same
/// place too, it fits in the walk through that one.
pub proof fn lemma_walk_fit_is_memory_fit(
    regions: spec_fn(usize) -> Option<MemoryRegion>,
    memory: spec_fn(int) -> u8,
    other_memory: spec_fn(int) -> u8,
    scan: Scan,
    cursor: usize,
    address: usize,
)
    requires
        fits_in_walk(regions, memory, scan, cursor, address),
    ensures
        fits_memory(scan.pattern@, memory, address as int),
        fits_memory(scan.pattern@, other_memory, address as int) ==> fits_in_walk(
            regions,
            other_memory,
            scan,
            cursor,
            address,
        ),
{
    let met = walked_regions(regions, scan, cursor);
    let at = choose|at: int|
        0 <= at < met.len() && fits_in_region(memory, scan, #[trigger] met[at], address);
    let region = met[at];
    let start = clipped_start(scan, region);
    let bytes = region_bytes(memory, scan, region);
    assert forall|i: int| 0 <= i < scan.pattern@.len() implies (
    #[trigger] scan.pattern@[i] matches Some(byte) ==> memory(address + i) == byte) by {
        if let Some(byte) = scan.pattern@[i] {
            assert(bytes[address - start + i] == byte);
        }
    }
    if fits_memory(scan.pattern@, other_memory, address as int) {
        assert(fits_in_region(other_memory, scan, met[at], address));
    }
}

/// Where the regions of a walk do not overlap, no place is hit twice.
proof fn lemma_walk_hits_once(
    regions: spec_fn(usize) -> Option<MemoryRegion>,
    memory: spec_fn(int) -> u8,
    scan: Scan,
    cursor: usize,
)
    requires
        scan.pattern@.len() > 0,
        regions_apart(walked_regions(regions, scan, cursor)),
    ensures
        walked_hits(regions, memory, scan, cursor).no_duplicates(),
    decreases usize::MAX - cursor,
{
    if cursor < scan.module_end && regions(cursor) is Some {
        let region = regions(cursor)->0;
        let here = region_hits(memory, scan, region);
        let bytes = region_bytes(memory, scan, region);
        if worth_reading(scan, region) {
            lemma_hits_rise(
                scan.pattern@,
                clipped_start(scan, region),
                bytes,
                (bytes.len() + 1) as int,
            );
        }
        if cursor < region.end() {
            let met = walked_regions(regions, scan, cursor);
            let later = walked_regions(regions, scan, region.end());
            let behind = walked_hits(regions, memory, scan, region.end());
            assert forall|i: int, j: int| 0 <= i < j < later.len() implies (
            #[trigger] later[i]).end() <= (#[trigger] later[j]).base || later[j].end()
                <= later[i].base by {
                assert(met[i + 1] == later[i]);
                assert(met[j + 1] == later[j]);
            }
            lemma_walk_hits_once(regions, memory, scan, region.end());
            assert forall|i: int, j: int|
                0 <= i < here.len() && 0 <= j < behind.len() implies here[i] != behind[j] by {
                lemma_hits_fit(
                    scan.pattern@,
                    clipped_start(scan, region),
                    bytes,
                    (bytes.len() + 1) as int,
                    i,
                );
                lemma_walk_hit_has_region(regions, memory, scan, region.end(), j);
                let at = choose|at: int|
                    0 <= at < later.len() && fits_in_region(
                        memory,
                        scan,
                        #[trigger] later[at],
                        behind[j],
                    );
                assert(met[0] == region);
                assert(met[at + 1] == later[at]);
            }
        }
    }
}

/// The pattern fits at an address in one of the module's regions that can be read.
pub open spec fn fits_in_module(
    regions: spec_fn(usize) -> Option<MemoryRegion>,
    memory: spec_fn(int) -> u8,
    pattern: Vec<Option<u8>>,
    image: ModuleImage,
    address: usize,
) -> bool {
    fits_in_walk(regions, memory, first_scan(pattern, image), image.base, address)
}

/// Where the regions that the walk meets do not overlap, a search finds a place exactly where the
/// pattern fits there and nowhere else in the regions that can be read. It finds nothing exactly
/// where the pattern fits at no place, or at two at least.
pub proof fn law_search_is_exact(
    regions: spec_fn(usize) -> Option<MemoryRegion>,
    memory: spec_fn(int) -> u8,
    pattern: Vec<Option<u8>>,
    image: ModuleImage,
)
    requires
        pattern@.len() > 0,
        image.base + image.size <= usize::MAX,
        regions_apart(walked_regions(regions, first_scan(pattern, image), image.base)),
    ensures
        forall|address: usize|
            #![trigger fits_in_module(regions, memory, pattern, image, address)]
            unique_match(regions, memory, pattern, image) == Some(address) <==> (fits_in_module(
                regions,
                memory,
                pattern,
                image,
                address,
            ) && forall|other: usize| #[trigger]
                fits_in_module(regions, memory, pattern, image, other) ==> other == address),
        unique_match(regions, memory, pattern, image) is None <==> ((forall|address: usize|
            !#[trigger] fits_in_module(regions, memory, pattern, image, address)) || (exists|
            one: usize,
            other: usize,
        |
            one != other && #[trigger] fits_in_module(regions, memory, pattern, image, one)
                && #[trigger] fits_in_module(regions, memory, pattern, image, other))),
{
    let scan = first_scan(pattern, image);
    let all = walked_hits(regions, memory, scan, image.base);
    let found = unique_match(regions, memory, pattern, image);
    lemma_walk_hits_once(regions, memory, scan, image.base);
    assert forall|address: usize| #[trigger]
        fits_in_module(regions, memory, pattern, image, address) <==> all.contains(address) by {
        if fits_in_module(regions, memory, pattern, image, address) {
            lemma_walk_fit_is_hit(regions, memory, scan, image.base, address);
        }
        if all.contains(address) {
            let at = choose|at: int| 0 <= at < all.len() && all[at] == address;
            lemma_walk_hit_has_region(regions, memory, scan, image.base, at);
        }
    }
    if all.len() == 0 {
        assert(found is None);
    } else {
        assert(all.contains(all[0]));
        assert(fits_in_module(regions, memory, pattern, image, all[0]));
        assert(pattern@.len() <= image.size);
        if all.len() == 1 {
            assert(found == Some(all[0]));
        } else {
            assert(all.contains(all[1]));
            assert(fits_in_module(regions, memory, pattern, image, all[1]));
            assert(all[0] != all[1]);
            assert(found is None);
        }
    }
}

/// A pattern that fits nowhere in the module's regions that can be read is not found.
pub proof fn law_no_fit_is_not_found(
    regions: spec_fn(usize) -> Option<MemoryRegion>,
    memory: spec_fn(int) -> u8,
    pattern: Vec<Option<u8>>,
    image: ModuleImage,
)
    requires
        forall|address: usize|
            !#[trigger] fits_in_module(regions, memory, pattern, image, address),
    ensures
        unique_match(regions, memory, pattern, image) is None,
{
    if let Some(address) = unique_match(regions, memory, pattern, image) {
        lemma_walk_hit_has_region(regions, memory, first_scan(pattern, image), image.base, 0);
        assert(fits_in_module(regions, memory, pattern, image, address));
    }
}

/// Each address from `low` to before `high` lies in a region, and every other address of that region
/// lies in the same one.
pub open spec fn tiled(
    regions: spec_fn(usize) -> Option<MemoryRegion>,
    low: int,
    high: int,
) -> bool {
    forall|address: usize|
        low <= address < high ==> (#[trigger] regions(address) matches Some(region) && {
            &&& region.base <= address < region.base + region.size
            &&& forall|other: usize|
                low <= other < high && region.base <= other < region.base + region.size
                    ==> #[trigger] regions(other) == Some(region)
        })
}

/// The first address of the part of a region that does not lie before `low`.
spec fn first_from(region: MemoryRegion, low: usize) -> usize {
    if region.base < low {
        low
    } else {
        region.base
    }
}

/// Through regions that leave no gap, a walk meets each region that it comes upon once, one behind
/// the other.
proof fn lemma_walk_through_tiles(
    regions: spec_fn(usize) -> Option<MemoryRegion>,
    scan: Scan,
    cursor: usize,
    limit: usize,
)
    requires
        scan.module_start <= cursor,
        limit <= scan.module_end,
        tiled(regions, scan.module_start as int, limit as int),
        cursor < limit ==> cursor == scan.module_start || regions(cursor)->0.base == cursor,
        limit < scan.module_end ==> cursor <= limit && regions(limit) is None && forall|
            address: usize,
        |
            scan.module_start <= address < limit ==> (#[trigger] regions(address))->0.base + regions(
                address,
            )->0.size <= limit,
    ensures
        forall|at: int|
            0 <= at < walked_regions(regions, scan, cursor).len() ==> {
                let region = #[trigger] walked_regions(regions, scan, cursor)[at];
                let first = first_from(region, scan.module_start);
                cursor <= first < limit && regions(first) == Some(region)
            },
        regions_apart(walked_regions(regions, scan, cursor)),
        forall|address: usize|
            cursor <= address < limit ==> walked_regions(regions, scan, cursor).contains(
                (#[trigger] regions(address))->0,
            ),
    decreases usize::MAX - cursor,
{
    let met = walked_regions(regions, scan, cursor);
    if cursor < limit {
        let region = regions(cursor)->0;
        let behind = region.end();
        assert(regions(cursor) is Some);
        assert(cursor < behind);
        let later = walked_regions(regions, scan, behind);
        let first = first_from(region, scan.module_start);
        assert(met =~= seq![region] + later);
        assert(regions(first) == Some(region));
        if behind < limit {
            assert(behind == region.base + region.size);
            let next = regions(behind)->0;
            let last = (behind - 1) as usize;
            assert(regions(behind) is Some);
            assert(regions(last) == Some(region));
            if next.base < behind {
                assert(regions(last) == Some(next));
            }
        }
        lemma_walk_through_tiles(regions, scan, behind, limit);
        assert forall|at: int| 0 <= at < met.len() implies {
            let region = #[trigger] met[at];
            let first = first_from(region, scan.module_start);
            cursor <= first < limit && regions(first) == Some(region)
        } by {
            if at > 0 {
                assert(met[at] == later[at - 1]);
            }
        }
        assert forall|i: int, j: int| 0 <= i < j < met.len() implies (#[trigger] met[i]).end() <= (
        #[trigger] met[j]).base || met[j].end() <= met[i].base by {
            assert(met[j] == later[j - 1]);
            if i > 0 {
                assert(met[i] == later[i - 1]);
            }
        }
        assert forall|address: usize| cursor <= address < limit implies met.contains(
            (#[trigger] regions(address))->0,
        ) by {
            if address < region.base + region.size {
                assert(regions(address) == Some(region));
                assert(met[0] == region);
            } else {
                assert(later.contains(regions(address)->0));
                let at = choose|at: int| 0 <= at < later.len() && later[at] == regions(address)->0;
                assert(met[at + 1] == later[at]);
            }
        }
    } else {
        assert(met =~= seq![]);
    }
}

/// The pattern is seen at an address: all of it lies in one region that can be read, and in the
/// module, and the memory there fits it.
pub open spec fn seen_at(
    regions: spec_fn(usize) -> Option<MemoryRegion>,
    memory: spec_fn(int) -> u8,
    pattern: Seq<Option<u8>>,
    image: ModuleImage,
    address: usize,
) -> bool {
    &&& image.base <= address
    &&& address + pattern.len() <= image.base + image.size
    &&& regions(address) matches Some(region) && {
        &&& can_be_read(region)
        &&& address + pattern.len() <= region.base + region.size
    }
    &&& fits_memory(pattern, memory, address as int)
}

/// Where regions leave no gap up to `limit`, and none follows there or the module ends, the places
/// below the limit at which a pattern is seen are those where it fits in the module.
proof fn lemma_seen_is_fit(
    regions: spec_fn(usize) -> Option<MemoryRegion>,
    memory: spec_fn(int) -> u8,
    pattern: Vec<Option<u8>>,
    image: ModuleImage,
    limit: usize,
    address: usize,
)
    requires
        pattern@.len() > 0,
        image.base <= limit <= image.base + image.size <= usize::MAX,
        tiled(regions, image.base as int, limit as int),
        limit < image.base + image.size ==> regions(limit) is None && forall|other: usize|
            image.base <= other < limit ==> (#[trigger] regions(other))->0.base + regions(
                other,
            )->0.size <= limit,
    ensures
        fits_in_module(regions, memory, pattern, image, address) <==> address < limit && seen_at(
            regions,
            memory,
            pattern@,
            image,
            address,
        ),
{
    let scan = first_scan(pattern, image);
    let met = walked_regions(regions, scan, image.base);
    lemma_walk_through_tiles(regions, scan, image.base, limit);
    if fits_in_module(regions, memory, pattern, image, address) {
        lemma_walk_fit_is_memory_fit(regions, memory, memory, scan, image.base, address);
        let at = choose|at: int|
            0 <= at < met.len() && fits_in_region(memory, scan, #[trigger] met[at], address);
        law_readable_exactly(met[at]);
        let first = first_from(met[at], image.base);
        assert(regions(first) == Some(met[at]));
        assert(address < limit);
        assert(regions(address) == Some(met[at]));
    }
    if address < limit && seen_at(regions, memory, pattern@, image, address) {
        let region = regions(address)->0;
        law_readable_exactly(region);
        assert(met.contains(region));
        let at = choose|at: int| 0 <= at < met.len() && met[at] == region;
        assert(region.base <= address);
        assert(worth_reading(scan, region));
        assert(fits_in_region(memory, scan, met[at], address));
    }
}

/// A search in a module whose regions leave no gap, up to its end or to an address without a region,
/// finds a place exactly where the pattern is seen there and nowhere else.
pub proof fn law_search_finds_what_is_seen_once(
    regions: spec_fn(usize) -> Option<MemoryRegion>,
    memory: spec_fn(int) -> u8,
    module: usize,
    pattern: Vec<Option<u8>>,
    image: ModuleImage,
    limit: usize,
    steps: nat,
)
    requires
        pattern@.len() > 0,
        image.base <= limit <= image.base + image.size <= usize::MAX,
        tiled(regions, image.base as int, limit as int),
        limit < image.base + image.size ==> regions(limit) is None && forall|other: usize|
            image.base <= other < limit ==> (#[trigger] regions(other))->0.base + regions(
                other,
            )->0.size <= limit,
        steps >= 2 * image.size,
    ensures
        (ModuleSearch::Inspect { module, pattern }).after(SearchReply::Image(Some(image))).driven(
            regions,
            memory,
            steps,
        ) matches ModuleSearch::Done { found } && forall|address: usize|
            #![trigger seen_at(regions, memory, pattern@, image, address)]
            found == Some(address) <==> (address < limit && seen_at(
                regions,
                memory,
                pattern@,
                image,
                address,
            ) && forall|other: usize|
                other < limit && #[trigger] seen_at(regions, memory, pattern@, image, other)
                    ==> other == address),
{
    let scan = first_scan(pattern, image);
    lemma_walk_through_tiles(regions, scan, image.base, limit);
    law_search_is_exact(regions, memory, pattern, image);
    law_search_finds_unique_match(regions, memory, module, pattern, image, steps);
    let found = unique_match(regions, memory, pattern, image);
    assert forall|address: usize|
        #![trigger seen_at(regions, memory, pattern@, image, address)]
        fits_in_module(regions, memory, pattern, image, address) <==> address < limit && seen_at(
            regions,
            memory,
            pattern@,
            image,
            address,
        ) by {
        lemma_seen_is_fit(regions, memory, pattern, image, limit, address);
    }
    assert forall|address: usize|
        #![trigger fits_in_module(regions, memory, pattern, image, address)]
        fits_in_module(regions, memory, pattern, image, address) ==> address < limit && seen_at(
            regions,
            memory,
            pattern@,
            image,
            address,
        ) by {
        lemma_seen_is_fit(regions, memory, pattern, image, limit, address);
    }
}

/// Once it is known where the module lies, the search covers all of it, from its base on and with
/// nothing found. A module without room for the pattern, without any bytes or beyond the last address
/// ends the search, and so does one that is not known.
pub proof fn law_search_covers_module(module: usize, pattern: Vec<Option<u8>>, image: ModuleImage)
    ensures
        ({
            let state = ModuleSearch::Inspect { module, pattern };
            let next = state.after(SearchReply::Image(Some(image)));
            &&& state.after(SearchReply::Image(None)) == (ModuleSearch::Done { found: None })
            &&& if 0 < image.size && pattern@.len() <= image.size && image.base + image.size
                <= usize::MAX {
                next matches ModuleSearch::Query { scan } && {
                    &&& scan.pattern == pattern
                    &&& scan.module_start == image.base
                    &&& scan.cursor == image.base
                    &&& scan.module_end == image.base + image.size
                    &&& scan.found is None
                }
            } else {
                next == (ModuleSearch::Done { found: None })
            }
        }),
{
}

/// What becomes of a search that goes on at `next`: it asks for the region there, unless that lies
/// behind the module or not behind what has been covered.
pub open spec fn goes_on_at(
    state: ModuleSearch,
    scan: Scan,
    found: Option<usize>,
    next: int,
) -> bool {
    if scan.cursor < next && next < scan.module_end {
        state matches ModuleSearch::Query { scan: onward } && {
            &&& onward.pattern == scan.pattern
            &&& onward.module_start == scan.module_start
            &&& onward.module_end == scan.module_end
            &&& onward.cursor == next
            &&& onward.found == found
        }
    } else {
        state == (ModuleSearch::Done { found })
    }
}

/// Of a region that can be read, all that lies in the module is asked for, from the later of the two
/// bases to before the earlier of the two ends, where the pattern has room there; any other region is
/// passed over. Either way the search goes on behind the region, and it ends with what it has where
/// there is no region.
pub proof fn law_region_is_read_whole(scan: Scan, region: MemoryRegion)
    ensures
        ({
            let state = ModuleSearch::Query { scan };
            let next = state.after(SearchReply::Region(Some(region)));
            let behind: int = if region.base + region.size <= usize::MAX {
                region.base + region.size
            } else {
                usize::MAX as int
            };
            let low = vstd::math::max(region.base as int, scan.module_start as int);
            let high = vstd::math::min(region.base + region.size, scan.module_end as int);
            &&& state.after(SearchReply::Region(None)) == (ModuleSearch::Done { found: scan.found })
            &&& if can_be_read(region) && low < high && scan.pattern@.len() <= high - low {
                next matches ModuleSearch::Read { scan: kept, start, end, next: onward } && {
                    &&& kept == scan
                    &&& start == low
                    &&& end == high
                    &&& onward == behind
                }
            } else {
                goes_on_at(next, scan, scan.found, behind)
            }
        }),
{
    law_readable_exactly(region);
}

/// Where bytes that have been asked for fit the pattern nowhere, the search goes on with what it has;
/// where they fit it at one place, and nothing was found before, it goes on with that place; where
/// they fit it at a second place, it ends with nothing.
pub proof fn law_bytes_are_searched(
    scan: Scan,
    start: usize,
    end: usize,
    next: usize,
    bytes: &[u8],
    one: int,
    other: int,
)
    requires
        start + bytes@.len() == end,
    ensures
        ({
            let state = ModuleSearch::Read { scan, start, end, next };
            let after = state.after(SearchReply::Bytes(bytes));
            let fits = |offset: int| fits_at(scan.pattern@, bytes@, offset);
            &&& (forall|offset: int| !#[trigger] fits_at(scan.pattern@, bytes@, offset))
                ==> goes_on_at(after, scan, scan.found, next as int)
            &&& fits(one) && scan.found is None && (forall|offset: int| #[trigger]
                fits_at(scan.pattern@, bytes@, offset) ==> offset == one) ==> goes_on_at(
                after,
                scan,
                Some((start + one) as usize),
                next as int,
            )
            &&& fits(one) && scan.found is Some ==> after == (ModuleSearch::Done { found: None })
            &&& fits(one) && fits(other) && one != other ==> after == (ModuleSearch::Done {
                found: None,
            })
        }),
{
    let pattern = scan.pattern@;
    let limit = (bytes@.len() + 1) as int;
    let seen = hits(pattern, start, bytes@);
    let all = known(scan.found) + seen;
    lemma_hits_rise(pattern, start, bytes@, limit);
    assert forall|at: int| 0 <= at < seen.len() implies fits_at(
        pattern,
        bytes@,
        #[trigger] seen[at] - start,
    ) by {
        lemma_hits_fit(pattern, start, bytes@, limit, at);
    }
    if fits_at(pattern, bytes@, one) {
        lemma_fits_are_hits(pattern, start, bytes@, limit, one);
        let i = choose|i: int| 0 <= i < seen.len() && seen[i] == (start + one) as usize;
        assert(seen[i] == start + one);
        if fits_at(pattern, bytes@, other) && one != other {
            lemma_fits_are_hits(pattern, start, bytes@, limit, other);
            let j = choose|j: int| 0 <= j < seen.len() && seen[j] == (start + other) as usize;
            assert(seen[j] == start + other);
            assert(seen.len() > 1);
        }
        if scan.found is None && (forall|offset: int| #[trigger]
            fits_at(pattern, bytes@, offset) ==> offset == one) {
            if seen.len() > 1 {
                assert(fits_at(pattern, bytes@, seen[0] - start));
                assert(fits_at(pattern, bytes@, seen[1] - start));
                assert(seen[0] == seen[1]);
            }
            assert(all =~= seen);
            assert(sole(all) == Some((start + one) as usize));
        }
    }
    if forall|offset: int| !#[trigger] fits_at(pattern, bytes@, offset) {
        if seen.len() > 0 {
            assert(fits_at(pattern, bytes@, seen[0] - start));
        }
        assert(all =~= known(scan.found));
    }
}

/// An answer to another question than the one that a search asks changes nothing, and so does one
/// that comes after the end, or with another number of bytes than was asked for.
pub proof fn law_search_ignores_other_answers(state: ModuleSearch, reply: SearchReply<'_>)
    ensures
        !state.answers(reply) ==> state.after(reply) == state,
{
}

} // verus!
