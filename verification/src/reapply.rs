//! What patches that have been applied leave behind: none of them is found a second time.
use vstd::prelude::*;

#[allow(unused_imports)]
use crate::hook::{
    applied_from, law_patch_lands_in_module, law_recall_counts_applied,
    law_unfound_patches_write_nothing, Recall, RecallReply,
};
#[allow(unused_imports)]
use crate::memory::MemoryRegion;
#[allow(unused_imports)]
use crate::module_search::{
    first_scan, fits_in_module, fits_memory, law_no_fit_is_not_found,
    law_unique_match_lies_in_module, lemma_walk_fit_is_hit, lemma_walk_fit_is_memory_fit,
    unique_match, ModuleImage,
};
#[allow(unused_imports)]
use crate::patch::{
    law_patches_stay_in_match, lemma_patch_pattern, overwritten, patch_pattern, recall_patches,
    PatchSpec,
};
#[allow(unused_imports)]
use crate::pattern::written_pattern;

verus! {

/// At the place `at` of some known bytes, a pattern that lies `shift` places further on asks for
/// another byte.
pub open spec fn clash_at(
    pattern: Seq<Option<u8>>,
    bytes: Seq<Option<u8>>,
    shift: int,
    at: int,
) -> bool {
    &&& 0 <= at < bytes.len()
    &&& 0 <= at - shift < pattern.len()
    &&& bytes[at] is Some
    &&& pattern[at - shift] is Some
    &&& bytes[at] != pattern[at - shift]
}

/// A pattern that lies `shift` places further on does not fit the known bytes.
pub open spec fn clashes(pattern: Seq<Option<u8>>, bytes: Seq<Option<u8>>, shift: int) -> bool {
    exists|at: int| clash_at(pattern, bytes, shift, at)
}

/// Places of a patch's match that, between them, tell every shifted pattern apart.
spec fn telling_places(at: int) -> (int, int, int, int, int) {
    if at == 0 {
        (4, 6, 7, 8, 10)
    } else if at == 1 {
        (3, 4, 5, 6, 7)
    } else {
        (0, 1, 2, 3, 4)
    }
}

/// A pattern clashes with the known bytes at one of the places, for each of `count` shifts from `low`
/// on.
spec fn clashes_throughout(
    pattern: Seq<Option<u8>>,
    bytes: Seq<Option<u8>>,
    places: (int, int, int, int, int),
    low: int,
    count: nat,
) -> bool
    decreases count,
{
    if count == 0 {
        true
    } else {
        let shift = low + count - 1;
        &&& clashes_throughout(pattern, bytes, places, low, (count - 1) as nat)
        &&& {
            ||| clash_at(pattern, bytes, shift, places.0)
            ||| clash_at(pattern, bytes, shift, places.1)
            ||| clash_at(pattern, bytes, shift, places.2)
            ||| clash_at(pattern, bytes, shift, places.3)
            ||| clash_at(pattern, bytes, shift, places.4)
        }
    }
}

/// What `clashes_throughout` says of one shift.
proof fn lemma_clashes_throughout_at(
    pattern: Seq<Option<u8>>,
    bytes: Seq<Option<u8>>,
    places: (int, int, int, int, int),
    low: int,
    count: nat,
    shift: int,
)
    requires
        clashes_throughout(pattern, bytes, places, low, count),
        low <= shift < low + count,
    ensures
        clashes(pattern, bytes, shift),
    decreases count,
{
    if shift < low + count - 1 {
        lemma_clashes_throughout_at(pattern, bytes, places, low, (count - 1) as nat, shift);
    }
}

/// What the patches leave at the telling places.
spec fn telling_bytes(at: int) -> (u8, u8, u8, u8, u8) {
    if at == 0 {
        (0x8B, 0x48, 0x31, 0xC9, 0x84)
    } else if at == 1 {
        (0xFF, 0x50, 0x28, 0x38, 0xC0)
    } else {
        (0x48, 0x31, 0xC0, 0x90, 0x90)
    }
}

/// The telling places hold the telling bytes.
spec fn tells(bytes: Seq<Option<u8>>, at: int) -> bool {
    let places = telling_places(at);
    let values = telling_bytes(at);
    &&& bytes.len() == patch_pattern(at).len()
    &&& bytes[places.0] == Some(values.0)
    &&& bytes[places.1] == Some(values.1)
    &&& bytes[places.2] == Some(values.2)
    &&& bytes[places.3] == Some(values.3)
    &&& bytes[places.4] == Some(values.4)
}

/// A pattern clashes with the telling bytes at each of the shifts, `count` of them from `low` on, at
/// which it lies over a byte that the other patch has written.
#[verifier::rlimit(50)]
proof fn lemma_pattern_clashes(
    list: Seq<PatchSpec>,
    one: int,
    other: int,
    bytes: Seq<Option<u8>>,
    low: int,
    count: nat,
)
    requires
        recall_patches(list),
        0 <= one < list.len(),
        0 <= other < list.len(),
        tells(bytes, other),
        low == list[other].opcode_offset - patch_pattern(one).len() + 1,
        count == patch_pattern(one).len() + list[other].replacement@.len() - 1,
    ensures
        clashes_throughout(patch_pattern(one), bytes, telling_places(other), low, count),
{
    reveal_with_fuel(clashes_throughout, 11);
    let pattern = patch_pattern(one);
    let places = telling_places(other);
    assert(clashes_throughout(pattern, bytes, places, low, 9));
    assert(clashes_throughout(pattern, bytes, places, low, 18));
    assert(clashes_throughout(pattern, bytes, places, low, 27));
    assert(clashes_throughout(pattern, bytes, places, low, 35));
    if one == 0 {
        assert(clashes_throughout(pattern, bytes, places, low, 45));
    }
    assert(clashes_throughout(pattern, bytes, places, low, count));
}

/// A pattern of the list clashes with what a patch of the list leaves, wherever it would lie over a
/// byte that the patch has written.
proof fn lemma_patches_clash(list: Seq<PatchSpec>, one: int, other: int, shift: int)
    requires
        recall_patches(list),
        0 <= one < list.len(),
        0 <= other < list.len(),
        list[other].opcode_offset - patch_pattern(one).len() < shift,
        shift < list[other].opcode_offset + list[other].replacement@.len(),
    ensures
        clashes(
            patch_pattern(one),
            overwritten(
                patch_pattern(other),
                list[other].opcode_offset as int,
                list[other].replacement@,
            ),
            shift,
        ),
{
    let offset = list[other].opcode_offset as int;
    let bytes = overwritten(patch_pattern(other), offset, list[other].replacement@);
    let pattern = patch_pattern(one);
    let low = offset - pattern.len() + 1;
    let count = (pattern.len() + list[other].replacement@.len() - 1) as nat;
    assert(tells(bytes, other));
    lemma_pattern_clashes(list, one, other, bytes, low, count);
    lemma_clashes_throughout_at(pattern, bytes, telling_places(other), low, count, shift);
}

/// A memory once bytes have gone over those that begin at an address.
pub open spec fn rewritten(
    memory: spec_fn(int) -> u8,
    address: int,
    bytes: Seq<u8>,
) -> spec_fn(int) -> u8 {
    |i: int|
        if address <= i < address + bytes.len() {
            bytes[i - address]
        } else {
            memory(i)
        }
}

/// A memory once a patch has been applied at the place of its match.
pub open spec fn patched_at(
    memory: spec_fn(int) -> u8,
    patch: PatchSpec,
    address: int,
) -> spec_fn(int) -> u8 {
    rewritten(memory, address + patch.opcode_offset, patch.replacement@)
}

/// Applying a patch where its pattern fits brings no match of any of the patterns: one that fits
/// afterwards has fitted before, at the same place. The pattern of the patch itself no longer fits
/// there.
pub proof fn law_patch_creates_no_match(
    list: Seq<PatchSpec>,
    one: int,
    other: int,
    memory: spec_fn(int) -> u8,
    address: int,
    place: int,
)
    requires
        recall_patches(list),
        0 <= one < list.len(),
        0 <= other < list.len(),
        fits_memory(patch_pattern(other), memory, address),
        fits_memory(patch_pattern(one), patched_at(memory, list[other], address), place),
    ensures
        fits_memory(patch_pattern(one), memory, place),
        one == other ==> place != address,
{
    let pattern = patch_pattern(one);
    let matched = patch_pattern(other);
    let offset = list[other].opcode_offset as int;
    let replacement = list[other].replacement@;
    let after = patched_at(memory, list[other], address);
    let shift = place - address;
    law_patches_stay_in_match(list, one);
    law_patches_stay_in_match(list, other);
    if offset - pattern.len() < shift < offset + replacement.len() {
        lemma_patches_clash(list, one, other, shift);
        let bytes = overwritten(matched, offset, replacement);
        let at = choose|at: int| clash_at(pattern, bytes, shift, at);
        assert(after(place + (at - shift)) == pattern[at - shift]->0);
        assert(place + (at - shift) == address + at);
        if !(offset <= at < offset + replacement.len()) {
            assert(matched[at] is Some);
            assert(memory(address + at) == matched[at]->0);
        }
        assert(false);
    }
    assert forall|i: int| 0 <= i < pattern.len() implies (#[trigger] pattern[i] matches Some(byte)
        ==> memory(place + i) == byte) by {
        assert(after(place + i) == memory(place + i));
    }
}

/// A patch that has been applied at the place that the search found for it is not found again.
pub proof fn law_applied_patch_is_not_found_again(
    regions: spec_fn(usize) -> Option<MemoryRegion>,
    memory: spec_fn(int) -> u8,
    list: Seq<PatchSpec>,
    at: int,
    pattern: Vec<Option<u8>>,
    image: ModuleImage,
)
    requires
        recall_patches(list),
        0 <= at < list.len(),
        written_pattern(list[at].pattern@) == Some(pattern@),
    ensures
        unique_match(regions, memory, pattern, image) matches Some(address) ==> {
            let after = patched_at(memory, list[at], address as int);
            &&& forall|place: usize| !#[trigger]
                fits_in_module(regions, after, pattern, image, place)
            &&& unique_match(regions, after, pattern, image) is None
        },
{
    if let Some(address) = unique_match(regions, memory, pattern, image) {
        let after = patched_at(memory, list[at], address as int);
        let scan = first_scan(pattern, image);
        lemma_patch_pattern(list, at);
        law_unique_match_lies_in_module(regions, memory, pattern, image);
        assert forall|place: usize| !#[trigger]
            fits_in_module(regions, after, pattern, image, place) by {
            if fits_in_module(regions, after, pattern, image, place) {
                lemma_walk_fit_is_memory_fit(regions, after, memory, scan, image.base, place);
                law_patch_creates_no_match(list, at, at, memory, address as int, place as int);
                lemma_walk_fit_is_hit(regions, memory, scan, image.base, place);
            }
        }
        law_no_fit_is_not_found(regions, after, pattern, image);
    }
}

/// A patch that is applied later brings back no match of an earlier one: a pattern that fits nowhere
/// in the module still fits nowhere, and is not found.
pub proof fn law_later_patch_brings_nothing_back(
    regions: spec_fn(usize) -> Option<MemoryRegion>,
    memory: spec_fn(int) -> u8,
    list: Seq<PatchSpec>,
    earlier: int,
    later: int,
    earlier_pattern: Vec<Option<u8>>,
    later_pattern: Vec<Option<u8>>,
    image: ModuleImage,
)
    requires
        recall_patches(list),
        0 <= earlier < list.len(),
        0 <= later < list.len(),
        written_pattern(list[earlier].pattern@) == Some(earlier_pattern@),
        written_pattern(list[later].pattern@) == Some(later_pattern@),
        forall|place: usize| !#[trigger]
            fits_in_module(regions, memory, earlier_pattern, image, place),
    ensures
        unique_match(regions, memory, later_pattern, image) matches Some(address) ==> {
            let after = patched_at(memory, list[later], address as int);
            &&& forall|place: usize| !#[trigger]
                fits_in_module(regions, after, earlier_pattern, image, place)
            &&& unique_match(regions, after, earlier_pattern, image) is None
        },
{
    if let Some(address) = unique_match(regions, memory, later_pattern, image) {
        let after = patched_at(memory, list[later], address as int);
        let scan = first_scan(earlier_pattern, image);
        lemma_patch_pattern(list, earlier);
        lemma_patch_pattern(list, later);
        law_unique_match_lies_in_module(regions, memory, later_pattern, image);
        assert forall|place: usize| !#[trigger]
            fits_in_module(regions, after, earlier_pattern, image, place) by {
            if fits_in_module(regions, after, earlier_pattern, image, place) {
                lemma_walk_fit_is_memory_fit(regions, after, memory, scan, image.base, place);
                law_patch_creates_no_match(
                    list,
                    earlier,
                    later,
                    memory,
                    address as int,
                    place as int,
                );
                assert(fits_in_module(regions, memory, earlier_pattern, image, place));
            }
        }
        law_no_fit_is_not_found(regions, after, earlier_pattern, image);
    }
}

/// The patterns are those of the patches.
pub open spec fn patterns_of(list: Seq<PatchSpec>, patterns: Seq<Vec<Option<u8>>>) -> bool {
    &&& patterns.len() == list.len()
    &&& forall|i: int|
        0 <= i < list.len() ==> written_pattern(list[i].pattern@) == Some(
            (#[trigger] patterns[i])@,
        )
}

/// A memory once a run has been through the first `count` patches: each that the search finds, and
/// whose bytes can be written, has been applied.
pub open spec fn after_patches(
    regions: spec_fn(usize) -> Option<MemoryRegion>,
    memory: spec_fn(int) -> u8,
    written: spec_fn(int) -> bool,
    list: Seq<PatchSpec>,
    patterns: Seq<Vec<Option<u8>>>,
    image: ModuleImage,
    count: nat,
) -> spec_fn(int) -> u8
    decreases count,
{
    if count == 0 {
        memory
    } else {
        let at = count - 1;
        let before = after_patches(regions, memory, written, list, patterns, image, at as nat);
        match unique_match(regions, before, patterns[at], image) {
            Some(address) if written(at) => patched_at(before, list[at], address as int),
            _ => before,
        }
    }
}

/// A run finds the patch when its turn comes, and writes it.
pub open spec fn applied_in_turn(
    regions: spec_fn(usize) -> Option<MemoryRegion>,
    memory: spec_fn(int) -> u8,
    written: spec_fn(int) -> bool,
    list: Seq<PatchSpec>,
    patterns: Seq<Vec<Option<u8>>>,
    image: ModuleImage,
    at: int,
) -> bool {
    let before = after_patches(regions, memory, written, list, patterns, image, at as nat);
    unique_match(regions, before, patterns[at], image) is Some && written(at)
}

/// A patch that a run has applied is found nowhere from then on, whichever of the later patches the
/// run applies too.
pub proof fn law_applied_patch_stays_unfound(
    regions: spec_fn(usize) -> Option<MemoryRegion>,
    memory: spec_fn(int) -> u8,
    written: spec_fn(int) -> bool,
    list: Seq<PatchSpec>,
    patterns: Seq<Vec<Option<u8>>>,
    image: ModuleImage,
    at: int,
    count: nat,
)
    requires
        recall_patches(list),
        patterns_of(list, patterns),
        0 <= at < count <= list.len(),
        applied_in_turn(regions, memory, written, list, patterns, image, at),
    ensures
        ({
            let after = after_patches(regions, memory, written, list, patterns, image, count);
            &&& forall|place: usize| !#[trigger]
                fits_in_module(regions, after, patterns[at], image, place)
            &&& unique_match(regions, after, patterns[at], image) is None
        }),
    decreases count,
{
    let last = count - 1;
    let before = after_patches(regions, memory, written, list, patterns, image, last as nat);
    assert(written_pattern(list[at].pattern@) == Some(patterns[at]@));
    if at == last {
        law_applied_patch_is_not_found_again(regions, before, list, at, patterns[at], image);
    } else {
        assert(written_pattern(list[last].pattern@) == Some(patterns[last]@));
        law_applied_patch_stays_unfound(
            regions,
            memory,
            written,
            list,
            patterns,
            image,
            at,
            last as nat,
        );
        law_later_patch_brings_nothing_back(
            regions,
            before,
            list,
            at,
            last,
            patterns[at],
            patterns[last],
            image,
        );
    }
}

/// After a run that has applied every patch, a second run finds none, writes nothing and counts none.
pub proof fn law_second_run_applies_nothing(
    regions: spec_fn(usize) -> Option<MemoryRegion>,
    memory: spec_fn(int) -> u8,
    written: spec_fn(int) -> bool,
    written_again: spec_fn(int) -> bool,
    patches: Vec<PatchSpec>,
    patterns: Seq<Vec<Option<u8>>>,
    image: ModuleImage,
    module: usize,
    steps: nat,
)
    requires
        recall_patches(patches@),
        patterns_of(patches@, patterns),
        forall|i: int|
            0 <= i < patches@.len() ==> #[trigger] applied_in_turn(
                regions,
                memory,
                written,
                patches@,
                patterns,
                image,
                i,
            ),
    ensures
        ({
            let after = after_patches(
                regions,
                memory,
                written,
                patches@,
                patterns,
                image,
                patches@.len(),
            );
            let found = |i: int| unique_match(regions, after, patterns[i], image);
            let second = Recall::Search { module, patches, index: 0, patched: 0 };
            &&& forall|i: int| 0 <= i < patches@.len() ==> #[trigger] found(i) is None
            &&& !(second.driven(found, written_again, steps) is Write)
            &&& steps >= 2 * patches@.len() ==> second.driven(found, written_again, steps) == (
            Recall::Done { patched: 0 })
        }),
{
    let list = patches@;
    let after = after_patches(regions, memory, written, list, patterns, image, list.len());
    let found = |i: int| unique_match(regions, after, patterns[i], image);
    assert forall|i: int| 0 <= i < list.len() implies #[trigger] found(i) is None by {
        assert(applied_in_turn(regions, memory, written, list, patterns, image, i));
        law_applied_patch_stays_unfound(
            regions,
            memory,
            written,
            list,
            patterns,
            image,
            i,
            list.len(),
        );
    }
    law_unfound_patches_write_nothing(found, written_again, module, patches, 0, 0, steps);
    if steps >= 2 * list.len() {
        law_recall_counts_applied(found, written_again, module, patches, 0, 0, steps);
        reveal_with_fuel(applied_from, 4);
        assert(found(0) is None && found(1) is None && found(2) is None);
    }
}

/// A run over a memory: each search finds what lies in the memory as it is then, and each writing that
/// goes well puts the replacement at the address that the state names. The state and the memory after
/// `steps` pieces of work.
pub open spec fn run_over(
    state: Recall,
    regions: spec_fn(usize) -> Option<MemoryRegion>,
    memory: spec_fn(int) -> u8,
    written: spec_fn(int) -> bool,
    patterns: Seq<Vec<Option<u8>>>,
    image: ModuleImage,
    steps: nat,
) -> (Recall, spec_fn(int) -> u8)
    decreases steps,
{
    if steps == 0 {
        (state, memory)
    } else {
        let left = (steps - 1) as nat;
        match state {
            Recall::Search { module, patches, index, patched } => {
                let found = unique_match(regions, memory, patterns[index as int], image);
                run_over(
                    state.after(RecallReply::Found(found)),
                    regions,
                    memory,
                    written,
                    patterns,
                    image,
                    left,
                )
            },
            Recall::Write { module, patches, index, patched, address } => {
                let after = if written(index as int) {
                    rewritten(memory, address as int, patches@[index as int].replacement@)
                } else {
                    memory
                };
                run_over(
                    state.after(RecallReply::Written(written(index as int))),
                    regions,
                    after,
                    written,
                    patterns,
                    image,
                    left,
                )
            },
            Recall::Done { patched } => (state, memory),
        }
    }
}

/// How many of the first `count` patches a run applies.
pub open spec fn applied_count(
    regions: spec_fn(usize) -> Option<MemoryRegion>,
    memory: spec_fn(int) -> u8,
    written: spec_fn(int) -> bool,
    list: Seq<PatchSpec>,
    patterns: Seq<Vec<Option<u8>>>,
    image: ModuleImage,
    count: nat,
) -> nat
    decreases count,
{
    if count == 0 {
        0
    } else {
        let at = (count - 1) as nat;
        let before = applied_count(regions, memory, written, list, patterns, image, at);
        if applied_in_turn(regions, memory, written, list, patterns, image, at as int) {
            before + 1
        } else {
            before
        }
    }
}

/// A run that stands before the patch at `index`, with the patches before it dealt with, ends with all
/// of them dealt with.
proof fn lemma_run_from(
    regions: spec_fn(usize) -> Option<MemoryRegion>,
    memory: spec_fn(int) -> u8,
    written: spec_fn(int) -> bool,
    module: usize,
    patches: Vec<PatchSpec>,
    patterns: Seq<Vec<Option<u8>>>,
    image: ModuleImage,
    index: usize,
    patched: usize,
    steps: nat,
)
    requires
        recall_patches(patches@),
        patterns_of(patches@, patterns),
        index < 3,
        patched <= index,
        patched == applied_count(
            regions,
            memory,
            written,
            patches@,
            patterns,
            image,
            index as nat,
        ),
        steps >= 2 * (3 - index),
    ensures
        ({
            let list = patches@;
            let now = after_patches(regions, memory, written, list, patterns, image, index as nat);
            let (state, after) = run_over(
                Recall::Search { module, patches, index, patched },
                regions,
                now,
                written,
                patterns,
                image,
                steps,
            );
            &&& after == after_patches(regions, memory, written, list, patterns, image, 3)
            &&& state matches Recall::Done { patched: total } && total == applied_count(
                regions,
                memory,
                written,
                list,
                patterns,
                image,
                3,
            )
        }),
    decreases 3 - index,
{
    reveal_with_fuel(run_over, 3);
    let list = patches@;
    let at = index as int;
    let now = after_patches(regions, memory, written, list, patterns, image, index as nat);
    let next = after_patches(regions, memory, written, list, patterns, image, (index + 1) as nat);
    let found = unique_match(regions, now, patterns[at], image);
    assert(written_pattern(list[at].pattern@) == Some(patterns[at]@));
    law_patch_lands_in_module(regions, now, list, at, patterns[at], image);
    let start = Recall::Search { module, patches, index, patched };
    let total: usize = (if found is Some && written(at) {
        patched + 1
    } else {
        patched as int
    }) as usize;
    let left: nat = if found is Some {
        (steps - 2) as nat
    } else {
        (steps - 1) as nat
    };
    let onward = Recall::next(module, patches, index, total);
    assert(total == applied_count(
        regions,
        memory,
        written,
        list,
        patterns,
        image,
        (index + 1) as nat,
    ));
    assert(run_over(start, regions, now, written, patterns, image, steps) == run_over(
        onward,
        regions,
        next,
        written,
        patterns,
        image,
        left,
    ));
    if index + 1 < 3 {
        lemma_run_from(
            regions,
            memory,
            written,
            module,
            patches,
            patterns,
            image,
            (index + 1) as usize,
            total,
            left,
        );
    }
}

/// A run over a memory leaves in it each patch that was found and could be written, its replacement
/// `opcode_offset` behind the place where its pattern was found, and nothing else; it counts exactly
/// those.
pub proof fn law_run_patches_memory(
    regions: spec_fn(usize) -> Option<MemoryRegion>,
    memory: spec_fn(int) -> u8,
    written: spec_fn(int) -> bool,
    module: usize,
    patches: Vec<PatchSpec>,
    patterns: Seq<Vec<Option<u8>>>,
    image: ModuleImage,
    steps: nat,
)
    requires
        recall_patches(patches@),
        patterns_of(patches@, patterns),
        steps >= 6,
    ensures
        ({
            let list = patches@;
            let (state, after) = run_over(
                Recall::Search { module, patches, index: 0, patched: 0 },
                regions,
                memory,
                written,
                patterns,
                image,
                steps,
            );
            &&& after == after_patches(regions, memory, written, list, patterns, image, 3)
            &&& state matches Recall::Done { patched } && patched == applied_count(
                regions,
                memory,
                written,
                list,
                patterns,
                image,
                3,
            )
        }),
{
    lemma_run_from(regions, memory, written, module, patches, patterns, image, 0, 0, steps);
}

} // verus!
