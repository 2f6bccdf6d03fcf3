use vstd::prelude::*;
use crate::win32::page_execute_readwrite;

#[allow(unused_imports)]
use crate::pattern::{evenly_written, law_even_text_is_pattern, pair_value, written_pattern};
#[allow(unused_imports)]
use crate::win32::PAGE_EXECUTE_READWRITE;

verus! {

/// A change to a module's code: where the pattern fits, `replacement` goes over the bytes that begin
/// `opcode_offset` behind the match.
#[derive(Debug, PartialEq, Eq)]
pub struct PatchSpec {
    pub name: &'static str,
    pub pattern: &'static str,
    pub opcode_offset: usize,
    pub replacement: Vec<u8>,
}

/// The changes that keep recalled messages.
pub open spec fn recall_patches(list: Seq<PatchSpec>) -> bool {
    &&& list.len() == 3
    &&& list[0].name@ == "normal recall preserve original"@
    &&& list[0].pattern@
        == "48 89 CF 48 8B 0A 48 85 C9 0F 84 ?? ?? ?? ?? 44 89 CB 4D 89 C4 48 89 95 ?? ?? ?? ?? 48 8D 95 ?? ?? ?? ?? E8 ?? ?? ?? ?? 48 8D 8D ?? ?? ?? ?? 48 8B 31"@
    &&& list[0].opcode_offset == 6
    &&& list[0].replacement@ == seq![0x48u8, 0x31, 0xC9]
    &&& list[1].name@ == "traceless recall preserve original"@
    &&& list[1].pattern@
        == "48 8B 01 FF 50 28 3C 01 0F 84 ?? ?? ?? ?? 48 8B 85 ?? ?? ?? ?? 48 8B 08 48 8B 01 FF 50 30 4C 8B 73 30"@
    &&& list[1].opcode_offset == 6
    &&& list[1].replacement@ == seq![0x38u8, 0xC0]
    &&& list[2].name@ == "notify recall update preserve original"@
    &&& list[2].pattern@
        == "48 83 7A 10 00 0F 84 ?? ?? ?? ?? 4C 89 C3 48 89 D7 48 89 CE 48 8D 45 ?? 48 89 00 48 89 40 08 48 83 60 10 00"@
    &&& list[2].opcode_offset == 0
    &&& list[2].replacement@ == seq![0x48u8, 0x31, 0xC0, 0x90, 0x90]
}

/// The changes that keep recalled messages.
pub fn patches() -> (r: Vec<PatchSpec>)
    ensures
        recall_patches(r@),
{
    vec![
        PatchSpec {
            name: "normal recall preserve original",
            pattern: "48 89 CF 48 8B 0A 48 85 C9 0F 84 ?? ?? ?? ?? 44 89 CB 4D 89 C4 48 89 95 ?? ?? ?? ?? 48 8D 95 ?? ?? ?? ?? E8 ?? ?? ?? ?? 48 8D 8D ?? ?? ?? ?? 48 8B 31",
            opcode_offset: 6,
            replacement: vec![0x48, 0x31, 0xC9],
        },
        PatchSpec {
            name: "traceless recall preserve original",
            pattern: "48 8B 01 FF 50 28 3C 01 0F 84 ?? ?? ?? ?? 48 8B 85 ?? ?? ?? ?? 48 8B 08 48 8B 01 FF 50 30 4C 8B 73 30",
            opcode_offset: 6,
            replacement: vec![0x38, 0xC0],
        },
        PatchSpec {
            name: "notify recall update preserve original",
            pattern: "48 83 7A 10 00 0F 84 ?? ?? ?? ?? 4C 89 C3 48 89 D7 48 89 CE 48 8D 45 ?? 48 89 00 48 89 40 08 48 83 60 10 00",
            opcode_offset: 0,
            replacement: vec![0x48, 0x31, 0xC0, 0x90, 0x90],
        },
    ]
}

/// The pattern of each patch.
pub open spec fn patch_pattern(at: int) -> Seq<Option<u8>> {
    if at == 0 {
        seq![
            Some(0x48u8), Some(0x89), Some(0xCF), Some(0x48), Some(0x8B), Some(0x0A), Some(0x48),
            Some(0x85), Some(0xC9), Some(0x0F), Some(0x84), None, None, None, None, Some(0x44),
            Some(0x89), Some(0xCB), Some(0x4D), Some(0x89), Some(0xC4), Some(0x48), Some(0x89),
            Some(0x95), None, None, None, None, Some(0x48), Some(0x8D), Some(0x95), None, None,
            None, None, Some(0xE8), None, None, None, None, Some(0x48), Some(0x8D), Some(0x8D),
            None, None, None, None, Some(0x48), Some(0x8B), Some(0x31),
        ]
    } else if at == 1 {
        seq![
            Some(0x48u8), Some(0x8B), Some(0x01), Some(0xFF), Some(0x50), Some(0x28), Some(0x3C),
            Some(0x01), Some(0x0F), Some(0x84), None, None, None, None, Some(0x48), Some(0x8B),
            Some(0x85), None, None, None, None, Some(0x48), Some(0x8B), Some(0x08), Some(0x48),
            Some(0x8B), Some(0x01), Some(0xFF), Some(0x50), Some(0x30), Some(0x4C), Some(0x8B),
            Some(0x73), Some(0x30),
        ]
    } else {
        seq![
            Some(0x48u8), Some(0x83), Some(0x7A), Some(0x10), Some(0x00), Some(0x0F), Some(0x84),
            None, None, None, None, Some(0x4C), Some(0x89), Some(0xC3), Some(0x48), Some(0x89),
            Some(0xD7), Some(0x48), Some(0x89), Some(0xCE), Some(0x48), Some(0x8D), Some(0x45),
            None, Some(0x48), Some(0x89), Some(0x00), Some(0x48), Some(0x89), Some(0x40),
            Some(0x08), Some(0x48), Some(0x83), Some(0x60), Some(0x10), Some(0x00),
        ]
    }
}

/// What is known of the bytes where a pattern has fitted once `replacement` has gone over those that
/// begin at `offset`.
pub open spec fn overwritten(
    pattern: Seq<Option<u8>>,
    offset: int,
    replacement: Seq<u8>,
) -> Seq<Option<u8>> {
    Seq::new(
        pattern.len(),
        |i: int|
            if offset <= i < offset + replacement.len() {
                Some(replacement[i - offset])
            } else {
                pattern[i]
            },
    )
}

/// The first `count` words of a text write the places of a pattern.
spec fn words_agree(text: Seq<char>, pattern: Seq<Option<u8>>, count: nat) -> bool
    decreases count,
{
    if count == 0 {
        true
    } else {
        let at = count - 1;
        words_agree(text, pattern, at as nat) && pair_value(text, at) == pattern[at]
    }
}

/// What `words_agree` says of one place.
proof fn lemma_words_agree_at(text: Seq<char>, pattern: Seq<Option<u8>>, count: nat, at: int)
    requires
        words_agree(text, pattern, count),
        0 <= at < count,
    ensures
        pair_value(text, at) == pattern[at],
    decreases count,
{
    if at < count - 1 {
        lemma_words_agree_at(text, pattern, (count - 1) as nat, at);
    }
}

/// The text of each patch writes its pattern.
pub proof fn lemma_patch_pattern(list: Seq<PatchSpec>, at: int)
    requires
        recall_patches(list),
        0 <= at < list.len(),
    ensures
        written_pattern(list[at].pattern@) == Some(patch_pattern(at)),
{
    reveal_strlit(
        "48 89 CF 48 8B 0A 48 85 C9 0F 84 ?? ?? ?? ?? 44 89 CB 4D 89 C4 48 89 95 ?? ?? ?? ?? 48 8D 95 ?? ?? ?? ?? E8 ?? ?? ?? ?? 48 8D 8D ?? ?? ?? ?? 48 8B 31",
    );
    reveal_strlit(
        "48 8B 01 FF 50 28 3C 01 0F 84 ?? ?? ?? ?? 48 8B 85 ?? ?? ?? ?? 48 8B 08 48 8B 01 FF 50 30 4C 8B 73 30",
    );
    reveal_strlit(
        "48 83 7A 10 00 0F 84 ?? ?? ?? ?? 4C 89 C3 48 89 D7 48 89 CE 48 8D 45 ?? 48 89 00 48 89 40 08 48 83 60 10 00",
    );
    reveal_with_fuel(evenly_written, 60);
    reveal_with_fuel(words_agree, 60);
    let text = list[at].pattern@;
    let pattern = patch_pattern(at);
    let count = pattern.len();
    assert(text.len() == 3 * count - 1);
    assert(evenly_written(text, count));
    assert(words_agree(text, pattern, count));
    law_even_text_is_pattern(text, count);
    assert forall|i: int| 0 <= i < count implies pair_value(text, i) == #[trigger] pattern[i] by {
        lemma_words_agree_at(text, pattern, count, i);
    }
    assert(written_pattern(text)->0 =~= pattern);
}

/// The pattern of each patch can be read. The patch writes only over bytes that its pattern has
/// matched, each against a fixed byte, and changes one of them at least.
pub proof fn law_patches_stay_in_match(list: Seq<PatchSpec>, at: int)
    requires
        recall_patches(list),
        0 <= at < list.len(),
    ensures
        written_pattern(list[at].pattern@) matches Some(pattern) && {
            &&& pattern == patch_pattern(at)
            &&& list[at].opcode_offset + list[at].replacement@.len() <= pattern.len()
            &&& forall|i: int|
                0 <= i < list[at].replacement@.len() ==> (
                #[trigger] pattern[list[at].opcode_offset + i]) is Some
            &&& exists|i: int|
                0 <= i < list[at].replacement@.len() && #[trigger] pattern[list[at].opcode_offset
                    + i] != Some(list[at].replacement@[i])
        },
{
    lemma_patch_pattern(list, at);
    let pattern = patch_pattern(at);
    let offset = list[at].opcode_offset;
    assert(pattern[offset + 0] is Some);
    assert(pattern[offset + 1] is Some);
    if at != 1 {
        assert(pattern[offset + 2] is Some);
    }
    if at == 2 {
        assert(pattern[offset + 3] is Some);
        assert(pattern[offset + 4] is Some);
    }
    assert(pattern[offset + 1] != Some(list[at].replacement@[1]));
}

/// The work of writing bytes over code. Each state but the last names the call that is due.
#[derive(Debug, PartialEq, Eq)]
pub enum PatchJob {
    /// Give the pages under the bytes the protection `protect`.
    Unlock { address: usize, replacement: Vec<u8>, protect: u32 },
    /// Copy the bytes to the address.
    Copy { address: usize, replacement: Vec<u8>, old_protect: u32 },
    /// Give the pages under the bytes the protection `old_protect`.
    Relock { address: usize, replacement: Vec<u8>, old_protect: u32 },
    /// Drop what the processor has read ahead of the bytes.
    Flush { address: usize, replacement: Vec<u8> },
    /// The work is over.
    Done { patched: bool },
}

/// How a call of a patch job went.
#[derive(Clone, Copy, Debug, PartialEq, Eq, Structural)]
pub enum PatchReply {
    /// The first change of protection: zero where it failed, and the protection that was there.
    Unlocked { status: i32, old_protect: u32 },
    /// The call has been made.
    Made,
}

impl PatchJob {
    /// What follows upon a reply. One to another call changes nothing.
    pub open spec fn after(self, reply: PatchReply) -> PatchJob {
        match (self, reply) {
            (
                PatchJob::Unlock { address, replacement, protect },
                PatchReply::Unlocked { status, old_protect },
            ) => if status == 0 {
                PatchJob::Done { patched: false }
            } else {
                PatchJob::Copy { address, replacement, old_protect }
            },
            (
                PatchJob::Copy { address, replacement, old_protect },
                PatchReply::Made,
            ) => PatchJob::Relock { address, replacement, old_protect },
            (
                PatchJob::Relock { address, replacement, old_protect },
                PatchReply::Made,
            ) => PatchJob::Flush { address, replacement },
            (PatchJob::Flush { address, replacement }, PatchReply::Made) => PatchJob::Done {
                patched: true,
            },
            _ => self,
        }
    }

    /// Takes how the call went.
    pub fn step(self, reply: PatchReply) -> (r: PatchJob)
        ensures
            r == self.after(reply),
    {
        match (self, reply) {
            (
                PatchJob::Unlock { address, replacement, protect: _ },
                PatchReply::Unlocked { status, old_protect },
            ) => if status == 0 {
                PatchJob::Done { patched: false }
            } else {
                PatchJob::Copy { address, replacement, old_protect }
            },
            (
                PatchJob::Copy { address, replacement, old_protect },
                PatchReply::Made,
            ) => PatchJob::Relock { address, replacement, old_protect },
            (
                PatchJob::Relock { address, replacement, old_protect: _ },
                PatchReply::Made,
            ) => PatchJob::Flush { address, replacement },
            (PatchJob::Flush { address: _, replacement: _ }, PatchReply::Made) => PatchJob::Done {
                patched: true,
            },
            (state, _) => state,
        }
    }
}

/// Begins to write bytes over the code at an address.
pub fn patch_bytes(address: usize, replacement: Vec<u8>) -> (r: PatchJob)
    ensures
        r == (PatchJob::Unlock { address, replacement, protect: PAGE_EXECUTE_READWRITE }),
{
    PatchJob::Unlock { address, replacement, protect: page_execute_readwrite() }
}

impl PatchJob {
    /// The states that a job goes through when its first change of protection comes out as given.
    pub open spec fn course(self, status: i32, old_protect: u32, steps: nat) -> Seq<PatchJob>
        decreases steps,
    {
        if steps == 0 || self is Done {
            seq![self]
        } else {
            let reply = if self is Unlock {
                PatchReply::Unlocked { status, old_protect }
            } else {
                PatchReply::Made
            };
            seq![self] + self.after(reply).course(status, old_protect, (steps - 1) as nat)
        }
    }
}

/// A job whose pages cannot be made writable writes nothing. Any other job copies the bytes, puts the
/// protection back that was there, and drops what was read ahead before it counts as made.
pub proof fn law_patch_restores_protection(
    address: usize,
    replacement: Vec<u8>,
    status: i32,
    old_protect: u32,
)
    ensures
        (PatchJob::Unlock { address, replacement, protect: PAGE_EXECUTE_READWRITE }).course(
            status,
            old_protect,
            4,
        ) == (if status == 0 {
            seq![
                PatchJob::Unlock { address, replacement, protect: PAGE_EXECUTE_READWRITE },
                PatchJob::Done { patched: false },
            ]
        } else {
            seq![
                PatchJob::Unlock { address, replacement, protect: PAGE_EXECUTE_READWRITE },
                PatchJob::Copy { address, replacement, old_protect },
                PatchJob::Relock { address, replacement, old_protect },
                PatchJob::Flush { address, replacement },
                PatchJob::Done { patched: true },
            ]
        }),
{
    reveal_with_fuel(PatchJob::course, 6);
}

/// Which code each patch is about, and what it does to the bytes that its pattern has matched: a test
/// of `rcx` becomes its clearing, a comparison of `al` with 1 becomes one with itself, and a comparison
/// in memory becomes the clearing of `rax`.
pub proof fn law_patches_change_these_bytes(list: Seq<PatchSpec>)
    requires
        recall_patches(list),
    ensures
        ({
            let under = |at: int|
                (written_pattern(list[at].pattern@)->0).subrange(
                    list[at].opcode_offset as int,
                    list[at].opcode_offset + list[at].replacement@.len(),
                );
            &&& list.len() == 3
            &&& list[0].name@ == "normal recall preserve original"@
            &&& list[1].name@ == "traceless recall preserve original"@
            &&& list[2].name@ == "notify recall update preserve original"@
            &&& list[0].pattern@
                == "48 89 CF 48 8B 0A 48 85 C9 0F 84 ?? ?? ?? ?? 44 89 CB 4D 89 C4 48 89 95 ?? ?? ?? ?? 48 8D 95 ?? ?? ?? ?? E8 ?? ?? ?? ?? 48 8D 8D ?? ?? ?? ?? 48 8B 31"@
            &&& list[1].pattern@
                == "48 8B 01 FF 50 28 3C 01 0F 84 ?? ?? ?? ?? 48 8B 85 ?? ?? ?? ?? 48 8B 08 48 8B 01 FF 50 30 4C 8B 73 30"@
            &&& list[2].pattern@
                == "48 83 7A 10 00 0F 84 ?? ?? ?? ?? 4C 89 C3 48 89 D7 48 89 CE 48 8D 45 ?? 48 89 00 48 89 40 08 48 83 60 10 00"@
            &&& under(0) == seq![Some(0x48u8), Some(0x85), Some(0xC9)]
            &&& list[0].replacement@ == seq![0x48u8, 0x31, 0xC9]
            &&& under(1) == seq![Some(0x3Cu8), Some(0x01)]
            &&& list[1].replacement@ == seq![0x38u8, 0xC0]
            &&& under(2) == seq![Some(0x48u8), Some(0x83), Some(0x7A), Some(0x10), Some(0x00)]
            &&& list[2].replacement@ == seq![0x48u8, 0x31, 0xC0, 0x90, 0x90]
            &&& list[0].opcode_offset == 6
            &&& list[1].opcode_offset == 6
            &&& list[2].opcode_offset == 0
        }),
{
    lemma_patch_pattern(list, 0);
    lemma_patch_pattern(list, 1);
    lemma_patch_pattern(list, 2);
    assert(patch_pattern(0).subrange(6, 9) =~= seq![Some(0x48u8), Some(0x85), Some(0xC9)]);
    assert(patch_pattern(1).subrange(6, 8) =~= seq![Some(0x3Cu8), Some(0x01)]);
    assert(patch_pattern(2).subrange(0, 5) =~= seq![
        Some(0x48u8),
        Some(0x83),
        Some(0x7A),
        Some(0x10),
        Some(0x00),
    ]);
}

impl PatchJob {
    /// The reply is one to the call that is due.
    pub open spec fn answers(self, reply: PatchReply) -> bool {
        match self {
            PatchJob::Unlock { .. } => reply is Unlocked,
            PatchJob::Copy { .. } => reply is Made,
            PatchJob::Relock { .. } => reply is Made,
            PatchJob::Flush { .. } => reply is Made,
            PatchJob::Done { .. } => false,
        }
    }
}

/// A reply to another call than the one that is due changes nothing.
pub proof fn law_patch_job_ignores_other_replies(job: PatchJob, reply: PatchReply)
    ensures
        !job.answers(reply) ==> job.after(reply) == job,
{
}

} // verus!
