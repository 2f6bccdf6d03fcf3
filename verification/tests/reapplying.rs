use napcat_winboot::hook::{hook_recall, Recall, RecallReply};
use napcat_winboot::memory::MemoryRegion;
use napcat_winboot::module_search::{
    search_module_unique, ModuleImage, ModuleSearch, SearchReply,
};
use napcat_winboot::patch::patches;
use napcat_winboot::win32;

const BASE: usize = 0x4000;

/// Bytes that a pattern fits, with zeros for its wildcards.
fn fitting(pattern: &str) -> Vec<u8> {
    pattern
        .split(' ')
        .map(|pair| u8::from_str_radix(pair, 16).unwrap_or(0))
        .collect()
}

/// A module that holds the patterns of the patches one after the other, and where each begins.
fn module() -> (Vec<u8>, Vec<usize>) {
    let mut memory = vec![0xcc; 16];
    let mut places = Vec::new();
    for patch in patches() {
        places.push(BASE + memory.len());
        memory.extend(fitting(patch.pattern));
        memory.extend([0xcc; 16]);
    }
    (memory, places)
}

fn find(memory: &[u8], pattern: &str) -> Option<usize> {
    let mut state = search_module_unique(1, pattern);
    loop {
        let reply = match &state {
            ModuleSearch::Inspect { .. } => {
                SearchReply::Image(Some(ModuleImage { base: BASE, size: memory.len() as u32 }))
            }
            ModuleSearch::Query { .. } => SearchReply::Region(Some(MemoryRegion {
                base: BASE,
                size: memory.len(),
                state: win32::MEM_COMMIT,
                protect: win32::PAGE_EXECUTE_READ,
            })),
            ModuleSearch::Read { start, end, .. } => {
                SearchReply::Bytes(&memory[start - BASE..end - BASE])
            }
            ModuleSearch::Done { found } => return *found,
        };
        state = state.step(reply);
    }
}

/// Runs the patches over a memory, with those at `locked` not written; gives how many were applied
/// and where.
fn run(memory: &mut [u8], locked: &[usize]) -> (usize, Vec<usize>) {
    let mut writes = Vec::new();
    let mut state = hook_recall(1);
    loop {
        let reply = match &state {
            Recall::Search { .. } => {
                let patch = state.due_patch().expect("a patch is due");
                RecallReply::Found(find(memory, patch.pattern))
            }
            Recall::Write { index, address, .. } => {
                let bytes = &state.due_patch().expect("a patch is due").replacement;
                let written = !locked.contains(index);
                if written {
                    writes.push(*address);
                    memory[address - BASE..][..bytes.len()].copy_from_slice(bytes);
                }
                RecallReply::Written(written)
            }
            Recall::Done { patched } => return (*patched, writes),
        };
        state = state.step(reply);
    }
}

#[test]
fn a_second_run_applies_nothing() {
    let (mut memory, places) = module();
    let writes: Vec<usize> = places
        .iter()
        .zip(patches())
        .map(|(place, patch)| place + patch.opcode_offset)
        .collect();
    assert_eq!(run(&mut memory, &[]), (3, writes));
    let once = memory.clone();
    assert_eq!(run(&mut memory, &[]), (0, vec![]));
    assert_eq!(memory, once);
}

#[test]
fn a_second_run_applies_what_the_first_could_not() {
    let (mut memory, places) = module();
    assert_eq!(run(&mut memory, &[1]).0, 2);
    assert_eq!(run(&mut memory, &[]), (1, vec![places[1] + 6]));
    assert_eq!(run(&mut memory, &[]), (0, vec![]));
}

#[test]
fn an_applied_patch_is_not_found_again() {
    for (at, patch) in patches().iter().enumerate() {
        let (mut memory, places) = module();
        assert_eq!(find(&memory, patch.pattern), Some(places[at]));
        let start = places[at] + patch.opcode_offset - BASE;
        memory[start..][..patch.replacement.len()].copy_from_slice(&patch.replacement);
        assert_eq!(find(&memory, patch.pattern), None);
        for (other, later) in patches().iter().enumerate() {
            if other != at {
                assert_eq!(find(&memory, later.pattern), Some(places[other]));
            }
        }
    }
}

#[test]
fn every_overwritten_byte_is_fixed_and_one_changes() {
    for patch in patches() {
        let pairs: Vec<&str> = patch.pattern.split(' ').collect();
        let under = &pairs[patch.opcode_offset..patch.opcode_offset + patch.replacement.len()];
        assert!(under.iter().all(|pair| *pair != "??"));
        assert_ne!(fitting(&under.join(" ")), patch.replacement);
    }
}
