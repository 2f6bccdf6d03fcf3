use napcat_winboot::memory::{is_readable_committed_region, MemoryRegion};
use napcat_winboot::module_search::{
    search_module_unique, ModuleImage, ModuleSearch, SearchReply,
};
use napcat_winboot::win32;
use windows_sys::Win32::Foundation::{ERROR_SUCCESS, TRUE};
use windows_sys::Win32::System::Memory as memory;
use windows_sys::Win32::System::Registry as registry;
use windows_sys::Win32::System::SystemServices::DLL_PROCESS_ATTACH;
use windows_sys::Win32::System::Threading as threading;

const BASE: usize = 0x1_0000;

fn committed(base: usize, size: usize, protect: u32) -> MemoryRegion {
    MemoryRegion { base, size, state: win32::MEM_COMMIT, protect }
}

/// Runs a search over a memory that begins at `BASE`.
fn search(
    pattern: &str,
    image: Option<ModuleImage>,
    regions: &[MemoryRegion],
    bytes_there: &[u8],
) -> Option<usize> {
    let mut state = search_module_unique(0x77, pattern);
    loop {
        state = match &state {
            ModuleSearch::Inspect { .. } => state.step(SearchReply::Image(image)),
            ModuleSearch::Query { scan } => {
                let cursor = scan.cursor;
                let region = regions
                    .iter()
                    .find(|region| region.base <= cursor && cursor < region.base + region.size)
                    .copied();
                state.step(SearchReply::Region(region))
            }
            ModuleSearch::Read { start, end, .. } => {
                let bytes = bytes_there[start - BASE..end - BASE].to_vec();
                state.step(SearchReply::Bytes(&bytes))
            }
            ModuleSearch::Done { found } => return *found,
        };
    }
}

fn image(size: u32) -> Option<ModuleImage> {
    Some(ModuleImage { base: BASE, size })
}

#[test]
fn a_single_match_is_found() {
    let memory = [0, 1, 2, 3, 0x48, 0x89, 0xcf, 7];
    let regions = [committed(BASE, 8, win32::PAGE_EXECUTE_READ)];
    assert_eq!(search("48 ?? CF", image(8), &regions, &memory), Some(BASE + 4));
    assert_eq!(search("CF 07", image(8), &regions, &memory), Some(BASE + 6));
    assert_eq!(search("00", image(8), &regions, &memory), Some(BASE));
}

#[test]
fn no_match_or_two_matches_find_nothing() {
    let memory = [1, 2, 1, 2, 1, 3];
    let regions = [committed(BASE, 6, win32::PAGE_READONLY)];
    assert_eq!(search("09", image(6), &regions, &memory), None);
    assert_eq!(search("01 02", image(6), &regions, &memory), None);
    assert_eq!(search("01 03", image(6), &regions, &memory), Some(BASE + 4));
    assert_eq!(search("?? ?? ?? ?? ?? ??", image(6), &regions, &memory), Some(BASE));
    assert_eq!(search("?? ?? ?? ?? ??", image(6), &regions, &memory), None);
}

#[test]
fn a_second_match_in_another_region_spoils_the_first() {
    let memory = [5, 6, 0, 0, 5, 6, 0, 0];
    let regions = [
        committed(BASE, 4, win32::PAGE_READWRITE),
        committed(BASE + 4, 4, win32::PAGE_READWRITE),
    ];
    assert_eq!(search("05 06", image(8), &regions, &memory), None);
    let hidden = [
        committed(BASE, 4, win32::PAGE_READWRITE),
        committed(BASE + 4, 4, win32::PAGE_NOACCESS),
    ];
    assert_eq!(search("05 06", image(8), &hidden, &memory), Some(BASE));
}

#[test]
fn a_match_across_two_regions_does_not_count() {
    let memory = [0, 0, 0, 5, 6, 0, 0, 0];
    let regions = [
        committed(BASE, 4, win32::PAGE_READONLY),
        committed(BASE + 4, 4, win32::PAGE_READWRITE),
    ];
    assert_eq!(search("05 06", image(8), &regions, &memory), None);
}

#[test]
fn regions_are_clipped_to_the_module() {
    let memory = [0, 0, 5, 6, 5, 6];
    let regions = [committed(BASE - 16, 64, win32::PAGE_READONLY)];
    assert_eq!(search("05 06", image(4), &regions, &memory), Some(BASE + 2));
}

#[test]
fn the_walk_ends_without_a_region() {
    let memory = [5, 6, 0, 0, 0, 0, 0, 0];
    let regions = [committed(BASE, 4, win32::PAGE_READONLY)];
    assert_eq!(search("05 06", image(8), &regions, &memory), Some(BASE));
}

#[test]
fn texts_that_are_no_patterns_are_found_nowhere() {
    assert_eq!(search_module_unique(0x77, "4g"), ModuleSearch::Done { found: None });
    assert_eq!(search_module_unique(0x77, "  "), ModuleSearch::Done { found: None });
    assert_eq!(search_module_unique(0x77, "4"), ModuleSearch::Inspect { module: 0x77, pattern: vec![Some(4)] });
}

#[test]
fn a_module_must_be_known_and_have_room() {
    assert_eq!(search("05", None, &[], &[]), None);
    assert_eq!(search("05 06", image(1), &[], &[5]), None);
    let inspect = search_module_unique(0x77, "05");
    let at_the_end = ModuleImage { base: usize::MAX, size: 1 };
    assert_eq!(
        inspect.step(SearchReply::Image(Some(at_the_end))),
        ModuleSearch::Done { found: None }
    );
}

#[test]
fn a_region_that_ends_at_the_cursor_ends_the_walk() {
    let query = search_module_unique(0x77, "05").step(SearchReply::Image(image(8)));
    let empty = committed(BASE, 0, win32::PAGE_READONLY);
    assert_eq!(
        query.step(SearchReply::Region(Some(empty))),
        ModuleSearch::Done { found: None }
    );
}

#[test]
fn a_region_up_to_the_last_address_is_read_to_the_module_end() {
    let query = search_module_unique(0x77, "05").step(SearchReply::Image(image(8)));
    let vast = committed(BASE, usize::MAX, win32::PAGE_READONLY);
    match query.step(SearchReply::Region(Some(vast))) {
        ModuleSearch::Read { start, end, next, .. } => {
            assert_eq!((start, end, next), (BASE, BASE + 8, usize::MAX));
        }
        other => panic!("{other:?}"),
    }
}

#[test]
fn an_answer_to_another_question_changes_nothing() {
    let inspect = search_module_unique(0x77, "05").step(SearchReply::Bytes(&[5]));
    assert_eq!(inspect, ModuleSearch::Inspect { module: 0x77, pattern: vec![Some(5)] });
    let read = inspect
        .step(SearchReply::Image(image(2)))
        .step(SearchReply::Region(Some(committed(BASE, 2, win32::PAGE_READONLY))));
    let again = read.step(SearchReply::Bytes(&[5]));
    assert!(matches!(again, ModuleSearch::Read { .. }));
    assert_eq!(
        again.step(SearchReply::Bytes(&[0, 5])),
        ModuleSearch::Done { found: Some(BASE + 1) }
    );
}

#[test]
fn readable_regions_are_committed_and_grant_reading() {
    let readable = [0x02, 0x04, 0x08, 0x20, 0x40, 0x80];
    for protect in 0u32..0x800 {
        let expected = protect & 0x101 == 0 && readable.contains(&(protect & 0xff));
        let region = committed(BASE, 1, protect);
        assert_eq!(is_readable_committed_region(&region), expected, "{protect:#x}");
        let reserved = MemoryRegion { state: win32::MEM_RESERVE, ..region };
        assert!(!is_readable_committed_region(&reserved));
    }
}

#[test]
fn region_end_stops_at_the_last_address() {
    assert_eq!(committed(0x1000, 0x1000, 0).region_end(), 0x2000);
    assert_eq!(committed(usize::MAX - 1, 2, 0).region_end(), usize::MAX);
}

#[test]
fn constants_are_those_of_the_system() {
    assert_eq!(win32::MEM_COMMIT, memory::MEM_COMMIT);
    assert_eq!(win32::MEM_RESERVE, memory::MEM_RESERVE);
    assert_eq!(win32::MEM_RELEASE, memory::MEM_RELEASE);
    assert_eq!(win32::PAGE_NOACCESS, memory::PAGE_NOACCESS);
    assert_eq!(win32::PAGE_READONLY, memory::PAGE_READONLY);
    assert_eq!(win32::PAGE_READWRITE, memory::PAGE_READWRITE);
    assert_eq!(win32::PAGE_WRITECOPY, memory::PAGE_WRITECOPY);
    assert_eq!(win32::PAGE_EXECUTE_READ, memory::PAGE_EXECUTE_READ);
    assert_eq!(win32::PAGE_EXECUTE_READWRITE, memory::PAGE_EXECUTE_READWRITE);
    assert_eq!(win32::PAGE_EXECUTE_WRITECOPY, memory::PAGE_EXECUTE_WRITECOPY);
    assert_eq!(win32::PAGE_GUARD, memory::PAGE_GUARD);
    assert_eq!(win32::ERROR_SUCCESS, ERROR_SUCCESS);
    assert_eq!(win32::TRUE, TRUE);
    assert_eq!(win32::KEY_READ, registry::KEY_READ);
    assert_eq!(win32::KEY_WOW64_32KEY, registry::KEY_WOW64_32KEY);
    assert_eq!(win32::KEY_WOW64_64KEY, registry::KEY_WOW64_64KEY);
    assert_eq!(win32::CREATE_SUSPENDED, threading::CREATE_SUSPENDED);
    assert_eq!(win32::CREATE_UNICODE_ENVIRONMENT, threading::CREATE_UNICODE_ENVIRONMENT);
    assert_eq!(win32::INFINITE, threading::INFINITE);
    assert_eq!(win32::DLL_PROCESS_ATTACH, DLL_PROCESS_ATTACH);
}
