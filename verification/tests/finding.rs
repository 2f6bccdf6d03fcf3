use napcat_winboot::locate::{
    eq_ignore_ascii_case, explicit_qq_path_from_args, find_qq_path, qq_from_registry,
    registry_value, same_units, ExplicitSearch, QqSearch, QqSearchReply,
    RegistrySearch, RegistrySearchReply, QQ_EXE,
};
use napcat_winboot::registry::{
    query_registry_string, trim_registry_exe_path, RegistryQuery, RegistryReply, RegistryRoot,
    RegistryTarget,
};
use napcat_winboot::wide::{decode_lossy, encode_wide, wide_null};

#[test]
fn quoted_registry_paths_end_at_the_closing_quote() {
    assert_eq!(
        trim_registry_exe_path("\"C:\\QQ NT\\Uninstall.exe\" /S"),
        Some("C:\\QQ NT\\Uninstall.exe")
    );
    assert_eq!(trim_registry_exe_path("  \" C:\\QQ.exe \",0 "), Some("C:\\QQ.exe"));
    assert_eq!(trim_registry_exe_path("\"\""), Some(""));
    assert_eq!(trim_registry_exe_path("\"C:\\QQ.exe"), None);
    assert_eq!(trim_registry_exe_path("\""), None);
}

#[test]
fn plain_registry_paths_end_with_their_first_exe() {
    assert_eq!(trim_registry_exe_path("C:\\QQ\\QQ.exe,0"), Some("C:\\QQ\\QQ.exe"));
    assert_eq!(trim_registry_exe_path("C:\\QQ\\QQ.EXE /S x.exe"), Some("C:\\QQ\\QQ.EXE"));
    assert_eq!(trim_registry_exe_path("\t\u{817e}.eXe\n"), Some("\u{817e}.eXe"));
    assert_eq!(trim_registry_exe_path("a,b.exe"), Some("a,b.exe"));
}

#[test]
fn other_registry_paths_end_before_a_comma() {
    assert_eq!(trim_registry_exe_path("C:\\QQ\\icon.ico ,1,2"), Some("C:\\QQ\\icon.ico"));
    assert_eq!(trim_registry_exe_path(" C:\\QQ\\icon.ico "), Some("C:\\QQ\\icon.ico"));
    assert_eq!(trim_registry_exe_path(",1"), Some(""));
    assert_eq!(trim_registry_exe_path("a.ex,e"), Some("a.ex"));
}

#[test]
fn empty_registry_values_name_no_path() {
    assert_eq!(trim_registry_exe_path(""), None);
    assert_eq!(trim_registry_exe_path(" \u{3000}\r\n"), None);
}

fn target() -> RegistryTarget {
    RegistryTarget {
        root: RegistryRoot::CurrentUser,
        subkey: wide_null("Key\\Sub"),
        value_name: wide_null("Name"),
    }
}

fn start_query() -> RegistryQuery {
    query_registry_string(RegistryRoot::CurrentUser, "Key\\Sub", "Name")
}

/// What one view of the registry answers: the opening, the size and the reading.
type ViewAnswers = ((u32, usize), (u32, u32), (u32, Vec<u16>));

/// Runs a query; the second result lists the keys as they are closed, the third the rights asked for.
fn query(views: &[ViewAnswers]) -> (Option<String>, Vec<usize>, Vec<u32>) {
    let (mut closed, mut rights) = (Vec::new(), Vec::new());
    let mut state = start_query();
    loop {
        state = match &state {
            RegistryQuery::Open { target: asked, view, access } => {
                assert_eq!(*asked, target());
                rights.push(*access);
                let (status, key) = views[*view as usize].0;
                state.step(RegistryReply::Opened { status, key })
            }
            RegistryQuery::Size { view, .. } => {
                let (status, byte_len) = views[*view as usize].1;
                state.step(RegistryReply::Sized { status, byte_len })
            }
            RegistryQuery::Read { view, byte_len, units, .. } => {
                assert!(*units * 2 >= *byte_len as usize);
                let (status, mut buffer) = views[*view as usize].2.clone();
                buffer.resize(*units, 0);
                state.step(RegistryReply::Filled { status, buffer })
            }
            RegistryQuery::Close { key, .. } => {
                closed.push(*key);
                state.step(RegistryReply::Made)
            }
            RegistryQuery::Done { .. } => return (state.text(), closed, rights),
        };
    }
}

#[test]
fn the_first_view_with_a_value_is_read() {
    let text = vec![0x51, 0x51, 0];
    let other = vec![0x58, 0];
    let missing = ((2, 0), (2, 0), (2, vec![]));
    let good = ((0, 7), (0, 6), (0, text.clone()));
    let late = ((0, 9), (0, 4), (0, other));
    assert_eq!(
        query(&[good.clone(), late.clone(), late.clone()]),
        (Some("QQ".to_string()), vec![7], vec![0x20219])
    );
    assert_eq!(
        query(&[missing.clone(), good.clone(), late.clone()]),
        (Some("QQ".to_string()), vec![7], vec![0x20219, 0x20119])
    );
    assert_eq!(
        query(&[missing.clone(), missing.clone(), late]),
        (Some("X".to_string()), vec![9], vec![0x20219, 0x20119, 0x20019])
    );
    assert_eq!(
        query(&[missing.clone(), missing.clone(), missing]),
        (None, vec![], vec![0x20219, 0x20119, 0x20019])
    );
}

#[test]
fn every_opened_key_is_closed() {
    let no_size = ((0, 1), (2, 6), (0, vec![0x51]));
    let too_short = ((0, 2), (0, 1), (0, vec![0x51]));
    let no_value = ((0, 3), (0, 6), (5, vec![0x51]));
    assert_eq!(
        query(&[no_size, too_short, no_value]),
        (None, vec![1, 2, 3], vec![0x20219, 0x20119, 0x20019])
    );
}

#[test]
fn odd_sizes_get_a_whole_last_unit() {
    let state = RegistryQuery::Size { target: target(), view: 0, key: 1 };
    assert_eq!(
        state.step(RegistryReply::Sized { status: 0, byte_len: 3 }),
        RegistryQuery::Read { target: target(), view: 0, key: 1, byte_len: 3, units: 2 }
    );
    let state = RegistryQuery::Size { target: target(), view: 0, key: 1 };
    assert_eq!(
        state.step(RegistryReply::Sized { status: 0, byte_len: u32::MAX }),
        RegistryQuery::Read { target: target(), view: 0, key: 1, byte_len: u32::MAX, units: 0x8000_0000 }
    );
}

#[test]
fn a_query_that_is_not_over_has_no_text() {
    assert_eq!(start_query().text(), None);
    assert_eq!(RegistryQuery::Done { value: None }.text(), None);
}

fn args(texts: &[&str]) -> Vec<Vec<u16>> {
    texts.iter().map(|text| encode_wide(text)).collect()
}

fn explicit(texts: &[&str], existing: &[&str]) -> Option<String> {
    let mut state = explicit_qq_path_from_args(&args(texts));
    loop {
        state = match &state {
            ExplicitSearch::Test { candidates, index } => {
                let path = decode_lossy(&candidates[*index]);
                let exists_there = existing.contains(&path.as_str());
                state.step(exists_there)
            }
            ExplicitSearch::Done { found } => {
                return found.as_ref().map(|path| decode_lossy(path));
            }
        };
    }
}

#[test]
fn the_first_existing_argument_path_is_taken() {
    let existing = ["a.exe", "b.exe"];
    assert_eq!(explicit(&["l", "--qq", "a.exe"], &existing), Some("a.exe".to_string()));
    assert_eq!(explicit(&["l", "--qq-path", "b.exe"], &existing), Some("b.exe".to_string()));
    assert_eq!(
        explicit(&["l", "--qq", "no.exe", "x", "--qq-path", "b.exe", "--qq", "a.exe"], &existing),
        Some("b.exe".to_string())
    );
}

#[test]
fn arguments_without_a_path_give_none() {
    assert_eq!(explicit(&[], &["a"]), None);
    assert_eq!(explicit(&["--qq", "a"], &["a"]), None);
    assert_eq!(explicit(&["l", "a"], &["a"]), None);
    assert_eq!(explicit(&["l", "--qq"], &["a"]), None);
    assert_eq!(explicit(&["l", "--QQ", "a"], &["a"]), None);
    assert_eq!(explicit(&["l", "--qq", "b"], &["a"]), None);
}

#[test]
fn an_option_behind_an_option_is_its_path() {
    assert_eq!(explicit(&["l", "--qq", "--qq", "a"], &["a"]), None);
    assert_eq!(explicit(&["l", "--qq", "--qq", "--qq", "a"], &["a"]), Some("a".to_string()));
}

#[test]
fn units_are_compared_with_and_without_case() {
    let name = encode_wide(QQ_EXE);
    assert!(same_units(&name, &encode_wide("QQ.exe")));
    assert!(!same_units(&name, &encode_wide("qq.exe")));
    assert!(!same_units(&name, &encode_wide("QQ.ex")));
    assert!(eq_ignore_ascii_case(&name, &encode_wide("qQ.EXE")));
    assert!(!eq_ignore_ascii_case(&name, &encode_wide("QQ-exe")));
    assert!(!eq_ignore_ascii_case(&name, &encode_wide("QQ.exe ")));
    assert!(!eq_ignore_ascii_case(&[0x4b], &[0x212a]));
}

#[test]
fn registry_values_are_asked_in_order() {
    let order: Vec<(RegistryRoot, &str)> = (0..4)
        .map(|source| {
            let value = registry_value(source);
            assert_eq!(
                value.subkey,
                r"SOFTWARE\Microsoft\Windows\CurrentVersion\Uninstall\QQ"
            );
            (value.root, value.value_name)
        })
        .collect();
    assert_eq!(order, vec![
        (RegistryRoot::LocalMachine, "DisplayIcon"),
        (RegistryRoot::LocalMachine, "UninstallString"),
        (RegistryRoot::CurrentUser, "DisplayIcon"),
        (RegistryRoot::CurrentUser, "UninstallString"),
    ]);
}

fn split(path: &[u16]) -> (Option<String>, Option<String>) {
    let text = decode_lossy(path);
    match text.rfind('\\') {
        Some(at) => (Some(text[at + 1..].to_string()), Some(text[..at].to_string())),
        None => (Some(text), None),
    }
}

fn from_registry(values: [Option<&str>; 4], existing: &[&str]) -> Option<String> {
    let mut state = qq_from_registry();
    loop {
        state = match &state {
            RegistrySearch::ReadValue { source } => {
                let value = values[*source as usize].map(|text| text.to_string());
                state.step(RegistrySearchReply::Value(value))
            }
            RegistrySearch::TestPath { path, .. } | RegistrySearch::TestSibling { path, .. } => {
                let exists_there = existing.contains(&decode_lossy(path).as_str());
                state.step(RegistrySearchReply::Exists(exists_there))
            }
            RegistrySearch::FileName { path, .. } => {
                let name = split(path).0.map(|name| encode_wide(&name));
                state.step(RegistrySearchReply::FileName(name))
            }
            RegistrySearch::Parent { path, .. } => {
                let parent = split(path).1.map(|parent| encode_wide(&parent));
                state.step(RegistrySearchReply::Parent(parent))
            }
            RegistrySearch::Join { dir, name, .. } => {
                assert_eq!(*name, "QQ.exe");
                let joined = format!("{}\\{name}", decode_lossy(dir));
                state.step(RegistrySearchReply::Joined(encode_wide(&joined)))
            }
            RegistrySearch::Done { found } => {
                return found.as_ref().map(|path| decode_lossy(path));
            }
        };
    }
}

#[test]
fn a_registry_value_names_the_program_or_its_neighbour() {
    let existing = ["C:\\QQ\\qq.EXE", "D:\\QQ\\un.exe", "D:\\QQ\\QQ.exe", "E:\\QQ\\un.exe", "u.exe"];
    assert_eq!(
        from_registry([Some("C:\\QQ\\qq.EXE,0"), None, None, None], &existing),
        Some("C:\\QQ\\qq.EXE".to_string())
    );
    assert_eq!(
        from_registry([None, Some("\"D:\\QQ\\un.exe\" /S"), None, None], &existing),
        Some("D:\\QQ\\QQ.exe".to_string())
    );
    assert_eq!(from_registry([Some("E:\\QQ\\un.exe"), None, None, None], &existing), None);
    assert_eq!(from_registry([Some("u.exe"), None, None, None], &existing), None);
    assert_eq!(from_registry([Some("F:\\QQ.exe"), None, None, None], &existing), None);
}

#[test]
fn the_first_registry_value_that_leads_somewhere_wins() {
    let existing = ["C:\\QQ.exe", "D:\\QQ.exe"];
    assert_eq!(
        from_registry([Some("X:\\QQ.exe"), Some(" "), Some("D:\\QQ.exe"), Some("C:\\QQ.exe")], &existing),
        Some("D:\\QQ.exe".to_string())
    );
    assert_eq!(
        from_registry([None, None, None, Some("C:\\QQ.exe")], &existing),
        Some("C:\\QQ.exe".to_string())
    );
    assert_eq!(from_registry([None, None, None, None], &existing), None);
}

#[test]
fn a_file_without_a_name_is_not_the_program() {
    let path = encode_wide("C:\\");
    let state = RegistrySearch::FileName { source: 3, path: path.clone() };
    let state = state.step(RegistrySearchReply::FileName(None));
    assert_eq!(state, RegistrySearch::Parent { source: 3, path });
    assert_eq!(
        state.step(RegistrySearchReply::Parent(None)),
        RegistrySearch::Done { found: None }
    );
}

#[test]
fn arguments_come_before_the_directory_and_that_before_the_registry() {
    let dir = encode_wide("C:\\launcher");
    let given = encode_wide("A:\\QQ.exe");
    let beside = encode_wide("C:\\launcher\\QQ.exe");
    let registered = encode_wide("R:\\QQ.exe");
    let start = find_qq_path(dir.clone());
    assert_eq!(start, QqSearch::Explicit { launcher_dir: dir.clone() });
    assert_eq!(
        start.step(QqSearchReply::Found(Some(given.clone()))),
        QqSearch::Done { found: Some(given) }
    );
    let join = find_qq_path(dir.clone()).step(QqSearchReply::Found(None));
    assert_eq!(join, QqSearch::Join { launcher_dir: dir.clone(), name: "QQ.exe" });
    let test = join.step(QqSearchReply::Joined(beside.clone()));
    assert_eq!(test, QqSearch::Test { path: beside.clone() });
    assert_eq!(
        test.step(QqSearchReply::Exists(true)),
        QqSearch::Done { found: Some(beside.clone()) }
    );
    let registry = QqSearch::Test { path: beside }.step(QqSearchReply::Exists(false));
    assert_eq!(registry, QqSearch::Registry);
    assert_eq!(
        registry.step(QqSearchReply::Found(Some(registered.clone()))),
        QqSearch::Done { found: Some(registered) }
    );
    assert_eq!(
        QqSearch::Registry.step(QqSearchReply::Found(None)),
        QqSearch::Done { found: None }
    );
    assert_eq!(QqSearch::Registry.step(QqSearchReply::Exists(true)), QqSearch::Registry);
}
