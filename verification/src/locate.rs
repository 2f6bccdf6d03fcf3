use vstd::prelude::*;
use vstd::slice::slice_to_vec;
use crate::registry::{trim_registry_exe_path, RegistryRoot};
use crate::text::to_ascii_lower;
use crate::wide::encode_wide;

#[allow(unused_imports)]
use crate::registry::registry_path;
#[allow(unused_imports)]
use crate::text::{ascii_lower, law_case_of_letters};
#[allow(unused_imports)]
use crate::wide::{law_utf16_by_character, utf16};

verus! {

/// The file that is looked for.
pub const QQ_EXE: &'static str = "QQ.exe";

/// The registry key that an installation leaves.
pub const QQ_UNINSTALL_KEY: &'static str = "SOFTWARE\\Microsoft\\Windows\\CurrentVersion\\Uninstall\\QQ";

/// Paths by the units that spell them.
pub open spec fn spellings(paths: Seq<Vec<u16>>) -> Seq<Seq<u16>> {
    paths.map_values(|path: Vec<u16>| path@)
}

/// Two spellings are the same but for the case of the letters `A` to `Z`.
pub open spec fn same_but_for_case(one: Seq<u16>, other: Seq<u16>) -> bool {
    &&& one.len() == other.len()
    &&& forall|i: int|
        0 <= i < one.len() ==> ascii_lower(#[trigger] one[i] as u32) == ascii_lower(
            other[i] as u32,
        )
}

/// Whether two spellings are the same.
pub fn same_units(one: &[u16], other: &[u16]) -> (r: bool)
    ensures
        r == (one@ == other@),
{
    if one.len() != other.len() {
        return false;
    }
    let mut i: usize = 0;
    while i < one.len()
        invariant
            i <= one@.len() == other@.len(),
            forall|j: int| 0 <= j < i ==> one@[j] == other@[j],
        decreases one.len() - i,
    {
        if one[i] != other[i] {
            return false;
        }
        i = i + 1;
    }
    assert(one@ =~= other@);
    true
}

/// Whether two spellings are the same but for the case of the letters `A` to `Z`.
pub fn eq_ignore_ascii_case(one: &[u16], other: &[u16]) -> (r: bool)
    ensures
        r == same_but_for_case(one@, other@),
{
    if one.len() != other.len() {
        return false;
    }
    let mut i: usize = 0;
    while i < one.len()
        invariant
            i <= one@.len() == other@.len(),
            forall|j: int|
                0 <= j < i ==> ascii_lower(#[trigger] one@[j] as u32) == ascii_lower(
                    other@[j] as u32,
                ),
        decreases one.len() - i,
    {
        if to_ascii_lower(one[i] as u32) != to_ascii_lower(other[i] as u32) {
            return false;
        }
        i = i + 1;
    }
    true
}

/// The argument before the path of the program.
pub open spec fn is_path_option(arg: Seq<u16>) -> bool {
    arg == utf16("--qq"@) || arg == utf16("--qq-path"@)
}

/// The paths that the arguments from `from` on give: each is the argument behind an option, and is
/// not itself read as an option.
pub open spec fn explicit_paths(args: Seq<Seq<u16>>, from: int) -> Seq<Seq<u16>>
    decreases args.len() - from,
{
    if from >= args.len() {
        seq![]
    } else if !is_path_option(args[from]) {
        explicit_paths(args, from + 1)
    } else if from + 1 < args.len() {
        seq![args[from + 1]] + explicit_paths(args, from + 2)
    } else {
        seq![]
    }
}

/// The search among the paths that the arguments give. A state but the last asks whether the path at
/// `index` exists.
#[derive(Debug, PartialEq, Eq)]
pub enum ExplicitSearch {
    /// Does the path at `index` exist?
    Test { candidates: Vec<Vec<u16>>, index: usize },
    /// The search is over.
    Done { found: Option<Vec<u16>> },
}

/// What an `ExplicitSearch` stands for.
pub enum ExplicitSearchView {
    Test { candidates: Seq<Seq<u16>>, index: int },
    Done { found: Option<Seq<u16>> },
}

impl View for ExplicitSearch {
    type V = ExplicitSearchView;

    open spec fn view(&self) -> ExplicitSearchView {
        match *self {
            ExplicitSearch::Test { candidates, index } => ExplicitSearchView::Test {
                candidates: spellings(candidates@),
                index: index as int,
            },
            ExplicitSearch::Done { found } => ExplicitSearchView::Done { found: spelling(found) },
        }
    }
}

/// A path, if there is one, by the units that spell it.
pub open spec fn spelling(path: Option<Vec<u16>>) -> Option<Seq<u16>> {
    match path {
        Some(path) => Some(path@),
        None => None,
    }
}

impl ExplicitSearchView {
    /// The path at `index` is due, or none is left.
    pub open spec fn due(candidates: Seq<Seq<u16>>, index: int) -> ExplicitSearchView {
        if index < candidates.len() {
            ExplicitSearchView::Test { candidates, index }
        } else {
            ExplicitSearchView::Done { found: None }
        }
    }

    /// What follows once it is known whether the path exists.
    pub open spec fn after(self, exists_there: bool) -> ExplicitSearchView {
        match self {
            ExplicitSearchView::Test { candidates, index } => if exists_there {
                ExplicitSearchView::Done { found: Some(candidates[index]) }
            } else {
                ExplicitSearchView::due(candidates, index + 1)
            },
            ExplicitSearchView::Done { found } => self,
        }
    }
}

impl ExplicitSearch {
    /// The index is one of a path.
    pub open spec fn well_formed(self) -> bool {
        match self {
            ExplicitSearch::Test { candidates, index } => index < candidates@.len(),
            ExplicitSearch::Done { found } => true,
        }
    }

    /// Takes whether the path exists.
    pub fn step(self, exists_there: bool) -> (r: ExplicitSearch)
        requires
            self.well_formed(),
        ensures
            r@ == self@.after(exists_there),
            r.well_formed(),
    {
        match self {
            ExplicitSearch::Test { candidates, index } => if exists_there {
                let mut candidates = candidates;
                ExplicitSearch::Done { found: Some(candidates.swap_remove(index)) }
            } else if candidates.len() - index > 1 {
                ExplicitSearch::Test { candidates, index: index + 1 }
            } else {
                ExplicitSearch::Done { found: None }
            },
            ExplicitSearch::Done { found } => ExplicitSearch::Done { found },
        }
    }
}

/// Begins the search among the paths that the program's arguments give; the first argument is the
/// program's own name.
pub fn explicit_qq_path_from_args(args: &Vec<Vec<u16>>) -> (r: ExplicitSearch)
    ensures
        r@ == ExplicitSearchView::due(explicit_paths(spellings(args@), 1), 0),
        r.well_formed(),
{
    let short = encode_wide("--qq");
    let long = encode_wide("--qq-path");
    let ghost all = spellings(args@);
    let mut candidates: Vec<Vec<u16>> = Vec::new();
    let count: usize = args.len();
    let mut at: usize = 1;
    assert(spellings(candidates@) + explicit_paths(all, 1) =~= explicit_paths(all, 1));
    while at < count
        invariant
            1 <= at,
            count == args@.len(),
            all == spellings(args@),
            short@ == utf16("--qq"@),
            long@ == utf16("--qq-path"@),
            spellings(candidates@) + explicit_paths(all, at as int) == explicit_paths(all, 1),
        decreases count - at,
    {
        let ghost before = spellings(candidates@);
        assert(all[at as int] == args@[at as int]@);
        let arg = args[at].as_slice();
        if !same_units(arg, short.as_slice()) && !same_units(arg, long.as_slice()) {
            at = at + 1;
        } else if count - at > 1 {
            candidates.push(slice_to_vec(args[at + 1].as_slice()));
            proof {
                assert(spellings(candidates@) =~= before.push(all[at + 1]));
                assert(spellings(candidates@) + explicit_paths(all, at + 2) =~= before
                    + explicit_paths(all, at as int));
            }
            at = at + 2;
        } else {
            at = count;
        }
    }
    assert(spellings(candidates@) + explicit_paths(all, at as int) =~= spellings(candidates@));
    if candidates.len() > 0 {
        ExplicitSearch::Test { candidates, index: 0 }
    } else {
        ExplicitSearch::Done { found: None }
    }
}

/// The first path from `index` on that exists.
pub open spec fn first_existing(
    exists_there: spec_fn(Seq<u16>) -> bool,
    candidates: Seq<Seq<u16>>,
    index: int,
) -> Option<Seq<u16>>
    decreases candidates.len() - index,
{
    if index >= candidates.len() {
        None
    } else if exists_there(candidates[index]) {
        Some(candidates[index])
    } else {
        first_existing(exists_there, candidates, index + 1)
    }
}

impl ExplicitSearchView {
    /// Where the search stands after `steps` answers.
    pub open spec fn driven(
        self,
        exists_there: spec_fn(Seq<u16>) -> bool,
        steps: nat,
    ) -> ExplicitSearchView
        decreases steps,
    {
        if steps == 0 {
            self
        } else {
            let answer = match self {
                ExplicitSearchView::Test { candidates, index } => exists_there(candidates[index]),
                ExplicitSearchView::Done { found } => false,
            };
            self.after(answer).driven(exists_there, (steps - 1) as nat)
        }
    }
}

/// A search that is over stays where it is.
proof fn lemma_explicit_done_stays(
    exists_there: spec_fn(Seq<u16>) -> bool,
    found: Option<Seq<u16>>,
    steps: nat,
)
    ensures
        (ExplicitSearchView::Done { found }).driven(exists_there, steps) == (
        ExplicitSearchView::Done { found }),
    decreases steps,
{
    if steps > 0 {
        lemma_explicit_done_stays(exists_there, found, (steps - 1) as nat);
    }
}

/// The search among the given paths ends with the first of them that exists.
pub proof fn law_first_existing_path_wins(
    exists_there: spec_fn(Seq<u16>) -> bool,
    candidates: Seq<Seq<u16>>,
    index: int,
    steps: nat,
)
    requires
        0 <= index <= candidates.len(),
        steps >= candidates.len() - index,
    ensures
        ExplicitSearchView::due(candidates, index).driven(exists_there, steps) == (
        ExplicitSearchView::Done { found: first_existing(exists_there, candidates, index) }),
    decreases candidates.len() - index,
{
    if index == candidates.len() {
        lemma_explicit_done_stays(exists_there, None, steps);
    } else if exists_there(candidates[index]) {
        lemma_explicit_done_stays(exists_there, Some(candidates[index]), (steps - 1) as nat);
    } else {
        law_first_existing_path_wins(exists_there, candidates, index + 1, (steps - 1) as nat);
    }
}

/// A value of the registry.
#[derive(Clone, Copy, Debug, PartialEq, Eq)]
pub struct RegistryValue {
    pub root: RegistryRoot,
    pub subkey: &'static str,
    pub value_name: &'static str,
}

/// How many values of the registry may name the program.
pub const REGISTRY_SOURCES: u32 = 4;

/// The search in the registry. Each state but the last asks for one thing.
#[derive(Debug, PartialEq, Eq)]
pub enum RegistrySearch {
    /// What does the value say?
    ReadValue { source: u32 },
    /// Does the path exist?
    TestPath { source: u32, path: Vec<u16> },
    /// What is the last part of the path?
    FileName { source: u32, path: Vec<u16> },
    /// What is the path without its last part?
    Parent { source: u32, path: Vec<u16> },
    /// What is the path of the file `name` in the directory?
    Join { source: u32, dir: Vec<u16>, name: &'static str },
    /// Does that path exist?
    TestSibling { source: u32, path: Vec<u16> },
    /// The search is over.
    Done { found: Option<Vec<u16>> },
}

/// An answer to a search in the registry.
#[derive(Debug, PartialEq, Eq)]
pub enum RegistrySearchReply {
    /// The value's text, if it has one.
    Value(Option<String>),
    /// Whether the path exists.
    Exists(bool),
    /// The last part of the path, if it has one.
    FileName(Option<Vec<u16>>),
    /// The path without its last part, if there is one.
    Parent(Option<Vec<u16>>),
    /// The joined path.
    Joined(Vec<u16>),
}

/// What a `RegistrySearch` stands for.
pub enum RegistrySearchView {
    ReadValue { source: int },
    TestPath { source: int, path: Seq<u16> },
    FileName { source: int, path: Seq<u16> },
    Parent { source: int, path: Seq<u16> },
    Join { source: int, dir: Seq<u16>, name: Seq<char> },
    TestSibling { source: int, path: Seq<u16> },
    Done { found: Option<Seq<u16>> },
}

/// What a `RegistrySearchReply` stands for.
pub enum RegistrySearchReplyView {
    Value(Option<Seq<char>>),
    Exists(bool),
    FileName(Option<Seq<u16>>),
    Parent(Option<Seq<u16>>),
    Joined(Seq<u16>),
}

impl View for RegistrySearch {
    type V = RegistrySearchView;

    open spec fn view(&self) -> RegistrySearchView {
        match *self {
            RegistrySearch::ReadValue { source } => RegistrySearchView::ReadValue {
                source: source as int,
            },
            RegistrySearch::TestPath { source, path } => RegistrySearchView::TestPath {
                source: source as int,
                path: path@,
            },
            RegistrySearch::FileName { source, path } => RegistrySearchView::FileName {
                source: source as int,
                path: path@,
            },
            RegistrySearch::Parent { source, path } => RegistrySearchView::Parent {
                source: source as int,
                path: path@,
            },
            RegistrySearch::Join { source, dir, name } => RegistrySearchView::Join {
                source: source as int,
                dir: dir@,
                name: name@,
            },
            RegistrySearch::TestSibling { source, path } => RegistrySearchView::TestSibling {
                source: source as int,
                path: path@,
            },
            RegistrySearch::Done { found } => RegistrySearchView::Done { found: spelling(found) },
        }
    }
}

impl View for RegistrySearchReply {
    type V = RegistrySearchReplyView;

    open spec fn view(&self) -> RegistrySearchReplyView {
        match *self {
            RegistrySearchReply::Value(value) => RegistrySearchReplyView::Value(
                match value {
                    Some(text) => Some(text@),
                    None => None,
                },
            ),
            RegistrySearchReply::Exists(exists_there) => RegistrySearchReplyView::Exists(
                exists_there,
            ),
            RegistrySearchReply::FileName(name) => RegistrySearchReplyView::FileName(
                spelling(name),
            ),
            RegistrySearchReply::Parent(parent) => RegistrySearchReplyView::Parent(
                spelling(parent),
            ),
            RegistrySearchReply::Joined(path) => RegistrySearchReplyView::Joined(path@),
        }
    }
}

/// The file name is that of the program.
pub open spec fn is_qq_exe(name: Option<Seq<u16>>) -> bool {
    name matches Some(units) && same_but_for_case(units, utf16(QQ_EXE@))
}

impl RegistrySearchView {
    /// A value is due, or none is left.
    pub open spec fn due(source: int) -> RegistrySearchView {
        if source < REGISTRY_SOURCES {
            RegistrySearchView::ReadValue { source }
        } else {
            RegistrySearchView::Done { found: None }
        }
    }

    /// What follows upon an answer. One to another question changes nothing.
    pub open spec fn after(self, reply: RegistrySearchReplyView) -> RegistrySearchView {
        match (self, reply) {
            (
                RegistrySearchView::ReadValue { source },
                RegistrySearchReplyView::Value(value),
            ) => match value {
                Some(text) => match registry_path(text) {
                    Some(path) => RegistrySearchView::TestPath { source, path: utf16(path) },
                    None => RegistrySearchView::due(source + 1),
                },
                None => RegistrySearchView::due(source + 1),
            },
            (
                RegistrySearchView::TestPath { source, path },
                RegistrySearchReplyView::Exists(exists_there),
            ) => if exists_there {
                RegistrySearchView::FileName { source, path }
            } else {
                RegistrySearchView::due(source + 1)
            },
            (
                RegistrySearchView::FileName { source, path },
                RegistrySearchReplyView::FileName(name),
            ) => if is_qq_exe(name) {
                RegistrySearchView::Done { found: Some(path) }
            } else {
                RegistrySearchView::Parent { source, path }
            },
            (
                RegistrySearchView::Parent { source, path },
                RegistrySearchReplyView::Parent(parent),
            ) => match parent {
                Some(dir) => RegistrySearchView::Join { source, dir, name: QQ_EXE@ },
                None => RegistrySearchView::due(source + 1),
            },
            (
                RegistrySearchView::Join { source, dir, name },
                RegistrySearchReplyView::Joined(path),
            ) => RegistrySearchView::TestSibling { source, path },
            (
                RegistrySearchView::TestSibling { source, path },
                RegistrySearchReplyView::Exists(exists_there),
            ) => if exists_there {
                RegistrySearchView::Done { found: Some(path) }
            } else {
                RegistrySearchView::due(source + 1)
            },
            _ => self,
        }
    }
}

impl RegistrySearch {
    /// Goes on behind a value.
    fn next_source(source: u32) -> (r: RegistrySearch)
        ensures
            r@ == RegistrySearchView::due(source + 1),
    {
        if source < REGISTRY_SOURCES - 1 {
            RegistrySearch::ReadValue { source: source + 1 }
        } else {
            RegistrySearch::Done { found: None }
        }
    }

    /// Takes the answer to the search's question.
    pub fn step(self, reply: RegistrySearchReply) -> (r: RegistrySearch)
        ensures
            r@ == self@.after(reply@),
    {
        match (self, reply) {
            (
                RegistrySearch::ReadValue { source },
                RegistrySearchReply::Value(value),
            ) => match value {
                Some(text) => match trim_registry_exe_path(text.as_str()) {
                    Some(path) => RegistrySearch::TestPath { source, path: encode_wide(path) },
                    None => RegistrySearch::next_source(source),
                },
                None => RegistrySearch::next_source(source),
            },
            (
                RegistrySearch::TestPath { source, path },
                RegistrySearchReply::Exists(exists_there),
            ) => if exists_there {
                RegistrySearch::FileName { source, path }
            } else {
                RegistrySearch::next_source(source)
            },
            (
                RegistrySearch::FileName { source, path },
                RegistrySearchReply::FileName(name),
            ) => {
                let is_program: bool = match &name {
                    Some(units) => eq_ignore_ascii_case(
                        units.as_slice(),
                        encode_wide(QQ_EXE).as_slice(),
                    ),
                    None => false,
                };
                if is_program {
                    RegistrySearch::Done { found: Some(path) }
                } else {
                    RegistrySearch::Parent { source, path }
                }
            },
            (
                RegistrySearch::Parent { source, path: _ },
                RegistrySearchReply::Parent(parent),
            ) => match parent {
                Some(dir) => RegistrySearch::Join { source, dir, name: QQ_EXE },
                None => RegistrySearch::next_source(source),
            },
            (
                RegistrySearch::Join { source, dir: _, name: _ },
                RegistrySearchReply::Joined(path),
            ) => RegistrySearch::TestSibling { source, path },
            (
                RegistrySearch::TestSibling { source, path },
                RegistrySearchReply::Exists(exists_there),
            ) => if exists_there {
                RegistrySearch::Done { found: Some(path) }
            } else {
                RegistrySearch::next_source(source)
            },
            (state, _) => state,
        }
    }
}

/// The value to read for a source: the machine's branch before the user's, and in each the icon
/// before the uninstaller.
pub fn registry_value(source: u32) -> (r: RegistryValue)
    ensures
        r.root == (if source < 2 {
            RegistryRoot::LocalMachine
        } else {
            RegistryRoot::CurrentUser
        }),
        r.subkey@ == QQ_UNINSTALL_KEY@,
        r.subkey@ == "SOFTWARE\\Microsoft\\Windows\\CurrentVersion\\Uninstall\\QQ"@,
        r.value_name@ == (if source % 2 == 0 {
            "DisplayIcon"@
        } else {
            "UninstallString"@
        }),
{
    RegistryValue {
        root: if source < 2 {
            RegistryRoot::LocalMachine
        } else {
            RegistryRoot::CurrentUser
        },
        subkey: QQ_UNINSTALL_KEY,
        value_name: if source % 2 == 0 {
            "DisplayIcon"
        } else {
            "UninstallString"
        },
    }
}

/// Begins the search in the registry.
pub fn qq_from_registry() -> (r: RegistrySearch)
    ensures
        r@ == RegistrySearchView::due(0),
{
    RegistrySearch::ReadValue { source: 0 }
}

/// The search for the program. Each state but the last asks for one thing.
#[derive(Debug, PartialEq, Eq)]
pub enum QqSearch {
    /// Which path do the arguments give?
    Explicit { launcher_dir: Vec<u16> },
    /// What is the path of the file `name` in the launcher's directory?
    Join { launcher_dir: Vec<u16>, name: &'static str },
    /// Does that path exist?
    Test { path: Vec<u16> },
    /// Which path does the registry give?
    Registry,
    /// The search is over.
    Done { found: Option<Vec<u16>> },
}

/// An answer to a search for the program.
#[derive(Debug, PartialEq, Eq)]
pub enum QqSearchReply {
    /// What the search among the arguments, or in the registry, has found.
    Found(Option<Vec<u16>>),
    /// The joined path.
    Joined(Vec<u16>),
    /// Whether the path exists.
    Exists(bool),
}

impl QqSearch {
    /// What follows upon an answer. One to another question changes nothing.
    pub open spec fn after(self, reply: QqSearchReply) -> QqSearch {
        match (self, reply) {
            (QqSearch::Explicit { launcher_dir }, QqSearchReply::Found(found)) => match found {
                Some(path) => QqSearch::Done { found: Some(path) },
                None => QqSearch::Join { launcher_dir, name: QQ_EXE },
            },
            (
                QqSearch::Join { launcher_dir, name },
                QqSearchReply::Joined(path),
            ) => QqSearch::Test { path },
            (QqSearch::Test { path }, QqSearchReply::Exists(exists_there)) => if exists_there {
                QqSearch::Done { found: Some(path) }
            } else {
                QqSearch::Registry
            },
            (QqSearch::Registry, QqSearchReply::Found(found)) => QqSearch::Done { found: found },
            _ => self,
        }
    }

    /// Takes the answer to the search's question.
    pub fn step(self, reply: QqSearchReply) -> (r: QqSearch)
        ensures
            r == self.after(reply),
    {
        match (self, reply) {
            (QqSearch::Explicit { launcher_dir }, QqSearchReply::Found(found)) => match found {
                Some(path) => QqSearch::Done { found: Some(path) },
                None => QqSearch::Join { launcher_dir, name: QQ_EXE },
            },
            (
                QqSearch::Join { launcher_dir: _, name: _ },
                QqSearchReply::Joined(path),
            ) => QqSearch::Test { path },
            (QqSearch::Test { path }, QqSearchReply::Exists(exists_there)) => if exists_there {
                QqSearch::Done { found: Some(path) }
            } else {
                QqSearch::Registry
            },
            (QqSearch::Registry, QqSearchReply::Found(found)) => QqSearch::Done { found: found },
            (state, _) => state,
        }
    }
}

/// Begins the search for the program.
pub fn find_qq_path(launcher_dir: Vec<u16>) -> (r: QqSearch)
    ensures
        r == (QqSearch::Explicit { launcher_dir }),
{
    QqSearch::Explicit { launcher_dir }
}

/// What a search asks about: the values of the registry, the files that exist, and the parts of
/// paths. `join` gives the path of `QQ.exe` in a directory.
pub struct Surroundings {
    pub values: spec_fn(int) -> Option<Seq<char>>,
    pub exists_there: spec_fn(Seq<u16>) -> bool,
    pub file_name: spec_fn(Seq<u16>) -> Option<Seq<u16>>,
    pub parent: spec_fn(Seq<u16>) -> Option<Seq<u16>>,
    pub join: spec_fn(Seq<u16>) -> Seq<u16>,
}

impl Surroundings {
    /// The program that one value of the registry leads to: the path it names where that exists and
    /// is called `QQ.exe`, or else the `QQ.exe` beside an existing path.
    pub open spec fn source_path(self, source: int) -> Option<Seq<u16>> {
        match (self.values)(source) {
            None => None,
            Some(text) => match registry_path(text) {
                None => None,
                Some(named) => {
                    let path = utf16(named);
                    if !(self.exists_there)(path) {
                        None
                    } else if is_qq_exe((self.file_name)(path)) {
                        Some(path)
                    } else {
                        match (self.parent)(path) {
                            None => None,
                            Some(dir) => if (self.exists_there)((self.join)(dir)) {
                                Some((self.join)(dir))
                            } else {
                                None
                            },
                        }
                    }
                },
            },
        }
    }

    /// The program that the first value from `source` on leads to.
    pub open spec fn first_source_path(self, source: int) -> Option<Seq<u16>>
        decreases REGISTRY_SOURCES - source,
    {
        if source >= REGISTRY_SOURCES {
            None
        } else {
            match self.source_path(source) {
                Some(path) => Some(path),
                None => self.first_source_path(source + 1),
            }
        }
    }

    /// The program: the first existing path that the arguments give, or else the `QQ.exe` in the
    /// launcher's directory, or else what the registry leads to.
    pub open spec fn qq_path(
        self,
        args: Seq<Seq<u16>>,
        launcher_dir: Seq<u16>,
    ) -> Option<Seq<u16>> {
        match first_existing(self.exists_there, explicit_paths(args, 1), 0) {
            Some(path) => Some(path),
            None => if (self.exists_there)((self.join)(launcher_dir)) {
                Some((self.join)(launcher_dir))
            } else {
                self.first_source_path(0)
            },
        }
    }
}

impl RegistrySearchView {
    /// Where the search stands after `steps` answers.
    pub open spec fn driven(self, around: Surroundings, steps: nat) -> RegistrySearchView
        decreases steps,
    {
        if steps == 0 {
            self
        } else {
            let next = match self {
                RegistrySearchView::ReadValue { source } => self.after(
                    RegistrySearchReplyView::Value((around.values)(source)),
                ),
                RegistrySearchView::TestPath { source, path } => self.after(
                    RegistrySearchReplyView::Exists((around.exists_there)(path)),
                ),
                RegistrySearchView::FileName { source, path } => self.after(
                    RegistrySearchReplyView::FileName((around.file_name)(path)),
                ),
                RegistrySearchView::Parent { source, path } => self.after(
                    RegistrySearchReplyView::Parent((around.parent)(path)),
                ),
                RegistrySearchView::Join { source, dir, name } => self.after(
                    RegistrySearchReplyView::Joined((around.join)(dir)),
                ),
                RegistrySearchView::TestSibling { source, path } => self.after(
                    RegistrySearchReplyView::Exists((around.exists_there)(path)),
                ),
                RegistrySearchView::Done { found } => self,
            };
            next.driven(around, (steps - 1) as nat)
        }
    }
}

/// A search that is over stays where it is.
proof fn lemma_registry_done_stays(around: Surroundings, found: Option<Seq<u16>>, steps: nat)
    ensures
        (RegistrySearchView::Done { found }).driven(around, steps) == (RegistrySearchView::Done {
            found,
        }),
    decreases steps,
{
    if steps > 0 {
        lemma_registry_done_stays(around, found, (steps - 1) as nat);
    }
}

/// The search in the registry ends with the program that the first value leads to, in the order of
/// the values.
pub proof fn law_first_source_wins(around: Surroundings, source: int, steps: nat)
    requires
        0 <= source <= REGISTRY_SOURCES,
        steps >= 6 * (REGISTRY_SOURCES - source),
    ensures
        RegistrySearchView::due(source).driven(around, steps) == (RegistrySearchView::Done {
            found: around.first_source_path(source),
        }),
    decreases REGISTRY_SOURCES - source,
{
    if source == REGISTRY_SOURCES {
        lemma_registry_done_stays(around, None, steps);
    } else {
        reveal_with_fuel(RegistrySearchView::driven, 7);
        let used: nat = match (around.values)(source) {
            None => 1,
            Some(text) => match registry_path(text) {
                None => 1,
                Some(named) => if !(around.exists_there)(utf16(named)) {
                    2
                } else if is_qq_exe((around.file_name)(utf16(named))) {
                    3
                } else if (around.parent)(utf16(named)) is None {
                    4
                } else {
                    6
                },
            },
        };
        let left = (steps - used) as nat;
        match around.source_path(source) {
            Some(path) => {
                lemma_registry_done_stays(around, Some(path), left);
            },
            None => {
                law_first_source_wins(around, source + 1, left);
            },
        }
    }
}

impl QqSearch {
    /// Where the search stands after `steps` answers: what the arguments give, the path in the
    /// launcher's directory, whether that exists, and what the registry gives.
    pub open spec fn driven(
        self,
        explicit: Option<Vec<u16>>,
        joined: Vec<u16>,
        exists_there: bool,
        registry: Option<Vec<u16>>,
        steps: nat,
    ) -> QqSearch
        decreases steps,
    {
        if steps == 0 {
            self
        } else {
            let next = match self {
                QqSearch::Explicit { launcher_dir } => self.after(QqSearchReply::Found(explicit)),
                QqSearch::Join { launcher_dir, name } => self.after(QqSearchReply::Joined(joined)),
                QqSearch::Test { path } => self.after(QqSearchReply::Exists(exists_there)),
                QqSearch::Registry => self.after(QqSearchReply::Found(registry)),
                QqSearch::Done { found } => self,
            };
            next.driven(explicit, joined, exists_there, registry, (steps - 1) as nat)
        }
    }
}

/// The program is taken from the arguments before the launcher's directory, and from there before
/// the registry.
pub proof fn law_search_order(
    around: Surroundings,
    args: Seq<Seq<u16>>,
    launcher_dir: Vec<u16>,
    explicit: Option<Vec<u16>>,
    joined: Vec<u16>,
    registry: Option<Vec<u16>>,
)
    requires
        spelling(explicit) == first_existing(around.exists_there, explicit_paths(args, 1), 0),
        joined@ == (around.join)(launcher_dir@),
        spelling(registry) == around.first_source_path(0),
    ensures
        (QqSearch::Explicit { launcher_dir }).driven(
            explicit,
            joined,
            (around.exists_there)(joined@),
            registry,
            4,
        ) matches QqSearch::Done { found } && spelling(found) == around.qq_path(
            args,
            launcher_dir@,
        ),
{
    reveal_with_fuel(QqSearch::driven, 5);
}

impl RegistrySearchView {
    /// The reply answers the question that the search asks.
    pub open spec fn answers(self, reply: RegistrySearchReplyView) -> bool {
        match (self, reply) {
            (RegistrySearchView::ReadValue { .. }, RegistrySearchReplyView::Value(_)) => true,
            (RegistrySearchView::TestPath { .. }, RegistrySearchReplyView::Exists(_)) => true,
            (RegistrySearchView::FileName { .. }, RegistrySearchReplyView::FileName(_)) => true,
            (RegistrySearchView::Parent { .. }, RegistrySearchReplyView::Parent(_)) => true,
            (RegistrySearchView::Join { .. }, RegistrySearchReplyView::Joined(_)) => true,
            (RegistrySearchView::TestSibling { .. }, RegistrySearchReplyView::Exists(_)) => true,
            _ => false,
        }
    }

    /// How many answers may still be asked for, at most.
    pub open spec fn distance(self) -> int {
        let left = |source: int|
            if source < REGISTRY_SOURCES {
                6 * (REGISTRY_SOURCES - source)
            } else {
                6
            };
        match self {
            RegistrySearchView::ReadValue { source } => left(source),
            RegistrySearchView::TestPath { source, path } => left(source) - 1,
            RegistrySearchView::FileName { source, path } => left(source) - 2,
            RegistrySearchView::Parent { source, path } => left(source) - 3,
            RegistrySearchView::Join { source, dir, name } => left(source) - 4,
            RegistrySearchView::TestSibling { source, path } => left(source) - 5,
            RegistrySearchView::Done { found } => 0,
        }
    }
}

/// Every answer brings the search in the registry nearer to its end, so that it ends whatever is
/// answered.
pub proof fn law_registry_search_ends(state: RegistrySearchView, reply: RegistrySearchReplyView)
    requires
        state.answers(reply),
    ensures
        0 <= state.after(reply).distance() < state.distance(),
{
}

/// Spellings are compared unit by unit: both are at their end, or both go on with the same unit or
/// with the same letter in another case.
pub proof fn law_same_but_for_case_by_unit(one: Seq<u16>, other: Seq<u16>, a: u16, b: u16)
    ensures
        same_but_for_case(seq![], seq![]),
        same_but_for_case(one, other) ==> one.len() == other.len(),
        same_but_for_case(one.push(a), other.push(b)) <==> same_but_for_case(one, other) && {
            ||| a == b
            ||| 'A' as u16 <= a <= 'Z' as u16 && b - a == 'a' as u16 - 'A' as u16
            ||| 'A' as u16 <= b <= 'Z' as u16 && a - b == 'a' as u16 - 'A' as u16
        },
{
    law_case_of_letters(a as u32, b as u32);
    let longer = one.push(a);
    let beside = other.push(b);
    if same_but_for_case(longer, beside) {
        assert forall|i: int| 0 <= i < one.len() implies ascii_lower(#[trigger] one[i] as u32)
            == ascii_lower(other[i] as u32) by {
            assert(longer[i] == one[i]);
        }
        assert(ascii_lower(longer[one.len() as int] as u32) == ascii_lower(
            beside[one.len() as int] as u32,
        ));
    }
    if same_but_for_case(one, other) && ascii_lower(a as u32) == ascii_lower(b as u32) {
        assert forall|i: int| 0 <= i < longer.len() implies ascii_lower(#[trigger] longer[i] as u32)
            == ascii_lower(beside[i] as u32) by {
            if i < one.len() {
                assert(longer[i] == one[i]);
                assert(beside[i] == other[i]);
            }
        }
    }
}

/// The name of the program in UTF-16.
proof fn lemma_program_units()
    ensures
        utf16("QQ.exe"@) == seq![0x51u16, 0x51, 0x2e, 0x65, 0x78, 0x65],
{
    reveal_strlit("QQ.exe");
    reveal_with_fuel(utf16, 7);
    let text = "QQ.exe"@;
    assert(text.drop_first()[0] == 'Q');
    assert(text.drop_first().drop_first()[0] == '.');
    assert(text.drop_first().drop_first().drop_first()[0] == 'e');
    assert(text.drop_first().drop_first().drop_first().drop_first()[0] == 'x');
    assert(text.drop_first().drop_first().drop_first().drop_first().drop_first()[0] == 'e');
    assert(utf16(text) =~= seq![0x51u16, 0x51, 0x2e, 0x65, 0x78, 0x65]);
}

/// The names that count as the program's are those of six units that spell `QQ.exe` in letters of
/// either case.
pub proof fn law_program_name(units: Seq<u16>)
    ensures
        !is_qq_exe(None),
        is_qq_exe(Some(units)) <==> {
            &&& units.len() == 6
            &&& units[0] == 0x51 || units[0] == 0x71
            &&& units[1] == 0x51 || units[1] == 0x71
            &&& units[2] == 0x2e
            &&& units[3] == 0x45 || units[3] == 0x65
            &&& units[4] == 0x58 || units[4] == 0x78
            &&& units[5] == 0x45 || units[5] == 0x65
        },
{
    lemma_program_units();
    let name = utf16(QQ_EXE@);
    if units.len() == 6 {
        lemma_unit_case(units[0]);
        lemma_unit_case(units[1]);
        lemma_unit_case(units[2]);
        lemma_unit_case(units[3]);
        lemma_unit_case(units[4]);
        lemma_unit_case(units[5]);
        if same_but_for_case(units, name) {
            assert(ascii_lower(units[0] as u32) == ascii_lower(name[0] as u32));
            assert(ascii_lower(units[1] as u32) == ascii_lower(name[1] as u32));
            assert(ascii_lower(units[2] as u32) == ascii_lower(name[2] as u32));
            assert(ascii_lower(units[3] as u32) == ascii_lower(name[3] as u32));
            assert(ascii_lower(units[4] as u32) == ascii_lower(name[4] as u32));
            assert(ascii_lower(units[5] as u32) == ascii_lower(name[5] as u32));
        }
    }
}

/// Which units are those of the program's name, but for their case.
proof fn lemma_unit_case(unit: u16)
    ensures
        ascii_lower(unit as u32) == ascii_lower(0x51) <==> unit == 0x51 || unit == 0x71,
        ascii_lower(unit as u32) == ascii_lower(0x2e) <==> unit == 0x2e,
        ascii_lower(unit as u32) == ascii_lower(0x65) <==> unit == 0x45 || unit == 0x65,
        ascii_lower(unit as u32) == ascii_lower(0x78) <==> unit == 0x58 || unit == 0x78,
{
}

/// The options before a path are `--qq` and `--qq-path`, spelled exactly so.
pub proof fn law_path_options(arg: Seq<u16>)
    ensures
        is_path_option(arg) <==> {
            ||| arg == seq![0x2du16, 0x2d, 0x71, 0x71]
            ||| arg == seq![0x2du16, 0x2d, 0x71, 0x71, 0x2d, 0x70, 0x61, 0x74, 0x68]
        },
{
    reveal_strlit("--qq");
    reveal_strlit("--qq-path");
    lemma_plain_units("--qq"@, seq![0x2du16, 0x2d, 0x71, 0x71]);
    lemma_plain_units(
        "--qq-path"@,
        seq![0x2du16, 0x2d, 0x71, 0x71, 0x2d, 0x70, 0x61, 0x74, 0x68],
    );
}

/// A text of characters below 0x10000 has their numbers as its units.
proof fn lemma_plain_units(text: Seq<char>, units: Seq<u16>)
    requires
        text.len() == units.len(),
        forall|i: int| 0 <= i < text.len() ==> #[trigger] text[i] as int == units[i],
    ensures
        utf16(text) == units,
    decreases text.len(),
{
    if text.len() > 0 {
        let shorter = text.drop_last();
        assert(text =~= shorter.push(text.last()));
        assert(text[text.len() - 1] as int == units[text.len() - 1]);
        assert forall|i: int| 0 <= i < shorter.len() implies #[trigger] shorter[i] as int
            == units.drop_last()[i] by {
            assert(text[i] == shorter[i]);
        }
        lemma_plain_units(shorter, units.drop_last());
        law_utf16_by_character(shorter, text.last());
        assert(units =~= units.drop_last().push(units.last()));
    } else {
        assert(utf16(text) =~= units);
    }
}

/// The paths that arguments give from a place on depend on the arguments from there on alone.
proof fn lemma_paths_of_rest(
    one: Seq<Seq<u16>>,
    other: Seq<Seq<u16>>,
    rest: Seq<Seq<u16>>,
    from: int,
)
    requires
        0 <= from,
    ensures
        explicit_paths(one + rest, one.len() + from) == explicit_paths(
            other + rest,
            other.len() + from,
        ),
    decreases rest.len() - from,
{
    if from < rest.len() {
        assert((one + rest)[one.len() + from] == rest[from]);
        assert((other + rest)[other.len() + from] == rest[from]);
        lemma_paths_of_rest(one, other, rest, from + 1);
        if from + 1 < rest.len() {
            assert((one + rest)[one.len() + from + 1] == rest[from + 1]);
            assert((other + rest)[other.len() + from + 1] == rest[from + 1]);
            lemma_paths_of_rest(one, other, rest, from + 2);
        }
    }
}

/// Arguments that are no options give no paths.
proof fn lemma_plain_arguments(
    before: Seq<Seq<u16>>,
    plain: Seq<Seq<u16>>,
    rest: Seq<Seq<u16>>,
)
    requires
        forall|i: int| 0 <= i < plain.len() ==> !is_path_option(#[trigger] plain[i]),
    ensures
        explicit_paths(before + plain + rest, before.len() as int) == explicit_paths(
            before + plain + rest,
            (before.len() + plain.len()) as int,
        ),
    decreases plain.len(),
{
    if plain.len() > 0 {
        let first = plain[0];
        let onward = before.push(first);
        let later = plain.drop_first();
        assert(before + plain + rest =~= onward + later + rest);
        assert((before + plain + rest)[before.len() as int] == first);
        assert(!is_path_option(first));
        assert forall|i: int| 0 <= i < later.len() implies !is_path_option(#[trigger] later[i]) by {
            assert(later[i] == plain[i + 1]);
        }
        lemma_plain_arguments(onward, later, rest);
    }
}

/// The program's own name gives no path, nor do arguments that are no options. Behind an option the
/// next argument is a path, whatever it is; what comes behind that is read as if nothing stood before
/// it. An option with nothing behind it gives none.
pub proof fn law_path_follows_option(
    own: Seq<u16>,
    plain: Seq<Seq<u16>>,
    option: Seq<u16>,
    path: Seq<u16>,
    rest: Seq<Seq<u16>>,
)
    requires
        forall|i: int| 0 <= i < plain.len() ==> !is_path_option(#[trigger] plain[i]),
        is_path_option(option),
    ensures
        explicit_paths(seq![own] + plain, 1) == Seq::<Seq<u16>>::empty(),
        explicit_paths(seq![own] + plain + seq![option], 1) == Seq::<Seq<u16>>::empty(),
        explicit_paths(seq![own] + plain + (seq![option, path] + rest), 1) == seq![path]
            + explicit_paths(seq![own] + rest, 1),
{
    let before = seq![own];
    let nothing: Seq<Seq<u16>> = seq![];
    lemma_plain_arguments(before, plain, nothing);
    assert(before + plain + nothing =~= before + plain);
    lemma_plain_arguments(before, plain, seq![option]);
    let last = before + plain + seq![option];
    assert(last[1 + plain.len() as int] == option);
    let given = seq![option, path] + rest;
    lemma_plain_arguments(before, plain, given);
    let args = before + plain + given;
    assert(args[1 + plain.len() as int] == option);
    assert(args[2 + plain.len() as int] == path);
    let head = before + plain + seq![option, path];
    assert(args =~= head + rest);
    lemma_paths_of_rest(head, before, rest, 0);
}

/// Where none of the paths from `index` to before `goal` exists, the question for the one at `goal`
/// follows upon them.
proof fn lemma_explicit_asks_on(
    exists_there: spec_fn(Seq<u16>) -> bool,
    candidates: Seq<Seq<u16>>,
    index: int,
    goal: int,
    steps: nat,
)
    requires
        0 <= index <= goal <= candidates.len(),
        forall|i: int| index <= i < goal ==> !exists_there(#[trigger] candidates[i]),
    ensures
        ExplicitSearchView::due(candidates, index).driven(
            exists_there,
            (goal - index + steps) as nat,
        ) == ExplicitSearchView::due(candidates, goal).driven(exists_there, steps),
    decreases goal - index,
{
    if index < goal {
        assert(!exists_there(candidates[index]));
        lemma_explicit_asks_on(exists_there, candidates, index + 1, goal, steps);
    }
}

/// The given paths are asked for one by one, in their order. The first that exists ends the search
/// with itself; where none does, the search ends behind the last, with nothing.
pub proof fn law_given_paths_in_turn(
    exists_there: spec_fn(Seq<u16>) -> bool,
    candidates: Seq<Seq<u16>>,
    at: int,
)
    requires
        0 <= at <= candidates.len(),
        forall|i: int| 0 <= i < at ==> !exists_there(#[trigger] candidates[i]),
    ensures
        ({
            let start = ExplicitSearchView::due(candidates, 0);
            &&& at < candidates.len() ==> start.driven(exists_there, at as nat) == (
            ExplicitSearchView::Test { candidates, index: at })
            &&& at < candidates.len() && exists_there(candidates[at]) ==> start.driven(
                exists_there,
                (at + 1) as nat,
            ) == (ExplicitSearchView::Done { found: Some(candidates[at]) })
            &&& at == candidates.len() ==> start.driven(exists_there, at as nat) == (
            ExplicitSearchView::Done { found: None })
        }),
{
    reveal_with_fuel(ExplicitSearchView::driven, 2);
    lemma_explicit_asks_on(exists_there, candidates, 0, at, 0);
    lemma_explicit_asks_on(exists_there, candidates, 0, at, 1);
}

/// A search that is over takes no more answers.
pub proof fn law_explicit_search_stays_over(found: Option<Seq<u16>>, exists_there: bool)
    ensures
        (ExplicitSearchView::Done { found }).after(exists_there) == (ExplicitSearchView::Done {
            found,
        }),
{
}

/// Where the search stands once a value has led to nothing: at the next of the four, or at its end.
pub open spec fn behind_source(state: RegistrySearchView, source: int) -> bool {
    if source < 3 {
        state == (RegistrySearchView::ReadValue { source: source + 1 })
    } else {
        state == (RegistrySearchView::Done { found: None })
    }
}

/// What is asked for each of the four values, in turn: the path that the value names must exist. It is
/// the program where its last part is the program's name; otherwise the program is the `QQ.exe` beside
/// it, where that exists. A value that leads to no program gives way to the next.
pub proof fn law_source_is_followed(around: Surroundings, source: int)
    requires
        0 <= source < 4,
    ensures
        RegistrySearchView::due(0) == (RegistrySearchView::ReadValue { source: 0 }),
        ({
            let start = RegistrySearchView::ReadValue { source };
            match (around.values)(source) {
                None => behind_source(start.driven(around, 1), source),
                Some(text) => match registry_path(text) {
                    None => behind_source(start.driven(around, 1), source),
                    Some(named) => {
                        let path = utf16(named);
                        &&& start.driven(around, 1) == (RegistrySearchView::TestPath {
                            source,
                            path,
                        })
                        &&& if !(around.exists_there)(path) {
                            behind_source(start.driven(around, 2), source)
                        } else {
                            &&& start.driven(around, 2) == (RegistrySearchView::FileName {
                                source,
                                path,
                            })
                            &&& if is_qq_exe((around.file_name)(path)) {
                                start.driven(around, 3) == (RegistrySearchView::Done {
                                    found: Some(path),
                                })
                            } else {
                                &&& start.driven(around, 3) == (RegistrySearchView::Parent {
                                    source,
                                    path,
                                })
                                &&& beside_path_is_tried(start, around, source, path)
                            }
                        }
                    },
                },
            }
        }),
{
    reveal_with_fuel(RegistrySearchView::driven, 7);
}

/// The `QQ.exe` in the directory of a path is asked for, and found where it exists.
pub open spec fn beside_path_is_tried(
    start: RegistrySearchView,
    around: Surroundings,
    source: int,
    path: Seq<u16>,
) -> bool {
    match (around.parent)(path) {
        None => behind_source(start.driven(around, 4), source),
        Some(dir) => {
            let beside = (around.join)(dir);
            &&& start.driven(around, 4) == (RegistrySearchView::Join {
                source,
                dir,
                name: "QQ.exe"@,
            })
            &&& start.driven(around, 5) == (RegistrySearchView::TestSibling {
                source,
                path: beside,
            })
            &&& if (around.exists_there)(beside) {
                start.driven(around, 6) == (RegistrySearchView::Done { found: Some(beside) })
            } else {
                behind_source(start.driven(around, 6), source)
            }
        },
    }
}

/// An answer to another question than the one that is asked changes nothing.
pub proof fn law_registry_search_ignores_other_answers(
    state: RegistrySearchView,
    reply: RegistrySearchReplyView,
)
    ensures
        !state.answers(reply) ==> state.after(reply) == state,
{
}

/// What is asked in the search for the program: first for what the arguments give, then for the
/// `QQ.exe` in the launcher's directory, then for what the registry gives. Each is found as it was
/// answered, and ends the search.
pub proof fn law_program_is_sought_in_turn(
    launcher_dir: Vec<u16>,
    explicit: Option<Vec<u16>>,
    joined: Vec<u16>,
    exists_there: bool,
    registry: Option<Vec<u16>>,
)
    ensures
        ({
            let start = QqSearch::Explicit { launcher_dir };
            let at = |steps: nat| start.driven(explicit, joined, exists_there, registry, steps);
            if explicit is Some {
                at(1) == (QqSearch::Done { found: explicit })
            } else {
                &&& at(1) matches QqSearch::Join { launcher_dir: dir, name } && dir == launcher_dir
                    && name@ == "QQ.exe"@
                &&& at(2) == (QqSearch::Test { path: joined })
                &&& if exists_there {
                    at(3) == (QqSearch::Done { found: Some(joined) })
                } else {
                    &&& at(3) == QqSearch::Registry
                    &&& at(4) == (QqSearch::Done { found: registry })
                }
            }
        }),
{
    reveal_with_fuel(QqSearch::driven, 5);
}

impl QqSearch {
    /// The reply answers the question that the search asks.
    pub open spec fn answers(self, reply: QqSearchReply) -> bool {
        match self {
            QqSearch::Explicit { .. } => reply is Found,
            QqSearch::Join { .. } => reply is Joined,
            QqSearch::Test { .. } => reply is Exists,
            QqSearch::Registry => reply is Found,
            QqSearch::Done { .. } => false,
        }
    }
}

/// An answer to another question than the one that is asked changes nothing.
pub proof fn law_program_search_ignores_other_answers(state: QqSearch, reply: QqSearchReply)
    ensures
        !state.answers(reply) ==> state.after(reply) == state,
{
}

/// What a search stands for tells its question and the paths in it.
pub proof fn law_searches_are_told_apart(
    candidates: Vec<Vec<u16>>,
    index: usize,
    source: u32,
    path: Vec<u16>,
    name: &'static str,
)
    ensures
        (ExplicitSearch::Test { candidates, index })@ matches ExplicitSearchView::Test {
            candidates: shown,
            index: place,
        } && place == index && shown.len() == candidates@.len() && (forall|i: int|
            0 <= i < shown.len() ==> #[trigger] shown[i] == candidates@[i]@),
        (ExplicitSearch::Done { found: Some(path) })@ == (ExplicitSearchView::Done {
            found: Some(path@),
        }),
        (ExplicitSearch::Done { found: None })@ == (ExplicitSearchView::Done { found: None }),
        (RegistrySearch::ReadValue { source })@ == (RegistrySearchView::ReadValue {
            source: source as int,
        }),
        (RegistrySearch::TestPath { source, path })@ == (RegistrySearchView::TestPath {
            source: source as int,
            path: path@,
        }),
        (RegistrySearch::FileName { source, path })@ == (RegistrySearchView::FileName {
            source: source as int,
            path: path@,
        }),
        (RegistrySearch::Parent { source, path })@ == (RegistrySearchView::Parent {
            source: source as int,
            path: path@,
        }),
        (RegistrySearch::Join { source, dir: path, name })@ == (RegistrySearchView::Join {
            source: source as int,
            dir: path@,
            name: name@,
        }),
        (RegistrySearch::TestSibling { source, path })@ == (RegistrySearchView::TestSibling {
            source: source as int,
            path: path@,
        }),
        (RegistrySearch::Done { found: Some(path) })@ == (RegistrySearchView::Done {
            found: Some(path@),
        }),
        (RegistrySearch::Done { found: None })@ == (RegistrySearchView::Done { found: None }),
{
}

/// What an answer stands for tells its kind and what it says.
pub proof fn law_answers_are_told_apart(text: String, path: Vec<u16>, exists_there: bool)
    ensures
        RegistrySearchReply::Value(Some(text))@ == RegistrySearchReplyView::Value(Some(text@)),
        RegistrySearchReply::Value(None)@ == RegistrySearchReplyView::Value(None),
        RegistrySearchReply::Exists(exists_there)@ == RegistrySearchReplyView::Exists(exists_there),
        RegistrySearchReply::FileName(Some(path))@ == RegistrySearchReplyView::FileName(
            Some(path@),
        ),
        RegistrySearchReply::FileName(None)@ == RegistrySearchReplyView::FileName(None),
        RegistrySearchReply::Parent(Some(path))@ == RegistrySearchReplyView::Parent(Some(path@)),
        RegistrySearchReply::Parent(None)@ == RegistrySearchReplyView::Parent(None),
        RegistrySearchReply::Joined(path)@ == RegistrySearchReplyView::Joined(path@),
{
}

} // verus!
