use vstd::prelude::*;
use crate::text::{chars_of, position_of, to_ascii_lower, trim_bounds};
use crate::wide::{text_before_nul, wide_null};
use crate::win32::{error_success, key_read, key_wow64_32key, key_wow64_64key};

#[allow(unused_imports)]
use crate::text::{
    ascii_lower, first_at, is_white_space, law_text_before, law_trimmed_has_no_outer_space,
    law_trimming, lemma_text_before, lemma_trimmed_end_is_head, lemma_trimmed_end_keeps,
    lemma_trimming_drops_lead, text_before, trimmed, trimmed_end,
};
#[allow(unused_imports)]
use crate::wide::{before_nul, lossy_text, utf16};
#[allow(unused_imports)]
use crate::win32::{ERROR_SUCCESS, KEY_READ, KEY_WOW64_32KEY, KEY_WOW64_64KEY};

verus! {

/// `.exe`, in letters of either case, stands at a place of the text.
pub open spec fn exe_at(text: Seq<char>, at: int) -> bool {
    &&& 0 <= at
    &&& at + 4 <= text.len()
    &&& text[at] == '.'
    &&& ascii_lower(text[at + 1] as u32) == 'e' as u32
    &&& ascii_lower(text[at + 2] as u32) == 'x' as u32
    &&& ascii_lower(text[at + 3] as u32) == 'e' as u32
}

/// The first place where `.exe` stands.
pub open spec fn first_exe_at(text: Seq<char>, at: int) -> bool {
    &&& exe_at(text, at)
    &&& forall|i: int| 0 <= i < at ==> !exe_at(text, i)
}

/// The text up to and with its first `.exe`, if it holds one.
pub open spec fn through_exe(text: Seq<char>) -> Option<Seq<char>> {
    if exists|at: int| first_exe_at(text, at) {
        Some(text.take((choose|at: int| first_exe_at(text, at)) + 4))
    } else {
        None
    }
}

/// The path that a command or an icon location of the registry names. A quoted path ends at the
/// closing quote, without which there is none. Any other path ends with its first `.exe`, or else
/// before its first comma, or else with the text. White space around the text and around the path
/// does not count, and an empty text names none.
pub open spec fn registry_path(value: Seq<char>) -> Option<Seq<char>> {
    let text = trimmed(value);
    if text.len() == 0 {
        None
    } else if text[0] == '"' {
        match text_before(text.drop_first(), '"') {
            Some(path) => Some(trimmed(path)),
            None => None,
        }
    } else {
        match through_exe(text) {
            Some(path) => Some(trimmed(path)),
            None => match text_before(text, ',') {
                Some(path) => Some(trimmed(path)),
                None => Some(trimmed(text)),
            },
        }
    }
}

/// The first place in `chars[from..to]` where `.exe` stands.
fn position_of_exe(chars: &Vec<char>, from: usize, to: usize) -> (r: Option<usize>)
    requires
        from <= to <= chars@.len(),
    ensures
        match r {
            Some(at) => {
                &&& from <= at
                &&& at + 4 <= to
                &&& first_exe_at(chars@.subrange(from as int, to as int), at - from)
            },
            None => forall|at: int| !first_exe_at(chars@.subrange(from as int, to as int), at),
        },
{
    let ghost text = chars@.subrange(from as int, to as int);
    let mut at: usize = from;
    while to - at >= 4
        invariant
            from <= at <= to <= chars@.len(),
            text == chars@.subrange(from as int, to as int),
            forall|i: int| 0 <= i < at - from ==> !exe_at(text, i),
        decreases to - at,
    {
        if chars[at] == '.' && to_ascii_lower(chars[at + 1] as u32) == 'e' as u32
            && to_ascii_lower(chars[at + 2] as u32) == 'x' as u32 && to_ascii_lower(
            chars[at + 3] as u32,
        ) == 'e' as u32 {
            assert(exe_at(text, at - from));
            return Some(at);
        }
        assert(!exe_at(text, at - from));
        at = at + 1;
    }
    None
}

/// The path that a value of the registry names, in the text's own spelling.
pub fn trim_registry_exe_path(value: &str) -> (r: Option<&str>)
    ensures
        match r {
            Some(path) => registry_path(value@) == Some(path@),
            None => registry_path(value@) is None,
        },
{
    let chars = chars_of(value);
    let count: usize = chars.len();
    let (low, high) = trim_bounds(&chars, 0, count);
    assert(chars@.subrange(0, count as int) =~= chars@);
    let ghost text = chars@.subrange(low as int, high as int);
    if low == high {
        return None;
    }
    let mut start: usize = low;
    let mut end: usize = high;
    if chars[low] == '"' {
        start = low + 1;
        assert(text.drop_first() =~= chars@.subrange(start as int, high as int));
        match position_of(&chars, start, high, '"') {
            Some(at) => {
                proof {
                    lemma_text_before(text.drop_first(), '"', at - start);
                    assert(text.drop_first().take(at - start) =~= chars@.subrange(
                        start as int,
                        at as int,
                    ));
                }
                end = at;
            },
            None => {
                return None;
            },
        }
    } else {
        match position_of_exe(&chars, low, high) {
            Some(at) => {
                proof {
                    let chosen = choose|i: int| first_exe_at(text, i);
                    assert(first_exe_at(text, at - low));
                    assert(first_exe_at(text, chosen));
                    assert(chosen == at - low);
                    assert(text.take(at - low + 4) =~= chars@.subrange(low as int, at + 4));
                }
                end = at + 4;
            },
            None => match position_of(&chars, low, high, ',') {
                Some(at) => {
                    proof {
                        lemma_text_before(text, ',', at - low);
                        assert(text.take(at - low) =~= chars@.subrange(low as int, at as int));
                    }
                    end = at;
                },
                None => {},
            },
        }
    }
    let (from, to) = trim_bounds(&chars, start, end);
    Some(value.substring_char(from, to))
}

/// A path out of the registry has no white space around it.
pub proof fn law_registry_path_is_trimmed(value: Seq<char>)
    ensures
        registry_path(value) matches Some(path) ==> trimmed(path) == path,
{
    let text = trimmed(value);
    law_trimmed_has_no_outer_space(text);
    if let Some(path) = text_before(text.drop_first(), '"') {
        law_trimmed_has_no_outer_space(path);
    }
    if let Some(path) = through_exe(text) {
        law_trimmed_has_no_outer_space(path);
    }
    if let Some(path) = text_before(text, ',') {
        law_trimmed_has_no_outer_space(path);
    }
}

/// A quoted path is what the quotes hold, whatever stands behind them.
pub proof fn law_quoted_path(path: Seq<char>, tail: Seq<char>)
    requires
        forall|i: int| 0 <= i < path.len() ==> path[i] != '"',
    ensures
        registry_path(seq!['"'] + path + seq!['"'] + tail) == Some(trimmed(path)),
{
    let head = seq!['"'] + path + seq!['"'];
    let value = head + tail;
    lemma_trimmed_end_keeps(head, tail);
    let text = trimmed(value);
    assert(text == head + trimmed_end(tail));
    let rest = text.drop_first();
    assert(rest[path.len() as int] == '"');
    assert forall|i: int| 0 <= i < path.len() implies rest[i] != '"' by {
        assert(rest[i] == path[i]);
    }
    assert(first_at(rest, '"', path.len() as int));
    lemma_text_before(rest, '"', path.len() as int);
    assert(rest.take(path.len() as int) =~= path);
}

/// A path without quotes ends with its first `.exe`, whatever stands behind it.
pub proof fn law_path_ends_with_exe(path: Seq<char>, tail: Seq<char>)
    requires
        path.len() >= 4,
        path[0] != '"',
        !is_white_space(path[0]),
        first_exe_at(path, path.len() - 4),
    ensures
        registry_path(path + tail) == Some(path),
{
    let value = path + tail;
    assert(path.last() == path[path.len() - 4 + 3]);
    lemma_trimmed_end_keeps(path, tail);
    let text = trimmed(value);
    assert(text == path + trimmed_end(tail));
    let at = path.len() - 4;
    assert forall|i: int| 0 <= i < at implies !exe_at(text, i) by {
        assert(!exe_at(path, i));
    }
    assert(exe_at(text, at));
    assert(first_exe_at(text, at));
    let chosen = choose|i: int| first_exe_at(text, i);
    assert(first_exe_at(text, chosen));
    assert(chosen == at);
    assert(text.take(at + 4) =~= path);
    let nothing: Seq<char> = seq![];
    lemma_trimmed_end_keeps(path, nothing);
    assert(path + nothing =~= path);
    assert(path + trimmed_end(nothing) =~= path);
}

/// A branch of the registry.
#[derive(Clone, Copy, Debug, PartialEq, Eq, Structural)]
pub enum RegistryRoot {
    LocalMachine,
    CurrentUser,
}

/// A value of the registry: its branch, and the names of its key and of the value itself in UTF-16
/// with a closing zero unit.
#[derive(Debug, PartialEq, Eq)]
pub struct RegistryTarget {
    pub root: RegistryRoot,
    pub subkey: Vec<u16>,
    pub value_name: Vec<u16>,
}

/// The reading of a string out of the registry, which has more than one view. Each state but the last
/// names the call that is due.
#[derive(Debug, PartialEq, Eq)]
pub enum RegistryQuery {
    /// Open the key with the rights `access`.
    Open { target: RegistryTarget, view: u32, access: u32 },
    /// Ask how many bytes the value takes.
    Size { target: RegistryTarget, view: u32, key: usize },
    /// Read the value, at most `byte_len` bytes, into a zeroed buffer of so many 16-bit units.
    Read { target: RegistryTarget, view: u32, key: usize, byte_len: u32, units: usize },
    /// Close the key.
    Close { target: RegistryTarget, view: u32, key: usize, value: Option<Vec<u16>> },
    /// The reading is over; this is the buffer that was filled.
    Done { value: Option<Vec<u16>> },
}

/// How a call of a registry query went.
#[derive(Debug, PartialEq, Eq)]
pub enum RegistryReply {
    /// The status of opening the key, and the key.
    Opened { status: u32, key: usize },
    /// The status of asking for the size, and the size.
    Sized { status: u32, byte_len: u32 },
    /// The status of reading, and the buffer.
    Filled { status: u32, buffer: Vec<u16> },
    /// The call has been made.
    Made,
}

/// What sets a view of the registry apart: the 32-bit view comes first, then the 64-bit view, then
/// the one that the system chooses.
pub open spec fn view_flag(view: u32) -> u32 {
    if view == 0 {
        KEY_WOW64_32KEY
    } else if view == 1 {
        KEY_WOW64_64KEY
    } else {
        0
    }
}

impl RegistryQuery {
    /// A view is due, or none is left.
    pub open spec fn due(target: RegistryTarget, view: int) -> RegistryQuery {
        if view < 3 {
            RegistryQuery::Open { target, view: view as u32, access: KEY_READ | view_flag(view as u32) }
        } else {
            RegistryQuery::Done { value: None }
        }
    }

    /// What follows upon a reply. One to another call changes nothing.
    pub open spec fn after(self, reply: RegistryReply) -> RegistryQuery {
        match (self, reply) {
            (RegistryQuery::Open { target, view, access }, RegistryReply::Opened { status, key }) => if status
                == ERROR_SUCCESS {
                RegistryQuery::Size { target, view, key }
            } else {
                RegistryQuery::due(target, view + 1)
            },
            (RegistryQuery::Size { target, view, key }, RegistryReply::Sized { status, byte_len }) => if status
                == ERROR_SUCCESS && byte_len >= 2 {
                RegistryQuery::Read { target, view, key, byte_len, units: ((byte_len + 1) / 2) as usize }
            } else {
                RegistryQuery::Close { target, view, key, value: None }
            },
            (
                RegistryQuery::Read { target, view, key, byte_len, units },
                RegistryReply::Filled { status, buffer },
            ) => RegistryQuery::Close {
                target,
                view,
                key,
                value: if status == ERROR_SUCCESS {
                    Some(buffer)
                } else {
                    None
                },
            },
            (RegistryQuery::Close { target, view, key, value }, RegistryReply::Made) => match value {
                Some(buffer) => RegistryQuery::Done { value: Some(buffer) },
                None => RegistryQuery::due(target, view + 1),
            },
            _ => self,
        }
    }

    /// Goes on behind a view.
    fn next_view(target: RegistryTarget, view: u32) -> (r: RegistryQuery)
        ensures
            r == RegistryQuery::due(target, view + 1),
    {
        if view == 0 {
            RegistryQuery::Open { target, view: 1, access: key_read() | key_wow64_64key() }
        } else if view == 1 {
            RegistryQuery::Open { target, view: 2, access: key_read() | 0 }
        } else {
            RegistryQuery::Done { value: None }
        }
    }

    /// Takes how the call went.
    pub fn step(self, reply: RegistryReply) -> (r: RegistryQuery)
        ensures
            r == self.after(reply),
    {
        match (self, reply) {
            (RegistryQuery::Open { target, view, access: _ }, RegistryReply::Opened { status, key }) => {
                if status != error_success() {
                    RegistryQuery::next_view(target, view)
                } else {
                    RegistryQuery::Size { target, view, key }
                }
            },
            (RegistryQuery::Size { target, view, key }, RegistryReply::Sized { status, byte_len }) => {
                if status != error_success() || byte_len < 2 {
                    RegistryQuery::Close { target, view, key, value: None }
                } else {
                    let units: usize = (byte_len / 2 + byte_len % 2) as usize;
                    RegistryQuery::Read { target, view, key, byte_len, units }
                }
            },
            (
                RegistryQuery::Read { target, view, key, byte_len: _, units: _ },
                RegistryReply::Filled { status, buffer },
            ) => {
                if status != error_success() {
                    RegistryQuery::Close { target, view, key, value: None }
                } else {
                    RegistryQuery::Close { target, view, key, value: Some(buffer) }
                }
            },
            (RegistryQuery::Close { target, view, key: _, value }, RegistryReply::Made) => match value {
                Some(buffer) => RegistryQuery::Done { value: Some(buffer) },
                None => RegistryQuery::next_view(target, view),
            },
            (state, _) => state,
        }
    }

    /// The text that the query has read: what its buffer holds before the first zero unit.
    pub fn text(&self) -> (r: Option<String>)
        ensures
            match *self {
                RegistryQuery::Done { value: Some(buffer) } => r matches Some(text) && text@
                    == lossy_text(before_nul(buffer@)),
                _ => r is None,
            },
    {
        match self {
            RegistryQuery::Done { value: Some(buffer) } => Some(text_before_nul(buffer.as_slice())),
            _ => None,
        }
    }
}

/// Begins to read a string out of the registry.
pub fn query_registry_string(root: RegistryRoot, subkey: &str, value_name: &str) -> (r:
    RegistryQuery)
    ensures
        r matches RegistryQuery::Open { target, view, access } && {
            &&& target.root == root
            &&& target.subkey@ == utf16(subkey@).push(0)
            &&& target.value_name@ == utf16(value_name@).push(0)
            &&& r == RegistryQuery::due(target, 0)
        },
{
    let target = RegistryTarget {
        root,
        subkey: wide_null(subkey),
        value_name: wide_null(value_name),
    };
    RegistryQuery::Open { target, view: 0, access: key_read() | key_wow64_32key() }
}

impl RegistryQuery {
    /// The key that is open in a state.
    pub open spec fn open_key(self) -> Option<usize> {
        match self {
            RegistryQuery::Size { target, view, key } => Some(key),
            RegistryQuery::Read { target, view, key, byte_len, units } => Some(key),
            RegistryQuery::Close { target, view, key, value } => Some(key),
            _ => None,
        }
    }

    /// The value of the registry that a state is about.
    pub open spec fn target(self) -> Option<RegistryTarget> {
        match self {
            RegistryQuery::Open { target, view, access } => Some(target),
            RegistryQuery::Size { target, view, key } => Some(target),
            RegistryQuery::Read { target, view, key, byte_len, units } => Some(target),
            RegistryQuery::Close { target, view, key, value } => Some(target),
            RegistryQuery::Done { value } => None,
        }
    }

    /// Where the query stands after `steps` replies: `opened`, `sized` and `filled` say how the
    /// calls on each view come out.
    pub open spec fn driven(
        self,
        opened: spec_fn(int) -> (u32, usize),
        sized: spec_fn(int) -> (u32, u32),
        filled: spec_fn(int) -> (u32, Vec<u16>),
        steps: nat,
    ) -> RegistryQuery
        decreases steps,
    {
        if steps == 0 {
            self
        } else {
            let next = match self {
                RegistryQuery::Open { target, view, access } => self.after(
                    RegistryReply::Opened { status: opened(view as int).0, key: opened(view as int).1 },
                ),
                RegistryQuery::Size { target, view, key } => self.after(
                    RegistryReply::Sized { status: sized(view as int).0, byte_len: sized(view as int).1 },
                ),
                RegistryQuery::Read { target, view, key, byte_len, units } => self.after(
                    RegistryReply::Filled {
                        status: filled(view as int).0,
                        buffer: filled(view as int).1,
                    },
                ),
                RegistryQuery::Close { target, view, key, value } => self.after(RegistryReply::Made),
                RegistryQuery::Done { value } => self,
            };
            next.driven(opened, sized, filled, (steps - 1) as nat)
        }
    }
}

/// What one view of the registry holds: a buffer where all three calls go well and the value has at
/// least one unit.
pub open spec fn view_value(
    opened: spec_fn(int) -> (u32, usize),
    sized: spec_fn(int) -> (u32, u32),
    filled: spec_fn(int) -> (u32, Vec<u16>),
    view: int,
) -> Option<Vec<u16>> {
    if opened(view).0 == ERROR_SUCCESS && sized(view).0 == ERROR_SUCCESS && sized(view).1 >= 2
        && filled(view).0 == ERROR_SUCCESS {
        Some(filled(view).1)
    } else {
        None
    }
}

/// The first view from `view` on that holds a value.
pub open spec fn first_view_value(
    opened: spec_fn(int) -> (u32, usize),
    sized: spec_fn(int) -> (u32, u32),
    filled: spec_fn(int) -> (u32, Vec<u16>),
    view: int,
) -> Option<Vec<u16>>
    decreases 3 - view,
{
    if view >= 3 {
        None
    } else {
        match view_value(opened, sized, filled, view) {
            Some(buffer) => Some(buffer),
            None => first_view_value(opened, sized, filled, view + 1),
        }
    }
}

/// A query that is over stays where it is.
proof fn lemma_query_done_stays(
    opened: spec_fn(int) -> (u32, usize),
    sized: spec_fn(int) -> (u32, u32),
    filled: spec_fn(int) -> (u32, Vec<u16>),
    value: Option<Vec<u16>>,
    steps: nat,
)
    ensures
        (RegistryQuery::Done { value }).driven(opened, sized, filled, steps) == (
        RegistryQuery::Done { value }),
    decreases steps,
{
    if steps > 0 {
        lemma_query_done_stays(opened, sized, filled, value, (steps - 1) as nat);
    }
}

/// A query ends with the value of the first view that has one, in the order of the views.
pub proof fn law_query_takes_first_view(
    opened: spec_fn(int) -> (u32, usize),
    sized: spec_fn(int) -> (u32, u32),
    filled: spec_fn(int) -> (u32, Vec<u16>),
    target: RegistryTarget,
    view: int,
    steps: nat,
)
    requires
        0 <= view <= 3,
        steps >= 4 * (3 - view),
    ensures
        RegistryQuery::due(target, view).driven(opened, sized, filled, steps) == (RegistryQuery::Done {
            value: first_view_value(opened, sized, filled, view),
        }),
    decreases 3 - view,
{
    if view == 3 {
        lemma_query_done_stays(opened, sized, filled, None, steps);
    } else {
        reveal_with_fuel(RegistryQuery::driven, 5);
        let used: nat = if opened(view).0 != ERROR_SUCCESS {
            1
        } else if sized(view).0 != ERROR_SUCCESS || sized(view).1 < 2 {
            3
        } else {
            4
        };
        let left = (steps - used) as nat;
        match view_value(opened, sized, filled, view) {
            Some(buffer) => {
                lemma_query_done_stays(opened, sized, filled, Some(buffer), left);
            },
            None => {
                law_query_takes_first_view(opened, sized, filled, target, view + 1, left);
            },
        }
    }
}

/// Whatever the replies are, a key that has been opened stays open until it is closed, no second key
/// is opened meanwhile, and a query that is over has no key open.
pub proof fn law_keys_are_closed(query: RegistryQuery, reply: RegistryReply)
    ensures
        match query.open_key() {
            Some(key) => {
                ||| query.after(reply).open_key() == Some(key)
                ||| query is Close && reply is Made && query.after(reply).open_key() is None
            },
            None => query.after(reply).open_key() matches Some(key) ==> query is Open && reply
                == (RegistryReply::Opened { status: ERROR_SUCCESS, key }),
        },
        query is Done ==> query.open_key() is None,
{
}

/// Whatever the replies are, a query never turns to another value of the registry.
pub proof fn law_query_keeps_target(query: RegistryQuery, reply: RegistryReply)
    ensures
        query.after(reply).target() matches Some(target) ==> query.target() == Some(target),
{
}

/// The buffer into which a value is read has room for all the bytes that the call may write.
pub proof fn law_buffer_has_room(query: RegistryQuery, reply: RegistryReply)
    requires
        !(query is Read),
    ensures
        query.after(reply) matches RegistryQuery::Read { target, view, key, byte_len, units } ==> 2 * units
            >= byte_len && units > 0,
{
}

impl RegistryQuery {
    /// The reply is one to the call that is due.
    pub open spec fn answers(self, reply: RegistryReply) -> bool {
        match (self, reply) {
            (RegistryQuery::Open { .. }, RegistryReply::Opened { .. }) => true,
            (RegistryQuery::Size { .. }, RegistryReply::Sized { .. }) => true,
            (RegistryQuery::Read { .. }, RegistryReply::Filled { .. }) => true,
            (RegistryQuery::Close { .. }, RegistryReply::Made) => true,
            _ => false,
        }
    }

    /// How many calls may still be due, at most.
    pub open spec fn distance(self) -> int {
        let left = |view: u32|
            if view < 3 {
                4 * (3 - view)
            } else {
                4
            };
        match self {
            RegistryQuery::Open { target, view, access } => left(view),
            RegistryQuery::Size { target, view, key } => left(view) - 1,
            RegistryQuery::Read { target, view, key, byte_len, units } => left(view) - 2,
            RegistryQuery::Close { target, view, key, value } => left(view) - 3,
            RegistryQuery::Done { value } => 0,
        }
    }
}

/// Every reply brings a query nearer to its end, so that it ends whatever the replies are.
pub proof fn law_query_ends(query: RegistryQuery, reply: RegistryReply)
    requires
        query.answers(reply),
    ensures
        0 <= query.after(reply).distance() < query.distance(),
{
}

/// A dot and the letters of `exe`, each large or small, stand at a place of the text.
pub open spec fn spells_exe(text: Seq<char>, at: int) -> bool {
    &&& 0 <= at
    &&& at + 4 <= text.len()
    &&& text[at] == '.'
    &&& text[at + 1] == 'e' || text[at + 1] == 'E'
    &&& text[at + 2] == 'x' || text[at + 2] == 'X'
    &&& text[at + 3] == 'e' || text[at + 3] == 'E'
}

/// Each letter of `exe` is itself or its large form.
proof fn lemma_letters_of_exe(c: char)
    ensures
        ascii_lower(c as u32) == 'e' as u32 <==> c == 'e' || c == 'E',
        ascii_lower(c as u32) == 'x' as u32 <==> c == 'x' || c == 'X',
{
}

/// `.exe` is found exactly where it is spelled, in letters of either case.
pub proof fn law_exe_in_either_case(text: Seq<char>, at: int)
    ensures
        exe_at(text, at) <==> spells_exe(text, at),
{
    lemma_letters_of_exe(text[at + 1]);
    lemma_letters_of_exe(text[at + 2]);
    lemma_letters_of_exe(text[at + 3]);
}

/// A value names no path where it holds nothing but white space, and where it opens a quote that it
/// does not close.
pub proof fn law_value_without_path(lead: Seq<char>, rest: Seq<char>)
    requires
        forall|i: int| 0 <= i < lead.len() ==> is_white_space(#[trigger] lead[i]),
        forall|i: int| 0 <= i < rest.len() ==> rest[i] != '"',
    ensures
        registry_path(lead) is None,
        registry_path(lead + (seq!['"'] + rest)) is None,
{
    let nothing: Seq<char> = seq![];
    lemma_trimming_drops_lead(lead, nothing);
    assert(lead + nothing =~= lead);
    assert(trimmed(nothing) =~= nothing);
    let quoted = seq!['"'] + rest;
    lemma_trimming_drops_lead(lead, quoted);
    lemma_trimmed_end_keeps(seq!['"'], rest);
    let text = trimmed(quoted);
    assert(quoted[0] == '"');
    assert(text =~= seq!['"'] + trimmed_end(rest));
    assert(text.drop_first() =~= trimmed_end(rest));
    lemma_trimmed_end_is_head(rest);
    assert forall|at: int| !first_at(text.drop_first(), '"', at) by {
        if first_at(text.drop_first(), '"', at) {
            assert(text.drop_first()[at] == rest[at]);
        }
    }
}

/// A value that begins with a quote names what stands before the next quote, without the white space
/// around it, whatever comes behind.
pub proof fn law_value_in_quotes(lead: Seq<char>, path: Seq<char>, behind: Seq<char>)
    requires
        forall|i: int| 0 <= i < lead.len() ==> is_white_space(#[trigger] lead[i]),
        forall|i: int| 0 <= i < path.len() ==> path[i] != '"',
    ensures
        registry_path(lead + (seq!['"'] + path + seq!['"'] + behind)) == Some(trimmed(path)),
{
    lemma_trimming_drops_lead(lead, seq!['"'] + path + seq!['"'] + behind);
    law_quoted_path(path, behind);
}

/// A value without quotes that holds `.exe` names its text up to there, from its first character that
/// is no white space on, whatever comes behind.
pub proof fn law_value_with_exe(lead: Seq<char>, path: Seq<char>, behind: Seq<char>)
    requires
        forall|i: int| 0 <= i < lead.len() ==> is_white_space(#[trigger] lead[i]),
        path.len() >= 4,
        path[0] != '"',
        !is_white_space(path[0]),
        spells_exe(path, path.len() - 4),
        forall|at: int| 0 <= at < path.len() - 4 ==> !spells_exe(path, at),
    ensures
        registry_path(lead + (path + behind)) == Some(path),
{
    law_exe_in_either_case(path, path.len() - 4);
    assert forall|at: int| 0 <= at < path.len() - 4 implies !exe_at(path, at) by {
        law_exe_in_either_case(path, at);
    }
    lemma_trimming_drops_lead(lead, path + behind);
    law_path_ends_with_exe(path, behind);
}

/// A value without quotes and without `.exe` names what stands before its first comma, or all of its
/// text where it holds none, without the white space around it.
pub proof fn law_value_with_comma(
    lead: Seq<char>,
    core: Seq<char>,
    tail: Seq<char>,
    head: Seq<char>,
    behind: Seq<char>,
)
    requires
        forall|i: int| 0 <= i < lead.len() ==> is_white_space(#[trigger] lead[i]),
        forall|i: int| 0 <= i < tail.len() ==> is_white_space(#[trigger] tail[i]),
        core.len() > 0,
        !is_white_space(core[0]),
        !is_white_space(core.last()),
        core[0] != '"',
        forall|at: int| !spells_exe(core, at),
        forall|i: int| 0 <= i < head.len() ==> head[i] != ',',
    ensures
        core == head + seq![','] + behind ==> registry_path(lead + core + tail) == Some(
            trimmed(head),
        ),
        core == head ==> registry_path(lead + core + tail) == Some(core),
{
    law_trimming(lead, core, tail);
    assert forall|at: int| !first_exe_at(core, at) by {
        law_exe_in_either_case(core, at);
    }
    law_text_before(head, ',', behind, 0);
    let nothing: Seq<char> = seq![];
    law_trimming(nothing, core, nothing);
    assert(nothing + core + nothing =~= core);
}

/// Where the query stands once a view has been given up: the 64-bit view follows upon the 32-bit one,
/// and the system's own upon that; behind it the query ends without a value.
pub open spec fn behind_view(state: RegistryQuery, target: RegistryTarget, view: u32) -> bool {
    if view == 0 {
        state == (RegistryQuery::Open { target, view: 1, access: 0x20119 })
    } else if view == 1 {
        state == (RegistryQuery::Open { target, view: 2, access: 0x20019 })
    } else {
        state == (RegistryQuery::Done { value: None })
    }
}

/// A query begins with the 32-bit view of the registry.
pub proof fn law_query_begins_with_narrow_view(target: RegistryTarget)
    ensures
        RegistryQuery::due(target, 0) == (RegistryQuery::Open { target, view: 0, access: 0x20219 }),
{
    assert(0x20019u32 | 0x200u32 == 0x20219u32) by (bit_vector);
}

/// In each view the key is opened, the value's size asked for, and the value read with exactly that
/// size, into a buffer of as many units as it takes; the key is closed in any case. A view whose calls
/// go well gives its buffer, any other gives way to the next view.
pub proof fn law_view_is_read(
    opened: spec_fn(int) -> (u32, usize),
    sized: spec_fn(int) -> (u32, u32),
    filled: spec_fn(int) -> (u32, Vec<u16>),
    target: RegistryTarget,
    view: u32,
    access: u32,
)
    requires
        view < 3,
    ensures
        ({
            let start = RegistryQuery::Open { target, view, access };
            let (open_status, key) = opened(view as int);
            let (size_status, byte_len) = sized(view as int);
            let (read_status, buffer) = filled(view as int);
            if open_status != 0 {
                behind_view(start.driven(opened, sized, filled, 1), target, view)
            } else if size_status != 0 || byte_len < 2 {
                &&& start.driven(opened, sized, filled, 1) == (RegistryQuery::Size {
                    target,
                    view,
                    key,
                })
                &&& start.driven(opened, sized, filled, 2) == (RegistryQuery::Close {
                    target,
                    view,
                    key,
                    value: None,
                })
                &&& behind_view(start.driven(opened, sized, filled, 3), target, view)
            } else {
                &&& start.driven(opened, sized, filled, 1) == (RegistryQuery::Size {
                    target,
                    view,
                    key,
                })
                &&& start.driven(opened, sized, filled, 2) matches RegistryQuery::Read {
                    target: asked,
                    view: shown,
                    key: open,
                    byte_len: len,
                    units,
                } && {
                    &&& asked == target
                    &&& shown == view
                    &&& open == key
                    &&& len == byte_len
                    &&& 2 * units == byte_len || 2 * units == byte_len + 1
                }
                &&& start.driven(opened, sized, filled, 3) == (RegistryQuery::Close {
                    target,
                    view,
                    key,
                    value: if read_status == 0 {
                        Some(buffer)
                    } else {
                        None
                    },
                })
                &&& if read_status == 0 {
                    start.driven(opened, sized, filled, 4) == (RegistryQuery::Done {
                        value: Some(buffer),
                    })
                } else {
                    behind_view(start.driven(opened, sized, filled, 4), target, view)
                }
            }
        }),
{
    reveal_with_fuel(RegistryQuery::driven, 5);
    assert(0x20019u32 | 0x100u32 == 0x20119u32) by (bit_vector);
    assert(0x20019u32 | 0u32 == 0x20019u32) by (bit_vector);
}

/// A reply to another call than the one that is due changes nothing.
pub proof fn law_query_ignores_other_replies(query: RegistryQuery, reply: RegistryReply)
    ensures
        !query.answers(reply) ==> query.after(reply) == query,
{
}

} // verus!
