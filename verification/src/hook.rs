use vstd::prelude::*;
use crate::patch::{patches, PatchSpec};
use crate::win32::{dll_process_attach, true_value};

#[allow(unused_imports)]
use crate::memory::MemoryRegion;
#[allow(unused_imports)]
use crate::module_search::{
    law_unique_match_lies_in_module, unique_match, ModuleImage, ModuleSearch,
};
#[allow(unused_imports)]
use crate::patch::{law_patches_stay_in_match, recall_patches};
#[allow(unused_imports)]
use crate::pattern::written_pattern;
#[allow(unused_imports)]
use crate::win32::{DLL_PROCESS_ATTACH, TRUE};

verus! {

/// The module that the hook waits for.
pub const WRAPPER_MODULE: &'static str = "wrapper.node";

/// How often the hook asks for the module before it gives up.
pub const LOOK_UP_LIMIT: u32 = 300;

/// How many milliseconds the hook waits between two questions.
pub const LOOK_UP_PAUSE: u32 = 1000;

/// The work of applying a list of patches to a module. Each state but the last names the work that
/// is due.
#[derive(Debug, PartialEq, Eq)]
pub enum Recall {
    /// Search the module for the pattern of the patch at `index`.
    Search { module: usize, patches: Vec<PatchSpec>, index: usize, patched: usize },
    /// Write the replacement of the patch at `index` to the address.
    Write {
        module: usize,
        patches: Vec<PatchSpec>,
        index: usize,
        patched: usize,
        address: usize,
    },
    /// The work is over; so many patches have been applied.
    Done { patched: usize },
}

/// How a piece of work came out.
#[derive(Clone, Copy, Debug, PartialEq, Eq, Structural)]
pub enum RecallReply {
    /// The one place where the pattern fits, if there is one.
    Found(Option<usize>),
    /// Whether the replacement was written.
    Written(bool),
}

impl Recall {
    /// The counts are those of a list that has been worked through up to `index`.
    pub open spec fn well_formed(self) -> bool {
        match self {
            Recall::Search { module, patches, index, patched } => patched <= index < patches@.len(),
            Recall::Write { module, patches, index, patched, address } => patched <= index
                < patches@.len(),
            Recall::Done { patched } => true,
        }
    }

    /// The place that a reply names leaves room for the patch's offset.
    pub open spec fn has_room(self, reply: RecallReply) -> bool {
        match (self, reply) {
            (
                Recall::Search { module, patches, index, patched },
                RecallReply::Found(Some(address)),
            ) => address + patches@[index as int].opcode_offset <= usize::MAX,
            _ => true,
        }
    }

    /// The patch behind `index` is due, or none is left.
    pub open spec fn next(
        module: usize,
        patches: Vec<PatchSpec>,
        index: usize,
        patched: usize,
    ) -> Recall {
        if index + 1 < patches@.len() {
            Recall::Search { module, patches, index: (index + 1) as usize, patched }
        } else {
            Recall::Done { patched }
        }
    }

    /// What follows upon a reply. One about other work changes nothing.
    pub open spec fn after(self, reply: RecallReply) -> Recall {
        match (self, reply) {
            (
                Recall::Search { module, patches, index, patched },
                RecallReply::Found(found),
            ) => match found {
                Some(address) => Recall::Write {
                    module,
                    patches,
                    index,
                    patched,
                    address: (address + patches@[index as int].opcode_offset) as usize,
                },
                None => Recall::next(module, patches, index, patched),
            },
            (
                Recall::Write { module, patches, index, patched, address },
                RecallReply::Written(written),
            ) => Recall::next(
                module,
                patches,
                index,
                (if written {
                    patched + 1
                } else {
                    patched as int
                }) as usize,
            ),
            _ => self,
        }
    }

    /// Goes on behind `index`, with one patch more applied where `written` says so.
    fn advance(
        module: usize,
        patches: Vec<PatchSpec>,
        index: usize,
        patched: usize,
        written: bool,
    ) -> (r: Recall)
        requires
            patched <= index < patches@.len(),
        ensures
            r == Recall::next(
                module,
                patches,
                index,
                (if written {
                    patched + 1
                } else {
                    patched as int
                }) as usize,
            ),
            r.well_formed(),
    {
        let left: usize = patches.len() - index;
        let total: usize = if written {
            patched + 1
        } else {
            patched
        };
        if left > 1 {
            Recall::Search { module, patches, index: index + 1, patched: total }
        } else {
            Recall::Done { patched: total }
        }
    }

    /// The patch that is searched for or written, unless the work is over.
    pub fn due_patch(&self) -> (r: Option<&PatchSpec>)
        requires
            self.well_formed(),
        ensures
            match *self {
                Recall::Search { module, patches, index, patched } => r == Some(
                    &patches@[index as int],
                ),
                Recall::Write { module, patches, index, patched, address } => r == Some(
                    &patches@[index as int],
                ),
                Recall::Done { patched } => r is None,
            },
    {
        match self {
            Recall::Search { patches, index, .. } => Some(&patches[*index]),
            Recall::Write { patches, index, .. } => Some(&patches[*index]),
            Recall::Done { .. } => None,
        }
    }

    /// Takes how the work came out.
    pub fn step(self, reply: RecallReply) -> (r: Recall)
        requires
            self.well_formed(),
            self.has_room(reply),
        ensures
            r == self.after(reply),
            r.well_formed(),
    {
        match (self, reply) {
            (
                Recall::Search { module, patches, index, patched },
                RecallReply::Found(found),
            ) => match found {
                Some(address) => {
                    let target: usize = address + patches[index].opcode_offset;
                    Recall::Write { module, patches, index, patched, address: target }
                },
                None => Recall::advance(module, patches, index, patched, false),
            },
            (
                Recall::Write { module, patches, index, patched, address: _ },
                RecallReply::Written(written),
            ) => Recall::advance(module, patches, index, patched, written),
            (state, _) => state,
        }
    }
}

/// Begins to apply the patches that keep recalled messages to a module.
pub fn hook_recall(module: usize) -> (r: Recall)
    ensures
        r matches Recall::Search { module: handle, patches: list, index: 0, patched: 0 } && handle
            == module && recall_patches(list@),
        r.well_formed(),
{
    Recall::Search { module, patches: patches(), index: 0, patched: 0 }
}

/// The wait for a module to appear. Each state names the call that is due.
#[derive(Clone, Copy, Debug, PartialEq, Eq)]
pub enum HookThread {
    /// Ask for the module of this name, for the time `attempt`, counted from zero.
    LookUp { own_module: usize, name: &'static str, attempt: u32 },
    /// Wait for `pause` milliseconds.
    Sleep { own_module: usize, attempt: u32, pause: u32 },
    /// Apply the patches to the module.
    Hook { own_module: usize, module: usize },
    /// Unload the hook and end the thread with the exit code, which ends the wait.
    Exit { own_module: usize, exit_code: u32 },
}

/// How a call of the hook's thread went.
#[derive(Clone, Copy, Debug, PartialEq, Eq, Structural)]
pub enum HookReply {
    /// The module's handle, zero where it is not loaded.
    Module(usize),
    /// The call has been made.
    Made,
}

impl HookThread {
    /// What follows upon a reply. One to another call changes nothing.
    pub open spec fn after(self, reply: HookReply) -> HookThread {
        match (self, reply) {
            (HookThread::LookUp { own_module, name, attempt }, HookReply::Module(module)) => if module
                != 0 {
                HookThread::Hook { own_module, module }
            } else {
                HookThread::Sleep { own_module, attempt, pause: LOOK_UP_PAUSE }
            },
            (HookThread::Sleep { own_module, attempt, pause }, HookReply::Made) => if attempt + 1
                < LOOK_UP_LIMIT {
                HookThread::LookUp {
                    own_module,
                    name: WRAPPER_MODULE,
                    attempt: (attempt + 1) as u32,
                }
            } else {
                HookThread::Exit { own_module, exit_code: 0 }
            },
            (HookThread::Hook { own_module, module }, HookReply::Made) => HookThread::Exit {
                own_module,
                exit_code: 0,
            },
            _ => self,
        }
    }

    /// Takes how the call went.
    pub fn step(self, reply: HookReply) -> (r: HookThread)
        ensures
            r == self.after(reply),
    {
        match (self, reply) {
            (HookThread::LookUp { own_module, name: _, attempt }, HookReply::Module(module)) => if module
                != 0 {
                HookThread::Hook { own_module, module }
            } else {
                HookThread::Sleep { own_module, attempt, pause: LOOK_UP_PAUSE }
            },
            (HookThread::Sleep { own_module, attempt, pause: _ }, HookReply::Made) => if attempt
                < LOOK_UP_LIMIT - 1 {
                HookThread::LookUp { own_module, name: WRAPPER_MODULE, attempt: attempt + 1 }
            } else {
                HookThread::Exit { own_module, exit_code: 0 }
            },
            (HookThread::Hook { own_module, module: _ }, HookReply::Made) => HookThread::Exit {
                own_module,
                exit_code: 0,
            },
            (state, _) => state,
        }
    }
}

/// Begins to wait for the module, in a thread of the hook library `own_module`.
pub fn check_module_thread(own_module: usize) -> (r: HookThread)
    ensures
        r == (HookThread::LookUp { own_module, name: WRAPPER_MODULE, attempt: 0 }),
{
    HookThread::LookUp { own_module, name: WRAPPER_MODULE, attempt: 0 }
}

/// The answer to an event of the hook library. Each state but the last names the call that is due.
#[derive(Clone, Copy, Debug, PartialEq, Eq, Structural)]
pub enum DllEvent {
    /// Ask for no more events about threads.
    DisableThreadCalls { module: usize },
    /// Start the hook's thread, and hand it the library's own handle.
    StartThread { module: usize },
    /// Close the thread's handle.
    CloseThread { thread: usize },
    /// Answer the event.
    Return { value: i32 },
}

/// How a call upon an event went.
#[derive(Clone, Copy, Debug, PartialEq, Eq, Structural)]
pub enum DllReply {
    /// The thread's handle, zero where it did not start.
    Thread(usize),
    /// The call has been made.
    Made,
}

impl DllEvent {
    /// What follows upon a reply. One to another call changes nothing.
    pub open spec fn after(self, reply: DllReply) -> DllEvent {
        match (self, reply) {
            (DllEvent::DisableThreadCalls { module }, DllReply::Made) => DllEvent::StartThread {
                module,
            },
            (DllEvent::StartThread { module }, DllReply::Thread(thread)) => if thread != 0 {
                DllEvent::CloseThread { thread }
            } else {
                DllEvent::Return { value: TRUE }
            },
            (DllEvent::CloseThread { thread }, DllReply::Made) => DllEvent::Return { value: TRUE },
            _ => self,
        }
    }

    /// Takes how the call went.
    pub fn step(self, reply: DllReply) -> (r: DllEvent)
        ensures
            r == self.after(reply),
    {
        match (self, reply) {
            (DllEvent::DisableThreadCalls { module }, DllReply::Made) => DllEvent::StartThread {
                module,
            },
            (DllEvent::StartThread { module: _ }, DllReply::Thread(thread)) => if thread != 0 {
                DllEvent::CloseThread { thread }
            } else {
                DllEvent::Return { value: true_value() }
            },
            (DllEvent::CloseThread { thread: _ }, DllReply::Made) => DllEvent::Return {
                value: true_value(),
            },
            (state, _) => state,
        }
    }
}

/// Begins to answer an event of the hook library `module`: only its loading starts anything.
#[allow(non_snake_case)]
pub fn DllMain(module: usize, reason: u32) -> (r: DllEvent)
    ensures
        r == (if reason == DLL_PROCESS_ATTACH {
            DllEvent::DisableThreadCalls { module }
        } else {
            DllEvent::Return { value: TRUE }
        }),
{
    if reason == dll_process_attach() {
        DllEvent::DisableThreadCalls { module }
    } else {
        DllEvent::Return { value: true_value() }
    }
}

/// How many patches from `index` on are both found and written.
pub open spec fn applied_from(
    found: spec_fn(int) -> Option<usize>,
    written: spec_fn(int) -> bool,
    index: int,
    count: int,
) -> int
    decreases count - index,
{
    if index >= count {
        0
    } else if found(index) is Some && written(index) {
        1 + applied_from(found, written, index + 1, count)
    } else {
        applied_from(found, written, index + 1, count)
    }
}

impl Recall {
    /// Where the work stands after `steps` replies: `found` and `written` say how the search for
    /// each patch and its writing come out.
    pub open spec fn driven(
        self,
        found: spec_fn(int) -> Option<usize>,
        written: spec_fn(int) -> bool,
        steps: nat,
    ) -> Recall
        decreases steps,
    {
        if steps == 0 {
            self
        } else {
            let next = match self {
                Recall::Search { module, patches, index, patched } => self.after(
                    RecallReply::Found(found(index as int)),
                ),
                Recall::Write { module, patches, index, patched, address } => self.after(
                    RecallReply::Written(written(index as int)),
                ),
                Recall::Done { patched } => self,
            };
            next.driven(found, written, (steps - 1) as nat)
        }
    }
}

/// Work that is over stays where it is.
proof fn lemma_recall_done_stays(
    found: spec_fn(int) -> Option<usize>,
    written: spec_fn(int) -> bool,
    patched: usize,
    steps: nat,
)
    ensures
        (Recall::Done { patched }).driven(found, written, steps) == (Recall::Done { patched }),
    decreases steps,
{
    if steps > 0 {
        lemma_recall_done_stays(found, written, patched, (steps - 1) as nat);
    }
}

/// A list of patches is worked through to its end, whatever fails on the way, and the count at the
/// end is that of the patches that were both found and written.
pub proof fn law_recall_counts_applied(
    found: spec_fn(int) -> Option<usize>,
    written: spec_fn(int) -> bool,
    module: usize,
    patches: Vec<PatchSpec>,
    index: usize,
    patched: usize,
    steps: nat,
)
    requires
        patched <= index < patches.len(),
        steps >= 2 * (patches@.len() - index),
    ensures
        (Recall::Search { module, patches, index, patched }).driven(found, written, steps)
            matches Recall::Done { patched: total } && total == patched + applied_from(
            found,
            written,
            index as int,
            patches@.len() as int,
        ),
    decreases patches@.len() - index,
{
    let count = patches@.len() as int;
    let start = Recall::Search { module, patches, index, patched };
    let hit = found(index as int) is Some;
    let total: usize = (if hit && written(index as int) {
        patched + 1
    } else {
        patched as int
    }) as usize;
    let left: nat = if hit {
        (steps - 2) as nat
    } else {
        (steps - 1) as nat
    };
    let after = start.after(RecallReply::Found(found(index as int)));
    if hit {
        assert(start.driven(found, written, steps) == after.driven(
            found,
            written,
            (steps - 1) as nat,
        ));
        let behind = after.after(RecallReply::Written(written(index as int)));
        assert(after.driven(found, written, (steps - 1) as nat) == behind.driven(
            found,
            written,
            left,
        ));
        assert(behind == Recall::next(module, patches, index, total));
    }
    assert(start.driven(found, written, steps) == Recall::next(module, patches, index, total).driven(
        found,
        written,
        left,
    ));
    if index + 1 < count {
        law_recall_counts_applied(found, written, module, patches, (index + 1) as usize, total, left);
    } else {
        lemma_recall_done_stays(found, written, total, left);
        assert(applied_from(found, written, index + 1, count) == 0);
    }
}

/// What a patch writes at the place that a search found for it lies inside the module.
pub proof fn law_patch_lands_in_module(
    regions: spec_fn(usize) -> Option<MemoryRegion>,
    memory: spec_fn(int) -> u8,
    list: Seq<PatchSpec>,
    at: int,
    pattern: Vec<Option<u8>>,
    image: ModuleImage,
)
    requires
        recall_patches(list),
        0 <= at < list.len(),
        written_pattern(list[at].pattern@) == Some(pattern@),
    ensures
        unique_match(regions, memory, pattern, image) matches Some(address) ==> {
            &&& image.base <= address + list[at].opcode_offset
            &&& address + list[at].opcode_offset + list[at].replacement@.len() <= image.base
                + image.size
            &&& image.base + image.size <= usize::MAX
        },
{
    law_unique_match_lies_in_module(regions, memory, pattern, image);
    law_patches_stay_in_match(list, at);
}

impl HookThread {
    /// Where the thread stands after `steps` replies: `modules` says what each question for the
    /// module is answered.
    pub open spec fn driven(self, modules: spec_fn(int) -> usize, steps: nat) -> HookThread
        decreases steps,
    {
        if steps == 0 {
            self
        } else {
            let reply = match self {
                HookThread::LookUp { own_module, name, attempt } => HookReply::Module(
                    modules(attempt as int),
                ),
                _ => HookReply::Made,
            };
            self.after(reply).driven(modules, (steps - 1) as nat)
        }
    }
}

/// As long as the module is missing, each question is followed by a pause and the next question.
proof fn lemma_hook_asks_again(
    modules: spec_fn(int) -> usize,
    own_module: usize,
    attempt: u32,
    goal: u32,
    steps: nat,
)
    requires
        attempt <= goal < LOOK_UP_LIMIT,
        forall|i: int| attempt <= i < goal ==> #[trigger] modules(i) == 0,
    ensures
        (HookThread::LookUp { own_module, name: WRAPPER_MODULE, attempt }).driven(
            modules,
            2 * (goal - attempt) as nat + steps,
        ) == (HookThread::LookUp { own_module, name: WRAPPER_MODULE, attempt: goal }).driven(
            modules,
            steps,
        ),
    decreases goal - attempt,
{
    if attempt < goal {
        reveal_with_fuel(HookThread::driven, 3);
        assert(modules(attempt as int) == 0);
        lemma_hook_asks_again(modules, own_module, (attempt + 1) as u32, goal, steps);
    }
}

/// The patches go to the module that the first question with an answer names, and the thread ends
/// after that.
pub proof fn law_hook_uses_first_module(
    modules: spec_fn(int) -> usize,
    own_module: usize,
    attempt: u32,
)
    requires
        attempt < LOOK_UP_LIMIT,
        forall|i: int| 0 <= i < attempt ==> #[trigger] modules(i) == 0,
        modules(attempt as int) != 0,
    ensures
        (HookThread::LookUp { own_module, name: WRAPPER_MODULE, attempt: 0 }).driven(
            modules,
            (2 * attempt + 1) as nat,
        ) == (
        HookThread::Hook { own_module, module: modules(attempt as int) }),
        (HookThread::LookUp { own_module, name: WRAPPER_MODULE, attempt: 0 }).driven(
            modules,
            (2 * attempt + 2) as nat,
        )
            == (HookThread::Exit { own_module, exit_code: 0 }),
{
    reveal_with_fuel(HookThread::driven, 3);
    lemma_hook_asks_again(modules, own_module, 0, attempt, 1);
    lemma_hook_asks_again(modules, own_module, 0, attempt, 2);
}

/// A thread that never gets an answer ends after the last allowed question, without applying
/// anything.
pub proof fn law_hook_gives_up(modules: spec_fn(int) -> usize, own_module: usize)
    requires
        forall|i: int| 0 <= i < LOOK_UP_LIMIT ==> #[trigger] modules(i) == 0,
    ensures
        (HookThread::LookUp { own_module, name: WRAPPER_MODULE, attempt: 0 }).driven(
            modules,
            (2 * LOOK_UP_LIMIT - 1) as nat,
        ) == (
        HookThread::Sleep {
            own_module,
            attempt: (LOOK_UP_LIMIT - 1) as u32,
            pause: LOOK_UP_PAUSE,
        }),
        (HookThread::LookUp { own_module, name: WRAPPER_MODULE, attempt: 0 }).driven(
            modules,
            (2 * LOOK_UP_LIMIT) as nat,
        )
            == (HookThread::Exit { own_module, exit_code: 0 }),
{
    reveal_with_fuel(HookThread::driven, 3);
    let last = (LOOK_UP_LIMIT - 1) as u32;
    assert(modules(last as int) == 0);
    lemma_hook_asks_again(modules, own_module, 0, last, 1);
    lemma_hook_asks_again(modules, own_module, 0, last, 2);
}

/// Every event is answered with the same value. Only loading starts a thread, and its handle is
/// closed where it has one.
pub proof fn law_event_is_answered(module: usize, thread: usize)
    ensures
        ({
            let started = (DllEvent::DisableThreadCalls { module }).after(DllReply::Made);
            let running = started.after(DllReply::Thread(thread));
            &&& started == (DllEvent::StartThread { module })
            &&& thread == 0 ==> running == (DllEvent::Return { value: TRUE })
            &&& thread != 0 ==> running == (DllEvent::CloseThread { thread }) && running.after(
                DllReply::Made,
            ) == (DllEvent::Return { value: TRUE })
        }),
{
}

/// Whatever a search is answered, the place that it finds for a patch leaves room for the patch, and
/// what the patch writes lies inside the module.
pub proof fn law_found_place_has_room(
    module: usize,
    patches: Vec<PatchSpec>,
    index: usize,
    patched: usize,
    pattern: Seq<Option<u8>>,
    low: usize,
    high: usize,
    found: Option<usize>,
)
    requires
        recall_patches(patches@),
        index < patches@.len(),
        written_pattern(patches@[index as int].pattern@) == Some(pattern),
        (ModuleSearch::Done { found }).confined(low, high, pattern.len()),
    ensures
        (Recall::Search { module, patches, index, patched }).has_room(RecallReply::Found(found)),
        (Recall::Search { module, patches, index, patched }).after(RecallReply::Found(found))
            matches Recall::Write { module: handle, patches: list, index: at, patched: count, address } ==> low
            <= address && address + patches@[index as int].replacement@.len() <= high,
{
    law_patches_stay_in_match(patches@, index as int);
}

/// Where none of the patches from `index` on is found, nothing is ever written.
pub proof fn law_unfound_patches_write_nothing(
    found: spec_fn(int) -> Option<usize>,
    written: spec_fn(int) -> bool,
    module: usize,
    patches: Vec<PatchSpec>,
    index: usize,
    patched: usize,
    steps: nat,
)
    requires
        index < patches.len(),
        forall|i: int| index <= i < patches@.len() ==> #[trigger] found(i) is None,
    ensures
        !((Recall::Search { module, patches, index, patched }).driven(found, written, steps)
            is Write),
    decreases steps,
{
    if steps > 0 {
        assert(found(index as int) is None);
        if index + 1 < patches@.len() {
            law_unfound_patches_write_nothing(
                found,
                written,
                module,
                patches,
                (index + 1) as usize,
                patched,
                (steps - 1) as nat,
            );
        } else {
            lemma_recall_done_stays(found, written, patched, (steps - 1) as nat);
        }
    }
}

/// A patch that was found at a place is due to be written its offset behind that place, whatever the
/// place is; one that was not found gives way to the next.
pub proof fn law_patch_goes_behind_match(
    module: usize,
    patches: Vec<PatchSpec>,
    index: usize,
    patched: usize,
    place: usize,
)
    requires
        index < patches.len(),
        place + patches@[index as int].opcode_offset <= usize::MAX,
    ensures
        ({
            let state = Recall::Search { module, patches, index, patched };
            let missed = state.after(RecallReply::Found(None));
            &&& state.after(RecallReply::Found(Some(place))) matches Recall::Write {
                module: handle,
                patches: list,
                index: at,
                patched: count,
                address,
            } && {
                &&& handle == module
                &&& list == patches
                &&& at == index
                &&& count == patched
                &&& address - place == patches@[index as int].opcode_offset
            }
            &&& moves_on(missed, module, patches, index, patched as int)
        }),
{
}

/// The patch behind `index` is searched for, or the work is over; so many have been applied.
pub open spec fn moves_on(
    state: Recall,
    module: usize,
    patches: Vec<PatchSpec>,
    index: usize,
    total: int,
) -> bool {
    if index + 1 == patches@.len() {
        state matches Recall::Done { patched } && patched == total
    } else {
        state matches Recall::Search { module: handle, patches: list, index: at, patched } && {
            &&& handle == module
            &&& list == patches
            &&& at == index + 1
            &&& patched == total
        }
    }
}

/// A patch counts exactly where it was written; either way the next follows.
pub proof fn law_written_patch_counts(
    module: usize,
    patches: Vec<PatchSpec>,
    index: usize,
    patched: usize,
    address: usize,
)
    requires
        patched <= index < patches.len(),
    ensures
        ({
            let state = Recall::Write { module, patches, index, patched, address };
            &&& moves_on(
                state.after(RecallReply::Written(true)),
                module,
                patches,
                index,
                patched + 1,
            )
            &&& moves_on(
                state.after(RecallReply::Written(false)),
                module,
                patches,
                index,
                patched as int,
            )
        }),
{
}

impl Recall {
    /// The reply is one about the work that is due.
    pub open spec fn answers(self, reply: RecallReply) -> bool {
        match self {
            Recall::Search { .. } => reply is Found,
            Recall::Write { .. } => reply is Written,
            Recall::Done { .. } => false,
        }
    }
}

/// A reply about other work than what is due changes nothing.
pub proof fn law_recall_ignores_other_replies(state: Recall, reply: RecallReply)
    ensures
        !state.answers(reply) ==> state.after(reply) == state,
{
}

/// As long as no module has been answered, each of 300 questions asks for `wrapper.node`, and a pause
/// of a second follows upon it.
pub proof fn law_hook_asks_each_second(
    modules: spec_fn(int) -> usize,
    own_module: usize,
    attempt: u32,
)
    requires
        attempt < 300,
        forall|i: int| 0 <= i < attempt ==> #[trigger] modules(i) == 0,
    ensures
        ({
            let start = HookThread::LookUp { own_module, name: WRAPPER_MODULE, attempt: 0 };
            &&& start.driven(modules, 2 * attempt as nat) matches HookThread::LookUp {
                own_module: own,
                name,
                attempt: at,
            } && own == own_module && name@ == "wrapper.node"@ && at == attempt
            &&& modules(attempt as int) == 0 ==> start.driven(modules, (2 * attempt + 1) as nat) == (
            HookThread::Sleep { own_module, attempt, pause: 1000 })
            &&& modules(attempt as int) == 0 && attempt == 299 ==> start.driven(modules, 600) == (
            HookThread::Exit { own_module, exit_code: 0 })
            &&& modules(attempt as int) != 0 ==> {
                &&& start.driven(modules, (2 * attempt + 1) as nat) == (HookThread::Hook {
                    own_module,
                    module: modules(attempt as int),
                })
                &&& start.driven(modules, (2 * attempt + 2) as nat) == (HookThread::Exit {
                    own_module,
                    exit_code: 0,
                })
            }
        }),
{
    reveal_with_fuel(HookThread::driven, 3);
    lemma_hook_asks_again(modules, own_module, 0, attempt, 0);
    lemma_hook_asks_again(modules, own_module, 0, attempt, 1);
    lemma_hook_asks_again(modules, own_module, 0, attempt, 2);
}

impl HookThread {
    /// The reply is one to the call that is due.
    pub open spec fn answers(self, reply: HookReply) -> bool {
        match self {
            HookThread::LookUp { .. } => reply is Module,
            HookThread::Sleep { .. } => reply is Made,
            HookThread::Hook { .. } => reply is Made,
            HookThread::Exit { .. } => false,
        }
    }
}

/// A reply to another call than the one that is due changes nothing.
pub proof fn law_hook_ignores_other_replies(state: HookThread, reply: HookReply)
    ensures
        !state.answers(reply) ==> state.after(reply) == state,
{
}

/// The thread is started with the library's own handle, its own handle is closed where it has one,
/// and the event is answered with 1 in any case. Any other reply changes nothing.
pub proof fn law_event_starts_thread(module: usize, thread: usize, state: DllEvent)
    ensures
        (DllEvent::DisableThreadCalls { module }).after(DllReply::Made) == (DllEvent::StartThread {
            module,
        }),
        thread != 0 ==> (DllEvent::StartThread { module }).after(DllReply::Thread(thread)) == (
        DllEvent::CloseThread { thread }),
        (DllEvent::StartThread { module }).after(DllReply::Thread(0)) == (DllEvent::Return {
            value: 1,
        }),
        (DllEvent::CloseThread { thread }).after(DllReply::Made) == (DllEvent::Return { value: 1 }),
        state is StartThread ==> state.after(DllReply::Made) == state,
        !(state is StartThread) ==> state.after(DllReply::Thread(thread)) == state,
        state is Return ==> state.after(DllReply::Made) == state,
{
}

} // verus!
