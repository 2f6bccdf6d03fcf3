use vstd::prelude::*;
use crate::message::last_error;
use crate::wide::path_to_wide;
use crate::win32::{infinite, mem_commit, mem_release, mem_reserve, page_readwrite};

#[allow(unused_imports)]
use crate::message::{decimal, last_error_text};
#[allow(unused_imports)]
use crate::win32::{INFINITE, MEM_COMMIT, MEM_RELEASE, MEM_RESERVE, PAGE_READWRITE};

verus! {

/// The system's core library.
pub const KERNEL_LIBRARY: &'static str = "kernel32.dll";

/// The loader in the core library.
pub const LOADER_NAME: &'static str = "LoadLibraryW";

/// A system call of an injection that can fail.
#[derive(Clone, Copy, Debug, PartialEq, Eq, Structural)]
pub enum InjectCall {
    Allocate,
    Write,
    FindKernel,
    FindLoader,
    StartThread,
}

/// Why an injection failed.
#[derive(Clone, Copy, Debug, PartialEq, Eq, Structural)]
pub enum InjectError {
    /// A system call failed with an error code.
    Call { call: InjectCall, code: u32 },
    /// The other process could not load the library.
    NotLoaded,
}

/// What is left to say once the memory in the other process has been given back.
#[derive(Clone, Copy, Debug, PartialEq, Eq, Structural)]
pub enum Verdict {
    /// A system call had failed.
    Failed(InjectCall),
    /// The loader had come back with this code.
    Ended(u32),
}

/// The work of loading a library into another process. Each state but the last names the call that
/// is due.
#[derive(Debug, PartialEq, Eq)]
pub enum Injection {
    /// Allocate memory in the process.
    Allocate { process: usize, path: Vec<u16>, byte_len: usize, allocation: u32, protect: u32 },
    /// Write the path into that memory.
    Write { process: usize, path: Vec<u16>, byte_len: usize, buffer: usize },
    /// Ask for the system's core library, which has this name.
    FindKernel { process: usize, buffer: usize, name: &'static str },
    /// Ask for the loader in that library, which has this name.
    FindLoader { process: usize, buffer: usize, kernel: usize, name: &'static str },
    /// Start a thread in the process that runs the loader on the path.
    StartThread { process: usize, buffer: usize, loader: usize },
    /// Wait for the thread, at most `limit` milliseconds.
    Wait { process: usize, buffer: usize, thread: usize, limit: u32 },
    /// Ask for the thread's exit code.
    ExitCode { process: usize, buffer: usize, thread: usize },
    /// Close the thread's handle.
    CloseThread { process: usize, buffer: usize, thread: usize, exit_code: u32 },
    /// Give `size` bytes of the memory back, all of it where that is zero.
    Free { process: usize, buffer: usize, size: usize, free_type: u32, verdict: Verdict },
    /// Ask for the error code.
    LastError { call: InjectCall },
    /// The work is over.
    Done { result: Result<(), InjectError> },
}

/// How a call of an injection went.
#[derive(Clone, Copy, Debug, PartialEq, Eq, Structural)]
pub enum InjectReply {
    /// An address or a handle, zero where there is none.
    Handle(usize),
    /// The writing: zero where it failed, and how many bytes were written.
    Wrote { status: i32, written: usize },
    /// An exit code or an error code.
    Code(u32),
    /// The call has been made.
    Made,
}

impl Injection {
    /// The memory is given back.
    pub open spec fn freed(process: usize, buffer: usize, verdict: Verdict) -> Injection {
        Injection::Free { process, buffer, size: 0, free_type: MEM_RELEASE, verdict }
    }

    /// What follows upon a reply. One to another call changes nothing.
    pub open spec fn after(self, reply: InjectReply) -> Injection {
        match (self, reply) {
            (
                Injection::Allocate { process, path, byte_len, allocation, protect },
                InjectReply::Handle(buffer),
            ) => if buffer == 0 {
                Injection::LastError { call: InjectCall::Allocate }
            } else {
                Injection::Write { process, path, byte_len, buffer }
            },
            (
                Injection::Write { process, path, byte_len, buffer },
                InjectReply::Wrote { status, written },
            ) => if status != 0 && written == byte_len {
                Injection::FindKernel { process, buffer, name: KERNEL_LIBRARY }
            } else {
                Injection::freed(process, buffer, Verdict::Failed(InjectCall::Write))
            },
            (
                Injection::FindKernel { process, buffer, name },
                InjectReply::Handle(kernel),
            ) => if kernel == 0 {
                Injection::freed(process, buffer, Verdict::Failed(InjectCall::FindKernel))
            } else {
                Injection::FindLoader { process, buffer, kernel, name: LOADER_NAME }
            },
            (
                Injection::FindLoader { process, buffer, kernel, name },
                InjectReply::Handle(loader),
            ) => if loader == 0 {
                Injection::freed(process, buffer, Verdict::Failed(InjectCall::FindLoader))
            } else {
                Injection::StartThread { process, buffer, loader }
            },
            (
                Injection::StartThread { process, buffer, loader },
                InjectReply::Handle(thread),
            ) => if thread == 0 {
                Injection::freed(process, buffer, Verdict::Failed(InjectCall::StartThread))
            } else {
                Injection::Wait { process, buffer, thread, limit: INFINITE }
            },
            (
                Injection::Wait { process, buffer, thread, limit },
                InjectReply::Made,
            ) => Injection::ExitCode { process, buffer, thread },
            (
                Injection::ExitCode { process, buffer, thread },
                InjectReply::Code(exit_code),
            ) => Injection::CloseThread { process, buffer, thread, exit_code },
            (
                Injection::CloseThread { process, buffer, thread, exit_code },
                InjectReply::Made,
            ) => Injection::freed(process, buffer, Verdict::Ended(exit_code)),
            (
                Injection::Free { process, buffer, size, free_type, verdict },
                InjectReply::Made,
            ) => match verdict {
                Verdict::Failed(call) => Injection::LastError { call },
                Verdict::Ended(exit_code) => Injection::Done {
                    result: if exit_code == 0 {
                        Err(InjectError::NotLoaded)
                    } else {
                        Ok(())
                    },
                },
            },
            (Injection::LastError { call }, InjectReply::Code(code)) => Injection::Done {
                result: Err(InjectError::Call { call, code }),
            },
            _ => self,
        }
    }

    /// Gives the memory back.
    fn free(process: usize, buffer: usize, verdict: Verdict) -> (r: Injection)
        ensures
            r == Injection::freed(process, buffer, verdict),
    {
        Injection::Free { process, buffer, size: 0, free_type: mem_release(), verdict }
    }

    /// Takes how the call went.
    pub fn step(self, reply: InjectReply) -> (r: Injection)
        ensures
            r == self.after(reply),
    {
        match (self, reply) {
            (
                Injection::Allocate { process, path, byte_len, allocation: _, protect: _ },
                InjectReply::Handle(buffer),
            ) => if buffer == 0 {
                Injection::LastError { call: InjectCall::Allocate }
            } else {
                Injection::Write { process, path, byte_len, buffer }
            },
            (
                Injection::Write { process, path: _, byte_len, buffer },
                InjectReply::Wrote { status, written },
            ) => if status == 0 || written != byte_len {
                Injection::free(process, buffer, Verdict::Failed(InjectCall::Write))
            } else {
                Injection::FindKernel { process, buffer, name: KERNEL_LIBRARY }
            },
            (
                Injection::FindKernel { process, buffer, name: _ },
                InjectReply::Handle(kernel),
            ) => if kernel == 0 {
                Injection::free(process, buffer, Verdict::Failed(InjectCall::FindKernel))
            } else {
                Injection::FindLoader { process, buffer, kernel, name: LOADER_NAME }
            },
            (
                Injection::FindLoader { process, buffer, kernel: _, name: _ },
                InjectReply::Handle(loader),
            ) => if loader == 0 {
                Injection::free(process, buffer, Verdict::Failed(InjectCall::FindLoader))
            } else {
                Injection::StartThread { process, buffer, loader }
            },
            (
                Injection::StartThread { process, buffer, loader: _ },
                InjectReply::Handle(thread),
            ) => if thread == 0 {
                Injection::free(process, buffer, Verdict::Failed(InjectCall::StartThread))
            } else {
                Injection::Wait { process, buffer, thread, limit: infinite() }
            },
            (
                Injection::Wait { process, buffer, thread, limit: _ },
                InjectReply::Made,
            ) => Injection::ExitCode { process, buffer, thread },
            (
                Injection::ExitCode { process, buffer, thread },
                InjectReply::Code(exit_code),
            ) => Injection::CloseThread { process, buffer, thread, exit_code },
            (
                Injection::CloseThread { process, buffer, thread: _, exit_code },
                InjectReply::Made,
            ) => Injection::free(process, buffer, Verdict::Ended(exit_code)),
            (
                Injection::Free { process: _, buffer: _, size: _, free_type: _, verdict },
                InjectReply::Made,
            ) => match verdict {
                Verdict::Failed(call) => Injection::LastError { call },
                Verdict::Ended(exit_code) => Injection::Done {
                    result: if exit_code == 0 {
                        Err(InjectError::NotLoaded)
                    } else {
                        Ok(())
                    },
                },
            },
            (Injection::LastError { call }, InjectReply::Code(code)) => Injection::Done {
                result: Err(InjectError::Call { call, code }),
            },
            (state, _) => state,
        }
    }
}

/// Begins to load the library at a path into a process. The path goes over with its closing zero
/// unit, two bytes to the unit.
pub fn inject_dll(process: usize, dll_path: &[u16]) -> (r: Injection)
    requires
        2 * (dll_path@.len() + 1) <= usize::MAX,
    ensures
        r matches Injection::Allocate { process: target, path, byte_len, allocation, protect } && {
            &&& target == process
            &&& path@ == dll_path@.push(0)
            &&& byte_len == 2 * path@.len()
            &&& allocation == MEM_COMMIT | MEM_RESERVE
            &&& protect == PAGE_READWRITE
        },
{
    let path = path_to_wide(dll_path);
    let byte_len: usize = path.len() * 2;
    Injection::Allocate {
        process,
        path,
        byte_len,
        allocation: mem_commit() | mem_reserve(),
        protect: page_readwrite(),
    }
}

/// What a message says of the call that failed.
pub open spec fn call_context(call: InjectCall) -> Seq<char> {
    match call {
        InjectCall::Allocate => "VirtualAllocEx failed"@,
        InjectCall::Write => "WriteProcessMemory failed"@,
        InjectCall::FindKernel => "GetModuleHandleW(kernel32.dll) failed"@,
        InjectCall::FindLoader => "GetProcAddress(LoadLibraryW) failed"@,
        InjectCall::StartThread => "CreateRemoteThread failed"@,
    }
}

impl InjectError {
    /// The message about the failure.
    pub open spec fn text(self) -> Seq<char> {
        match self {
            InjectError::Call { call, code } => last_error_text(call_context(call), code),
            InjectError::NotLoaded => "LoadLibraryW failed in remote process"@,
        }
    }

    /// The message about the failure.
    pub fn message(&self) -> (r: String)
        ensures
            r@ == self.text(),
    {
        match self {
            InjectError::Call { call, code } => {
                let context: &str = match call {
                    InjectCall::Allocate => "VirtualAllocEx failed",
                    InjectCall::Write => "WriteProcessMemory failed",
                    InjectCall::FindKernel => "GetModuleHandleW(kernel32.dll) failed",
                    InjectCall::FindLoader => "GetProcAddress(LoadLibraryW) failed",
                    InjectCall::StartThread => "CreateRemoteThread failed",
                };
                last_error(context, *code)
            },
            InjectError::NotLoaded => "LoadLibraryW failed in remote process".to_owned(),
        }
    }
}

impl Injection {
    /// The memory in the other process that is held in a state.
    pub open spec fn held_buffer(self) -> Option<usize> {
        match self {
            Injection::Write { process, path, byte_len, buffer } => Some(buffer),
            Injection::FindKernel { process, buffer, name } => Some(buffer),
            Injection::FindLoader { process, buffer, kernel, name } => Some(buffer),
            Injection::StartThread { process, buffer, loader } => Some(buffer),
            Injection::Wait { process, buffer, thread, limit } => Some(buffer),
            Injection::ExitCode { process, buffer, thread } => Some(buffer),
            Injection::CloseThread { process, buffer, thread, exit_code } => Some(buffer),
            Injection::Free { process, buffer, size, free_type, verdict } => Some(buffer),
            _ => None,
        }
    }

    /// The thread in the other process whose handle is held in a state.
    pub open spec fn held_thread(self) -> Option<usize> {
        match self {
            Injection::Wait { process, buffer, thread, limit } => Some(thread),
            Injection::ExitCode { process, buffer, thread } => Some(thread),
            Injection::CloseThread { process, buffer, thread, exit_code } => Some(thread),
            _ => None,
        }
    }
}

/// Whatever the replies are, memory that has been allocated is held until it is given back, only an
/// allocation that went well brings memory, and an injection that is over holds none.
pub proof fn law_buffer_is_given_back(state: Injection, reply: InjectReply)
    ensures
        match state.held_buffer() {
            Some(buffer) => {
                ||| state.after(reply).held_buffer() == Some(buffer)
                ||| state is Free && reply is Made && state.after(reply).held_buffer() is None
            },
            None => state.after(reply).held_buffer() matches Some(buffer) ==> buffer != 0 && state
                is Allocate && reply == InjectReply::Handle(buffer),
        },
        state is Done ==> state.held_buffer() is None,
{
}

/// Whatever the replies are, the handle of a thread that has been started is held until it is
/// closed, and an injection that is over holds none. The memory outlives the thread's handle.
pub proof fn law_thread_is_closed(state: Injection, reply: InjectReply)
    ensures
        match state.held_thread() {
            Some(thread) => {
                ||| state.after(reply).held_thread() == Some(thread)
                ||| state is CloseThread && reply is Made && state.after(reply).held_thread() is None
            },
            None => state.after(reply).held_thread() matches Some(thread) ==> thread != 0 && state
                is StartThread && reply == InjectReply::Handle(thread),
        },
        state.held_thread() is Some ==> state.held_buffer() is Some,
        state is Done ==> state.held_thread() is None,
{
}

/// How the calls of an injection come out.
pub struct InjectOutcomes {
    pub buffer: usize,
    pub write_status: i32,
    pub written: usize,
    pub kernel: usize,
    pub loader: usize,
    pub thread: usize,
    pub exit_code: u32,
    pub error_code: u32,
}

impl InjectOutcomes {
    /// The first call that fails, in the order in which the calls are made.
    pub open spec fn failing_call(self, byte_len: usize) -> Option<InjectCall> {
        if self.buffer == 0 {
            Some(InjectCall::Allocate)
        } else if self.write_status == 0 || self.written != byte_len {
            Some(InjectCall::Write)
        } else if self.kernel == 0 {
            Some(InjectCall::FindKernel)
        } else if self.loader == 0 {
            Some(InjectCall::FindLoader)
        } else if self.thread == 0 {
            Some(InjectCall::StartThread)
        } else {
            None
        }
    }

    /// What an injection comes to.
    pub open spec fn result(self, byte_len: usize) -> Result<(), InjectError> {
        match self.failing_call(byte_len) {
            Some(call) => Err(InjectError::Call { call, code: self.error_code }),
            None => if self.exit_code == 0 {
                Err(InjectError::NotLoaded)
            } else {
                Ok(())
            },
        }
    }
}

impl Injection {
    /// Where the work stands after `steps` replies.
    pub open spec fn driven(self, outcomes: InjectOutcomes, steps: nat) -> Injection
        decreases steps,
    {
        if steps == 0 {
            self
        } else {
            let next = match self {
                Injection::Allocate { .. } => self.after(InjectReply::Handle(outcomes.buffer)),
                Injection::Write { .. } => self.after(
                    InjectReply::Wrote {
                        status: outcomes.write_status,
                        written: outcomes.written,
                    },
                ),
                Injection::FindKernel { .. } => self.after(InjectReply::Handle(outcomes.kernel)),
                Injection::FindLoader { .. } => self.after(InjectReply::Handle(outcomes.loader)),
                Injection::StartThread { .. } => self.after(InjectReply::Handle(outcomes.thread)),
                Injection::ExitCode { .. } => self.after(InjectReply::Code(outcomes.exit_code)),
                Injection::LastError { .. } => self.after(InjectReply::Code(outcomes.error_code)),
                _ => self.after(InjectReply::Made),
            };
            next.driven(outcomes, (steps - 1) as nat)
        }
    }
}

/// An injection succeeds exactly where every call goes well, all bytes of the path are written and
/// the loader returns a module; otherwise it reports the first call that failed, or that the library
/// was not loaded.
pub proof fn law_injection_result(
    outcomes: InjectOutcomes,
    process: usize,
    path: Vec<u16>,
    byte_len: usize,
    allocation: u32,
    protect: u32,
)
    ensures
        (Injection::Allocate { process, path, byte_len, allocation, protect }).driven(outcomes, 9)
            == (Injection::Done { result: outcomes.result(byte_len) }),
{
    reveal_with_fuel(Injection::driven, 10);
}

impl Injection {
    /// The reply is one to the call that is due.
    pub open spec fn answers(self, reply: InjectReply) -> bool {
        match self {
            Injection::Allocate { .. } => reply is Handle,
            Injection::Write { .. } => reply is Wrote,
            Injection::FindKernel { .. } => reply is Handle,
            Injection::FindLoader { .. } => reply is Handle,
            Injection::StartThread { .. } => reply is Handle,
            Injection::Wait { .. } => reply is Made,
            Injection::ExitCode { .. } => reply is Code,
            Injection::CloseThread { .. } => reply is Made,
            Injection::Free { .. } => reply is Made,
            Injection::LastError { .. } => reply is Code,
            Injection::Done { .. } => false,
        }
    }

    /// How many calls may still be due, at most.
    pub open spec fn distance(self) -> int {
        match self {
            Injection::Allocate { .. } => 10,
            Injection::Write { .. } => 9,
            Injection::FindKernel { .. } => 8,
            Injection::FindLoader { .. } => 7,
            Injection::StartThread { .. } => 6,
            Injection::Wait { .. } => 5,
            Injection::ExitCode { .. } => 4,
            Injection::CloseThread { .. } => 3,
            Injection::Free { .. } => 2,
            Injection::LastError { .. } => 1,
            Injection::Done { .. } => 0,
        }
    }
}

/// Every reply brings an injection nearer to its end, so that it ends whatever the replies are.
pub proof fn law_injection_ends(state: Injection, reply: InjectReply)
    requires
        state.answers(reply),
    ensures
        0 <= state.after(reply).distance() < state.distance(),
{
}

impl Injection {
    /// The process that a state names.
    pub open spec fn process(self) -> Option<usize> {
        match self {
            Injection::Allocate { process, .. } => Some(process),
            Injection::Write { process, .. } => Some(process),
            Injection::FindKernel { process, .. } => Some(process),
            Injection::FindLoader { process, .. } => Some(process),
            Injection::StartThread { process, .. } => Some(process),
            Injection::Wait { process, .. } => Some(process),
            Injection::ExitCode { process, .. } => Some(process),
            Injection::CloseThread { process, .. } => Some(process),
            Injection::Free { process, .. } => Some(process),
            Injection::LastError { .. } => None,
            Injection::Done { .. } => None,
        }
    }
}

/// Whatever the replies are, an injection never turns to another process.
pub proof fn law_injection_keeps_process(state: Injection, reply: InjectReply)
    ensures
        state.after(reply).process() matches Some(process) ==> state.process() == Some(process),
{
}

/// A reply to another call than the one that is due changes nothing.
pub proof fn law_injection_ignores_other_replies(state: Injection, reply: InjectReply)
    ensures
        !state.answers(reply) ==> state.after(reply) == state,
{
}

/// All of the memory in the process goes back, and behind that comes what the verdict says.
pub open spec fn cleans_up(
    start: Injection,
    outcomes: InjectOutcomes,
    steps: nat,
    process: usize,
    verdict: Verdict,
) -> bool {
    start.driven(outcomes, steps) matches Injection::Free {
        process: target,
        buffer,
        size,
        free_type,
        verdict: kept,
    } && {
        &&& target == process
        &&& buffer == outcomes.buffer
        &&& size == 0
        &&& free_type == 0x8000
        &&& kept == verdict
    }
}

/// What an injection asks for up to the start of the thread. The path is written into the memory that
/// was allocated in the process; the loader is the `LoadLibraryW` of the `kernel32.dll` that was found.
/// Where a call fails, memory that was allocated is given back, and the error code is asked for.
pub proof fn law_injection_prepares(
    outcomes: InjectOutcomes,
    process: usize,
    path: Vec<u16>,
    byte_len: usize,
    allocation: u32,
    protect: u32,
)
    ensures
        ({
            let start = Injection::Allocate { process, path, byte_len, allocation, protect };
            let buffer = outcomes.buffer;
            let kernel = outcomes.kernel;
            let loader = outcomes.loader;
            let wrote = outcomes.write_status != 0 && outcomes.written == byte_len;
            &&& buffer == 0 ==> start.driven(outcomes, 1) == (Injection::LastError {
                call: InjectCall::Allocate,
            })
            &&& buffer != 0 ==> start.driven(outcomes, 1) == (Injection::Write {
                process,
                path,
                byte_len,
                buffer,
            })
            &&& buffer != 0 && !wrote ==> {
                &&& cleans_up(start, outcomes, 2, process, Verdict::Failed(InjectCall::Write))
                &&& start.driven(outcomes, 3) == (Injection::LastError { call: InjectCall::Write })
            }
            &&& buffer != 0 && wrote ==> {
                start.driven(outcomes, 2) matches Injection::FindKernel {
                    process: target,
                    buffer: place,
                    name,
                } && target == process && place == buffer && name@ == "kernel32.dll"@
            }
            &&& buffer != 0 && wrote && kernel == 0 ==> {
                &&& cleans_up(start, outcomes, 3, process, Verdict::Failed(InjectCall::FindKernel))
                &&& start.driven(outcomes, 4) == (Injection::LastError {
                    call: InjectCall::FindKernel,
                })
            }
            &&& buffer != 0 && wrote && kernel != 0 ==> {
                start.driven(outcomes, 3) matches Injection::FindLoader {
                    process: target,
                    buffer: place,
                    kernel: library,
                    name,
                } && target == process && place == buffer && library == kernel && name@
                    == "LoadLibraryW"@
            }
            &&& buffer != 0 && wrote && kernel != 0 && loader == 0 ==> {
                &&& cleans_up(start, outcomes, 4, process, Verdict::Failed(InjectCall::FindLoader))
                &&& start.driven(outcomes, 5) == (Injection::LastError {
                    call: InjectCall::FindLoader,
                })
            }
            &&& buffer != 0 && wrote && kernel != 0 && loader != 0 ==> start.driven(outcomes, 4) == (
            Injection::StartThread { process, buffer, loader })
        }),
{
    reveal_with_fuel(Injection::driven, 6);
}

/// What an injection asks for once the thread is to start: it waits for the thread without a limit,
/// asks for its exit code, closes it and gives the memory back. A thread that did not start has only
/// the memory given back.
pub proof fn law_injection_runs_loader(
    outcomes: InjectOutcomes,
    process: usize,
    buffer: usize,
    loader: usize,
)
    requires
        outcomes.buffer == buffer,
    ensures
        ({
            let start = Injection::StartThread { process, buffer, loader };
            let thread = outcomes.thread;
            let exit_code = outcomes.exit_code;
            if thread == 0 {
                &&& cleans_up(start, outcomes, 1, process, Verdict::Failed(InjectCall::StartThread))
                &&& start.driven(outcomes, 2) == (Injection::LastError {
                    call: InjectCall::StartThread,
                })
                &&& start.driven(outcomes, 3) == (Injection::Done {
                    result: Err(
                        InjectError::Call {
                            call: InjectCall::StartThread,
                            code: outcomes.error_code,
                        },
                    ),
                })
            } else {
                &&& start.driven(outcomes, 1) == (Injection::Wait {
                    process,
                    buffer,
                    thread,
                    limit: 0xffff_ffff,
                })
                &&& start.driven(outcomes, 2) == (Injection::ExitCode { process, buffer, thread })
                &&& start.driven(outcomes, 3) == (Injection::CloseThread {
                    process,
                    buffer,
                    thread,
                    exit_code,
                })
                &&& cleans_up(start, outcomes, 4, process, Verdict::Ended(exit_code))
                &&& exit_code != 0 ==> start.driven(outcomes, 5) == (Injection::Done {
                    result: Ok(()),
                })
                &&& exit_code == 0 ==> start.driven(outcomes, 5) == (Injection::Done {
                    result: Err(InjectError::NotLoaded),
                })
            }
        }),
{
    reveal_with_fuel(Injection::driven, 6);
}

/// The message about a failed injection names the system's routine that failed, and the error code.
pub proof fn law_injection_messages(code: u32)
    ensures
        ({
            let text = |call: InjectCall| (InjectError::Call { call, code }).text();
            let shown = ", GetLastError="@ + decimal(code as nat);
            &&& text(InjectCall::Allocate) == "VirtualAllocEx failed"@ + shown
            &&& text(InjectCall::Write) == "WriteProcessMemory failed"@ + shown
            &&& text(InjectCall::FindKernel) == "GetModuleHandleW(kernel32.dll) failed"@ + shown
            &&& text(InjectCall::FindLoader) == "GetProcAddress(LoadLibraryW) failed"@ + shown
            &&& text(InjectCall::StartThread) == "CreateRemoteThread failed"@ + shown
            &&& InjectError::NotLoaded.text() == "LoadLibraryW failed in remote process"@
        }),
{
    let shown = ", GetLastError="@ + decimal(code as nat);
    assert forall|call: InjectCall| #[trigger]
        (InjectError::Call { call, code }).text() == call_context(call) + shown by {
        assert((InjectError::Call { call, code }).text() =~= call_context(call) + shown);
    }
}

} // verus!
