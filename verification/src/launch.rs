use vstd::prelude::*;
use crate::inject::InjectError;
use crate::message::last_error;
use crate::wide::{decode_lossy, path_to_wide};
use crate::win32::{create_suspended, create_unicode_environment};

#[allow(unused_imports)]
use crate::locate::spelling;
#[allow(unused_imports)]
use crate::message::{decimal, last_error_text};
#[allow(unused_imports)]
use crate::wide::{law_text_survives_utf16, lossy_text, utf16};
#[allow(unused_imports)]
use crate::win32::{CREATE_SUSPENDED, CREATE_UNICODE_ENVIRONMENT};

verus! {

/// The title over the message about a failed launch.
pub const ERROR_TITLE: &'static str = "NapCatWinBootMain";

/// The library that goes into the started program.
pub const HOOK_DLL: &'static str = "NapCatWinBootHook.dll";

/// The exit code of a program into which the library could not be brought.
pub const FAILED_EXIT_CODE: u32 = 1;

/// Why a launch failed.
#[derive(Debug, PartialEq, Eq)]
pub enum LaunchError {
    /// The launcher's own path could not be had.
    CurrentExe { reason: String },
    /// The launcher's path has no directory.
    NoLauncherDir { exe: Vec<u16> },
    /// The program was not found.
    QqNotFound,
    /// The program is not where it was found.
    QqMissing { path: Vec<u16> },
    /// The library is not in the launcher's directory.
    HookMissing { path: Vec<u16> },
    /// The program's path has no directory.
    NoQqDir { path: Vec<u16> },
    /// The program could not be started.
    CreateProcess { code: u32 },
    /// The library could not be brought into the program.
    Inject { error: InjectError },
}

/// What a `LaunchError` stands for.
pub enum LaunchErrorView {
    CurrentExe { reason: Seq<char> },
    NoLauncherDir { exe: Seq<u16> },
    QqNotFound,
    QqMissing { path: Seq<u16> },
    HookMissing { path: Seq<u16> },
    NoQqDir { path: Seq<u16> },
    CreateProcess { code: u32 },
    Inject { error: InjectError },
}

impl View for LaunchError {
    type V = LaunchErrorView;

    open spec fn view(&self) -> LaunchErrorView {
        match *self {
            LaunchError::CurrentExe { reason } => LaunchErrorView::CurrentExe { reason: reason@ },
            LaunchError::NoLauncherDir { exe } => LaunchErrorView::NoLauncherDir { exe: exe@ },
            LaunchError::QqNotFound => LaunchErrorView::QqNotFound,
            LaunchError::QqMissing { path } => LaunchErrorView::QqMissing { path: path@ },
            LaunchError::HookMissing { path } => LaunchErrorView::HookMissing { path: path@ },
            LaunchError::NoQqDir { path } => LaunchErrorView::NoQqDir { path: path@ },
            LaunchError::CreateProcess { code } => LaunchErrorView::CreateProcess { code },
            LaunchError::Inject { error } => LaunchErrorView::Inject { error },
        }
    }
}

impl LaunchErrorView {
    /// The message about the failure.
    pub open spec fn text(self) -> Seq<char> {
        match self {
            LaunchErrorView::CurrentExe { reason } => "current_exe failed: "@ + reason,
            LaunchErrorView::NoLauncherDir { exe } => "cannot get parent directory: "@ + lossy_text(
                exe,
            ),
            LaunchErrorView::QqNotFound => "QQ.exe not found in launcher directory or registry"@,
            LaunchErrorView::QqMissing { path } => "QQ.exe not found: "@ + lossy_text(path),
            LaunchErrorView::HookMissing { path } => "NapCatWinBootHook.dll not found: "@ + lossy_text(
                path,
            ),
            LaunchErrorView::NoQqDir { path } => "cannot get QQ.exe parent directory: "@ + lossy_text(
                path,
            ),
            LaunchErrorView::CreateProcess { code } => last_error_text(
                "CreateProcessW(QQ.exe) failed"@,
                code,
            ),
            LaunchErrorView::Inject { error } => error.text(),
        }
    }
}

impl LaunchError {
    /// The message about the failure.
    pub fn message(&self) -> (r: String)
        ensures
            r@ == self@.text(),
    {
        match self {
            LaunchError::CurrentExe { reason } => {
                let mut text = "current_exe failed: ".to_owned();
                text.append(reason.as_str());
                text
            },
            LaunchError::NoLauncherDir { exe } => {
                let mut text = "cannot get parent directory: ".to_owned();
                text.append(decode_lossy(exe.as_slice()).as_str());
                text
            },
            LaunchError::QqNotFound => {
                "QQ.exe not found in launcher directory or registry".to_owned()
            },
            LaunchError::QqMissing { path } => {
                let mut text = "QQ.exe not found: ".to_owned();
                text.append(decode_lossy(path.as_slice()).as_str());
                text
            },
            LaunchError::HookMissing { path } => {
                let mut text = "NapCatWinBootHook.dll not found: ".to_owned();
                text.append(decode_lossy(path.as_slice()).as_str());
                text
            },
            LaunchError::NoQqDir { path } => {
                let mut text = "cannot get QQ.exe parent directory: ".to_owned();
                text.append(decode_lossy(path.as_slice()).as_str());
                text
            },
            LaunchError::CreateProcess { code } => {
                last_error("CreateProcessW(QQ.exe) failed", *code)
            },
            LaunchError::Inject { error } => error.message(),
        }
    }
}

/// The start of the program with the library in it. Each state but the last names what is due.
#[derive(Debug, PartialEq, Eq)]
pub enum Launch {
    /// Ask for the launcher's own path.
    CurrentExe,
    /// Ask for the directory of that path.
    LauncherDir { exe: Vec<u16> },
    /// Search for the program.
    FindQq { launcher_dir: Vec<u16> },
    /// Ask for the path of the library `name` in the launcher's directory.
    JoinHook { launcher_dir: Vec<u16>, name: &'static str, qq: Vec<u16> },
    /// Does the program exist?
    TestQq { qq: Vec<u16>, hook: Vec<u16> },
    /// Does the library exist?
    TestHook { qq: Vec<u16>, hook: Vec<u16> },
    /// Ask for the program's directory.
    QqDir { qq: Vec<u16>, hook: Vec<u16> },
    /// Start the program in its directory; both paths are closed by a zero unit. Without a command
    /// line or an environment it gets the path as the one and the launcher's as the other.
    CreateProcess {
        qq: Vec<u16>,
        command_line: Option<Vec<u16>>,
        inherit_handles: bool,
        flags: u32,
        environment: Option<Vec<u16>>,
        qq_dir: Vec<u16>,
        hook: Vec<u16>,
    },
    /// Ask for the error code.
    LastError,
    /// Bring the library into the process.
    Inject { process: usize, thread: usize, hook: Vec<u16> },
    /// End the process with the exit code.
    Terminate { process: usize, thread: usize, exit_code: u32, error: InjectError },
    /// Let the process run.
    Resume { process: usize, thread: usize },
    /// Close the handle of the process's first thread.
    CloseThread { process: usize, thread: usize, result: Result<(), LaunchError> },
    /// Close the handle of the process.
    CloseProcess { process: usize, result: Result<(), LaunchError> },
    /// The launch is over.
    Done { result: Result<(), LaunchError> },
}

/// How a call of a launch went.
#[derive(Debug, PartialEq, Eq)]
pub enum LaunchReply {
    /// The launcher's own path, or why it could not be had.
    Exe(Result<Vec<u16>, String>),
    /// A directory, if there is one.
    Dir(Option<Vec<u16>>),
    /// The program's path, if it was found.
    Found(Option<Vec<u16>>),
    /// A joined path.
    Joined(Vec<u16>),
    /// Whether a path exists.
    Exists(bool),
    /// The start of a process: zero where it failed, and the handles of the process and its thread.
    Created { status: i32, process: usize, thread: usize },
    /// An error code.
    Code(u32),
    /// How bringing the library in went.
    Injected(Result<(), InjectError>),
    /// The call has been made.
    Made,
}

/// What a `Launch` stands for.
pub enum LaunchView {
    CurrentExe,
    LauncherDir { exe: Seq<u16> },
    FindQq { launcher_dir: Seq<u16> },
    JoinHook { launcher_dir: Seq<u16>, name: Seq<char>, qq: Seq<u16> },
    TestQq { qq: Seq<u16>, hook: Seq<u16> },
    TestHook { qq: Seq<u16>, hook: Seq<u16> },
    QqDir { qq: Seq<u16>, hook: Seq<u16> },
    CreateProcess {
        qq: Seq<u16>,
        command_line: Option<Seq<u16>>,
        inherit_handles: bool,
        flags: u32,
        environment: Option<Seq<u16>>,
        qq_dir: Seq<u16>,
        hook: Seq<u16>,
    },
    LastError,
    Inject { process: usize, thread: usize, hook: Seq<u16> },
    Terminate { process: usize, thread: usize, exit_code: u32, error: InjectError },
    Resume { process: usize, thread: usize },
    CloseThread { process: usize, thread: usize, result: Result<(), LaunchErrorView> },
    CloseProcess { process: usize, result: Result<(), LaunchErrorView> },
    Done { result: Result<(), LaunchErrorView> },
}

/// What a `LaunchReply` stands for.
pub enum LaunchReplyView {
    Exe(Result<Seq<u16>, Seq<char>>),
    Dir(Option<Seq<u16>>),
    Found(Option<Seq<u16>>),
    Joined(Seq<u16>),
    Exists(bool),
    Created { status: i32, process: usize, thread: usize },
    Code(u32),
    Injected(Result<(), InjectError>),
    Made,
}

/// What a launch comes to, with the failure by what it stands for.
pub open spec fn result_view(result: Result<(), LaunchError>) -> Result<(), LaunchErrorView> {
    match result {
        Ok(()) => Ok(()),
        Err(error) => Err(error@),
    }
}

impl View for Launch {
    type V = LaunchView;

    open spec fn view(&self) -> LaunchView {
        match *self {
            Launch::CurrentExe => LaunchView::CurrentExe,
            Launch::LauncherDir { exe } => LaunchView::LauncherDir { exe: exe@ },
            Launch::FindQq { launcher_dir } => LaunchView::FindQq { launcher_dir: launcher_dir@ },
            Launch::JoinHook { launcher_dir, name, qq } => LaunchView::JoinHook {
                launcher_dir: launcher_dir@,
                name: name@,
                qq: qq@,
            },
            Launch::TestQq { qq, hook } => LaunchView::TestQq { qq: qq@, hook: hook@ },
            Launch::TestHook { qq, hook } => LaunchView::TestHook { qq: qq@, hook: hook@ },
            Launch::QqDir { qq, hook } => LaunchView::QqDir { qq: qq@, hook: hook@ },
            Launch::CreateProcess {
                qq,
                command_line,
                inherit_handles,
                flags,
                environment,
                qq_dir,
                hook,
            } => LaunchView::CreateProcess {
                qq: qq@,
                command_line: spelling(command_line),
                inherit_handles,
                flags,
                environment: spelling(environment),
                qq_dir: qq_dir@,
                hook: hook@,
            },
            Launch::LastError => LaunchView::LastError,
            Launch::Inject { process, thread, hook } => LaunchView::Inject {
                process,
                thread,
                hook: hook@,
            },
            Launch::Terminate { process, thread, exit_code, error } => LaunchView::Terminate {
                process,
                thread,
                exit_code,
                error,
            },
            Launch::Resume { process, thread } => LaunchView::Resume { process, thread },
            Launch::CloseThread { process, thread, result } => LaunchView::CloseThread {
                process,
                thread,
                result: result_view(result),
            },
            Launch::CloseProcess { process, result } => LaunchView::CloseProcess {
                process,
                result: result_view(result),
            },
            Launch::Done { result } => LaunchView::Done { result: result_view(result) },
        }
    }
}

impl View for LaunchReply {
    type V = LaunchReplyView;

    open spec fn view(&self) -> LaunchReplyView {
        match *self {
            LaunchReply::Exe(exe) => LaunchReplyView::Exe(
                match exe {
                    Ok(path) => Ok(path@),
                    Err(reason) => Err(reason@),
                },
            ),
            LaunchReply::Dir(dir) => LaunchReplyView::Dir(spelling(dir)),
            LaunchReply::Found(found) => LaunchReplyView::Found(spelling(found)),
            LaunchReply::Joined(path) => LaunchReplyView::Joined(path@),
            LaunchReply::Exists(exists_there) => LaunchReplyView::Exists(exists_there),
            LaunchReply::Created { status, process, thread } => LaunchReplyView::Created {
                status,
                process,
                thread,
            },
            LaunchReply::Code(code) => LaunchReplyView::Code(code),
            LaunchReply::Injected(injected) => LaunchReplyView::Injected(injected),
            LaunchReply::Made => LaunchReplyView::Made,
        }
    }
}

impl LaunchView {
    /// A launch that failed.
    pub open spec fn failed(error: LaunchErrorView) -> LaunchView {
        LaunchView::Done { result: Err(error) }
    }

    /// The handles are closed, as far as there are any, and the launch is over.
    pub open spec fn closing(
        process: usize,
        thread: usize,
        result: Result<(), LaunchErrorView>,
    ) -> LaunchView {
        if thread != 0 {
            LaunchView::CloseThread { process, thread, result }
        } else if process != 0 {
            LaunchView::CloseProcess { process, result }
        } else {
            LaunchView::Done { result }
        }
    }

    /// What follows upon a reply. One to another call changes nothing.
    pub open spec fn after(self, reply: LaunchReplyView) -> LaunchView {
        match (self, reply) {
            (LaunchView::CurrentExe, LaunchReplyView::Exe(exe)) => match exe {
                Ok(exe) => LaunchView::LauncherDir { exe },
                Err(reason) => LaunchView::failed(LaunchErrorView::CurrentExe { reason }),
            },
            (LaunchView::LauncherDir { exe }, LaunchReplyView::Dir(dir)) => match dir {
                Some(launcher_dir) => LaunchView::FindQq { launcher_dir },
                None => LaunchView::failed(LaunchErrorView::NoLauncherDir { exe }),
            },
            (LaunchView::FindQq { launcher_dir }, LaunchReplyView::Found(found)) => match found {
                Some(qq) => LaunchView::JoinHook { launcher_dir, name: HOOK_DLL@, qq },
                None => LaunchView::failed(LaunchErrorView::QqNotFound),
            },
            (
                LaunchView::JoinHook { launcher_dir, name, qq },
                LaunchReplyView::Joined(hook),
            ) => LaunchView::TestQq { qq, hook },
            (LaunchView::TestQq { qq, hook }, LaunchReplyView::Exists(exists_there)) => if exists_there {
                LaunchView::TestHook { qq, hook }
            } else {
                LaunchView::failed(LaunchErrorView::QqMissing { path: qq })
            },
            (LaunchView::TestHook { qq, hook }, LaunchReplyView::Exists(exists_there)) => if exists_there {
                LaunchView::QqDir { qq, hook }
            } else {
                LaunchView::failed(LaunchErrorView::HookMissing { path: hook })
            },
            (LaunchView::QqDir { qq, hook }, LaunchReplyView::Dir(dir)) => match dir {
                Some(qq_dir) => LaunchView::CreateProcess {
                    qq: qq.push(0),
                    command_line: None,
                    inherit_handles: false,
                    flags: CREATE_SUSPENDED | CREATE_UNICODE_ENVIRONMENT,
                    environment: None,
                    qq_dir: qq_dir.push(0),
                    hook,
                },
                None => LaunchView::failed(LaunchErrorView::NoQqDir { path: qq }),
            },
            (
                LaunchView::CreateProcess { hook, .. },
                LaunchReplyView::Created { status, process, thread },
            ) => if status == 0 {
                LaunchView::LastError
            } else {
                LaunchView::Inject { process, thread, hook }
            },
            (LaunchView::LastError, LaunchReplyView::Code(code)) => LaunchView::failed(
                LaunchErrorView::CreateProcess { code },
            ),
            (
                LaunchView::Inject { process, thread, hook },
                LaunchReplyView::Injected(injected),
            ) => match injected {
                Ok(()) => LaunchView::Resume { process, thread },
                Err(error) => LaunchView::Terminate {
                    process,
                    thread,
                    exit_code: FAILED_EXIT_CODE,
                    error,
                },
            },
            (
                LaunchView::Terminate { process, thread, exit_code, error },
                LaunchReplyView::Made,
            ) => LaunchView::closing(process, thread, Err(LaunchErrorView::Inject { error })),
            (LaunchView::Resume { process, thread }, LaunchReplyView::Made) => LaunchView::closing(
                process,
                thread,
                Ok(()),
            ),
            (
                LaunchView::CloseThread { process, thread, result },
                LaunchReplyView::Made,
            ) => LaunchView::closing(process, 0, result),
            (LaunchView::CloseProcess { process, result }, LaunchReplyView::Made) => LaunchView::Done {
                result,
            },
            _ => self,
        }
    }
}

impl Launch {
    /// Closes the handles.
    fn close(process: usize, thread: usize, result: Result<(), LaunchError>) -> (r: Launch)
        ensures
            r@ == LaunchView::closing(process, thread, result_view(result)),
    {
        if thread != 0 {
            Launch::CloseThread { process, thread, result }
        } else if process != 0 {
            Launch::CloseProcess { process, result }
        } else {
            Launch::Done { result }
        }
    }

    /// Takes how the call went.
    pub fn step(self, reply: LaunchReply) -> (r: Launch)
        ensures
            r@ == self@.after(reply@),
    {
        match (self, reply) {
            (Launch::CurrentExe, LaunchReply::Exe(exe)) => match exe {
                Ok(exe) => Launch::LauncherDir { exe },
                Err(reason) => Launch::Done { result: Err(LaunchError::CurrentExe { reason }) },
            },
            (Launch::LauncherDir { exe }, LaunchReply::Dir(dir)) => match dir {
                Some(launcher_dir) => Launch::FindQq { launcher_dir },
                None => Launch::Done { result: Err(LaunchError::NoLauncherDir { exe }) },
            },
            (Launch::FindQq { launcher_dir }, LaunchReply::Found(found)) => match found {
                Some(qq) => Launch::JoinHook { launcher_dir, name: HOOK_DLL, qq },
                None => Launch::Done { result: Err(LaunchError::QqNotFound) },
            },
            (
                Launch::JoinHook { launcher_dir: _, name: _, qq },
                LaunchReply::Joined(hook),
            ) => Launch::TestQq { qq, hook },
            (Launch::TestQq { qq, hook }, LaunchReply::Exists(exists_there)) => if exists_there {
                Launch::TestHook { qq, hook }
            } else {
                Launch::Done { result: Err(LaunchError::QqMissing { path: qq }) }
            },
            (Launch::TestHook { qq, hook }, LaunchReply::Exists(exists_there)) => if exists_there {
                Launch::QqDir { qq, hook }
            } else {
                Launch::Done { result: Err(LaunchError::HookMissing { path: hook }) }
            },
            (Launch::QqDir { qq, hook }, LaunchReply::Dir(dir)) => match dir {
                Some(qq_dir) => Launch::CreateProcess {
                    qq: path_to_wide(qq.as_slice()),
                    command_line: None,
                    inherit_handles: false,
                    flags: create_suspended() | create_unicode_environment(),
                    environment: None,
                    qq_dir: path_to_wide(qq_dir.as_slice()),
                    hook,
                },
                None => Launch::Done { result: Err(LaunchError::NoQqDir { path: qq }) },
            },
            (
                Launch::CreateProcess { hook, .. },
                LaunchReply::Created { status, process, thread },
            ) => if status == 0 {
                Launch::LastError
            } else {
                Launch::Inject { process, thread, hook }
            },
            (Launch::LastError, LaunchReply::Code(code)) => Launch::Done {
                result: Err(LaunchError::CreateProcess { code }),
            },
            (
                Launch::Inject { process, thread, hook: _ },
                LaunchReply::Injected(injected),
            ) => match injected {
                Ok(()) => Launch::Resume { process, thread },
                Err(error) => Launch::Terminate {
                    process,
                    thread,
                    exit_code: FAILED_EXIT_CODE,
                    error,
                },
            },
            (
                Launch::Terminate { process, thread, exit_code: _, error },
                LaunchReply::Made,
            ) => Launch::close(process, thread, Err(LaunchError::Inject { error })),
            (Launch::Resume { process, thread }, LaunchReply::Made) => Launch::close(
                process,
                thread,
                Ok(()),
            ),
            (
                Launch::CloseThread { process, thread: _, result },
                LaunchReply::Made,
            ) => Launch::close(process, 0, result),
            (Launch::CloseProcess { process: _, result }, LaunchReply::Made) => Launch::Done {
                result,
            },
            (state, _) => state,
        }
    }
}

/// Begins to start the program.
pub fn run() -> (r: Launch)
    ensures
        r == Launch::CurrentExe,
{
    Launch::CurrentExe
}

impl LaunchView {
    /// The process that waits, in a state, to be let run or ended.
    pub open spec fn waiting_process(self) -> Option<usize> {
        match self {
            LaunchView::Inject { process, thread, hook } => Some(process),
            LaunchView::Terminate { process, thread, exit_code, error } => Some(process),
            LaunchView::Resume { process, thread } => Some(process),
            _ => None,
        }
    }

    /// The handles that are held in a state, that of the process and that of its thread, zero where
    /// there is none.
    pub open spec fn held_handles(self) -> (usize, usize) {
        match self {
            LaunchView::Inject { process, thread, hook } => (process, thread),
            LaunchView::Terminate { process, thread, exit_code, error } => (process, thread),
            LaunchView::Resume { process, thread } => (process, thread),
            LaunchView::CloseThread { process, thread, result } => (process, thread),
            LaunchView::CloseProcess { process, result } => (process, 0),
            _ => (0, 0),
        }
    }
}

/// Whatever the replies are, a process that has been started waits until it is let run or ended. It
/// is let run exactly where the library was brought in, and a launch that is over leaves no process
/// waiting.
pub proof fn law_process_runs_only_with_hook(state: LaunchView, reply: LaunchReplyView)
    ensures
        match state.waiting_process() {
            Some(process) => {
                ||| state.after(reply).waiting_process() == Some(process)
                ||| (state is Resume || state is Terminate) && reply is Made
            },
            None => state.after(reply).waiting_process() is Some ==> state is CreateProcess,
        },
        !(state is Resume) && state.after(reply) is Resume ==> state is Inject && reply
            matches LaunchReplyView::Injected(Ok(_)),
        !(state is Terminate) && state.after(reply) is Terminate ==> state is Inject && reply
            matches LaunchReplyView::Injected(Err(_)),
        !(state is CreateProcess) && state.after(reply) is CreateProcess ==> state.after(
            reply,
        )->flags == CREATE_SUSPENDED | CREATE_UNICODE_ENVIRONMENT,
        state is Done ==> state.waiting_process() is None,
{
}

/// Whatever the replies are, each handle of a started process is held until it is closed, and a
/// launch that is over holds none.
pub proof fn law_handles_are_closed(state: LaunchView, reply: LaunchReplyView)
    ensures
        ({
            let (process, thread) = state.held_handles();
            let (process_after, thread_after) = state.after(reply).held_handles();
            &&& process != 0 && process_after != process ==> state is CloseProcess && reply is Made
                && process_after == 0
            &&& thread != 0 && thread_after != thread ==> state is CloseThread && reply is Made
                && thread_after == 0
            &&& process == 0 && process_after != 0 ==> state is CreateProcess
            &&& thread == 0 && thread_after != 0 ==> state is CreateProcess
        }),
        state is Done ==> state.held_handles() == (0usize, 0usize),
{
}

/// How the calls of a launch come out.
pub struct LaunchOutcomes {
    pub exe: Result<Seq<u16>, Seq<char>>,
    pub launcher_dir: Option<Seq<u16>>,
    pub found: Option<Seq<u16>>,
    pub hook: Seq<u16>,
    pub qq_exists: bool,
    pub hook_exists: bool,
    pub qq_dir: Option<Seq<u16>>,
    pub create_status: i32,
    pub process: usize,
    pub thread: usize,
    pub error_code: u32,
    pub injected: Result<(), InjectError>,
}

impl LaunchOutcomes {
    /// What a launch comes to: the first thing that fails, in the order in which things are tried.
    pub open spec fn result(self) -> Result<(), LaunchErrorView> {
        if self.exe is Err {
            Err(LaunchErrorView::CurrentExe { reason: self.exe->Err_0 })
        } else if self.launcher_dir is None {
            Err(LaunchErrorView::NoLauncherDir { exe: self.exe->Ok_0 })
        } else if self.found is None {
            Err(LaunchErrorView::QqNotFound)
        } else if !self.qq_exists {
            Err(LaunchErrorView::QqMissing { path: self.found->0 })
        } else if !self.hook_exists {
            Err(LaunchErrorView::HookMissing { path: self.hook })
        } else if self.qq_dir is None {
            Err(LaunchErrorView::NoQqDir { path: self.found->0 })
        } else if self.create_status == 0 {
            Err(LaunchErrorView::CreateProcess { code: self.error_code })
        } else {
            match self.injected {
                Ok(()) => Ok(()),
                Err(error) => Err(LaunchErrorView::Inject { error }),
            }
        }
    }
}

impl LaunchView {
    /// Where the launch stands after `steps` replies.
    pub open spec fn driven(self, outcomes: LaunchOutcomes, steps: nat) -> LaunchView
        decreases steps,
    {
        if steps == 0 {
            self
        } else {
            let next = match self {
                LaunchView::CurrentExe => self.after(LaunchReplyView::Exe(outcomes.exe)),
                LaunchView::LauncherDir { .. } => self.after(LaunchReplyView::Dir(outcomes.launcher_dir)),
                LaunchView::FindQq { .. } => self.after(LaunchReplyView::Found(outcomes.found)),
                LaunchView::JoinHook { .. } => self.after(LaunchReplyView::Joined(outcomes.hook)),
                LaunchView::TestQq { .. } => self.after(LaunchReplyView::Exists(outcomes.qq_exists)),
                LaunchView::TestHook { .. } => self.after(LaunchReplyView::Exists(outcomes.hook_exists)),
                LaunchView::QqDir { .. } => self.after(LaunchReplyView::Dir(outcomes.qq_dir)),
                LaunchView::CreateProcess { .. } => self.after(
                    LaunchReplyView::Created {
                        status: outcomes.create_status,
                        process: outcomes.process,
                        thread: outcomes.thread,
                    },
                ),
                LaunchView::LastError => self.after(LaunchReplyView::Code(outcomes.error_code)),
                LaunchView::Inject { .. } => self.after(LaunchReplyView::Injected(outcomes.injected)),
                _ => self.after(LaunchReplyView::Made),
            };
            next.driven(outcomes, (steps - 1) as nat)
        }
    }
}

/// A launch succeeds exactly where everything it tries goes well; otherwise it reports the first
/// thing that failed.
pub proof fn law_launch_result(outcomes: LaunchOutcomes)
    ensures
        LaunchView::CurrentExe.driven(outcomes, 12) == (LaunchView::Done { result: outcomes.result() }),
{
    reveal_with_fuel(LaunchView::driven, 13);
}

/// Where nothing fails before it, the start is that of the program that was found, in its directory,
/// without a command line or an environment of its own and without the launcher's handles. The
/// library that goes into it is the one in the launcher's directory.
pub proof fn law_found_program_is_started(outcomes: LaunchOutcomes)
    requires
        outcomes.exe is Ok,
        outcomes.launcher_dir is Some,
        outcomes.qq_exists,
        outcomes.hook_exists,
    ensures
        outcomes.found matches Some(qq) ==> outcomes.qq_dir matches Some(qq_dir) ==>
            LaunchView::CurrentExe.driven(outcomes, 7) == (LaunchView::CreateProcess {
            qq: qq.push(0),
            command_line: None,
            inherit_handles: false,
            flags: CREATE_SUSPENDED | CREATE_UNICODE_ENVIRONMENT,
            environment: None,
            qq_dir: qq_dir.push(0),
            hook: outcomes.hook,
        }),
{
    reveal_with_fuel(LaunchView::driven, 8);
}

impl LaunchView {
    /// The reply is one to the call that is due.
    pub open spec fn answers(self, reply: LaunchReplyView) -> bool {
        match self {
            LaunchView::CurrentExe => reply is Exe,
            LaunchView::LauncherDir { .. } => reply is Dir,
            LaunchView::FindQq { .. } => reply is Found,
            LaunchView::JoinHook { .. } => reply is Joined,
            LaunchView::TestQq { .. } => reply is Exists,
            LaunchView::TestHook { .. } => reply is Exists,
            LaunchView::QqDir { .. } => reply is Dir,
            LaunchView::CreateProcess { .. } => reply is Created,
            LaunchView::LastError => reply is Code,
            LaunchView::Inject { .. } => reply is Injected,
            LaunchView::Terminate { .. } => reply is Made,
            LaunchView::Resume { .. } => reply is Made,
            LaunchView::CloseThread { .. } => reply is Made,
            LaunchView::CloseProcess { .. } => reply is Made,
            LaunchView::Done { .. } => false,
        }
    }

    /// How many calls may still be due, at most.
    pub open spec fn distance(self) -> int {
        match self {
            LaunchView::CurrentExe => 12,
            LaunchView::LauncherDir { .. } => 11,
            LaunchView::FindQq { .. } => 10,
            LaunchView::JoinHook { .. } => 9,
            LaunchView::TestQq { .. } => 8,
            LaunchView::TestHook { .. } => 7,
            LaunchView::QqDir { .. } => 6,
            LaunchView::CreateProcess { .. } => 5,
            LaunchView::Inject { .. } => 4,
            LaunchView::Terminate { .. } => 3,
            LaunchView::Resume { .. } => 3,
            LaunchView::CloseThread { .. } => 2,
            LaunchView::CloseProcess { .. } => 1,
            LaunchView::LastError => 1,
            LaunchView::Done { .. } => 0,
        }
    }
}

/// Every reply brings a launch nearer to its end, so that it ends whatever the replies are.
pub proof fn law_launch_ends(state: LaunchView, reply: LaunchReplyView)
    requires
        state.answers(reply),
    ensures
        0 <= state.after(reply).distance() < state.distance(),
{
}

/// What a launch asks for up to the start of the program: its own path and that path's directory, the
/// program, the path of `NapCatWinBootHook.dll` in the directory, whether both files exist, and the
/// program's directory. The first of these that is missing ends the launch, with what is missing.
pub proof fn law_launch_prepares(outcomes: LaunchOutcomes)
    ensures
        ({
            let at = |steps: nat| LaunchView::CurrentExe.driven(outcomes, steps);
            match outcomes.exe {
                Err(reason) => at(1) == (LaunchView::Done {
                    result: Err(LaunchErrorView::CurrentExe { reason }),
                }),
                Ok(exe) => {
                    &&& at(1) == (LaunchView::LauncherDir { exe })
                    &&& match outcomes.launcher_dir {
                        None => at(2) == (LaunchView::Done {
                            result: Err(LaunchErrorView::NoLauncherDir { exe }),
                        }),
                        Some(launcher_dir) => {
                            &&& at(2) == (LaunchView::FindQq { launcher_dir })
                            &&& match outcomes.found {
                                None => at(3) == (LaunchView::Done {
                                    result: Err(LaunchErrorView::QqNotFound),
                                }),
                                Some(qq) => {
                                    &&& at(3) == (LaunchView::JoinHook {
                                        launcher_dir,
                                        name: "NapCatWinBootHook.dll"@,
                                        qq,
                                    })
                                    &&& at(4) == (LaunchView::TestQq { qq, hook: outcomes.hook })
                                    &&& files_are_tested(outcomes, qq)
                                }
                            }
                        }
                    }
                },
            }
        }),
{
    reveal_with_fuel(LaunchView::driven, 8);
    assert(0x4u32 | 0x400u32 == 0x404u32) by (bit_vector);
}

/// The program and the library must exist, and the program must have a directory; it is started there,
/// suspended, and with nothing of its own handed over.
pub open spec fn files_are_tested(outcomes: LaunchOutcomes, qq: Seq<u16>) -> bool {
    let at = |steps: nat| LaunchView::CurrentExe.driven(outcomes, steps);
    let hook = outcomes.hook;
    if !outcomes.qq_exists {
        at(5) == (LaunchView::Done { result: Err(LaunchErrorView::QqMissing { path: qq }) })
    } else {
        &&& at(5) == (LaunchView::TestHook { qq, hook })
        &&& if !outcomes.hook_exists {
            at(6) == (LaunchView::Done { result: Err(LaunchErrorView::HookMissing { path: hook }) })
        } else {
            &&& at(6) == (LaunchView::QqDir { qq, hook })
            &&& match outcomes.qq_dir {
                None => at(7) == (LaunchView::Done {
                    result: Err(LaunchErrorView::NoQqDir { path: qq }),
                }),
                Some(qq_dir) => at(7) == (LaunchView::CreateProcess {
                    qq: qq.push(0),
                    command_line: None,
                    inherit_handles: false,
                    flags: 0x404,
                    environment: None,
                    qq_dir: qq_dir.push(0),
                    hook,
                }),
            }
        }
    }
}

/// Once the program is started, the library that is brought into its process is the one that was asked
/// for in the launcher's directory.
pub proof fn law_hook_is_injected(outcomes: LaunchOutcomes)
    requires
        outcomes.exe is Ok,
        outcomes.launcher_dir is Some,
        outcomes.found is Some,
        outcomes.qq_exists,
        outcomes.hook_exists,
        outcomes.qq_dir is Some,
    ensures
        outcomes.create_status != 0 ==> LaunchView::CurrentExe.driven(outcomes, 8) == (
        LaunchView::Inject {
            process: outcomes.process,
            thread: outcomes.thread,
            hook: outcomes.hook,
        }),
        outcomes.create_status == 0 ==> {
            &&& LaunchView::CurrentExe.driven(outcomes, 8) == LaunchView::LastError
            &&& LaunchView::CurrentExe.driven(outcomes, 9) == (LaunchView::Done {
                result: Err(LaunchErrorView::CreateProcess { code: outcomes.error_code }),
            })
        },
{
    reveal_with_fuel(LaunchView::driven, 10);
}

/// The handle of the thread is closed, then that of the process, each only where there is one, and
/// the launch ends with the result.
pub open spec fn closes_handles(
    start: LaunchView,
    outcomes: LaunchOutcomes,
    steps: nat,
    process: usize,
    thread: usize,
    result: Result<(), LaunchErrorView>,
) -> bool {
    let now = start.driven(outcomes, steps);
    let next = start.driven(outcomes, steps + 1);
    let last = start.driven(outcomes, steps + 2);
    if thread != 0 && process != 0 {
        &&& now == (LaunchView::CloseThread { process, thread, result })
        &&& next == (LaunchView::CloseProcess { process, result })
        &&& last == (LaunchView::Done { result })
    } else if thread != 0 {
        &&& now == (LaunchView::CloseThread { process, thread, result })
        &&& next == (LaunchView::Done { result })
    } else if process != 0 {
        &&& now == (LaunchView::CloseProcess { process, result })
        &&& next == (LaunchView::Done { result })
    } else {
        now == (LaunchView::Done { result })
    }
}

/// A process into which the library was brought is resumed; any other is ended with exit code 1, and
/// the failure is reported. The handles of either are closed.
pub proof fn law_process_is_resumed_or_ended(
    outcomes: LaunchOutcomes,
    process: usize,
    thread: usize,
    hook: Seq<u16>,
)
    ensures
        ({
            let start = LaunchView::Inject { process, thread, hook };
            match outcomes.injected {
                Ok(()) => {
                    &&& start.driven(outcomes, 1) == (LaunchView::Resume { process, thread })
                    &&& closes_handles(start, outcomes, 2, process, thread, Ok(()))
                },
                Err(error) => {
                    &&& start.driven(outcomes, 1) == (LaunchView::Terminate {
                        process,
                        thread,
                        exit_code: 1,
                        error,
                    })
                    &&& closes_handles(
                        start,
                        outcomes,
                        2,
                        process,
                        thread,
                        Err(LaunchErrorView::Inject { error }),
                    )
                },
            }
        }),
{
    reveal_with_fuel(LaunchView::driven, 5);
}

/// A reply to another call than the one that is due changes nothing.
pub proof fn law_launch_ignores_other_replies(state: LaunchView, reply: LaunchReplyView)
    ensures
        !state.answers(reply) ==> state.after(reply) == state,
{
}

/// The message about a failed launch says what failed and shows the path that it is about, or the
/// error code; the launcher's name stands over it.
pub proof fn law_launch_messages(
    reason: Seq<char>,
    path: Seq<char>,
    code: u32,
    error: InjectError,
)
    ensures
        ERROR_TITLE@ == "NapCatWinBootMain"@,
        ({
            let units = utf16(path);
            &&& (LaunchErrorView::CurrentExe { reason }).text() == "current_exe failed: "@ + reason
            &&& (LaunchErrorView::NoLauncherDir { exe: units }).text()
                == "cannot get parent directory: "@ + path
            &&& LaunchErrorView::QqNotFound.text()
                == "QQ.exe not found in launcher directory or registry"@
            &&& (LaunchErrorView::QqMissing { path: units }).text() == "QQ.exe not found: "@ + path
            &&& (LaunchErrorView::HookMissing { path: units }).text()
                == "NapCatWinBootHook.dll not found: "@ + path
            &&& (LaunchErrorView::NoQqDir { path: units }).text()
                == "cannot get QQ.exe parent directory: "@ + path
            &&& (LaunchErrorView::CreateProcess { code }).text()
                == "CreateProcessW(QQ.exe) failed"@ + (", GetLastError="@ + decimal(code as nat))
            &&& (LaunchErrorView::Inject { error }).text() == error.text()
        }),
{
    law_text_survives_utf16(path);
    assert((LaunchErrorView::CreateProcess { code }).text() =~= "CreateProcessW(QQ.exe) failed"@ + (
    ", GetLastError="@ + decimal(code as nat)));
}

/// A path that is no text is shown as the text that its units read as, in each message that shows one.
pub proof fn law_launch_messages_read_units(units: Seq<u16>)
    ensures
        ({
            let shown = lossy_text(units);
            &&& (LaunchErrorView::NoLauncherDir { exe: units }).text()
                == "cannot get parent directory: "@ + shown
            &&& (LaunchErrorView::QqMissing { path: units }).text() == "QQ.exe not found: "@ + shown
            &&& (LaunchErrorView::HookMissing { path: units }).text()
                == "NapCatWinBootHook.dll not found: "@ + shown
            &&& (LaunchErrorView::NoQqDir { path: units }).text()
                == "cannot get QQ.exe parent directory: "@ + shown
        }),
{
}

/// What a launch stands for tells its state, and the paths, handles and numbers in it.
pub proof fn law_launches_are_told_apart(
    one: Vec<u16>,
    two: Vec<u16>,
    three: Vec<u16>,
    name: &'static str,
    inherit_handles: bool,
    number: u32,
    process: usize,
    thread: usize,
    error: InjectError,
    failure: LaunchError,
)
    ensures
        Launch::CurrentExe@ == LaunchView::CurrentExe,
        (Launch::LauncherDir { exe: one })@ == (LaunchView::LauncherDir { exe: one@ }),
        (Launch::FindQq { launcher_dir: one })@ == (LaunchView::FindQq { launcher_dir: one@ }),
        (Launch::JoinHook { launcher_dir: one, name, qq: two })@ == (LaunchView::JoinHook {
            launcher_dir: one@,
            name: name@,
            qq: two@,
        }),
        (Launch::TestQq { qq: one, hook: two })@ == (LaunchView::TestQq { qq: one@, hook: two@ }),
        (Launch::TestHook { qq: one, hook: two })@ == (LaunchView::TestHook {
            qq: one@,
            hook: two@,
        }),
        (Launch::QqDir { qq: one, hook: two })@ == (LaunchView::QqDir { qq: one@, hook: two@ }),
        (Launch::CreateProcess {
            qq: one,
            command_line: None,
            inherit_handles,
            flags: number,
            environment: None,
            qq_dir: two,
            hook: three,
        })@ == (LaunchView::CreateProcess {
            qq: one@,
            command_line: None,
            inherit_handles,
            flags: number,
            environment: None,
            qq_dir: two@,
            hook: three@,
        }),
        (Launch::CreateProcess {
            qq: one,
            command_line: Some(two),
            inherit_handles,
            flags: number,
            environment: Some(three),
            qq_dir: one,
            hook: two,
        })@ == (LaunchView::CreateProcess {
            qq: one@,
            command_line: Some(two@),
            inherit_handles,
            flags: number,
            environment: Some(three@),
            qq_dir: one@,
            hook: two@,
        }),
        Launch::LastError@ == LaunchView::LastError,
        (Launch::Inject { process, thread, hook: one })@ == (LaunchView::Inject {
            process,
            thread,
            hook: one@,
        }),
        (Launch::Terminate { process, thread, exit_code: number, error })@ == (
        LaunchView::Terminate { process, thread, exit_code: number, error }),
        (Launch::Resume { process, thread })@ == (LaunchView::Resume { process, thread }),
        (Launch::CloseThread { process, thread, result: Ok(()) })@ == (LaunchView::CloseThread {
            process,
            thread,
            result: Ok(()),
        }),
        (Launch::CloseThread { process, thread, result: Err(failure) })@ == (
        LaunchView::CloseThread { process, thread, result: Err(failure@) }),
        (Launch::CloseProcess { process, result: Ok(()) })@ == (LaunchView::CloseProcess {
            process,
            result: Ok(()),
        }),
        (Launch::CloseProcess { process, result: Err(failure) })@ == (LaunchView::CloseProcess {
            process,
            result: Err(failure@),
        }),
        (Launch::Done { result: Ok(()) })@ == (LaunchView::Done { result: Ok(()) }),
        (Launch::Done { result: Err(failure) })@ == (LaunchView::Done { result: Err(failure@) }),
{
}

/// What a reply, and what a failure, stands for tells its kind and what it says.
pub proof fn law_launch_replies_are_told_apart(
    path: Vec<u16>,
    reason: String,
    exists_there: bool,
    status: i32,
    process: usize,
    thread: usize,
    code: u32,
    error: InjectError,
    injected: Result<(), InjectError>,
)
    ensures
        LaunchReply::Exe(Ok(path))@ == LaunchReplyView::Exe(Ok(path@)),
        LaunchReply::Exe(Err(reason))@ == LaunchReplyView::Exe(Err(reason@)),
        LaunchReply::Dir(Some(path))@ == LaunchReplyView::Dir(Some(path@)),
        LaunchReply::Dir(None)@ == LaunchReplyView::Dir(None),
        LaunchReply::Found(Some(path))@ == LaunchReplyView::Found(Some(path@)),
        LaunchReply::Found(None)@ == LaunchReplyView::Found(None),
        LaunchReply::Joined(path)@ == LaunchReplyView::Joined(path@),
        LaunchReply::Exists(exists_there)@ == LaunchReplyView::Exists(exists_there),
        (LaunchReply::Created { status, process, thread })@ == (LaunchReplyView::Created {
            status,
            process,
            thread,
        }),
        LaunchReply::Code(code)@ == LaunchReplyView::Code(code),
        LaunchReply::Injected(injected)@ == LaunchReplyView::Injected(injected),
        LaunchReply::Made@ == LaunchReplyView::Made,
        (LaunchError::CurrentExe { reason })@ == (LaunchErrorView::CurrentExe { reason: reason@ }),
        (LaunchError::NoLauncherDir { exe: path })@ == (LaunchErrorView::NoLauncherDir {
            exe: path@,
        }),
        LaunchError::QqNotFound@ == LaunchErrorView::QqNotFound,
        (LaunchError::QqMissing { path })@ == (LaunchErrorView::QqMissing { path: path@ }),
        (LaunchError::HookMissing { path })@ == (LaunchErrorView::HookMissing { path: path@ }),
        (LaunchError::NoQqDir { path })@ == (LaunchErrorView::NoQqDir { path: path@ }),
        (LaunchError::CreateProcess { code })@ == (LaunchErrorView::CreateProcess { code }),
        (LaunchError::Inject { error })@ == (LaunchErrorView::Inject { error }),
{
}

} // verus!
