use napcat_winboot::inject::{
    inject_dll, InjectCall, InjectError, InjectReply, Injection, Verdict,
};
use napcat_winboot::launch::{run, Launch, LaunchError, LaunchReply, HOOK_DLL};
use napcat_winboot::wide::{encode_wide, wide_null};

/// How the calls of an injection come out.
#[derive(Clone, Copy)]
struct Calls {
    buffer: usize,
    status: i32,
    missing: usize,
    kernel: usize,
    loader: usize,
    thread: usize,
    exit_code: u32,
}

const GOOD: Calls = Calls {
    buffer: 0x100,
    status: 1,
    missing: 0,
    kernel: 0x200,
    loader: 0x300,
    thread: 0x400,
    exit_code: 0x500,
};

/// Runs an injection; the second result lists the calls that clean up.
fn inject(calls: Calls) -> (Result<(), InjectError>, Vec<String>) {
    let mut cleanup = Vec::new();
    let mut state = inject_dll(0x10, &encode_wide("C:\\h.dll"));
    loop {
        let reply = match &state {
            Injection::Allocate { process, path, byte_len, allocation, protect } => {
                assert_eq!(*process, 0x10);
                assert_eq!(path.last(), Some(&0));
                assert_eq!(*byte_len, 18);
                assert_eq!((*allocation, *protect), (0x3000, 4));
                InjectReply::Handle(calls.buffer)
            }
            Injection::Write { byte_len, buffer, .. } => {
                assert_eq!(*buffer, calls.buffer);
                InjectReply::Wrote { status: calls.status, written: byte_len - calls.missing }
            }
            Injection::FindKernel { name, .. } => {
                assert_eq!(*name, "kernel32.dll");
                InjectReply::Handle(calls.kernel)
            }
            Injection::FindLoader { kernel, name, .. } => {
                assert_eq!(*name, "LoadLibraryW");
                assert_eq!(*kernel, calls.kernel);
                InjectReply::Handle(calls.loader)
            }
            Injection::StartThread { loader, .. } => {
                assert_eq!(*loader, calls.loader);
                InjectReply::Handle(calls.thread)
            }
            Injection::Wait { limit, .. } => {
                assert_eq!(*limit, u32::MAX);
                InjectReply::Made
            }
            Injection::ExitCode { .. } => InjectReply::Code(calls.exit_code),
            Injection::CloseThread { thread, .. } => {
                cleanup.push(format!("close {thread:#x}"));
                InjectReply::Made
            }
            Injection::Free { buffer, size, free_type, .. } => {
                assert_eq!(*size, 0);
                cleanup.push(format!("free {buffer:#x} {free_type:#x}"));
                InjectReply::Made
            }
            Injection::LastError { .. } => InjectReply::Code(5),
            Injection::Done { result } => return (*result, cleanup),
        };
        state = state.step(reply);
    }
}

fn call_failed(call: InjectCall) -> Result<(), InjectError> {
    Err(InjectError::Call { call, code: 5 })
}

#[test]
fn an_injection_without_failures_succeeds() {
    let cleanup = vec!["close 0x400".to_string(), "free 0x100 0x8000".to_string()];
    assert_eq!(inject(GOOD), (Ok(()), cleanup.clone()));
    assert_eq!(
        inject(Calls { exit_code: 0, ..GOOD }),
        (Err(InjectError::NotLoaded), cleanup)
    );
}

#[test]
fn a_failed_injection_gives_its_memory_back() {
    let freed = vec!["free 0x100 0x8000".to_string()];
    assert_eq!(
        inject(Calls { buffer: 0, ..GOOD }),
        (call_failed(InjectCall::Allocate), vec![])
    );
    assert_eq!(
        inject(Calls { status: 0, ..GOOD }),
        (call_failed(InjectCall::Write), freed.clone())
    );
    assert_eq!(
        inject(Calls { missing: 1, ..GOOD }),
        (call_failed(InjectCall::Write), freed.clone())
    );
    assert_eq!(
        inject(Calls { kernel: 0, ..GOOD }),
        (call_failed(InjectCall::FindKernel), freed.clone())
    );
    assert_eq!(
        inject(Calls { loader: 0, ..GOOD }),
        (call_failed(InjectCall::FindLoader), freed.clone())
    );
    assert_eq!(
        inject(Calls { thread: 0, ..GOOD }),
        (call_failed(InjectCall::StartThread), freed)
    );
}

#[test]
fn the_error_code_is_asked_for_after_the_memory_is_given_back() {
    let state = Injection::FindKernel { process: 1, buffer: 2, name: "kernel32.dll" }.step(InjectReply::Handle(0));
    let verdict = Verdict::Failed(InjectCall::FindKernel);
    assert_eq!(state, Injection::Free { process: 1, buffer: 2, size: 0, free_type: 0x8000, verdict });
    assert_eq!(
        state.step(InjectReply::Made),
        Injection::LastError { call: InjectCall::FindKernel }
    );
}

#[test]
fn a_reply_to_another_call_leaves_the_injection() {
    let state = Injection::LastError { call: InjectCall::Write }.step(InjectReply::Made);
    assert_eq!(state, Injection::LastError { call: InjectCall::Write });
}

#[test]
fn injection_messages() {
    let expected = [
        (InjectCall::Allocate, "VirtualAllocEx failed, GetLastError=8"),
        (InjectCall::Write, "WriteProcessMemory failed, GetLastError=8"),
        (InjectCall::FindKernel, "GetModuleHandleW(kernel32.dll) failed, GetLastError=8"),
        (InjectCall::FindLoader, "GetProcAddress(LoadLibraryW) failed, GetLastError=8"),
        (InjectCall::StartThread, "CreateRemoteThread failed, GetLastError=8"),
    ];
    for (call, text) in expected {
        assert_eq!(InjectError::Call { call, code: 8 }.message(), text);
    }
    assert_eq!(InjectError::NotLoaded.message(), "LoadLibraryW failed in remote process");
}

/// How the calls of a launch come out.
#[derive(Clone)]
struct World {
    exe: Result<Vec<u16>, String>,
    launcher_dir: Option<Vec<u16>>,
    found: Option<Vec<u16>>,
    qq_exists: bool,
    hook_exists: bool,
    qq_dir: Option<Vec<u16>>,
    status: i32,
    process: usize,
    thread: usize,
    injected: Result<(), InjectError>,
}

fn good_world() -> World {
    World {
        exe: Ok(encode_wide("L:\\l.exe")),
        launcher_dir: Some(encode_wide("L:\\")),
        found: Some(encode_wide("Q:\\QQ.exe")),
        qq_exists: true,
        hook_exists: true,
        qq_dir: Some(encode_wide("Q:\\")),
        status: 1,
        process: 0x20,
        thread: 0x30,
        injected: Ok(()),
    }
}

/// Runs a launch; the second result lists what happens to the process.
fn launch(world: World) -> (Result<(), LaunchError>, Vec<String>) {
    let mut done = Vec::new();
    let mut state = run();
    loop {
        let reply = match state {
            Launch::CurrentExe => LaunchReply::Exe(world.exe.clone()),
            Launch::LauncherDir { .. } => LaunchReply::Dir(world.launcher_dir.clone()),
            Launch::FindQq { .. } => LaunchReply::Found(world.found.clone()),
            Launch::JoinHook { name, .. } => {
                assert_eq!(name, HOOK_DLL);
                LaunchReply::Joined(encode_wide(&format!("L:\\{name}")))
            }
            Launch::TestQq { .. } => LaunchReply::Exists(world.qq_exists),
            Launch::TestHook { .. } => LaunchReply::Exists(world.hook_exists),
            Launch::QqDir { .. } => LaunchReply::Dir(world.qq_dir.clone()),
            Launch::CreateProcess {
                ref qq,
                ref command_line,
                inherit_handles,
                flags,
                ref environment,
                ref qq_dir,
                ..
            } => {
                assert_eq!(*qq, wide_null("Q:\\QQ.exe"));
                assert_eq!(*command_line, None);
                assert!(!inherit_handles);
                assert_eq!(*environment, None);
                assert_eq!(*qq_dir, wide_null("Q:\\"));
                assert_eq!(flags, 0x404);
                LaunchReply::Created {
                    status: world.status,
                    process: world.process,
                    thread: world.thread,
                }
            }
            Launch::LastError => LaunchReply::Code(740),
            Launch::Inject { .. } => LaunchReply::Injected(world.injected),
            Launch::Terminate { process, exit_code, .. } => {
                done.push(format!("terminate {process:#x} {exit_code}"));
                LaunchReply::Made
            }
            Launch::Resume { thread, .. } => {
                done.push(format!("resume {thread:#x}"));
                LaunchReply::Made
            }
            Launch::CloseThread { thread, .. } => {
                done.push(format!("close {thread:#x}"));
                LaunchReply::Made
            }
            Launch::CloseProcess { process, .. } => {
                done.push(format!("close {process:#x}"));
                LaunchReply::Made
            }
            Launch::Done { result } => return (result, done),
        };
        state = state.step(reply);
    }
}

fn message_of(world: World) -> (String, Vec<String>) {
    let (result, done) = launch(world);
    (result.unwrap_err().message(), done)
}

#[test]
fn a_launch_without_failures_lets_the_process_run() {
    assert_eq!(
        launch(good_world()),
        (Ok(()), vec![
            "resume 0x30".to_string(),
            "close 0x30".to_string(),
            "close 0x20".to_string()
        ])
    );
}

#[test]
fn a_process_without_the_hook_is_ended() {
    let error = InjectError::NotLoaded;
    let (result, done) = launch(World { injected: Err(error), ..good_world() });
    assert_eq!(result, Err(LaunchError::Inject { error }));
    assert_eq!(done, vec!["terminate 0x20 1", "close 0x30", "close 0x20"]);
}

#[test]
fn handles_that_are_missing_are_not_closed() {
    let (_, done) = launch(World { thread: 0, ..good_world() });
    assert_eq!(done, vec!["resume 0x0", "close 0x20"]);
    let (_, done) = launch(World { process: 0, ..good_world() });
    assert_eq!(done, vec!["resume 0x30", "close 0x30"]);
    let (_, done) = launch(World { process: 0, thread: 0, ..good_world() });
    assert_eq!(done, vec!["resume 0x0"]);
}

#[test]
fn launch_failures_are_reported() {
    let untouched: Vec<String> = vec![];
    let cases = [
        (
            World { exe: Err("denied".to_string()), ..good_world() },
            "current_exe failed: denied",
        ),
        (
            World { launcher_dir: None, ..good_world() },
            "cannot get parent directory: L:\\l.exe",
        ),
        (
            World { found: None, ..good_world() },
            "QQ.exe not found in launcher directory or registry",
        ),
        (World { qq_exists: false, ..good_world() }, "QQ.exe not found: Q:\\QQ.exe"),
        (
            World { hook_exists: false, ..good_world() },
            "NapCatWinBootHook.dll not found: L:\\NapCatWinBootHook.dll",
        ),
        (
            World { qq_dir: None, ..good_world() },
            "cannot get QQ.exe parent directory: Q:\\QQ.exe",
        ),
        (
            World { status: 0, ..good_world() },
            "CreateProcessW(QQ.exe) failed, GetLastError=740",
        ),
    ];
    for (world, text) in cases {
        assert_eq!(message_of(world), (text.to_string(), untouched.clone()));
    }
    assert_eq!(
        message_of(World { injected: Err(InjectError::NotLoaded), ..good_world() }).0,
        "LoadLibraryW failed in remote process"
    );
}

#[test]
fn paths_that_are_no_text_are_shown_with_replacement_characters() {
    let error = LaunchError::QqMissing { path: vec![0x51, 0xd800, 0x51] };
    assert_eq!(error.message(), "QQ.exe not found: Q\u{fffd}Q");
}

#[test]
fn a_reply_to_another_call_leaves_the_launch() {
    assert_eq!(run().step(LaunchReply::Made), Launch::CurrentExe);
    assert_eq!(Launch::LastError.step(LaunchReply::Exists(true)), Launch::LastError);
}
