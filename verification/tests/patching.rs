use napcat_winboot::hook::{
    check_module_thread, hook_recall, DllEvent, DllMain, DllReply, HookReply, HookThread, Recall,
    RecallReply, LOOK_UP_LIMIT, LOOK_UP_PAUSE, WRAPPER_MODULE,
};
use napcat_winboot::patch::{patch_bytes, patches, PatchJob, PatchReply};

#[test]
fn a_patch_job_restores_the_protection() {
    let bytes = vec![0x38, 0xc0];
    let job = patch_bytes(0x5000, bytes.clone());
    assert_eq!(
        job,
        PatchJob::Unlock { address: 0x5000, replacement: bytes.clone(), protect: 0x40 }
    );
    let job = job.step(PatchReply::Unlocked { status: 1, old_protect: 0x20 });
    assert_eq!(
        job,
        PatchJob::Copy { address: 0x5000, replacement: bytes.clone(), old_protect: 0x20 }
    );
    let job = job.step(PatchReply::Made);
    assert_eq!(
        job,
        PatchJob::Relock { address: 0x5000, replacement: bytes.clone(), old_protect: 0x20 }
    );
    let job = job.step(PatchReply::Made);
    assert_eq!(job, PatchJob::Flush { address: 0x5000, replacement: bytes });
    assert_eq!(job.step(PatchReply::Made), PatchJob::Done { patched: true });
}

#[test]
fn pages_that_stay_locked_are_not_written() {
    let job = patch_bytes(0x5000, vec![0x90]);
    assert_eq!(
        job.step(PatchReply::Unlocked { status: 0, old_protect: 0 }),
        PatchJob::Done { patched: false }
    );
}

#[test]
fn a_reply_to_another_call_leaves_the_patch_job() {
    let job = patch_bytes(1, vec![2]).step(PatchReply::Made);
    assert!(matches!(job, PatchJob::Unlock { address: 1, .. }));
    let job = job
        .step(PatchReply::Unlocked { status: -1, old_protect: 2 })
        .step(PatchReply::Unlocked { status: 0, old_protect: 0 });
    assert_eq!(job, PatchJob::Copy { address: 1, replacement: vec![2], old_protect: 2 });
}

/// Works through the patches; `outcomes` says where each is found and whether it is written.
fn apply(outcomes: &[(Option<usize>, bool)]) -> (usize, Vec<usize>) {
    let mut addresses = Vec::new();
    let mut state = hook_recall(0x9000);
    loop {
        state = match &state {
            Recall::Search { index, .. } => {
                let found = outcomes[*index].0;
                state.step(RecallReply::Found(found))
            }
            Recall::Write { index, address, .. } => {
                addresses.push(*address);
                let written = outcomes[*index].1;
                state.step(RecallReply::Written(written))
            }
            Recall::Done { patched } => return (*patched, addresses),
        };
    }
}

#[test]
fn recall_begins_with_the_first_patch() {
    assert_eq!(hook_recall(0x9000), Recall::Search { module: 0x9000, patches: patches(), index: 0, patched: 0 });
}

#[test]
fn the_due_patch_is_the_one_at_the_index() {
    let list = patches();
    let mut state = hook_recall(1);
    for patch in &list {
        assert_eq!(state.due_patch(), Some(patch));
        state = state.step(RecallReply::Found(Some(0x100)));
        assert!(matches!(state, Recall::Write { .. }));
        assert_eq!(state.due_patch(), Some(patch));
        state = state.step(RecallReply::Written(false));
    }
    assert_eq!(state, Recall::Done { patched: 0 });
    assert_eq!(state.due_patch(), None);
}

#[test]
fn recall_counts_the_patches_that_were_written() {
    let (a, b, c) = (Some(0x1000), Some(0x2000), Some(0x3000));
    assert_eq!(
        apply(&[(a, true), (b, true), (c, true)]),
        (3, vec![0x1006, 0x2006, 0x3000])
    );
    assert_eq!(apply(&[(a, false), (None, true), (c, true)]), (1, vec![0x1006, 0x3000]));
    assert_eq!(apply(&[(None, true), (None, true), (None, true)]), (0, vec![]));
}

/// Runs the hook's thread; `appears` is the question that first gets an answer.
fn wait_for_module(appears: Option<u32>) -> (Option<usize>, u32, u32) {
    let (mut hooked, mut asked, mut slept) = (None, 0, 0);
    let mut state = check_module_thread(0x44);
    loop {
        state = match state {
            HookThread::LookUp { attempt, name, .. } => {
                assert_eq!(name, WRAPPER_MODULE);
                asked += 1;
                let module = if appears == Some(attempt) { 0x7000 } else { 0 };
                state.step(HookReply::Module(module))
            }
            HookThread::Sleep { pause, .. } => {
                assert_eq!(pause, LOOK_UP_PAUSE);
                slept += 1;
                state.step(HookReply::Made)
            }
            HookThread::Hook { module, .. } => {
                hooked = Some(module);
                state.step(HookReply::Made)
            }
            HookThread::Exit { own_module, exit_code } => {
                assert_eq!((own_module, exit_code), (0x44, 0));
                return (hooked, asked, slept);
            }
        };
    }
}

#[test]
fn the_hook_takes_the_first_module_that_appears() {
    assert_eq!(wait_for_module(Some(0)), (Some(0x7000), 1, 0));
    assert_eq!(wait_for_module(Some(2)), (Some(0x7000), 3, 2));
    assert_eq!(wait_for_module(Some(299)), (Some(0x7000), 300, 299));
}

#[test]
fn the_hook_gives_up_in_the_end() {
    assert_eq!(wait_for_module(None), (None, 300, 300));
    assert_eq!((LOOK_UP_LIMIT, LOOK_UP_PAUSE), (300, 1000));
    assert_eq!(WRAPPER_MODULE, "wrapper.node");
    let past = HookThread::Sleep { own_module: 1, attempt: u32::MAX, pause: 0 };
    assert_eq!(
        past.step(HookReply::Made),
        HookThread::Exit { own_module: 1, exit_code: 0 }
    );
}

#[test]
fn loading_the_library_starts_the_thread() {
    let event = DllMain(0x44, 1);
    assert_eq!(event, DllEvent::DisableThreadCalls { module: 0x44 });
    let event = event.step(DllReply::Made);
    assert_eq!(event, DllEvent::StartThread { module: 0x44 });
    assert_eq!(event.step(DllReply::Thread(0)), DllEvent::Return { value: 1 });
    let event = event.step(DllReply::Thread(8));
    assert_eq!(event, DllEvent::CloseThread { thread: 8 });
    assert_eq!(event.step(DllReply::Made), DllEvent::Return { value: 1 });
}

#[test]
fn other_events_are_only_answered() {
    for reason in [0, 2, 3, u32::MAX] {
        assert_eq!(DllMain(0x44, reason), DllEvent::Return { value: 1 });
    }
}
