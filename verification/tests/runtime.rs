use bela::application::ThreadInfo;
use bela::digital::share_index;
use bela::runtime::{Guard, Runtime};

#[test]
fn a_refusal_while_stopping_is_counted_apart() {
    let mut guard = Guard::new(1);

    guard.record_fault(false);
    guard.record_fault(true);
    guard.record_fault(true);

    assert_eq!(guard.faults(), 1, "only the live refusal is a fault");
    assert_eq!(
        guard.faults_while_stopping(),
        2,
        "the refusals during the shutdown are counted, and kept apart"
    );
}

#[test]
fn only_the_first_live_fault_is_reported() {
    let mut guard = Guard::new(1);
    assert!(!guard.record_fault(true));
    assert!(guard.record_fault(false));
    assert!(!guard.record_fault(false));
}

#[test]
fn a_render_turned_away_by_a_stopping_phase_is_counted_as_stopping() {
    let mut guard = Guard::new(2);
    let stopping = guard.enter_exclusive_seeing(true).expect("nothing is in flight");

    assert!(guard.enter_render(1).is_none(), "the claim is held");

    assert_eq!(guard.faults(), 0, "a shutdown is not a live fault");
    assert_eq!(guard.faults_while_stopping(), 1);
    guard.exit_exclusive(stopping);
}

#[test]
fn a_render_turned_away_by_a_live_phase_is_still_a_fault() {
    let mut guard = Guard::new(2);
    let live = guard.enter_exclusive_seeing(false).expect("nothing is in flight");

    assert!(guard.enter_render(1).is_none(), "the claim is held");

    assert_eq!(guard.faults(), 1);
    assert_eq!(guard.faults_while_stopping(), 0);
    guard.exit_exclusive(live);
}

#[test]
fn the_same_thread_number_cannot_render_twice() {
    let mut guard = Guard::new(2);
    let first = guard.enter_render(1).expect("the slot is free");
    assert!(guard.enter_render(1).is_none(), "a second claim on the same slot must be refused");
    assert_eq!(guard.faults(), 1);
    guard.exit_render(first);
    assert_eq!(guard.in_flight(), 0);
    assert!(!guard.is_exclusive());
}

#[test]
fn different_thread_numbers_render_together() {
    let mut guard = Guard::new(4);
    let claims: Vec<_> = (0..4).map(|thread| guard.enter_render(thread).expect("each slot is free")).collect();
    assert_eq!(guard.faults(), 0);
    assert_eq!(guard.in_flight(), 4);
    for claim in claims {
        guard.exit_render(claim);
    }
    assert_eq!(guard.in_flight(), 0);
}

#[test]
fn an_exclusive_phase_and_a_render_never_overlap() {
    let mut guard = Guard::new(2);

    let rendering = guard.enter_render(0).expect("the slot is free");
    assert!(
        guard.enter_exclusive().is_none(),
        "an exclusive phase must wait for the render threads to be out"
    );
    guard.exit_render(rendering);

    let exclusive = guard.enter_exclusive().expect("nothing is in flight");
    assert!(guard.enter_render(0).is_none(), "a render must not join a block an exclusive phase is in");
    assert!(guard.enter_exclusive().is_none(), "two exclusive phases must not overlap");
    guard.exit_exclusive(exclusive);

    assert_eq!(guard.faults(), 3);
    assert!(guard.enter_exclusive().is_some(), "and then it is free again");
}

#[test]
fn a_thread_number_outside_the_slots_is_refused() {
    let mut guard = Guard::new(2);
    assert!(guard.enter_render(2).is_none());
    assert_eq!(guard.faults(), 1);
}

#[test]
fn a_block_runs_pre_then_render_then_post() {
    let mut runtime = Runtime::new(1);
    let setup = runtime.begin_setup(1).expect("setup may run");
    runtime.finish_setup(setup, true);
    let pre = runtime.begin_block(1).expect("render_pre may run");
    runtime.finish_block(pre);
    let render = runtime.begin_render(0, 1).expect("render may run");
    assert_eq!(render.thread(), 0);
    runtime.finish_render(render);
    let post = runtime.begin_block(1).expect("render_post may run");
    runtime.finish_block(post);
    let cleanup = runtime.begin_block(1).expect("cleanup may run");
    runtime.finish_block(cleanup);
    assert_eq!(runtime.faults(), 0);
}

#[test]
fn a_setup_that_aborts_leaves_no_states() {
    let mut runtime = Runtime::new(1);
    let setup = runtime.begin_setup(1).expect("setup may run");
    runtime.finish_setup(setup, false);
    assert!(!runtime.is_ready());
    assert_eq!(runtime.faults(), 0);
}

#[test]
fn rendering_before_setup_is_refused() {
    let mut runtime = Runtime::new(1);
    assert!(runtime.begin_render(0, 1).is_none());
    assert_eq!(runtime.faults(), 1);
}

#[test]
fn the_block_phases_and_cleanup_are_refused_before_setup() {
    let mut runtime = Runtime::new(1);
    assert!(runtime.begin_block(1).is_none());
    assert!(runtime.begin_block(1).is_none());
    assert!(runtime.begin_block(1).is_none());
    assert_eq!(runtime.faults(), 3);
}

#[test]
fn a_second_setup_is_refused() {
    let mut runtime = Runtime::new(1);
    let setup = runtime.begin_setup(1).expect("setup may run");
    runtime.finish_setup(setup, true);
    assert!(runtime.begin_setup(1).is_none());
    assert_eq!(runtime.faults(), 1);
}

#[test]
fn a_context_with_the_wrong_thread_count_is_refused() {
    let mut runtime = Runtime::new(1);
    assert!(runtime.begin_setup(4).is_none());
    assert_eq!(runtime.faults(), 1);
    assert!(runtime.begin_render(0, 4).is_none());
    assert_eq!(runtime.faults(), 2);
}

#[test]
fn a_zero_thread_count_is_one_render_thread() {
    let mut runtime = Runtime::new(0);
    assert_eq!(runtime.threads(), 1);
    let setup = runtime.begin_setup(1).expect("setup may run");
    runtime.finish_setup(setup, true);
    let render = runtime.begin_render(0, 1).expect("the one thread renders");
    runtime.finish_render(render);
    assert_eq!(runtime.faults(), 0);
}

#[test]
fn a_block_phase_arriving_while_a_render_is_in_flight_is_refused() {
    let mut runtime = Runtime::new(2);
    let setup = runtime.begin_setup(2).expect("setup may run");
    runtime.finish_setup(setup, true);
    let render = runtime.begin_render(1, 2).expect("render may run");
    assert!(runtime.begin_block(2).is_none(), "the block phase must have been refused");
    assert_eq!(runtime.faults(), 1);
    runtime.finish_render(render);
}

#[test]
fn a_thread_number_outside_the_states_is_refused() {
    let mut runtime = Runtime::new(2);
    let setup = runtime.begin_setup(2).expect("setup may run");
    runtime.finish_setup(setup, true);

    assert!(runtime.begin_render(2, 2).is_none(), "render must not have run");
    assert_eq!(runtime.faults(), 1);
}

#[test]
fn setup_builds_one_state_per_thread_in_order() {
    let mut runtime = Runtime::new(3);
    let states = runtime
        .setup(3, || true, |info: ThreadInfo| (info.index(), info.count()))
        .expect("the application agreed");
    assert_eq!(states, vec![(0, 3), (1, 3), (2, 3)]);
    assert!(runtime.is_ready());
    assert_eq!(runtime.faults(), 0);

    assert!(
        runtime.setup(3, || true, |info: ThreadInfo| (info.index(), info.count())).is_none(),
        "a second setup would build a second set of states"
    );
    assert_eq!(runtime.faults(), 1);
}

#[test]
fn setup_builds_nothing_when_the_application_declines() {
    let mut runtime = Runtime::new(2);
    assert!(runtime.setup(2, || false, |info: ThreadInfo| info.index()).is_none());
    assert!(!runtime.is_ready());
    assert_eq!(runtime.faults(), 0, "declining is not a fault");
    assert_eq!(runtime.setup(2, || true, |info: ThreadInfo| info.index()), Some(vec![0, 1]));
}

#[test]
fn setup_on_a_context_with_another_thread_count_is_refused() {
    let mut runtime = Runtime::new(2);
    assert!(runtime.setup(4, || true, |info: ThreadInfo| info.index()).is_none());
    assert_eq!(runtime.faults(), 1);
    assert!(!runtime.is_ready());
}

#[test]
fn more_threads_than_frames_renders_empty_shares() {
    // Four frames over eight threads: half of them own nothing, and
    // must still be called and still write nothing.
    const FRAMES: usize = 4;
    const CHANNELS: usize = 2;
    let mut runtime = Runtime::new(8);
    let states = runtime.setup(8, || true, |info: ThreadInfo| info).expect("setup agrees");

    let mut audio_out = vec![0.0_f32; FRAMES * CHANNELS];
    let mut calls = 0;
    for thread in 0..8 {
        let claim = runtime.begin_render(thread, 8).expect("each thread renders");
        calls += 1;
        let range = states[thread].frame_range(FRAMES);
        let share = &mut audio_out[range.start * CHANNELS..range.end * CHANNELS];
        for frame in range.clone() {
            share[share_index(&range, frame, CHANNELS, 0)] = (thread + 1) as f32;
        }
        runtime.finish_render(claim);
    }

    assert_eq!(calls, 8);
    assert_eq!(runtime.faults(), 0);
    // Threads 1, 3, 5 and 7 own one frame each, in order, and each
    // writes its own number plus one.
    let written: Vec<f32> = (0..FRAMES).map(|f| audio_out[f * CHANNELS]).collect();
    assert_eq!(written, vec![2.0, 4.0, 6.0, 8.0]);
}
