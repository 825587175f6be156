use raytracer::render::{
    camera_snapshot, handle_event, process_reload, render_to_buffer, worker_observe, Accumulator,
    InputEvent, SharedState, WorkerAction,
};
use raytracer::vec3::Vec3;
use raytracer::SCALE;

const ONE: i64 = SCALE;

fn fresh_state(width: u32, height: u32) -> SharedState {
    SharedState::new(width, height, Vec3::new(13 * ONE, 2 * ONE, 3 * ONE), 20 * ONE)
}

#[test]
fn first_observation_processes_the_initial_reload() {
    let mut state = fresh_state(8, 6);
    let mut acc = Accumulator::new();
    let act = worker_observe(&mut state, &mut acc);
    assert_eq!(act, WorkerAction::Reset { width: 8, height: 6 });
    assert_eq!(acc.image.len(), 48);
    assert_eq!(acc.samples, 0);
    assert!(!state.reload);
    assert!(acc.image.iter().all(|p| *p == Vec3::zero()));
}

#[test]
fn observation_without_reload_presents_and_changes_nothing() {
    let mut state = fresh_state(4, 4);
    let mut acc = Accumulator::new();
    worker_observe(&mut state, &mut acc);
    acc.samples = 3;
    let act = worker_observe(&mut state, &mut acc);
    assert_eq!(act, WorkerAction::Present);
    assert_eq!(acc.samples, 3);
    assert_eq!(acc.image.len(), 16);
}

#[test]
fn resize_mid_accumulation_discards_prior_samples() {
    // A resize from 800x600 to 400x300 fired mid-accumulation: the next
    // worker observation must reset the sample counter and the buffer for
    // the new viewport before anything is presented.
    let mut state = fresh_state(800, 600);
    let mut acc = Accumulator::new();
    worker_observe(&mut state, &mut acc);
    assert_eq!(acc.image.len(), 800 * 600);
    // Accumulate a few passes.
    acc.samples = 57;
    acc.image[0] = Vec3::new(ONE, ONE, ONE);
    let mut capture = false;
    let exit = handle_event(
        &mut state,
        &mut capture,
        InputEvent::Resized { width: 400, height: 300 },
    );
    assert!(!exit);
    assert!(state.reload);
    let act = worker_observe(&mut state, &mut acc);
    assert_eq!(act, WorkerAction::Reset { width: 400, height: 300 });
    assert_eq!(acc.samples, 0, "prior samples must be discarded");
    assert_eq!(acc.image.len(), 400 * 300);
    assert!(acc.image.iter().all(|p| *p == Vec3::zero()));
    assert!(!state.reload);
}

#[test]
fn reload_reuses_buffer_of_equal_size() {
    let mut state = fresh_state(10, 10);
    let mut acc = Accumulator::new();
    worker_observe(&mut state, &mut acc);
    acc.image[5] = Vec3::new(7, 7, 7);
    acc.samples = 2;
    process_reload(&mut acc, 10, 10);
    assert_eq!(acc.image.len(), 100);
    assert_eq!(acc.samples, 0);
    assert_eq!(acc.image[5], Vec3::zero());
}

#[test]
fn pointer_motion_at_zero_delta_changes_nothing() {
    // The noise-floor check: a (0, 0) delta must neither set the reload
    // flag nor perturb pitch or yaw.
    let mut state = fresh_state(4, 4);
    let mut acc = Accumulator::new();
    worker_observe(&mut state, &mut acc);
    let mut capture = true;
    let exit = handle_event(&mut state, &mut capture, InputEvent::PointerMotion { dx: 0, dy: 0 });
    assert!(!exit);
    assert!(!state.reload);
    assert_eq!(state.pitch, 0);
    assert_eq!(state.yaw, 0);
    assert!(capture);
}

#[test]
fn pointer_motion_tilts_by_a_fifth_and_reloads() {
    let mut state = fresh_state(4, 4);
    let mut acc = Accumulator::new();
    worker_observe(&mut state, &mut acc);
    let mut capture = true;
    handle_event(&mut state, &mut capture, InputEvent::PointerMotion { dx: 5 * ONE, dy: -10 * ONE });
    assert!(state.reload);
    assert_eq!(state.yaw, ONE);
    assert_eq!(state.pitch, -2 * ONE);
}

#[test]
fn pointer_motion_ignored_while_capture_is_off() {
    let mut state = fresh_state(4, 4);
    let mut acc = Accumulator::new();
    worker_observe(&mut state, &mut acc);
    let mut capture = false;
    handle_event(&mut state, &mut capture, InputEvent::PointerMotion { dx: ONE, dy: ONE });
    assert!(!state.reload);
    assert_eq!(state.pitch, 0);
    assert_eq!(state.yaw, 0);
}

#[test]
fn capture_toggle_does_not_reload() {
    let mut state = fresh_state(4, 4);
    let mut acc = Accumulator::new();
    worker_observe(&mut state, &mut acc);
    let mut capture = false;
    handle_event(&mut state, &mut capture, InputEvent::ToggleCapture);
    assert!(capture);
    assert!(!state.reload);
    handle_event(&mut state, &mut capture, InputEvent::ToggleCapture);
    assert!(!capture);
    assert!(!state.reload);
}

#[test]
fn fov_keys_step_by_five_units_and_reload() {
    let mut state = fresh_state(4, 4);
    let mut acc = Accumulator::new();
    worker_observe(&mut state, &mut acc);
    let mut capture = false;
    handle_event(&mut state, &mut capture, InputEvent::DecreaseFov);
    assert_eq!(state.fov, 15 * ONE);
    assert!(state.reload);
    worker_observe(&mut state, &mut acc);
    handle_event(&mut state, &mut capture, InputEvent::IncreaseFov);
    handle_event(&mut state, &mut capture, InputEvent::IncreaseFov);
    assert_eq!(state.fov, 25 * ONE);
    assert!(state.reload);
}

#[test]
fn close_request_exits_without_touching_state() {
    let mut state = fresh_state(4, 4);
    let mut capture = false;
    let before_fov = state.fov;
    let exit = handle_event(&mut state, &mut capture, InputEvent::CloseRequested);
    assert!(exit);
    assert_eq!(state.fov, before_fov);
}

#[test]
fn camera_snapshot_reads_state_and_aspect() {
    let mut state = fresh_state(800, 600);
    state.pitch = 123;
    state.yaw = -456;
    let cam = camera_snapshot(&state);
    assert_eq!(cam.fov, 20 * ONE);
    assert_eq!(cam.pitch, 123);
    assert_eq!(cam.yaw, -456);
    assert_eq!(cam.pos, Vec3::new(13 * ONE, 2 * ONE, 3 * ONE));
    // 800 / 600 = 4 / 3 in fixed point, truncated.
    assert_eq!(cam.aspect, 800 * SCALE / 600);
}

#[test]
fn full_reload_cycle_accumulates_then_presents() {
    let mut state = fresh_state(2, 2);
    let mut acc = Accumulator::new();
    assert_eq!(worker_observe(&mut state, &mut acc), WorkerAction::Reset { width: 2, height: 2 });
    // One accumulation pass outside the lock.
    for p in acc.image.iter_mut() {
        *p = p.add(Vec3::new(ONE, ONE, ONE));
    }
    acc.samples += 1;
    // Next observation presents.
    assert_eq!(worker_observe(&mut state, &mut acc), WorkerAction::Present);
    let mut screen = vec![0u8; 16];
    render_to_buffer(&mut screen, &acc.image, acc.samples);
    assert!(screen.iter().all(|b| *b == 255));
}
