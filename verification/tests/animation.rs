use cube_skyline::animation::{AnimationState, PHASE_START};

#[test]
fn new_animation_rests() {
    let state = AnimationState::new();
    assert_eq!(state, AnimationState { phase_counter: 0, running: false });
    assert!(state.is_idle());
}

#[test]
fn restart_sets_full_phase() {
    let mut state = AnimationState::new();
    state.restart();
    assert_eq!(state, AnimationState { phase_counter: 15, running: true });
    assert_eq!(PHASE_START, 15);
    assert!(!state.is_idle());
}

#[test]
fn restart_in_mid_run_starts_over() {
    let mut state = AnimationState::new();
    state.restart();
    for _ in 0..6 {
        state.tick();
    }
    assert_eq!(state.phase_counter, 9);
    state.restart();
    assert_eq!(state, AnimationState { phase_counter: 15, running: true });
}

#[test]
fn each_tick_takes_one_step() {
    let mut state = AnimationState::new();
    state.restart();
    for left in (0..15usize).rev() {
        assert!(state.tick());
        assert_eq!(state.phase_counter, left);
        assert_eq!(state.running, left > 0);
    }
}

#[test]
fn fifteen_ticks_bring_the_animation_to_rest() {
    let mut state = AnimationState::new();
    state.restart();
    for _ in 0..14 {
        state.tick();
    }
    assert_eq!(state, AnimationState { phase_counter: 1, running: true });
    state.tick();
    assert_eq!(state, AnimationState { phase_counter: 0, running: false });
    assert!(state.is_idle());
}

#[test]
fn sixteenth_tick_changes_nothing() {
    let mut state = AnimationState::new();
    state.restart();
    for _ in 0..15 {
        assert!(state.tick());
    }
    let rested = state;
    assert!(!state.tick());
    assert_eq!(state, rested);
    assert!(!state.tick());
    assert_eq!(state, rested);
}

#[test]
fn well_formed_means_in_range_and_consistent() {
    assert!(AnimationState { phase_counter: 0, running: false }.is_wf());
    assert!(AnimationState { phase_counter: 15, running: true }.is_wf());
    assert!(!AnimationState { phase_counter: 16, running: true }.is_wf());
    assert!(!AnimationState { phase_counter: 0, running: true }.is_wf());
    assert!(!AnimationState { phase_counter: 3, running: false }.is_wf());
}
