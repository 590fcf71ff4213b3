use vstd::prelude::*;

verus! {

/// The phase counter's value right after new data has arrived.
pub const PHASE_START: usize = 15;

/// Where the rotation animation stands. The counter runs down from
/// [`PHASE_START`] to zero, one step per tick; the animation is running
/// exactly while the counter is above zero.
#[derive(Clone, Copy, Debug, PartialEq, Eq, Structural)]
pub struct AnimationState {
    pub phase_counter: usize,
    pub running: bool,
}

/// The state after one tick: an idle animation stays as it is, a running
/// one loses one step and stops when none is left.
pub open spec fn spec_tick(state: AnimationState) -> AnimationState {
    if state.phase_counter == 0 {
        state
    } else {
        AnimationState {
            phase_counter: (state.phase_counter - 1) as usize,
            running: state.phase_counter > 1,
        }
    }
}

/// The state after `count` ticks in a row.
pub open spec fn spec_ticks(state: AnimationState, count: nat) -> AnimationState
    decreases count,
{
    if count == 0 {
        state
    } else {
        spec_tick(spec_ticks(state, (count - 1) as nat))
    }
}

/// The state that every data refresh puts the animation in.
pub open spec fn spec_started() -> AnimationState {
    AnimationState { phase_counter: PHASE_START, running: true }
}

/// The resting state.
pub open spec fn spec_idle() -> AnimationState {
    AnimationState { phase_counter: 0, running: false }
}

impl AnimationState {
    /// The counter is in range and `running` says whether it is above zero.
    pub open spec fn wf(&self) -> bool {
        self.phase_counter <= PHASE_START && self.running == (self.phase_counter > 0)
    }

    /// Tests whether the state is well-formed.
    pub fn is_wf(&self) -> (ok: bool)
        ensures
            ok == self.wf(),
    {
        self.phase_counter <= PHASE_START && self.running == (self.phase_counter > 0)
    }

    /// An animation at rest.
    pub fn new() -> (state: AnimationState)
        ensures
            state == spec_idle(),
            state.wf(),
    {
        AnimationState { phase_counter: 0, running: false }
    }

    /// Starts over from full phase, whatever the state was.
    pub fn restart(&mut self)
        ensures
            *final(self) == spec_started(),
            final(self).wf(),
    {
        self.phase_counter = PHASE_START;
        self.running = true;
    }

    /// Takes one tick. Returns whether this tick moved the counter.
    pub fn tick(&mut self) -> (moved: bool)
        ensures
            *final(self) == spec_tick(*old(self)),
            moved == (old(self).phase_counter > 0),
            old(self).wf() ==> final(self).wf(),
    {
        if self.phase_counter == 0 {
            false
        } else {
            self.phase_counter = self.phase_counter - 1;
            self.running = self.phase_counter > 0;
            true
        }
    }

    /// Whether the animation is at rest.
    pub fn is_idle(&self) -> (idle: bool)
        ensures
            idle == (self.phase_counter == 0),
    {
        self.phase_counter == 0
    }
}

/// Ticking counts the phase down and never below zero: after `count` ticks
/// a well-formed state has lost `count` steps, or all it had.
pub proof fn lemma_ticks_count_down(state: AnimationState, count: nat)
    requires
        state.wf(),
    ensures
        spec_ticks(state, count).wf(),
        spec_ticks(state, count).phase_counter == if count <= state.phase_counter {
            state.phase_counter - count
        } else {
            0
        },
    decreases count,
{
    if count > 0 {
        lemma_ticks_count_down(state, (count - 1) as nat);
    }
}

/// A started animation is at rest after [`PHASE_START`] ticks and not one
/// earlier, and further ticks change nothing.
pub proof fn lemma_animation_converges(count: nat)
    ensures
        count < PHASE_START ==> spec_ticks(spec_started(), count).running,
        count >= PHASE_START ==> spec_ticks(spec_started(), count) == spec_idle(),
        count >= PHASE_START ==> spec_tick(spec_ticks(spec_started(), count)) == spec_ticks(
            spec_started(),
            count,
        ),
{
    lemma_ticks_count_down(spec_started(), count);
}

} // verus!
