use vstd::prelude::*;
use crate::animation::{spec_started, spec_tick, AnimationState};
use crate::focus::{spec_select, FocusState};
use crate::scene::{depicts, render_scene, spec_cube_count, spec_scene_cells, CubeRecord, DatasetSnapshot};

verus! {

/// Seconds between two requests for fresh data.
pub const REFRESH_PERIOD_SECS: u64 = 5;

/// Nanoseconds between two ticks while the animation runs.
pub const TICK_PERIOD_NANOS: u32 = 32000;

/// Everything the scene depends on. It changes only in [`State::update`].
#[derive(Debug)]
pub struct State {
    pub animation: AnimationState,
    pub focus: FocusState,
    pub snapshot: DatasetSnapshot,
    /// A request for fresh data is under way.
    pub fetching: bool,
}

/// What can happen to a [`State`].
#[derive(Debug)]
pub enum Msg {
    /// The tick timer fired.
    Tick,
    /// The refresh timer fired.
    Update,
    /// Fresh data has arrived.
    HandleUpdateResp(DatasetSnapshot),
    /// The user picked the entry of this name.
    Click(String),
}

/// What the caller has to do after a message was handled.
#[derive(Clone, Copy, Debug, PartialEq, Eq, Structural)]
pub struct Effects {
    /// Draw the scene anew.
    pub redraw: bool,
    /// Send a request for fresh data.
    pub fetch: bool,
    /// Start the tick timer, replacing one that runs.
    pub start_ticks: bool,
    /// Stop the tick timer.
    pub stop_ticks: bool,
}

/// Nothing to do.
pub open spec fn spec_no_effects() -> Effects {
    Effects { redraw: false, fetch: false, start_ticks: false, stop_ticks: false }
}

/// What handling `msg` asks of the caller, given the animation as it was
/// before. A tick redraws while the animation runs and stops the timer
/// when it takes the last step; a tick at rest asks for nothing. The
/// refresh timer asks for a request and no drawing. Fresh data and a click
/// redraw, and fresh data starts the tick timer.
pub open spec fn spec_effects(before: AnimationState, msg: Msg) -> Effects {
    match msg {
        Msg::Tick => Effects {
            redraw: before.phase_counter > 0,
            fetch: false,
            start_ticks: false,
            stop_ticks: before.phase_counter == 1,
        },
        Msg::Update => Effects { redraw: false, fetch: true, start_ticks: false, stop_ticks: false },
        Msg::HandleUpdateResp(_) => Effects {
            redraw: true,
            fetch: false,
            start_ticks: true,
            stop_ticks: false,
        },
        Msg::Click(_) => Effects { redraw: true, fetch: false, start_ticks: false, stop_ticks: false },
    }
}

/// Whether a response with this HTTP status code carries data to show.
pub open spec fn spec_status_ok(status: u16) -> bool {
    200 <= status < 300
}

/// Calls `hyper::StatusCode::from_u16` and, on a valid code,
/// `StatusCode::is_success`. The first rejects codes below 100 and from
/// 1000 up, the second holds for 200 to 299, so the answer is `true`
/// exactly for those.
#[verifier::external_body]
fn status_is_success(status: u16) -> (ok: bool)
    ensures
        ok == spec_status_ok(status),
{
    match hyper::StatusCode::from_u16(status) {
        Ok(code) => code.is_success(),
        Err(_) => false,
    }
}

impl Msg {
    /// Turns a response to a request for data into the message that
    /// delivers it, if the status code reports success.
    pub fn from_response(status: u16, snapshot: DatasetSnapshot) -> (msg: Option<Msg>)
        ensures
            spec_status_ok(status) ==> msg == Some(Msg::HandleUpdateResp(snapshot)),
            !spec_status_ok(status) ==> msg is None,
    {
        if status_is_success(status) {
            Some(Msg::HandleUpdateResp(snapshot))
        } else {
            None
        }
    }

    /// A snapshot that the message delivers is well-formed.
    pub open spec fn wf(&self) -> bool {
        match self {
            Msg::HandleUpdateResp(snapshot) => snapshot.wf(),
            _ => true,
        }
    }
}

impl State {
    /// The animation and the snapshot are well-formed.
    pub open spec fn wf(&self) -> bool {
        self.animation.wf() && self.snapshot.wf()
    }

    /// Tests whether the state is well-formed, as [`State::view`] needs it.
    pub fn is_wf(&self) -> (ok: bool)
        ensures
            ok == self.wf(),
    {
        self.animation.is_wf() && self.snapshot.is_wf()
    }

    /// The state at startup: no data, no focus, the animation at rest, and
    /// the first request for data on its way.
    pub fn create() -> (created: (State, Effects))
        ensures
            created.0.wf(),
            created.0.animation == crate::animation::spec_idle(),
            created.0.focus@ is None,
            created.0.snapshot.entries@.len() == 0,
            created.0.fetching,
            created.1 == (Effects { fetch: true, ..spec_no_effects() }),
    {
        let state = State {
            animation: AnimationState::new(),
            focus: FocusState::new(),
            snapshot: DatasetSnapshot::new(),
            fetching: true,
        };
        (state, Effects { redraw: false, fetch: true, start_ticks: false, stop_ticks: false })
    }

    /// Handles one message and says what the caller has to do.
    ///
    /// A tick takes one step of the animation, if it runs. The refresh
    /// timer marks a request as under way. Fresh data replaces the snapshot
    /// whole, ends the request, and starts the animation over. A click
    /// moves or clears the focus. Nothing else changes.
    pub fn update(&mut self, msg: Msg) -> (effects: Effects)
        ensures
            effects == spec_effects(old(self).animation, msg),
            final(self).animation == match msg {
                Msg::Tick => spec_tick(old(self).animation),
                Msg::HandleUpdateResp(_) => spec_started(),
                _ => old(self).animation,
            },
            final(self).focus@ == match msg {
                Msg::Click(name) => spec_select(old(self).focus@, name@),
                _ => old(self).focus@,
            },
            final(self).snapshot == match msg {
                Msg::HandleUpdateResp(snapshot) => snapshot,
                _ => old(self).snapshot,
            },
            final(self).fetching == match msg {
                Msg::Update => true,
                Msg::HandleUpdateResp(_) => false,
                _ => old(self).fetching,
            },
            old(self).wf() && msg.wf() ==> final(self).wf(),
    {
        match msg {
            Msg::Tick => {
                let moved = self.animation.tick();
                Effects {
                    redraw: moved,
                    fetch: false,
                    start_ticks: false,
                    stop_ticks: moved && self.animation.is_idle(),
                }
            },
            Msg::Update => {
                self.fetching = true;
                Effects { redraw: false, fetch: true, start_ticks: false, stop_ticks: false }
            },
            Msg::HandleUpdateResp(snapshot) => {
                self.fetching = false;
                self.snapshot = snapshot;
                self.animation.restart();
                Effects { redraw: true, fetch: false, start_ticks: true, stop_ticks: false }
            },
            Msg::Click(name) => {
                self.focus.select(name);
                Effects { redraw: true, fetch: false, start_ticks: false, stop_ticks: false }
            },
        }
    }

    /// Lists what to draw, in paint order: see [`render_scene`].
    pub fn view(&self) -> (records: Vec<CubeRecord>)
        requires
            self.wf(),
        ensures
            records@.len() == spec_cube_count(self.snapshot.entries@.len(), spec_scene_cells().len()),
            records@.len() == vstd::math::min(
                self.snapshot.entries@.len() as int,
                crate::scene::MAX_CUBES as int,
            ),
            forall|k: int|
                0 <= k < records@.len() ==> depicts(
                    #[trigger] records@[k],
                    self.snapshot.entries@,
                    self.focus@,
                    records@.len() - 1 - k,
                ),
    {
        render_scene(&self.snapshot, &self.focus)
    }
}

} // verus!
