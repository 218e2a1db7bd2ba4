//! What a display of the engine decides: the colour of each cell state, when
//! to show the frame rate, and what a key does. Drawing, timing and reading
//! input are the caller's.
use vstd::prelude::*;

use colorous::INFERNO;
use std::collections::HashMap;

use crate::engine::{Engine, Rules};
use crate::CellStateType;

verus! {

broadcast use vstd::std_specs::hash::group_hash_axioms;

/// The colour, as (red, green, blue), that the inferno gradient gives at
/// step `i` of `n`.
pub uninterp spec fn inferno_color(i: nat, n: nat) -> (u8, u8, u8);

/// Relies on colorous's `Gradient::eval_rational` on `INFERNO`: the colour at
/// step `i` of `n`, where `i` counts as at most `n - 1`; it panics when `n`
/// is 0.
#[verifier::external_body]
fn inferno_rational(i: usize, n: usize) -> (r: (u8, u8, u8))
    requires
        n > 0,
    ensures
        r == inferno_color(
            if i < n {
                i as nat
            } else {
                (n - 1) as nat
            },
            n as nat,
        ),
{
    INFERNO.eval_rational(i, n).as_tuple()
}

/// The colour of a cell state: 0 at the dark end of the gradient, every
/// other state at the bright end.
pub open spec fn shade(value: CellStateType) -> (u8, u8, u8) {
    inferno_color(
        if value < 2 {
            value as nat
        } else {
            1
        },
        2,
    )
}

/// Colours of cell states, each computed once and then remembered.
pub struct ColorMap {
    map: HashMap<CellStateType, (u8, u8, u8)>,
}

impl ColorMap {
    /// Every remembered colour is the colour of its state.
    pub closed spec fn wf(&self) -> bool {
        forall|k: CellStateType| #[trigger] self.map@.contains_key(k) ==> self.map@[k] == shade(k)
    }

    pub fn new() -> (r: Self)
        ensures
            r.wf(),
    {
        ColorMap { map: HashMap::new() }
    }

    /// The colour of `value`.
    pub fn to_color(&mut self, value: CellStateType) -> (r: (u8, u8, u8))
        requires
            old(self).wf(),
        ensures
            final(self).wf(),
            r == shade(value),
    {
        match self.map.get(&value) {
            Some(c) => *c,
            None => {
                let c = inferno_rational(value as usize, 2);
                self.map.insert(value, c);
                c
            },
        }
    }
}

/// What a frame-rate counter asks of its caller after a frame.
#[derive(Debug, PartialEq, Eq, Structural)]
pub enum FpsAction {
    /// Start the clock.
    StartClock,
    /// Show this many frames per second and restart the clock.
    Show(u32),
    /// Nothing to do.
    Wait,
}

/// Counts frames between clock restarts.
#[derive(Debug)]
pub struct FPSCounter {
    pub frame_count: u32,
}

impl FPSCounter {
    pub fn new() -> (r: Self)
        ensures
            r.frame_count == 0,
    {
        FPSCounter { frame_count: 0 }
    }

    /// Counts one frame. `elapsed` is `None` while the clock has not been
    /// started, and otherwise whether more than a second has passed since it
    /// last was. The count stops at `u32::MAX`.
    pub fn call(&mut self, elapsed: Option<bool>) -> (r: FpsAction)
        ensures
            ({
                let counted = if old(self).frame_count < u32::MAX {
                    old(self).frame_count + 1
                } else {
                    old(self).frame_count as int
                };
                match elapsed {
                    None => r == FpsAction::StartClock && final(self).frame_count == counted,
                    Some(true) => r == FpsAction::Show(counted as u32) && final(self).frame_count
                        == 0,
                    Some(false) => r == FpsAction::Wait && final(self).frame_count == counted,
                }
            }),
    {
        self.frame_count = self.frame_count.saturating_add(1);
        match elapsed {
            Some(true) => {
                let shown = self.frame_count;
                self.frame_count = 0;
                FpsAction::Show(shown)
            },
            Some(false) => FpsAction::Wait,
            None => FpsAction::StartClock,
        }
    }
}

/// An input that the display reacts to.
#[derive(Debug, PartialEq, Eq, Structural)]
pub enum Input {
    /// The window was closed, or Q pressed.
    Quit,
    /// Space: pause or resume.
    TogglePause,
    /// F: show or hide the frame rate.
    ToggleFps,
    /// Anything else.
    Other,
}

/// Applies `input` to the engine and the frame-rate counter; true when the
/// display should close.
pub fn handle_input<R: Rules>(
    engine: &mut Engine<R>,
    fps: &mut Option<FPSCounter>,
    input: Input,
) -> (quit: bool)
    requires
        old(engine).wf(),
    ensures
        final(engine).wf(),
        quit == (input == Input::Quit),
        final(engine).current() == old(engine).current(),
        final(engine).rule() == old(engine).rule(),
        final(engine).mode() == old(engine).mode(),
        final(engine).shape() == old(engine).shape(),
        final(engine).is_paused() == (old(engine).is_paused() != (input == Input::TogglePause)),
        input == Input::ToggleFps ==> (final(fps).is_some() == old(fps).is_none()) && (
        *final(fps) matches Some(f) ==> f.frame_count == 0),
        input != Input::ToggleFps ==> *final(fps) == *old(fps),
{
    match input {
        Input::Quit => true,
        Input::TogglePause => {
            let paused = engine.paused();
            engine.set_paused(!paused);
            false
        },
        Input::ToggleFps => {
            if fps.is_some() {
                *fps = None;
            } else {
                *fps = Some(FPSCounter::new());
            }
            false
        },
        Input::Other => false,
    }
}

} // verus!
