//! One tick of the render loop: the keys of the tick either end the loop or go
//! to the active prompt, and a redraw drives the prompt and trims the log.

use vstd::prelude::*;
use crate::log::{capacity, newest, Log};
use crate::user::{drew, Key, UserInput};

verus! {

#[derive(Clone, Copy, Debug, PartialEq, Eq, Structural)]
pub enum TickResult {
    /// The loop goes on.
    Continue,
    /// The exit key was pressed.
    Exit,
}

/// Whether `keys` holds the exit key.
pub open spec fn has_exit_key(keys: Seq<Key>) -> bool {
    exists|i: int| 0 <= i < keys.len() && #[trigger] keys[i] is Esc
}

/// Widths of the prompt pane (a quarter, rounded down) and of the log pane
/// (the rest) for a screen `width` columns wide.
pub fn pane_widths(width: u16) -> (r: (u16, u16))
    ensures
        r.0 == width / 4,
        r.1 == width - width / 4,
        r.0 + r.1 == width,
{
    let fourth = width / 4;
    (fourth, width - fourth)
}

pub struct UI {
    log: Log,
    input: UserInput,
}

impl UI {
    pub closed spec fn log_spec(&self) -> Log {
        self.log
    }

    pub closed spec fn input_spec(&self) -> UserInput {
        self.input
    }

    pub fn new() -> (r: Self)
        ensures
            r.log_spec()@ == Seq::<Seq<char>>::empty(),
            r.input_spec().active() is None,
            r.input_spec().signal() is None,
            r.input_spec().queued() is None,
            r.input_spec().answer() is None,
    {
        UI { input: UserInput::new(), log: Log::new() }
    }

    pub fn log(&mut self) -> (r: &mut Log)
        ensures
            *r == old(self).log_spec(),
            final(self).log_spec() == *final(r),
            final(self).input_spec() == old(self).input_spec(),
    {
        &mut self.log
    }

    pub fn input(&mut self) -> (r: &mut UserInput)
        ensures
            *r == old(self).input_spec(),
            final(self).input_spec() == *final(r),
            final(self).log_spec() == old(self).log_spec(),
    {
        &mut self.input
    }

    /// Takes the keys read in one tick, in arrival order: `Exit` if the exit
    /// key is among them, and nothing is handed on; else they are queued for
    /// the active prompt.
    pub fn tick(&mut self, events: &Vec<Key>) -> (r: TickResult)
        ensures
            (r is Exit) == has_exit_key(events@),
            r is Exit ==> *final(self) == *old(self),
            r is Continue ==> {
                &&& final(self).input_spec().queued() == Some(events@)
                &&& final(self).input_spec().active() == old(self).input_spec().active()
                &&& final(self).input_spec().signal() == old(self).input_spec().signal()
                &&& final(self).input_spec().answer() == old(self).input_spec().answer()
                &&& final(self).log_spec() == old(self).log_spec()
            },
    {
        let mut i: usize = 0;
        while i < events.len()
            invariant
                i <= events@.len(),
                forall|j: int| 0 <= j < i ==> !(#[trigger] events@[j] is Esc),
            decreases events@.len() - i,
        {
            if let Key::Esc = events[i] {
                return TickResult::Exit;
            }
            i += 1;
        }
        self.input.tick(events);
        TickResult::Continue
    }

    /// Drives the active prompt with the queued keys, as `UserInput::draw`
    /// does, then trims the log to a pane of `log_height` rows and returns the
    /// lines it shows.
    pub fn render(&mut self, log_height: u16) -> (r: Vec<String>)
        ensures
            final(self).log_spec()@ == newest(old(self).log_spec()@, capacity(log_height)),
            r@.map_values(|s: String| s@) == final(self).log_spec()@,
            drew(old(self).input_spec(), final(self).input_spec()),
    {
        self.input.draw();
        self.log.draw(log_height)
    }
}

/// Owner of the state shared by the render loop and the worker.
pub struct UIController {
    pub ui: UI,
}

} // verus!
