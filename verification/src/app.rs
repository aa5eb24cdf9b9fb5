//! The application state machine.
//!
//! An [`App`] sequences evolution and rendering: it starts in `Initial`,
//! renders once and then runs, advancing the current generation by `step`
//! applications of the evolution rule per tick while a generation budget
//! remains, and reacting to the `Restart` and `Exit` input actions. The loop
//! that polls a terminal for events, draws, and paces frames runs outside
//! the library and calls into these verified transitions.

use crate::game::Generation;
use crate::game::GridView;
use crate::game::lemma_index_monotonic;
use crate::game::lemma_nth_after_dims;
use crate::game::spec_nth_after;
use vstd::prelude::*;

verus! {

/// The three states of the application loop.
#[derive(Copy, Clone, Eq, PartialEq, Structural, Debug)]
pub enum State {
    Initial,
    Running,
    Finished,
}

/// What an input event asks the application to do.
#[derive(Copy, Clone, Eq, PartialEq, Structural, Debug)]
pub enum Action {
    Restart,
    Exit,
    Unmapped,
}

/// The part of a key press that the action mapping reads.
#[derive(Copy, Clone, Eq, PartialEq, Structural, Debug)]
pub enum KeyCode {
    Char(char),
    Esc,
    Other,
}

/// The part of a terminal input event that the action mapping reads: a key
/// press with its Control-modifier flag, or anything else.
#[derive(Copy, Clone, Eq, PartialEq, Structural, Debug)]
pub enum InputEvent {
    Key { code: KeyCode, ctrl: bool },
    Other,
}

/// The key-to-action mapping: `r` restarts, `q`, Escape and Control-`c`
/// exit, everything else is unmapped.
pub open spec fn spec_action_for(ev: InputEvent) -> Action {
    match ev {
        InputEvent::Key { code, ctrl } => match code {
            KeyCode::Char(c) => if c == 'r' {
                Action::Restart
            } else if c == 'q' {
                Action::Exit
            } else if c == 'c' && ctrl {
                Action::Exit
            } else {
                Action::Unmapped
            },
            KeyCode::Esc => Action::Exit,
            KeyCode::Other => Action::Unmapped,
        },
        InputEvent::Other => Action::Unmapped,
    }
}

impl Action {
    /// The action an input event maps to.
    pub fn for_event(ev: &InputEvent) -> (r: Action)
        ensures
            r == spec_action_for(*ev),
    {
        match ev {
            InputEvent::Key { code, ctrl } => match code {
                KeyCode::Char(c) => {
                    if *c == 'r' {
                        Action::Restart
                    } else if *c == 'q' {
                        Action::Exit
                    } else if *c == 'c' && *ctrl {
                        Action::Exit
                    } else {
                        Action::Unmapped
                    }
                },
                KeyCode::Esc => Action::Exit,
                KeyCode::Other => Action::Unmapped,
            },
            InputEvent::Other => Action::Unmapped,
        }
    }
}

/// The mathematical value of an [`App`]: its configuration, its remaining
/// budget, its loop state and its current generation. The pseudo-random
/// generator state is opaque and not part of the value.
#[verifier::ext_equal]
pub struct AppView {
    pub start: nat,
    pub step: nat,
    pub count: nat,
    pub curr_count: nat,
    pub state: State,
    pub generation: GridView,
}

/// The application state machine, without its display: the loop around it
/// owns the display and the frame pacing.
pub struct App {
    start: usize,
    step: usize,
    count: usize,
    curr_count: usize,
    state: State,
    generation: Generation,
    distr: rand::distributions::Bernoulli,
    rng: rand::rngs::SmallRng,
}

impl View for App {
    type V = AppView;

    closed spec fn view(&self) -> AppView {
        AppView {
            start: self.start as nat,
            step: self.step as nat,
            count: self.count as nat,
            curr_count: self.curr_count as nat,
            state: self.state,
            generation: self.generation@,
        }
    }
}

impl App {
    /// A fresh application: seeds a weighted random generation of the given
    /// dimensions, advances it to the start index, and arms a budget of
    /// `count - 1` further ticks.
    pub fn new(
        start: usize,
        step: usize,
        count: usize,
        width: usize,
        height: usize,
        distr: rand::distributions::Bernoulli,
        rng: rand::rngs::SmallRng,
    ) -> (r: Self)
        requires
            1 <= count,
            0 < width <= isize::MAX,
            0 < height <= isize::MAX,
            width * height <= usize::MAX,
        ensures
            r@.start == start,
            r@.step == step,
            r@.count == count - 1,
            r@.curr_count == count - 1,
            r@.state is Initial,
            r@.generation.index == start,
            r@.generation.width == width,
            r@.generation.height == height,
    {
        let mut rng = rng;
        let seed = Generation::weighted(0, width, height, &distr, &mut rng);
        let generation = Generation::nth_after(&seed, start);
        proof {
            lemma_index_monotonic(seed@, start as nat);
            lemma_nth_after_dims(seed@, start as nat);
        }
        App {
            start,
            step,
            count: count - 1,
            curr_count: count - 1,
            state: State::Initial,
            generation,
            distr,
            rng,
        }
    }

    /// The loop state.
    pub fn state(&self) -> (r: State)
        ensures
            r == self@.state,
    {
        self.state
    }

    /// The current generation.
    pub fn generation(&self) -> (r: &Generation)
        ensures
            r@ == self@.generation,
    {
        &self.generation
    }

    /// Leaves `Initial` for `Running`, after the first render has been
    /// drawn.
    pub fn start_running(&mut self)
        requires
            old(self)@.state is Initial,
        ensures
            final(self)@ == (AppView { state: State::Running, ..old(self)@ }),
    {
        self.state = State::Running;
    }

    /// Applies one input action. `Exit` finishes the loop; `Restart` reseeds
    /// a fresh generation of the same dimensions, advances it to the start
    /// index, restores the full budget and returns to `Initial`; an unmapped
    /// action changes nothing.
    pub fn handle_input(&mut self, action: Action)
        ensures
            action is Exit ==> final(self)@ == (AppView {
                state: State::Finished,
                ..old(self)@
            }),
            action is Unmapped ==> final(self)@ == old(self)@,
            action is Restart ==> {
                &&& final(self)@.start == old(self)@.start
                &&& final(self)@.step == old(self)@.step
                &&& final(self)@.count == old(self)@.count
                &&& final(self)@.curr_count == old(self)@.count
                &&& final(self)@.state is Initial
                &&& final(self)@.generation.index == old(self)@.start
                &&& final(self)@.generation.width == old(self)@.generation.width
                &&& final(self)@.generation.height == old(self)@.generation.height
            },
    {
        match action {
            Action::Restart => {
                proof {
                    use_type_invariant(&self.generation);
                }
                let width = self.generation.width();
                let height = self.generation.height();
                let seed = Generation::weighted(0, width, height, &self.distr, &mut self.rng);
                proof {
                    lemma_index_monotonic(seed@, self.start as nat);
                    lemma_nth_after_dims(seed@, self.start as nat);
                }
                self.generation = Generation::nth_after(&seed, self.start);
                self.curr_count = self.count;
                self.state = State::Initial;
            },
            Action::Exit => {
                self.state = State::Finished;
            },
            Action::Unmapped => {},
        }
    }

    /// One tick: while budget remains, spends one unit of it and advances
    /// the current generation by `step` evolution steps; once the budget is
    /// exhausted, finishes.
    pub fn update(&mut self)
        requires
            old(self)@.curr_count > 0 ==> old(self)@.generation.index + old(self)@.step
                <= usize::MAX,
        ensures
            old(self)@.curr_count > 0 ==> final(self)@ == (AppView {
                curr_count: (old(self)@.curr_count - 1) as nat,
                generation: spec_nth_after(old(self)@.generation, old(self)@.step),
                ..old(self)@
            }),
            old(self)@.curr_count == 0 ==> final(self)@ == (AppView {
                state: State::Finished,
                ..old(self)@
            }),
    {
        if self.curr_count != 0 {
            self.curr_count = self.curr_count - 1;
            self.generation = Generation::nth_after(&self.generation, self.step);
        } else {
            self.state = State::Finished;
        }
    }
}

} // verus!
