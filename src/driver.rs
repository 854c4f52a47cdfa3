use vstd::prelude::*;

use crate::gol::{board_of_bits, is_bit_fill, GOL};
use crate::grid::MAX_SIDE;
use crate::impulse::{ir_of, seq_sum, ImpulseResponse};
use crate::life::next_gen;

verus! {

/// A control event from the user interface.
#[derive(Clone, Copy, Debug, PartialEq, Eq, Structural)]
pub enum GUIEvent {
    PlayPause,
    Reset,
}

/// Whether the simulation advances on its own.
#[derive(Clone, Copy, Debug, PartialEq, Eq, Structural)]
pub enum RunState {
    Idle,
    Running,
}

/// The state after `event` in state `state`: play/pause toggles, reset stops.
pub open spec fn state_after(state: RunState, event: GUIEvent) -> RunState {
    match event {
        GUIEvent::PlayPause => match state {
            RunState::Idle => RunState::Running,
            RunState::Running => RunState::Idle,
        },
        GUIEvent::Reset => RunState::Idle,
    }
}

/// The decisions of the background simulation: which state it is in, and
/// the engine it advances. The thread that runs it performs the waiting and
/// the hand-off of each kernel.
pub struct SimulationDriver {
    engine: GOL,
    state: RunState,
}

impl SimulationDriver {
    pub closed spec fn spec_state(&self) -> RunState {
        self.state
    }

    pub closed spec fn spec_engine(&self) -> GOL {
        self.engine
    }

    pub open spec fn wf(&self) -> bool {
        self.spec_engine().wf()
    }

    /// An idle driver whose engine has a board of side `size` filled from `seed`.
    pub fn new(size: usize, seed: u64) -> (r: SimulationDriver)
        requires
            0 < size <= MAX_SIDE,
        ensures
            r.wf(),
            r.spec_state() == RunState::Idle,
            r.spec_engine().spec_board().side() == size,
            is_bit_fill(r.spec_engine().spec_board()@, size as int),
    {
        SimulationDriver { engine: GOL::new(size, seed), state: RunState::Idle }
    }

    /// The current state.
    pub fn state(&self) -> (r: RunState)
        ensures
            r == self.spec_state(),
    {
        self.state
    }

    /// The engine.
    pub fn engine(&self) -> (r: &GOL)
        ensures
            *r == self.spec_engine(),
    {
        &self.engine
    }

    /// Applies a control event. A reset also refills the board from a
    /// generator seeded with `seed` and returns the bits it drew; play/pause
    /// leaves the board as it is and returns `None`.
    pub fn handle_event(&mut self, event: GUIEvent, seed: u64) -> (r: Option<Vec<bool>>)
        requires
            old(self).wf(),
        ensures
            final(self).wf(),
            final(self).spec_state() == state_after(old(self).spec_state(), event),
            final(self).spec_engine().spec_board().side() == old(
                self,
            ).spec_engine().spec_board().side(),
            event == GUIEvent::PlayPause ==> {
                &&& r is None
                &&& final(self).spec_engine() == old(self).spec_engine()
            },
            event == GUIEvent::Reset ==> {
                let n = old(self).spec_engine().spec_board().side();
                let b = final(self).spec_engine().spec_board()@;
                &&& r matches Some(bits) && bits@.len() == n * n && b == board_of_bits(bits@, n)
                &&& is_bit_fill(b, n)
            },
    {
        match event {
            GUIEvent::PlayPause => {
                self.state = match self.state {
                    RunState::Idle => RunState::Running,
                    RunState::Running => RunState::Idle,
                };
                None
            },
            GUIEvent::Reset => {
                self.state = RunState::Idle;
                Some(self.engine.reset(seed))
            },
        }
    }

    /// One turn of the simulation loop. While running, advances one
    /// generation and returns the new kernel's impulse response; while idle,
    /// changes nothing and returns `None`, and the caller waits for an event.
    pub fn tick(&mut self) -> (r: Option<ImpulseResponse>)
        requires
            old(self).wf(),
        ensures
            final(self).wf(),
            final(self).spec_state() == old(self).spec_state(),
            old(self).spec_state() == RunState::Idle ==> {
                &&& r is None
                &&& final(self).spec_engine() == old(self).spec_engine()
            },
            old(self).spec_state() == RunState::Running ==> {
                let b = final(self).spec_engine().spec_board();
                &&& b.side() == old(self).spec_engine().spec_board().side()
                &&& b@ == next_gen(old(self).spec_engine().spec_board()@, b.side())
                &&& r matches Some(ir) && ir.wf() && ir.spec_weights() == ir_of(b@, b.side())
                    && ir.spec_total() == seq_sum(ir_of(b@, b.side()))
            },
    {
        match self.state {
            RunState::Idle => None,
            RunState::Running => Some(self.engine.advance()),
        }
    }
}

} // verus!
