//! The decisions of the desktop program: what a window event does to the running machine,
//! and what one display frame runs.
use vstd::prelude::*;
use crate::chip8::Chip8;
use crate::frontend::{key_button, key_to_btn, HostKey};
use crate::state::{can_step, key_press_effect, step, timers_tick, MachineState};

verus! {

/// Machine cycles per display frame.
pub const TICKS_PER_FRAME: usize = 10;

/// A window event, as far as the program cares.
#[derive(Clone, Copy, Debug, PartialEq, Eq, Structural)]
pub enum HostEvent {
    /// The window was closed.
    Quit,
    KeyDown(HostKey),
    KeyUp(HostKey),
    /// Anything else.
    Other,
}

/// What a frame did.
#[derive(Clone, Copy, Debug, PartialEq, Eq, Structural)]
pub enum FrameOutcome {
    /// The machine is paused: nothing ran and nothing is to be drawn.
    Paused,
    /// All cycles of the frame and a timer tick ran; the screen is to be drawn.
    Ran,
    /// The next cycle would fault; the cycles before it ran.
    Fault,
}

/// The machine after the cycles whose random bytes are `randoms`, in order.
pub open spec fn run_steps(s: MachineState, randoms: Seq<u8>) -> MachineState
    decreases randoms.len(),
{
    if randoms.len() == 0 {
        s
    } else {
        step(run_steps(s, randoms.drop_last()), randoms.last())
    }
}

/// Whether each of those cycles runs without fault.
pub open spec fn steps_ok(s: MachineState, randoms: Seq<u8>) -> bool
    decreases randoms.len(),
{
    if randoms.len() == 0 {
        true
    } else {
        steps_ok(s, randoms.drop_last()) && can_step(run_steps(s, randoms.drop_last()))
    }
}

/// Whether every byte is one that the generator can draw.
pub open spec fn drawable(randoms: Seq<u8>) -> bool {
    forall|i: int| 0 <= i < randoms.len() ==> #[trigger] randoms[i] < 255
}

/// A running program: the machine, whether it is paused, and the saved state.
pub struct Session {
    pub emulator: Chip8,
    pub paused: bool,
    pub save_state: Option<Chip8>,
}

impl Session {
    /// A running, unpaused session with nothing saved.
    pub fn new(emulator: Chip8) -> (session: Session)
        ensures
            session.emulator@ == emulator@,
            !session.paused,
            session.save_state is None,
    {
        Session { emulator, paused: false, save_state: None }
    }

    /// Handles a window event; returns whether the program keeps running.
    /// A key down presses its CHIP-8 button; Space toggles the pause; F5 saves the machine;
    /// F8 restores the saved machine, if any. A key up releases its button.
    pub fn handle_event(&mut self, event: HostEvent) -> (keep_running: bool)
        ensures
            keep_running == !(event is Quit),
            match event {
                HostEvent::KeyDown(key) => {
                    &&& final(self).paused == (old(self).paused != (key == HostKey::Space))
                    &&& key == HostKey::F5 ==> (final(self).save_state matches Some(st) && st@
                        == old(self).emulator@)
                    &&& key != HostKey::F5 ==> final(self).save_state == old(self).save_state
                    &&& final(self).emulator@ == if key == HostKey::F8 && old(self).save_state is Some {
                        old(self).save_state->0@
                    } else if key_button(key) is Some {
                        key_press_effect(old(self).emulator@, key_button(key)->0 as int, true)
                    } else {
                        old(self).emulator@
                    }
                },
                HostEvent::KeyUp(key) => {
                    &&& final(self).paused == old(self).paused
                    &&& final(self).save_state == old(self).save_state
                    &&& final(self).emulator@ == if key_button(key) is Some {
                        key_press_effect(old(self).emulator@, key_button(key)->0 as int, false)
                    } else {
                        old(self).emulator@
                    }
                },
                _ => {
                    &&& final(self).paused == old(self).paused
                    &&& final(self).save_state == old(self).save_state
                    &&& final(self).emulator@ == old(self).emulator@
                },
            },
    {
        match event {
            HostEvent::Quit => false,
            HostEvent::KeyDown(key) => {
                if let Some(btn) = key_to_btn(key) {
                    self.emulator.key_press(btn, true);
                }
                if key == HostKey::Space {
                    self.paused = !self.paused;
                }
                if key == HostKey::F5 {
                    self.save_state = Some(self.emulator.get_current_state());
                }
                if key == HostKey::F8 {
                    if let Some(state) = &self.save_state {
                        self.emulator.load_emulator_state(state);
                    }
                }
                true
            },
            HostEvent::KeyUp(key) => {
                if let Some(btn) = key_to_btn(key) {
                    self.emulator.key_press(btn, false);
                }
                true
            },
            HostEvent::Other => true,
        }
    }

    /// One display frame: unless paused, `TICKS_PER_FRAME` machine cycles and one timer
    /// tick. Stops before a cycle that would fault.
    pub fn run_frame(&mut self) -> (outcome: FrameOutcome)
        ensures
            final(self).paused == old(self).paused,
            final(self).save_state == old(self).save_state,
            old(self).paused ==> outcome == FrameOutcome::Paused && final(self).emulator@ == old(
                self,
            ).emulator@,
            !old(self).paused ==> outcome != FrameOutcome::Paused,
            outcome == FrameOutcome::Ran ==> exists|randoms: Seq<u8>|
                {
                    &&& randoms.len() == TICKS_PER_FRAME
                    &&& drawable(randoms)
                    &&& #[trigger] steps_ok(old(self).emulator@, randoms)
                    &&& final(self).emulator@ == timers_tick(run_steps(old(self).emulator@, randoms))
                },
            outcome == FrameOutcome::Fault ==> exists|randoms: Seq<u8>|
                {
                    &&& randoms.len() < TICKS_PER_FRAME
                    &&& drawable(randoms)
                    &&& #[trigger] steps_ok(old(self).emulator@, randoms)
                    &&& final(self).emulator@ == run_steps(old(self).emulator@, randoms)
                    &&& !can_step(final(self).emulator@)
                },
    {
        if self.paused {
            return FrameOutcome::Paused;
        }
        let ghost s0 = self.emulator@;
        let ghost mut randoms: Seq<u8> = seq![];
        let mut tick: usize = 0;
        while tick < TICKS_PER_FRAME
            invariant
                tick <= TICKS_PER_FRAME,
                randoms.len() == tick,
                drawable(randoms),
                steps_ok(s0, randoms),
                self.emulator@ == run_steps(s0, randoms),
                s0 == old(self).emulator@,
                self.paused == old(self).paused,
                !self.paused,
                self.save_state == old(self).save_state,
            decreases TICKS_PER_FRAME - tick,
        {
            if !self.emulator.can_cycle() {
                assert(steps_ok(s0, randoms));
                return FrameOutcome::Fault;
            }
            let ghost before = self.emulator@;
            self.emulator.cycle();
            proof {
                let r = choose|r: u8| r < 255 && self.emulator@ == #[trigger] step(before, r);
                let next = randoms.push(r);
                assert(next.drop_last() =~= randoms);
                assert(steps_ok(s0, next));
                randoms = next;
            }
            tick = tick + 1;
        }
        self.emulator.cycle_timers();
        assert(steps_ok(s0, randoms));
        FrameOutcome::Ran
    }
}

} // verus!
