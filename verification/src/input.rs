//! The input/command state machine.
//!
//! Raw key codes are decoded into logical commands through an explicit
//! table, and the two timeout commands move the playback timeout by ten
//! milliseconds, clamped to [10, 1000]. The timeout is the single knob of
//! the animation: it bounds the blocking key read and so sets the frame
//! duration.

use vstd::prelude::*;
use crate::window::ArrowKeys;

verus! {

/// The logical commands a key press decodes to. `Up` and `Down` are
/// reserved and currently have no effect; everything unrecognized —
/// including a timed-out read — is `Continue`.
#[derive(Debug, Clone, Copy, PartialEq, Eq, Structural)]
pub enum InputType {
    Quit,
    Continue,
    IncreaseTimeout,
    DecreaseTimeout,
    Up,
    Down,
}

/// The smallest and largest playback timeouts, in milliseconds.
pub open spec fn timeout_in_range(t: int) -> bool {
    10 <= t <= 1000
}

/// Clamps an arbitrary requested timeout into [10, 1000].
pub open spec fn clamp_timeout_spec(t: int) -> int {
    if t < 10 {
        10
    } else if t > 1000 {
        1000
    } else {
        t
    }
}

/// The shared playback state: the timeout and the (currently unused)
/// drawing character.
pub struct State {
    pub timeout: i32,
    pub draw_char: char,
}

impl State {
    /// A fresh state; a requested timeout outside [10, 1000] is clamped.
    pub fn new(timeout: i32, draw_char: char) -> (s: State)
        ensures
            s.timeout as int == clamp_timeout_spec(timeout as int),
            s.draw_char == draw_char,
            timeout_in_range(s.timeout as int),
    {
        let t: i32 = if timeout < 10 {
            10
        } else if timeout > 1000 {
            1000
        } else {
            timeout
        };
        State { timeout: t, draw_char }
    }

    pub fn get_timeout(&self) -> (t: i32)
        ensures
            t == self.timeout,
    {
        self.timeout
    }

    pub fn get_draw_char(&self) -> (c: char)
        ensures
            c == self.draw_char,
    {
        self.draw_char
    }

    /// Sets the timeout; a request outside [10, 1000] is clamped.
    pub fn set_timeout(&mut self, timeout: i32)
        ensures
            final(self).timeout as int == clamp_timeout_spec(timeout as int),
            final(self).draw_char == old(self).draw_char,
            timeout_in_range(final(self).timeout as int),
    {
        self.timeout = if timeout < 10 {
            10
        } else if timeout > 1000 {
            1000
        } else {
            timeout
        };
    }

    pub fn set_draw_char(&mut self, draw_char: char)
        ensures
            final(self).draw_char == draw_char,
            final(self).timeout == old(self).timeout,
    {
        self.draw_char = draw_char;
    }
}

/// The decoding table from a raw key code to a logical command: the arrow
/// codes and 'j'/'k' move, 'q' quits, 'a' and 's' adjust the timeout, and
/// every other code — a timed-out read included — continues.
pub open spec fn classify_spec(code: i32) -> InputType {
    if code == ArrowKeys::Down.code_spec() || code == 'j' as i32 {
        InputType::Down
    } else if code == ArrowKeys::Up.code_spec() || code == 'k' as i32 {
        InputType::Up
    } else if code == 'q' as i32 {
        InputType::Quit
    } else if code == 'a' as i32 {
        InputType::IncreaseTimeout
    } else if code == 's' as i32 {
        InputType::DecreaseTimeout
    } else {
        InputType::Continue
    }
}

/// Decodes one raw key code into its command.
pub fn classify(code: i32) -> (cmd: InputType)
    ensures
        cmd == classify_spec(code),
{
    if code == ArrowKeys::Down.code() || code == 'j' as i32 {
        InputType::Down
    } else if code == ArrowKeys::Up.code() || code == 'k' as i32 {
        InputType::Up
    } else if code == 'q' as i32 {
        InputType::Quit
    } else if code == 'a' as i32 {
        InputType::IncreaseTimeout
    } else if code == 's' as i32 {
        InputType::DecreaseTimeout
    } else {
        InputType::Continue
    }
}

/// What one command does to the timeout: the two timeout commands move it
/// by ten milliseconds, clamped to [10, 1000]; no other command touches it.
pub open spec fn apply_command_spec(t: int, cmd: InputType) -> int {
    match cmd {
        InputType::IncreaseTimeout => if t + 10 > 1000 {
            1000
        } else {
            t + 10
        },
        InputType::DecreaseTimeout => if t - 10 < 10 {
            10
        } else {
            t - 10
        },
        _ => t,
    }
}

/// A whole command sequence applied to a timeout, front to back.
pub open spec fn apply_commands_spec(t: int, cmds: Seq<InputType>) -> int
    decreases cmds.len(),
{
    if cmds.len() == 0 {
        t
    } else {
        apply_commands_spec(apply_command_spec(t, cmds[0]), cmds.skip(1))
    }
}

/// Law: starting inside [10, 1000], the playback timeout stays inside
/// [10, 1000] under any finite sequence of commands.
pub proof fn lemma_timeout_stays_in_range(t: int, cmds: Seq<InputType>)
    requires
        timeout_in_range(t),
    ensures
        timeout_in_range(apply_commands_spec(t, cmds)),
    decreases cmds.len(),
{
    if cmds.len() > 0 {
        lemma_timeout_stays_in_range(apply_command_spec(t, cmds[0]), cmds.skip(1));
    }
}

/// The per-frame input decoder; it remembers the last command it handed
/// out.
pub struct InputHandler {
    pub input: InputType,
}

impl InputHandler {
    pub fn new() -> (h: InputHandler)
        ensures
            h.input == InputType::Continue,
    {
        InputHandler { input: InputType::Continue }
    }

    /// Decodes one raw key code, applies its effect to the shared state,
    /// remembers it, and hands it back for the caller's own decision.
    pub fn handle_input(&mut self, state: &mut State, code: i32) -> (cmd: InputType)
        requires
            timeout_in_range(old(state).timeout as int),
        ensures
            cmd == classify_spec(code),
            final(self).input == cmd,
            final(state).timeout as int == apply_command_spec(old(state).timeout as int, cmd),
            final(state).draw_char == old(state).draw_char,
            timeout_in_range(final(state).timeout as int),
    {
        let cmd = classify(code);
        self.input = cmd;
        match cmd {
            InputType::IncreaseTimeout => {
                let t = state.get_timeout();
                state.set_timeout(if t + 10 > 1000 {
                    1000
                } else {
                    t + 10
                });
            },
            InputType::DecreaseTimeout => {
                let t = state.get_timeout();
                state.set_timeout(if t - 10 < 10 {
                    10
                } else {
                    t - 10
                });
            },
            _ => {},
        }
        cmd
    }
}

} // verus!
