//! The views of the screen and the two ways of typing.
use vstd::prelude::*;

verus! {

/// Whether keys are commands or edit the input line.
#[derive(Debug, Clone, Copy, PartialEq, Eq, Structural)]
pub enum InputMode {
    Normal,
    Editing,
}

/// What the screen shows.
#[derive(Debug, Clone, Copy, PartialEq, Eq, Structural)]
pub enum Mode {
    All,
    OnlyRegister,
    OnlyStack,
    OnlyInstructions,
    OnlyOutput,
    OnlyMapping,
    OnlyHexdump,
}

/// The number of modes.
pub const MODES: usize = 7;

impl Mode {
    /// The place of the mode among the tabs, from the left.
    pub open spec fn position(self) -> int {
        match self {
            Mode::All => 0,
            Mode::OnlyRegister => 1,
            Mode::OnlyStack => 2,
            Mode::OnlyInstructions => 3,
            Mode::OnlyOutput => 4,
            Mode::OnlyMapping => 5,
            Mode::OnlyHexdump => 6,
        }
    }

    /// The mode after `n` steps to the next one.
    pub open spec fn after(self, n: nat) -> Mode
        decreases n,
    {
        if n == 0 {
            self
        } else {
            self.after((n - 1) as nat).following()
        }
    }

    /// The mode one tab to the right, and behind the last one the first.
    pub open spec fn following(self) -> Mode {
        Mode::at((self.position() + 1) % MODES as int)
    }

    /// The mode at a place among the tabs.
    pub open spec fn at(position: int) -> Mode
        recommends
            0 <= position < MODES,
    {
        if position == 0 {
            Mode::All
        } else if position == 1 {
            Mode::OnlyRegister
        } else if position == 2 {
            Mode::OnlyStack
        } else if position == 3 {
            Mode::OnlyInstructions
        } else if position == 4 {
            Mode::OnlyOutput
        } else if position == 5 {
            Mode::OnlyMapping
        } else {
            Mode::OnlyHexdump
        }
    }

    /// The mode one tab to the right, and behind the last one the first.
    pub fn next(&self) -> (r: Self)
        ensures
            r == self.following(),
            r.position() == (self.position() + 1) % MODES as int,
    {
        match self {
            Mode::All => Mode::OnlyRegister,
            Mode::OnlyRegister => Mode::OnlyStack,
            Mode::OnlyStack => Mode::OnlyInstructions,
            Mode::OnlyInstructions => Mode::OnlyOutput,
            Mode::OnlyOutput => Mode::OnlyMapping,
            Mode::OnlyMapping => Mode::OnlyHexdump,
            Mode::OnlyHexdump => Mode::All,
        }
    }

    /// The place of the mode among the tabs, from the left.
    pub fn index(&self) -> (r: usize)
        ensures
            r == self.position(),
            r < MODES,
    {
        match self {
            Mode::All => 0,
            Mode::OnlyRegister => 1,
            Mode::OnlyStack => 2,
            Mode::OnlyInstructions => 3,
            Mode::OnlyOutput => 4,
            Mode::OnlyMapping => 5,
            Mode::OnlyHexdump => 6,
        }
    }
}

/// Stepping through the modes moves one tab at a time and wraps around.
pub proof fn law_steps_wrap_around(mode: Mode, n: nat)
    ensures
        mode.after(n).position() == (mode.position() + n) % MODES as int,
    decreases n,
{
    if n > 0 {
        law_steps_wrap_around(mode, (n - 1) as nat);
        let p = mode.position() + n - 1;
        assert((p % 7 + 1) % 7 == (p + 1) % 7);
    }
}

/// From any mode, any other one is reached in fewer steps than there are modes, and as many
/// steps as there are modes lead back.
pub proof fn law_every_mode_is_reached(from: Mode, to: Mode)
    ensures
        exists|n: nat| n < MODES && #[trigger] from.after(n) == to,
        from.after(MODES as nat) == from,
{
    let n = ((to.position() - from.position() + 7) % 7) as nat;
    law_steps_wrap_around(from, n);
    law_steps_wrap_around(from, MODES as nat);
    assert(from.after(n) == to);
}

/// The tabs from left to right, and the mode that follows each.
pub proof fn law_order_of_modes()
    ensures
        Mode::All.position() == 0 && Mode::All.following() == Mode::OnlyRegister,
        Mode::OnlyRegister.position() == 1 && Mode::OnlyRegister.following() == Mode::OnlyStack,
        Mode::OnlyStack.position() == 2 && Mode::OnlyStack.following() == Mode::OnlyInstructions,
        Mode::OnlyInstructions.position() == 3 && Mode::OnlyInstructions.following()
            == Mode::OnlyOutput,
        Mode::OnlyOutput.position() == 4 && Mode::OnlyOutput.following() == Mode::OnlyMapping,
        Mode::OnlyMapping.position() == 5 && Mode::OnlyMapping.following() == Mode::OnlyHexdump,
        Mode::OnlyHexdump.position() == 6 && Mode::OnlyHexdump.following() == Mode::All,
{
}

} // verus!
