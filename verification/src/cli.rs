//! The command-line surface as plain values: one subcommand per direction,
//! each carrying the navigation flags.  Parsing the actual process arguments
//! into these types is left to the surrounding binary.

use vstd::prelude::*;

use crate::types::Direction;

verus! {

/// The navigation flags of one invocation.
#[derive(Clone, Copy, Debug)]
pub struct NavArgs {
    /// Swap/move the window instead of moving focus.
    pub swap: bool,
    /// Prefer adjacent-monitor crossing over adjacent-workspace crossing at edge.
    pub monitor: bool,
    /// Use position-based (or column-aware) edge detection instead of pixel-based.
    pub position: bool,
    /// Suppress wrap-around workspace crossing.
    pub no_wrap: bool,
    /// Pixel tolerance for pixel-mode edge detection; absent means 0.
    pub bordersize: Option<i32>,
}

/// Navigate right: focus the next window, or cross to the next workspace or
/// monitor when already at the edge.
#[derive(Clone, Copy, Debug)]
pub struct CommandRight {
    /// Swap/move the window instead of moving focus.
    pub swap: bool,
    /// Prefer adjacent-monitor crossing at edge.
    pub monitor: bool,
    /// Use position-based edge detection.
    pub position: bool,
    /// Suppress wrap-around workspace crossing.
    pub no_wrap: bool,
    /// Pixel tolerance for boundary detection.
    pub bordersize: Option<i32>,
}

/// Navigate left: focus the previous window, or cross to the previous
/// workspace or monitor when already at the edge.
#[derive(Clone, Copy, Debug)]
pub struct CommandLeft {
    /// Swap/move the window instead of moving focus.
    pub swap: bool,
    /// Prefer adjacent-monitor crossing at edge.
    pub monitor: bool,
    /// Use position-based edge detection.
    pub position: bool,
    /// Suppress wrap-around workspace crossing.
    pub no_wrap: bool,
    /// Pixel tolerance for boundary detection.
    pub bordersize: Option<i32>,
}

/// Navigate up.
#[derive(Clone, Copy, Debug)]
pub struct CommandUp {
    /// Swap/move the window instead of moving focus.
    pub swap: bool,
    /// Prefer adjacent-monitor crossing at edge.
    pub monitor: bool,
    /// Use position-based edge detection.
    pub position: bool,
    /// Suppress wrap-around workspace crossing.
    pub no_wrap: bool,
    /// Pixel tolerance for boundary detection.
    pub bordersize: Option<i32>,
}

/// Navigate down.
#[derive(Clone, Copy, Debug)]
pub struct CommandDown {
    /// Swap/move the window instead of moving focus.
    pub swap: bool,
    /// Prefer adjacent-monitor crossing at edge.
    pub monitor: bool,
    /// Use position-based edge detection.
    pub position: bool,
    /// Suppress wrap-around workspace crossing.
    pub no_wrap: bool,
    /// Pixel tolerance for boundary detection.
    pub bordersize: Option<i32>,
}

/// The parsed subcommand: which direction to navigate, with its flags.
#[derive(Clone, Copy, Debug)]
pub enum Command {
    Right(CommandRight),
    Left(CommandLeft),
    Up(CommandUp),
    Down(CommandDown),
}

/// The whole parsed command line.
#[derive(Clone, Copy, Debug)]
pub struct Flags {
    /// The direction subcommand.
    pub cmd: Command,
}

impl Command {
    /// The navigation flags of this subcommand.
    pub open spec fn spec_args(self) -> NavArgs {
        match self {
            Command::Right(p) => NavArgs {
                swap: p.swap,
                monitor: p.monitor,
                position: p.position,
                no_wrap: p.no_wrap,
                bordersize: p.bordersize,
            },
            Command::Left(p) => NavArgs {
                swap: p.swap,
                monitor: p.monitor,
                position: p.position,
                no_wrap: p.no_wrap,
                bordersize: p.bordersize,
            },
            Command::Up(p) => NavArgs {
                swap: p.swap,
                monitor: p.monitor,
                position: p.position,
                no_wrap: p.no_wrap,
                bordersize: p.bordersize,
            },
            Command::Down(p) => NavArgs {
                swap: p.swap,
                monitor: p.monitor,
                position: p.position,
                no_wrap: p.no_wrap,
                bordersize: p.bordersize,
            },
        }
    }

    /// The navigation flags of this subcommand.
    pub fn args(&self) -> (r: NavArgs)
        ensures
            r == self.spec_args(),
    {
        match self {
            Command::Right(p) => NavArgs {
                swap: p.swap,
                monitor: p.monitor,
                position: p.position,
                no_wrap: p.no_wrap,
                bordersize: p.bordersize,
            },
            Command::Left(p) => NavArgs {
                swap: p.swap,
                monitor: p.monitor,
                position: p.position,
                no_wrap: p.no_wrap,
                bordersize: p.bordersize,
            },
            Command::Up(p) => NavArgs {
                swap: p.swap,
                monitor: p.monitor,
                position: p.position,
                no_wrap: p.no_wrap,
                bordersize: p.bordersize,
            },
            Command::Down(p) => NavArgs {
                swap: p.swap,
                monitor: p.monitor,
                position: p.position,
                no_wrap: p.no_wrap,
                bordersize: p.bordersize,
            },
        }
    }

    /// The direction this subcommand navigates in.
    pub open spec fn spec_direction(self) -> Direction {
        match self {
            Command::Right(_) => Direction::Right,
            Command::Left(_) => Direction::Left,
            Command::Up(_) => Direction::Up,
            Command::Down(_) => Direction::Down,
        }
    }

    /// The direction this subcommand navigates in.
    pub fn direction(&self) -> (r: Direction)
        ensures
            r == self.spec_direction(),
    {
        match self {
            Command::Right(_) => Direction::Right,
            Command::Left(_) => Direction::Left,
            Command::Up(_) => Direction::Up,
            Command::Down(_) => Direction::Down,
        }
    }

    /// Whether this subcommand walks workspaces forward (right or down).
    pub open spec fn spec_is_forward(self) -> bool {
        self.spec_direction().spec_is_forward()
    }

    /// Whether this subcommand walks workspaces forward (right or down).
    pub fn is_forward(&self) -> (r: bool)
        ensures
            r == self.spec_is_forward(),
    {
        match self {
            Command::Right(_) | Command::Down(_) => true,
            Command::Left(_) | Command::Up(_) => false,
        }
    }
}

} // verus!
