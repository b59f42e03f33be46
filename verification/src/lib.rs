//! Decision logic for directional keyboard navigation in a tiling
//! window-compositor session.
//!
//! The library works on plain snapshots of the compositor's state: windows,
//! monitors, and two capability flags.  It decides whether the focused window
//! sits at a layout edge in a requested direction and which control command
//! (focus, swap, workspace or monitor crossing) should be issued.  Talking to
//! the compositor itself — fetching the snapshot and issuing the chosen
//! command — is left to the surrounding binary.

pub mod cli;
pub mod edge;
pub mod handlers;
pub mod plugin;
pub mod types;
pub mod workspace;
