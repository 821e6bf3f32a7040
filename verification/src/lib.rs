//! An animated ASCII diorama for the terminal: a static background scene is
//! overlaid with a rising, decaying steam automaton, composited into a
//! character buffer and drawn each frame while keystrokes adjust the playback
//! timeout or quit.
//!
//! The crate holds the grid and automaton model, the frame compositor, the
//! window surface model, and the input/command state machine. The thin shell
//! around it (terminal setup, the scene file, the frame loop) lives outside.

pub mod cellular;
pub mod compositor;
pub mod input;
pub mod window;
