//! Supervision of an external backend process behind a desktop shell.
//!
//! Three pieces compose here: a command resolver that orders launcher
//! candidates per host platform, a single-shot supervision state machine
//! (first successful spawn wins, exhaustion of every candidate is non-fatal),
//! and a window-lifecycle bridge that enforces hide-not-quit on close
//! requests and triggers supervision exactly once at setup.
//!
//! The surrounding shell performs the effects (sleeping, spawning, waiting,
//! logging, hiding the window); every decision about *what* to do next is
//! made by verified functions in this crate.

pub mod lifecycle;
pub mod resolver;
pub mod supervisor;
