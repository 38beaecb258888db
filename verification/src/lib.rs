//! Core of a full-screen terminal calendar application: a double-buffered
//! character-grid screen, an edge-triggered input cache, a radial wipe
//! transition, and a polymorphic state machine with a transition decorator.
//!
//! Terminal I/O itself (raw mode, cursor control, event polling) is left to
//! the embedding program; this crate works on plain values and produces the
//! per-frame draw commands that the embedder flushes to the terminal.
#![allow(unused_imports)]
#![verifier::loop_isolation(false)]

pub mod days;
pub mod drawing;
pub mod input;
pub mod screen;
pub mod state_machine;
pub mod transition;
pub mod transition_state;
