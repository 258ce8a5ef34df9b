//! A verified rules engine for a small social-deduction card game for two to
//! six players: the deck and card catalog, the per-round turn state machine
//! with each card's special effect, elimination, the deck-exhaustion
//! tie-breaker, and round scoring with multi-round rotation.
//!
//! The engine consumes already-resolved player decisions as plain values and
//! never performs input or output itself; a terminal front end collects the
//! decisions and renders the state.

pub mod card;
pub mod laws;
pub mod round;
pub mod scoring;
pub mod shuffle;
pub mod state;
