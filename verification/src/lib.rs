//! A verified remap-rule compiler and per-layer state-machine runtime for
//! keyboard events.
//!
//! A declarative rule set (blueprints) is compiled into a `Layer`: an
//! immutable finite-state machine with a single-key transition table and a
//! chord (two-key) transition table. Layers compose into a `Pipeline`: the
//! output stream of one layer is the input stream of the next. A per-layer
//! chord detector buffers the candidate first key of a two-key chord and
//! resolves it against a timing threshold, flushing it as an ordinary key
//! when no partner arrives in time.

pub mod keys;
pub mod laws;
pub mod layer;
pub mod pipeline;
pub mod rules;
pub mod runtime;
