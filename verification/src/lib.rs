//! Core of an autoregressive text-generation pipeline: a sampling stage
//! (repeat penalty, greedy argmax, nucleus sampling over integer fixed-point
//! scores), a generation-loop state machine, and a multiple-choice evaluation
//! harness. The neural forward pass, tokenization and artifact loading are
//! external collaborators reached through narrow boundaries.

pub mod catalog;
pub mod engine;
pub mod errors;
pub mod eval;
pub mod rng;
pub mod nucleus;
pub mod sampling;
pub mod tok;
