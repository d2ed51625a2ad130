//! The native generation loop's decisions: stop sequences, UTF-8-safe
//! streaming, the prompt-cache plan, BOS placement, chat templates, the
//! seeded generator, and the step-by-step decode state machine.
pub mod decode;
pub mod logic;
pub mod rng;
pub mod service;
pub mod template;
pub mod tokenizer;

use std::time::Duration;
use vstd::prelude::*;

verus! {

/// A monotonic clock, so that timing is the caller's to supply. The epoch is
/// arbitrary; only differences are meaningful.
pub trait Clock {
    fn now(&self) -> Duration;
}

} // verus!
