//! What a generation produced and what it cost.
use std::time::Duration;
use vstd::prelude::*;

verus! {

/// Why a generation ended.
#[derive(Debug, Clone, Copy, PartialEq, Eq, Structural)]
pub enum FinishReason {
    /// The model emitted an end-of-sequence token.
    Stop,
    /// `max_tokens` was reached, or the context window filled.
    Length,
    /// One of the caller's stop sequences appeared.
    StopSequence,
    /// The caller cancelled; the partial text is kept.
    Cancelled,
}

/// Token accounting for one generation.
#[derive(Debug, Clone, Copy, Default, PartialEq, Eq, Structural)]
pub struct Usage {
    pub prompt_tokens: usize,
    pub completion_tokens: usize,
    /// The part of the prompt served from a cache rather than recomputed.
    pub cached_tokens: usize,
}

impl Usage {
    /// Prompt plus completion tokens.
    pub fn total(&self) -> (t: usize)
        requires
            self.prompt_tokens + self.completion_tokens <= usize::MAX,
        ensures
            t == self.prompt_tokens + self.completion_tokens,
    {
        self.prompt_tokens + self.completion_tokens
    }
}

/// Where the time went.
#[derive(Debug, Clone, Copy, Default, PartialEq, Eq)]
pub struct Timing {
    /// Processing the prompt tokens that were not cached.
    pub prefill: Duration,
    /// From the start of the call to the first emitted token.
    pub time_to_first_token: Duration,
    /// Generating every token after the first.
    pub decode: Duration,
    pub total: Duration,
}

/// The terminal result of a generation: the text, why it stopped, what it
/// cost, and the exact prompt that produced it.
#[derive(Debug, Clone)]
pub struct Completion {
    /// What actually answered, which is not always what was asked for.
    pub model: String,
    /// The assembled text.
    pub text: String,
    pub finish: FinishReason,
    pub usage: Usage,
    pub timing: Timing,
    /// The prompt exactly as sent.
    pub prompt: String,
}

} // verus!
