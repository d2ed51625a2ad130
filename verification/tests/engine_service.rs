use std::cell::{Cell, RefCell};
use std::rc::Rc;
use std::time::Duration;

use infy::engine::service::{Engine, Model, Sampler, Session};
use infy::engine::tokenizer::ByteTokenizer;
use infy::engine::Clock;
use infy::kernel::cancel::Cancel;
use infy::kernel::chat::Message;
use infy::kernel::error::{Error, Result};
use infy::kernel::generation::{Completion, FinishReason, Usage};
use infy::kernel::model_ref::TokenId;

/// What comes next, given everything fed so far.
type Rule = Rc<dyn Fn(&[TokenId]) -> TokenId>;

/// A deterministic model: a rule maps everything fed so far to the token
/// that should come next, and the logits put that token far above the rest.
struct MemoryModel {
    id: String,
    vocab_size: usize,
    context_length: usize,
    rule: Rule,
    feeds: Rc<RefCell<Vec<Vec<TokenId>>>>,
}

/// How far into `pattern` the sequence's tail has got, cyclically.
fn progress(seq: &[TokenId], pattern: &[TokenId]) -> usize {
    if pattern.is_empty() {
        return 0;
    }
    let max = seq.len().min(pattern.len());
    for k in (1..=max).rev() {
        if seq[seq.len() - k..] == pattern[..k] {
            return k;
        }
    }
    0
}

impl MemoryModel {
    fn new(vocab_size: usize, context_length: usize, rule: impl Fn(&[TokenId]) -> TokenId + 'static) -> Self {
        MemoryModel {
            id: "memory".into(),
            vocab_size,
            context_length,
            rule: Rc::new(rule),
            feeds: Rc::new(RefCell::new(Vec::new())),
        }
    }

    /// Answers with the bytes of `reply` and then EOS, whatever the prompt.
    fn reply(reply: &str) -> Self {
        let bytes: Vec<TokenId> = reply.bytes().map(TokenId::from).collect();
        Self::new(ByteTokenizer::VOCAB, 4096, move |seq| {
            let n = progress(seq, &bytes);
            bytes.get(n).copied().unwrap_or(ByteTokenizer::EOS)
        })
    }

    /// Emits the bytes of `text` over and over, never an EOS.
    fn cycle(text: &str) -> Self {
        let bytes: Vec<TokenId> = text.bytes().map(TokenId::from).collect();
        Self::new(ByteTokenizer::VOCAB, 4096, move |seq| {
            let n = progress(seq, &bytes);
            bytes[n % bytes.len()]
        })
    }

    fn with_context_length(mut self, n: usize) -> Self {
        self.context_length = n;
        self
    }

    fn feed_log(&self) -> Rc<RefCell<Vec<Vec<TokenId>>>> {
        self.feeds.clone()
    }
}

struct MemorySession {
    tokens: Vec<TokenId>,
    vocab_size: usize,
    context_length: usize,
    rule: Rule,
    feeds: Rc<RefCell<Vec<Vec<TokenId>>>>,
}

impl Model for MemoryModel {
    type Session = MemorySession;
    fn id(&self) -> String {
        self.id.clone()
    }
    fn vocab_size(&self) -> usize {
        self.vocab_size
    }
    fn context_length(&self) -> usize {
        self.context_length
    }
    fn new_session(&self) -> Result<MemorySession> {
        Ok(MemorySession {
            tokens: Vec::new(),
            vocab_size: self.vocab_size,
            context_length: self.context_length,
            rule: self.rule.clone(),
            feeds: self.feeds.clone(),
        })
    }
}

impl Session for MemorySession {
    type Logits = Vec<f32>;
    fn feed(&mut self, tokens: &[TokenId]) -> Result<Vec<f32>> {
        if tokens.is_empty() {
            return Err(Error::invalid("feed called with no tokens"));
        }
        if self.tokens.len() + tokens.len() > self.context_length {
            return Err(Error::invalid(&format!(
                "{} tokens exceed the context length of {}",
                self.tokens.len() + tokens.len(),
                self.context_length
            )));
        }
        self.feeds.borrow_mut().push(tokens.to_vec());
        self.tokens.extend_from_slice(tokens);
        let next = (self.rule)(&self.tokens) as usize;
        let mut logits = vec![-50.0; self.vocab_size];
        if let Some(l) = logits.get_mut(next) {
            *l = 50.0;
        }
        Ok(logits)
    }
    fn len(&self) -> usize {
        self.tokens.len()
    }
    fn truncate(&mut self, len: usize) {
        self.tokens.truncate(len);
    }
}

/// The highest logit wins.
struct Greedy;

impl Sampler<Vec<f32>> for Greedy {
    fn sample(&mut self, logits: &Vec<f32>, _tokens: &[TokenId]) -> TokenId {
        let mut best = 0;
        for (i, &x) in logits.iter().enumerate() {
            if x > logits[best] {
                best = i;
            }
        }
        best as TokenId
    }
}

/// Advances a fixed step on every read.
#[derive(Default)]
struct MemoryClock(Cell<Duration>);

impl Clock for MemoryClock {
    fn now(&self) -> Duration {
        let n = self.0.get() + Duration::from_millis(1);
        self.0.set(n);
        n
    }
}

type Eng = Engine<MemoryModel, ByteTokenizer, MemoryClock>;

fn engine(model: MemoryModel, tokenizer: ByteTokenizer) -> Eng {
    Engine::new(model, tokenizer, MemoryClock::default())
}

/// What a greedy request without a limit of its own allows.
const MAX: usize = 512;

fn run(e: &mut Eng, prompt: &str, max_tokens: usize, stop: Vec<String>) -> (Completion, Vec<String>) {
    let mut chunks = Vec::new();
    let c = e
        .generate(
            &Cancel::new(),
            prompt.into(),
            max_tokens,
            stop,
            false,
            &mut Greedy,
            &mut |s: &str| chunks.push(s.to_string()),
        )
        .unwrap();
    (c, chunks)
}

#[test]
fn generates_until_eos_and_reports_usage_timing_and_the_prompt() {
    let mut e = engine(MemoryModel::reply("Hi there"), ByteTokenizer::new());
    let (c, chunks) = run(&mut e, "Q: hi\nA:", MAX, vec![]);
    assert_eq!(c.text, "Hi there");
    assert_eq!(chunks.concat(), "Hi there");
    assert_eq!(c.finish, FinishReason::Stop);
    assert_eq!(
        c.usage,
        Usage {
            prompt_tokens: 8,
            completion_tokens: 8,
            cached_tokens: 0
        }
    );
    assert_eq!(c.prompt, "Q: hi\nA:");
    assert_eq!(c.model, "memory");
    assert!(c.timing.prefill > Duration::ZERO);
    assert!(c.timing.time_to_first_token > c.timing.prefill);
    assert!(c.timing.total > c.timing.time_to_first_token);
    assert!(c.timing.decode > Duration::ZERO);
}

#[test]
fn max_tokens_and_the_context_window_both_end_with_length() {
    let mut e = engine(MemoryModel::cycle("abc"), ByteTokenizer::new());
    let (c, _) = run(&mut e, "x", 5, vec![]);
    assert_eq!(c.text, "abcab");
    assert_eq!(c.finish, FinishReason::Length);
    assert_eq!(c.usage.completion_tokens, 5);

    let mut e = engine(MemoryModel::cycle("abc").with_context_length(6), ByteTokenizer::new());
    let (c, _) = run(&mut e, "xy", 100, vec![]);
    assert_eq!(c.text, "abca", "2 prompt + 4 generated fills a context of 6");
    assert_eq!(c.finish, FinishReason::Length);
}

#[test]
fn stop_sequences_are_held_back_across_tokens_and_never_leak() {
    let mut e = engine(MemoryModel::cycle("hello world "), ByteTokenizer::new());
    let (c, chunks) = run(&mut e, "say:", 100, vec!["wor".into()]);
    assert_eq!(c.text, "hello ");
    assert_eq!(c.finish, FinishReason::StopSequence);
    assert!(chunks.iter().all(|s| !s.contains('w')), "{chunks:?}");
    // Every byte is its own token here, so the partial 'w', 'wo' were held.
    assert_eq!(c.usage.completion_tokens, 9);
}

#[test]
fn cancellation_keeps_what_was_produced() {
    let mut e = engine(MemoryModel::cycle("abcdef"), ByteTokenizer::new());
    let cancel = Cancel::new();
    let inner = cancel.clone();
    let mut seen = String::new();
    let c = e
        .generate(
            &cancel,
            "go".into(),
            100,
            vec![],
            false,
            &mut Greedy,
            &mut |s: &str| {
                seen.push_str(s);
                if seen.len() >= 3 {
                    inner.cancel();
                }
            },
        )
        .unwrap();
    assert_eq!(c.finish, FinishReason::Cancelled);
    assert_eq!(c.text, "abc");
    assert_eq!(seen, "abc");

    let pre = Cancel::new();
    pre.cancel();
    let err = e
        .generate(&pre, "go".into(), MAX, vec![], false, &mut Greedy, &mut |_: &str| {})
        .unwrap_err();
    assert!(err.is_cancelled());
}

#[test]
fn chat_renders_chatml_by_default_and_reuses_the_cached_prefix() {
    let mut e = engine(MemoryModel::reply("Hello!"), ByteTokenizer::new());
    let first = vec![Message::user("Hi")];
    let mut c = e
        .chat(&Cancel::new(), &first, MAX, vec![], &mut Greedy, &mut |_: &str| {})
        .unwrap();
    assert_eq!(c.text, "Hello!");
    assert_eq!(c.prompt, "<|im_start|>user\nHi<|im_end|>\n<|im_start|>assistant\n");
    assert_eq!(c.prompt, e.render(&first).unwrap());
    assert_eq!(c.usage.cached_tokens, 0);
    let first_prompt_tokens = c.usage.prompt_tokens;

    let mut second = first.clone();
    second.push(Message::assistant(&c.text));
    second.push(Message::user("Again"));
    c = e
        .chat(&Cancel::new(), &second, MAX, vec![], &mut Greedy, &mut |_: &str| {})
        .unwrap();
    assert_eq!(c.text, "Hello!");
    // The whole first prompt plus the generated reply were already in the
    // cache (every reply token was fed, because EOS was sampled on the step
    // after the last one).
    assert_eq!(c.usage.cached_tokens, first_prompt_tokens + "Hello!".len());
    assert!(c.usage.cached_tokens > 0);
    let rendered = e
        .render(&[Message::user("Hi"), Message::assistant("Hello!"), Message::user("Again")])
        .unwrap();
    assert_eq!(c.usage.prompt_tokens, rendered.len());
}

#[test]
fn the_prompt_cache_feeds_only_the_new_tail_and_rewinds_on_divergence() {
    let model = MemoryModel::cycle("z");
    let feeds = model.feed_log();
    let mut e = engine(model, ByteTokenizer::new());
    run(&mut e, "abcd", 2, vec![]);
    assert_eq!(
        feeds.borrow().as_slice(),
        &[b"abcd".map(u32::from).to_vec(), vec![b'z' as u32]]
    );

    feeds.borrow_mut().clear();
    let (c, _) = run(&mut e, "abcdzzq", 2, vec![]);
    // Cache held a,b,c,d,z (the second z was sampled but never fed). Prompt
    // shares a,b,c,d,z; feed "zq".
    assert_eq!(c.usage.cached_tokens, 5);
    assert_eq!(feeds.borrow()[0], vec![b'z' as u32, b'q' as u32]);

    feeds.borrow_mut().clear();
    let (c, _) = run(&mut e, "abXY", 2, vec![]);
    assert_eq!(c.usage.cached_tokens, 2, "diverged after ab");
    assert_eq!(feeds.borrow()[0], vec![b'X' as u32, b'Y' as u32]);

    e.reset_cache();
    feeds.borrow_mut().clear();
    let (c, _) = run(&mut e, "abXY", 1, vec![]);
    assert_eq!(c.usage.cached_tokens, 0);
}

#[test]
fn an_identical_prompt_still_feeds_one_token() {
    let mut e = engine(MemoryModel::cycle("z"), ByteTokenizer::new());
    run(&mut e, "same", 1, vec![]);
    let (c, _) = run(&mut e, "same", 1, vec![]);
    assert_eq!(c.usage.cached_tokens, 3);
    assert_eq!(c.text, "z");
}

#[test]
fn bos_is_added_once_unless_raw() {
    let model = MemoryModel::reply("ok");
    let feeds = model.feed_log();
    let mut e = engine(model, ByteTokenizer::new().with_add_bos(true));
    let (c, _) = run(&mut e, "hi", MAX, vec![]);
    assert_eq!(feeds.borrow()[0][0], ByteTokenizer::BOS);
    assert_eq!(c.usage.prompt_tokens, 3);

    e.reset_cache();
    feeds.borrow_mut().clear();
    let (c, _) = run(&mut e, "<s>hi", MAX, vec![]);
    assert_ne!(feeds.borrow()[0][0], ByteTokenizer::BOS, "the prompt already starts with the BOS text");
    assert_eq!(c.usage.prompt_tokens, 5);

    e.reset_cache();
    feeds.borrow_mut().clear();
    e.generate(&Cancel::new(), "hi".into(), MAX, vec![], true, &mut Greedy, &mut |_: &str| {})
        .unwrap();
    assert_eq!(feeds.borrow()[0], vec![b'h' as u32, b'i' as u32]);
}

#[test]
fn a_custom_template_is_used_and_chatml_stop_is_only_added_for_the_fallback() {
    let t = "{% for m in messages %}[{{ m.role }}] {{ m.content }}\n{% endfor %}[assistant] ";
    let mut e = engine(MemoryModel::reply("yo"), ByteTokenizer::new().with_chat_template(t));
    let c = e
        .chat(&Cancel::new(), &[Message::user("q")], MAX, vec![], &mut Greedy, &mut |_: &str| {})
        .unwrap();
    assert_eq!(c.prompt, "[user] q\n[assistant] ");
    assert_eq!(c.text, "yo");

    // With the fallback, "<|im_end|>" as text stops generation even when
    // the model never emits an EOS token.
    let mut e = engine(MemoryModel::cycle("a<|im_end|>b"), ByteTokenizer::new());
    let c = e
        .chat(&Cancel::new(), &[Message::user("q")], 50, vec![], &mut Greedy, &mut |_: &str| {})
        .unwrap();
    assert_eq!(c.text, "a");
    assert_eq!(c.finish, FinishReason::StopSequence);
}

#[test]
fn multibyte_characters_split_across_tokens_are_emitted_whole() {
    let mut e = engine(MemoryModel::reply("héllo 世界"), ByteTokenizer::new());
    let (c, chunks) = run(&mut e, "p", MAX, vec![]);
    assert_eq!(c.text, "héllo 世界");
    assert!(chunks.iter().all(|s| !s.contains('\u{FFFD}')), "{chunks:?}");
    assert!(chunks.iter().any(|s| s == "é"), "{chunks:?}");
    assert_eq!(c.usage.completion_tokens, "héllo 世界".len());
}

#[test]
fn engine_failures_are_specific() {
    let mut e = engine(MemoryModel::cycle("a").with_context_length(4), ByteTokenizer::new());
    match e.generate(&Cancel::new(), "toolong".into(), MAX, vec![], false, &mut Greedy, &mut |_: &str| {}) {
        Err(Error::Invalid(m)) => assert!(m.contains("7 tokens") && m.contains("4"), "{m}"),
        other => panic!("{other:?}"),
    }
    assert!(matches!(
        e.generate(&Cancel::new(), "".into(), MAX, vec![], false, &mut Greedy, &mut |_: &str| {}),
        Err(Error::Invalid(m)) if m.contains("empty")
    ));
    assert!(matches!(
        e.chat(&Cancel::new(), &[], MAX, vec![], &mut Greedy, &mut |_: &str| {}),
        Err(Error::Invalid(_))
    ));
    assert!(matches!(
        e.generate(&Cancel::new(), "x".into(), 0, vec![], false, &mut Greedy, &mut |_: &str| {}),
        Err(Error::Invalid(m)) if m == "max_tokens must be at least 1"
    ));
    assert!(matches!(
        e.generate(&Cancel::new(), "x".into(), 3, vec!["".into()], false, &mut Greedy, &mut |_: &str| {}),
        Err(Error::Invalid(m)) if m == "stop sequences must not be empty strings"
    ));
    assert_eq!(e.context_length(), 4);
    assert_eq!(e.model_id(), "memory");
}

/// Samples from the softmax of the logits at a temperature, drawing from a
/// seeded generator.
struct Seeded {
    rng: infy::engine::rng::Rng,
    temperature: f32,
}

impl Sampler<Vec<f32>> for Seeded {
    fn sample(&mut self, logits: &Vec<f32>, _tokens: &[TokenId]) -> TokenId {
        let max = logits.iter().cloned().fold(f32::NEG_INFINITY, f32::max);
        let weights: Vec<f64> = logits.iter().map(|&l| (((l - max) / self.temperature) as f64).exp()).collect();
        let total: f64 = weights.iter().sum();
        let u = (self.rng.next_u64() >> 11) as f64 / (1u64 << 53) as f64 * total;
        let mut acc = 0.0;
        for (i, w) in weights.iter().enumerate() {
            acc += w;
            if u < acc {
                return i as TokenId;
            }
        }
        (weights.len() - 1) as TokenId
    }
}

#[test]
fn seeded_sampling_is_reproducible() {
    let mut e = engine(MemoryModel::cycle("abc"), ByteTokenizer::new());
    let mut go = || {
        let mut s = Seeded { rng: infy::engine::rng::Rng::new(7), temperature: 1.0 };
        e.generate(&Cancel::new(), "s".into(), 6, vec![], false, &mut s, &mut |_: &str| {}).unwrap()
    };
    let a = go();
    let b = go();
    assert_eq!(a.text, b.text);
    assert_eq!(a.text, "abcabc");
}
