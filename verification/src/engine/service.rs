//! The engine: a model, a tokenizer and a clock, and one generation at a
//! time over a session whose cache is reused from one call to the next.
//! The model's logits are whatever the model makes of them; the sampler
//! that turns them into a token is the caller's.
use std::time::Duration;
use vstd::prelude::*;
use vstd::string::*;

use crate::engine::decode::{
    chat_stop_list, chat_stops, decode_start, decode_step, free_of, prepare_prompt, with_bos, DecodeState, Decoder,
};
use crate::engine::logic::{chatml, chatml_prompt, needs_bos, plan_prefill, prefill_keep, stop_bytes};
use crate::engine::template::{render_chat_template, template_result_matches, roles_of, contents_of, jinja_rendered, text_or_empty};
use crate::engine::tokenizer::Tokenizer;
use crate::engine::Clock;
use crate::kernel::cancel::Cancel;
use crate::kernel::chat::Message;
use crate::kernel::error::{Error, Result};
use crate::kernel::generation::{Completion, FinishReason, Timing, Usage};
use crate::kernel::model_ref::TokenId;
use crate::text::{occurs_at, string_views, utf8};

verus! {

/// One sequence's state. Feeding tokens appends to it; the logits returned
/// are for the position after the last token fed.
pub trait Session {
    /// What a feed returns: one score per vocabulary entry.
    type Logits;

    fn feed(&mut self, tokens: &[TokenId]) -> Result<Self::Logits>;

    /// Positions currently held.
    fn len(&self) -> usize;

    /// Forget every position from `len` on, so a prompt sharing a prefix
    /// with the previous one only has to feed its tail.
    fn truncate(&mut self, len: usize);
}

/// A language model as the engine sees it: a context length, and sessions
/// that turn tokens into logits.
pub trait Model {
    type Session: Session;

    /// What answers, for the `model` field of every completion.
    fn id(&self) -> String;

    fn vocab_size(&self) -> usize;

    fn context_length(&self) -> usize;

    /// A fresh sequence state with an empty cache.
    fn new_session(&self) -> Result<Self::Session>;
}

/// Turns logits into the next token, given every token so far.
pub trait Sampler<L> {
    fn sample(&mut self, logits: &L, tokens: &[TokenId]) -> TokenId;
}

/// `Duration::saturating_sub`: the time from `from` to `to`, or zero.
/// Nothing is claimed of it.
#[verifier::external_body]
fn since(from: Duration, to: Duration) -> Duration {
    to.saturating_sub(from)
}

/// The engine.
pub struct Engine<M: Model, T: Tokenizer, C: Clock> {
    model: M,
    tokenizer: T,
    clock: C,
    session: Option<M::Session>,
    /// The model's name and context length, read once: a loaded model
    /// keeps both.
    model_id: String,
    context_length: usize,
    /// Exactly the tokens the session has been fed, in order, so that the
    /// prompt-cache plan is made on what the cache really holds.
    tokens: Vec<TokenId>,
}

/// Whether every stop sequence has some text.
pub open spec fn stops_nonempty(stops: Seq<String>) -> bool {
    forall|k: int| 0 <= k < stops.len() ==> (#[trigger] stops[k])@.len() > 0
}

/// The prompt a chat renders to: the checkpoint's template, with the texts
/// of its BOS and first EOS spliced in where it asks for them, or else the
/// ChatML fallback.
pub fn render_with(
    template: Option<String>,
    bos: Option<String>,
    eos: Option<String>,
    messages: &[Message],
) -> (r: Result<String>)
    ensures
        render_with_spec(text_view_opt(template), text_view_opt(bos), text_view_opt(eos), messages@, r),
{
    match template {
        Some(t) => {
            let b: Option<&str> = match &bos {
                Some(x) => Some(x.as_str()),
                None => None,
            };
            let e: Option<&str> = match &eos {
                Some(x) => Some(x.as_str()),
                None => None,
            };
            render_chat_template(t.as_str(), messages, b, e)
        },
        None => Ok(chatml(messages)),
    }
}

impl<M: Model, T: Tokenizer, C: Clock> Engine<M, T, C> {
    /// The state every call keeps: without a session nothing is cached.
    pub closed spec fn wf(&self) -> bool {
        self.session is None ==> self.tokens@.len() == 0
    }

    /// The tokens the session holds.
    pub closed spec fn cached(&self) -> Seq<TokenId> {
        self.tokens@
    }

    pub fn new(model: M, tokenizer: T, clock: C) -> (e: Self)
        ensures
            e.wf(),
            e.cached().len() == 0,
    {
        let model_id = model.id();
        let context_length = model.context_length();
        Engine { model, tokenizer, clock, session: None, tokens: Vec::new(), model_id, context_length }
    }

    /// The tokenizer's answers.
    pub closed spec fn tokenizer_view(&self) -> T {
        self.tokenizer
    }

    /// The model's name, as the model gave it when the engine was made.
    pub closed spec fn model_name(&self) -> Seq<char> {
        self.model_id@
    }

    /// The model's context length, as the model gave it when the engine
    /// was made.
    pub closed spec fn context_window(&self) -> usize {
        self.context_length
    }

    pub fn model_id(&self) -> (r: String)
        ensures
            r@ == self.model_name(),
    {
        self.model_id.clone()
    }

    pub fn context_length(&self) -> (r: usize)
        ensures
            r == self.context_window(),
    {
        self.context_length
    }

    /// The exact prompt a chat request would send, before sending it.
    pub fn render(&self, messages: &[Message]) -> (r: Result<String>)
        ensures
            rendered_by(self.tokenizer_view(), messages@, r),
    {
        let template = self.tokenizer.chat_template();
        let bos = match self.tokenizer.bos_token() {
            Some(id) => self.tokenizer.special_token_text(id),
            None => None,
        };
        let eos_ids = self.tokenizer.eos_tokens();
        let eos = if eos_ids.len() > 0 {
            self.tokenizer.special_token_text(eos_ids[0])
        } else {
            None
        };
        let ghost tv = text_view_opt(template);
        let ghost bv = text_view_opt(bos);
        let ghost ev = text_view_opt(eos);
        assert(tv == self.tokenizer.template());
        assert(bv == bos_text_of(self.tokenizer));
        assert(ev == eos_text_of(self.tokenizer));
        render_with(template, bos, eos, messages)
    }

    /// Drop the cached session. The next call prefills from scratch.
    pub fn reset_cache(&mut self)
        ensures
            final(self).wf(),
            final(self).cached().len() == 0,
    {
        self.tokens.clear();
        self.session = None;
    }

    /// Continue a conversation: render it, then generate. Without the
    /// checkpoint's own template the ChatML fallback is used, and its turn
    /// end is a stop sequence.
    pub fn chat<S: Sampler<<M::Session as Session>::Logits>, F: FnMut(&str)>(
        &mut self,
        cancel: &Cancel,
        messages: &[Message],
        max_tokens: usize,
        stop: Vec<String>,
        sampler: &mut S,
        sink: &mut F,
    ) -> (r: Result<Completion>)
        requires
            old(self).wf(),
            forall|x: &str| call_requires(*old(sink), (x,)),
        ensures
            final(self).wf(),
            messages@.len() == 0 ==> (r matches Err(Error::Invalid(m)) && m@
                == "chat request has no messages"@),
            r matches Ok(c) ==> c.usage.completion_tokens <= max_tokens,
            r matches Ok(c) ==> c.model@ == old(self).model_name(),
            r matches Ok(c) ==> c.usage.prompt_tokens < old(self).context_window()
                && c.usage.prompt_tokens + c.usage.completion_tokens <= old(self).context_window(),
            r matches Ok(c) ==> rendered_text(old(self).tokenizer_view(), messages@, c.prompt@),
            r matches Ok(c) ==> exists|g: Seq<TokenId>|
                #[trigger] generated_by(
                    old(self).tokenizer_view(),
                    fed_prompt(old(self).tokenizer_view(), c.prompt@, false),
                    room_for(max_tokens, old(self).context_window(), c.usage.prompt_tokens as nat),
                    stop_bytes_of(chat_stop_list(string_views(stop@), old(self).tokenizer_view().template() is Some)),
                    final(self).cached(),
                    c,
                    g,
                ),
            r matches Ok(c) ==> free_of(
                utf8(c.text@),
                stop_bytes_of(chat_stop_list(string_views(stop@), old(self).tokenizer_view().template() is Some)),
            ),
    {
        if messages.len() == 0 {
            return Err(Error::invalid("chat request has no messages"));
        }
        let prompt = match self.render(messages) {
            Ok(p) => p,
            Err(e) => return Err(e),
        };
        let has_template = self.tokenizer.chat_template().is_some();
        let stops = chat_stops(stop, has_template);
        let ghost sv = string_views(stops@);
        let ghost sb = stop_bytes(stops@);
        assert(sb =~= stop_bytes_of(sv));
        let ghost pv = prompt@;
        let r = self.generate(cancel, prompt, max_tokens, stops, false, sampler, sink);
        proof {
            if r is Ok {
                let c = r->Ok_0;
                assert(c.prompt@ == pv);
                assert(free_of(utf8(c.text@), stop_bytes_of(chat_stop_list(string_views(stop@), has_template))));
                let g = choose|g: Seq<TokenId>|
                    #[trigger] generated_by(
                        old(self).tokenizer_view(),
                        fed_prompt(old(self).tokenizer_view(), pv, false),
                        room_for(max_tokens, old(self).context_window(), c.usage.prompt_tokens as nat),
                        stop_bytes(stops@),
                        self.cached(),
                        c,
                        g,
                    );
                assert(generated_by(
                    old(self).tokenizer_view(),
                    fed_prompt(old(self).tokenizer_view(), c.prompt@, false),
                    room_for(max_tokens, old(self).context_window(), c.usage.prompt_tokens as nat),
                    stop_bytes_of(chat_stop_list(string_views(stop@), has_template)),
                    self.cached(),
                    c,
                    g,
                ));
            }
        }
        r
    }

    /// Continue a prompt, streaming text to `sink` as it becomes final.
    /// The prompt gets a BOS when the checkpoint wants one (unless `raw`),
    /// must leave room in the context window, and shares what it can of
    /// the cache; then tokens are sampled one at a time until an
    /// end-of-sequence token, a stop sequence (cut before it), `max_tokens`
    /// or the end of the context window, or a cancellation.
    pub fn generate<S: Sampler<<M::Session as Session>::Logits>, F: FnMut(&str)>(
        &mut self,
        cancel: &Cancel,
        prompt: String,
        max_tokens: usize,
        stop: Vec<String>,
        raw: bool,
        sampler: &mut S,
        sink: &mut F,
    ) -> (r: Result<Completion>)
        requires
            old(self).wf(),
            forall|x: &str| call_requires(*old(sink), (x,)),
        ensures
            final(self).wf(),
            max_tokens == 0 ==> (r matches Err(Error::Invalid(m)) && m@
                == "max_tokens must be at least 1"@),
            max_tokens > 0 && !stops_nonempty(stop@) ==> (r matches Err(Error::Invalid(m)) && m@
                == "stop sequences must not be empty strings"@),
            r matches Ok(c) ==> c.prompt@ == prompt@,
            r matches Ok(c) ==> free_of(utf8(c.text@), stop_bytes(stop@)),
            r matches Ok(c) ==> 0 < c.usage.completion_tokens + 1 && c.usage.completion_tokens
                <= max_tokens,
            r matches Ok(c) ==> c.usage.cached_tokens < c.usage.prompt_tokens,
            final(self).tokenizer_view() == old(self).tokenizer_view(),
            final(self).model_name() == old(self).model_name(),
            final(self).context_window() == old(self).context_window(),
            r matches Ok(c) ==> c.model@ == old(self).model_name(),
            r matches Ok(c) ==> c.usage.prompt_tokens < old(self).context_window()
                && c.usage.prompt_tokens + c.usage.completion_tokens <= old(self).context_window(),
            r matches Ok(c) ==> prompt_fed(
                fed_prompt(old(self).tokenizer_view(), prompt@, raw),
                old(self).cached(),
                final(self).cached(),
                c.usage,
            ),
            r matches Ok(c) ==> exists|g: Seq<TokenId>|
                #[trigger] generated_by(
                    old(self).tokenizer_view(),
                    fed_prompt(old(self).tokenizer_view(), prompt@, raw),
                    room_for(max_tokens, old(self).context_window(), c.usage.prompt_tokens as nat),
                    stop_bytes(stop@),
                    final(self).cached(),
                    c,
                    g,
                ),
            r matches Ok(c) ==> c.usage.cached_tokens <= old(self).cached().len(),
            r matches Ok(c) ==> final(self).cached().subrange(0, c.usage.cached_tokens as int)
                == old(self).cached().subrange(0, c.usage.cached_tokens as int),
            r matches Ok(c) ==> c.usage.prompt_tokens + c.usage.completion_tokens == final(self).cached().len()
                || c.usage.prompt_tokens + c.usage.completion_tokens == final(self).cached().len() + 1,
    {
        if max_tokens == 0 {
            return Err(Error::invalid("max_tokens must be at least 1"));
        }
        let mut k: usize = 0;
        while k < stop.len()
            invariant
                max_tokens > 0,
                self.wf(),
                k <= stop@.len(),
                forall|j: int| 0 <= j < k ==> (#[trigger] stop@[j])@.len() > 0,
            decreases stop@.len() - k,
        {
            if stop[k].as_str().unicode_len() == 0 {
                return Err(Error::invalid("stop sequences must not be empty strings"));
            }
            k += 1;
        }
        let t0 = self.clock.now();
        let tokens = match self.tokenizer.encode(prompt.as_str()) {
            Ok(t) => t,
            Err(e) => return Err(e),
        };
        let bos = self.tokenizer.bos_token();
        let bos_text = match bos {
            Some(id) => self.tokenizer.special_token_text(id),
            None => None,
        };
        let bt: Option<&str> = match &bos_text {
            Some(x) => Some(x.as_str()),
            None => None,
        };
        let wants_bos = needs_bos(prompt.as_str(), bt, self.tokenizer.add_bos());
        let ghost tok0 = self.tokenizer;
        let ghost prompt_view = prompt@;
        let ghost model0 = self.model_id@;
        proof {
            let btv = match bos { Some(id) => self.tokenizer.special_text(id), None => None };
            assert(wants_bos == bos_wanted(prompt@, btv, self.tokenizer.wants_bos()));
        }
        let ctx = self.context_length;
        let ghost enc = tokens@;
        let (prompt_tokens, max_new) = match prepare_prompt(tokens, raw, wants_bos, bos, ctx, max_tokens) {
            Ok(p) => p,
            Err(e) => return Err(e),
        };
        assert(prompt_tokens@ == fed_prompt(tok0, prompt@, raw));
        assert(prompt_tokens@.len() < ctx && max_new <= ctx - prompt_tokens@.len());
        let ghost before = self.tokens@;
        if self.session.is_none() {
            match self.model.new_session() {
                Ok(s) => {
                    self.session = Some(s);
                    self.tokens.clear();
                },
                Err(e) => return Err(e),
            }
        }
        let ghost held = self.tokens@;
        assert(held == before);
        let plan = plan_prefill(self.tokens.as_slice(), prompt_tokens.as_slice());
        self.tokens.truncate(plan.keep);
        assert(self.tokens@ == prompt_tokens@.subrange(0, plan.keep as int));
        match cancel.check() {
            Ok(()) => {},
            Err(e) => return Err(e),
        }
        let tail = &prompt_tokens.as_slice()[plan.feed_from..prompt_tokens.len()];
        let fed = match &mut self.session {
            Some(s) => {
                s.truncate(plan.keep);
                s.feed(tail)
            },
            None => Err(Error::internal("session vanished")),
        };
        let mut logits = match fed {
            Ok(l) => l,
            Err(e) => {
                // A failed feed leaves the cache unknown: start over next time.
                self.tokens.clear();
                self.session = None;
                return Err(e);
            },
        };
        let mut i: usize = plan.feed_from;
        while i < prompt_tokens.len()
            invariant
                self.session is Some,
                self.tokenizer == tok0,
                self.model_id@ == model0,
                self.context_length == ctx,
                old(self).tokenizer == tok0,
                old(self).model_id@ == model0,
                old(self).context_length == ctx,
                plan.feed_from <= i <= prompt_tokens@.len(),
                self.tokens@ == prompt_tokens@.subrange(0, i as int),
            decreases prompt_tokens@.len() - i,
        {
            self.tokens.push(prompt_tokens[i]);
            assert(self.tokens@ =~= prompt_tokens@.subrange(0, i + 1));
            i += 1;
        }
        assert(self.tokens@ =~= prompt_tokens@);
        let t_prefill = self.clock.now();

        let mut all = prompt_tokens.clone();
        let eos = self.tokenizer.eos_tokens();
        let ghost stop_view = stop@;
        assert(max_new > 0);
        let mut decoder = Decoder::new(stop, eos, max_new);
        let ghost stops = decoder.stops_view();
        let mut t_first: Option<Duration> = None;
        let mut step: usize = 0;
        while step < max_new
            invariant_except_break
                decoder.finish_view() is None,
                decoder.generated_view().len() == step,
                self.tokens@ == prompt_tokens@ + decoder.generated_view(),
            invariant
                decoder.wf(),
                self.tokenizer == tok0,
                self.model_id@ == model0,
                self.context_length == ctx,
                old(self).tokenizer == tok0,
                old(self).model_id@ == model0,
                old(self).context_length == ctx,
                decoder.state() == decode_run(tok0, decoder.generated_view(), stop_bytes(stop_view)),
                stops == stop_view,
                decoder.finish_view() is None ==> !decoder.state().stopped,
                decoder.stops_view() == stops,
                decoder.max_new_view() == max_new,
                decoder.generated_view().len() <= max_new,
                forall|x: &str| call_requires(*sink, (x,)),
                max_tokens > 0,
                self.session is Some,
                stops_nonempty(stop_view),
                stop_view == stop@,
                decoder.eos_view() == tok0.eos_ids(),
                forall|j: int|
                    0 <= j < decoder.generated_view().len() ==> !decoder.eos_view().contains(
                        #[trigger] decoder.generated_view()[j],
                    ),
                decoder.finish_view() is None ==> decoder.generated_view().len() < max_new,
                decoder.finish_view() == Some(FinishReason::Stop) || decoder.finish_view() == Some(
                    FinishReason::Cancelled,
                ) ==> decoder.generated_view().len() < max_new,
                decoder.finish_view() == Some(FinishReason::Length) ==> decoder.generated_view().len()
                    == max_new,
                if decoder.finish_view() == Some(FinishReason::StopSequence) || decoder.finish_view() == Some(
                    FinishReason::Length,
                ) {
                    decoder.generated_view().len() > 0 && self.tokens@ + seq![decoder.generated_view().last()]
                        == prompt_tokens@ + decoder.generated_view()
                } else {
                    self.tokens@ == prompt_tokens@ + decoder.generated_view()
                },
            ensures
                decoder.finish_view() is Some,
            decreases max_new - step,
        {
            if cancel.is_cancelled() {
                decoder.cancel();
                break;
            }
            let next = sampler.sample(&logits, all.as_slice());
            if step == 0 {
                t_first = Some(self.clock.now());
            }
            let ghost g0 = decoder.generated_view();
            proof {
                decoder.lemma_state();
            }
            if !decoder.accept(next) {
                break;
            }
            assert forall|j: int| 0 <= j < decoder.generated_view().len() implies !decoder.eos_view().contains(
                #[trigger] decoder.generated_view()[j],
            ) by {
                if j < g0.len() {
                    assert(decoder.generated_view()[j] == g0[j]);
                }
            }
            all.push(next);
            let w = decoder.window();
            let cur = match self.tokenizer.decode(w) {
                Ok(c) => c,
                Err(e) => return Err(e),
            };
            let ghost st0 = decoder.state();
            let ghost g1 = decoder.generated_view();
            let shown = decoder.decoded(cur);
            proof {
                assert(g1.drop_last() =~= g0);
                assert(decode_run(tok0, g1, stop_bytes(stop_view)) == decode_step(
                    st0,
                    g1.len(),
                    tok0.decoding(g1.skip(st0.ws as int)),
                    stop_bytes(stop_view),
                ));
                decoder.lemma_state();
            }
            if shown.as_str().unicode_len() > 0 {
                sink(shown.as_str());
            }
            if decoder.is_done() {
                assert(decoder.generated_view() == g0.push(next));
                assert(self.tokens@ + seq![decoder.generated_view().last()] =~= prompt_tokens@
                    + decoder.generated_view());
                break;
            }
            let one = [next];
            let fed = match &mut self.session {
                Some(s) => s.feed(&one),
                None => Err(Error::internal("session vanished")),
            };
            logits = match fed {
                Ok(l) => l,
                Err(e) => {
                    self.tokens.clear();
                    self.session = None;
                    return Err(e);
                },
            };
            self.tokens.push(next);
            assert(self.tokens@ =~= prompt_tokens@ + decoder.generated_view());
            step += 1;
        }
        proof {
            let p = prompt_tokens@;
            let g = decoder.generated_view();
            if self.tokens@ != p + g {
                assert(g.len() > 0);
                assert(self.tokens@ =~= (p + g).drop_last());
            }
            assert(self.tokens@.len() >= p.len());
            assert(self.tokens@.subrange(0, plan.keep as int) =~= p.subrange(0, plan.keep as int));
            assert(self.tokens@.subrange(0, p.len() as int) =~= p);
        }
        assert(prompt_fed(prompt_tokens@, before, self.tokens@, Usage {
            prompt_tokens: prompt_tokens@.len() as usize,
            completion_tokens: decoder.generated_view().len() as usize,
            cached_tokens: plan.keep,
        }));
        let ghost gen = decoder.generated_view();
        let ghost fin = decoder.finish_view();
        proof {
            decoder.lemma_state();
        }
        assert(fin is Some);
        let done = decoder.close();
        assert(done.text@ == shown_text(decode_run(tok0, gen, stop_bytes(stop@))));
        if done.tail.as_str().unicode_len() > 0 {
            sink(done.tail.as_str());
        }
        let t_end = self.clock.now();
        let first = match t_first {
            Some(t) => t,
            None => t_end,
        };
        let c = Completion {
            model: self.model_id.clone(),
            text: done.text,
            finish: done.finish,
            usage: Usage {
                prompt_tokens: prompt_tokens.len(),
                completion_tokens: done.completion_tokens,
                cached_tokens: plan.keep,
            },
            timing: Timing {
                prefill: since(t0, t_prefill),
                time_to_first_token: since(t0, first),
                decode: since(first, t_end),
                total: since(t0, t_end),
            },
            prompt,
        };
        assert(prompt_fed(prompt_tokens@, old(self).cached(), self.cached(), c.usage));
        assert(max_new as nat == room_for(max_tokens, ctx, c.usage.prompt_tokens as nat));
        assert forall|j: int| 0 <= j < gen.len() implies !tok0.eos_ids().contains(#[trigger] gen[j]) by {
        }
        assert(generated_by(
            old(self).tokenizer_view(),
            prompt_tokens@,
            max_new as nat,
            stop_bytes(stop@),
            self.tokens@,
            c,
            gen,
        ));
        assert(generated_by(
            old(self).tokenizer_view(),
            fed_prompt(old(self).tokenizer_view(), prompt_view, raw),
            room_for(max_tokens, old(self).context_window(), c.usage.prompt_tokens as nat),
            stop_bytes(stop_view),
            self.cached(),
            c,
            gen,
        ));
        Ok(c)
    }
}

/// That `r` is what `render_with` answers for a template, BOS and EOS texts
/// and the messages.
pub open spec fn render_with_spec(
    template: Option<Seq<char>>,
    bos: Option<Seq<char>>,
    eos: Option<Seq<char>>,
    messages: Seq<Message>,
    r: Result<String>,
) -> bool {
    match template {
        Some(t) => template_result_matches(
            jinja_rendered(t, roles_of(messages), contents_of(messages), text_or_empty(bos), text_or_empty(eos)),
            r,
        ),
        None => r matches Ok(s) && s@ == chatml_prompt(messages),
    }
}

/// The text of the tokenizer's BOS token, if it has one.
pub open spec fn bos_text_of<T: Tokenizer>(t: T) -> Option<Seq<char>> {
    match t.bos() {
        Some(id) => t.special_text(id),
        None => None,
    }
}

/// The text of the tokenizer's first end-of-generation token, if any.
pub open spec fn eos_text_of<T: Tokenizer>(t: T) -> Option<Seq<char>> {
    if t.eos_ids().len() > 0 {
        t.special_text(t.eos_ids()[0])
    } else {
        None
    }
}

/// That `text` is the prompt the tokenizer's template (or ChatML) renders
/// for the messages.
pub open spec fn rendered_text<T: Tokenizer>(t: T, messages: Seq<Message>, text: Seq<char>) -> bool {
    match t.template() {
        Some(tm) => jinja_rendered(
            tm,
            roles_of(messages),
            contents_of(messages),
            text_or_empty(bos_text_of(t)),
            text_or_empty(eos_text_of(t)),
        ) == Ok::<Seq<char>, (bool, Seq<char>)>(text),
        None => text == chatml_prompt(messages),
    }
}

/// What `render` answers for the messages: the checkpoint's template (or
/// ChatML) with its BOS and first EOS texts.
pub open spec fn rendered_by<T: Tokenizer>(t: T, messages: Seq<Message>, r: Result<String>) -> bool {
    render_with_spec(t.template(), bos_text_of(t), eos_text_of(t), messages, r)
}

/// That `p` is the prompt as fed for a generation that found `before` in
/// the cache and left `after` there: what was kept is the plan for `p`
/// against the cache, and the cache now starts with `p`.
pub open spec fn prompt_fed(p: Seq<TokenId>, before: Seq<TokenId>, after: Seq<TokenId>, u: Usage) -> bool {
    &&& u.prompt_tokens == p.len()
    &&& u.cached_tokens == prefill_keep(before, p)
    &&& p.len() <= after.len()
    &&& after.subrange(0, p.len() as int) == p
}

/// Whether a prompt gets a BOS: the checkpoint asks for one and the prompt
/// does not already start with its text.
pub open spec fn bos_wanted(prompt: Seq<char>, bos_text: Option<Seq<char>>, add: bool) -> bool {
    add && match bos_text {
        Some(b) => b.len() == 0 || !occurs_at(utf8(prompt), utf8(b), 0),
        None => true,
    }
}

/// The tokens a prompt is fed as: its encoding, after the BOS when the
/// request is not raw and the BOS is wanted.
pub open spec fn fed_prompt<T: Tokenizer>(t: T, prompt: Seq<char>, raw: bool) -> Seq<TokenId> {
    let bos_text = match t.bos() {
        Some(id) => t.special_text(id),
        None => None,
    };
    with_bos(t.encoding(prompt), raw, bos_wanted(prompt, bos_text, t.wants_bos()), t.bos())
}

/// The decoding after the generated tokens `g`, each step decoding the
/// window of the tokens so far; nothing more happens once a stop sequence
/// has ended it.
pub open spec fn decode_run<T: Tokenizer>(t: T, g: Seq<TokenId>, sb: Seq<Seq<u8>>) -> DecodeState
    decreases g.len(),
{
    if g.len() == 0 {
        decode_start()
    } else {
        let s = decode_run(t, g.drop_last(), sb);
        if s.stopped {
            s
        } else {
            decode_step(s, g.len(), t.decoding(g.skip(s.ws as int)), sb)
        }
    }
}

/// The most tokens a generation may add: `max_tokens`, or what room the
/// prompt leaves in the context window.
pub open spec fn room_for(max_tokens: usize, ctx: usize, prompt_len: nat) -> nat {
    if max_tokens < ctx - prompt_len {
        max_tokens as nat
    } else {
        (ctx - prompt_len) as nat
    }
}

/// That the completion `c` is what generating the tokens `g` after the fed
/// prompt `p` gives, with room for `max_new` tokens:
/// - no generated token is an end-of-sequence token;
/// - the text is what the decoding of `g` shows;
/// - it ended at a stop sequence exactly when the decoding stopped, at the
///   length limit exactly when it did not and `g` fills the room, and
///   otherwise at an end-of-sequence token or a cancellation;
/// - the cache holds the prompt and `g`, but for the last token of `g` when
///   the generation ended on it without feeding it back.
pub open spec fn generated_by<T: Tokenizer>(
    t: T,
    p: Seq<TokenId>,
    max_new: nat,
    sb: Seq<Seq<u8>>,
    after: Seq<TokenId>,
    c: Completion,
    g: Seq<TokenId>,
) -> bool {
    let s = decode_run(t, g, sb);
    &&& g.len() == c.usage.completion_tokens
    &&& forall|i: int| 0 <= i < g.len() ==> !t.eos_ids().contains(#[trigger] g[i])
    &&& c.text@ == shown_text(s)
    &&& (c.finish == FinishReason::StopSequence) == s.stopped
    &&& (c.finish == FinishReason::Length) == (!s.stopped && g.len() == max_new)
    &&& (c.finish == FinishReason::Stop || c.finish == FinishReason::Cancelled) == (!s.stopped && g.len()
        < max_new)
    &&& if c.finish == FinishReason::StopSequence || c.finish == FinishReason::Length {
        g.len() > 0 && after + seq![g.last()] == p + g
    } else {
        after == p + g
    }
}

/// The text a generation shows at its end: what was shown, and what was
/// held back unless a stop sequence ended it.
pub open spec fn shown_text(s: DecodeState) -> Seq<char> {
    if s.stopped {
        s.text
    } else {
        s.text + s.pending
    }
}

/// A text, if there is one, as characters.
pub open spec fn text_view_opt(o: Option<String>) -> Option<Seq<char>> {
    match o {
        Some(s) => Some(s@),
        None => None,
    }
}

/// The bytes of some stop sequences given as text.
pub open spec fn stop_bytes_of(stops: Seq<Seq<char>>) -> Seq<Seq<u8>> {
    stops.map_values(|s: Seq<char>| utf8(s))
}

} // verus!
