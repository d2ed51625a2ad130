//! The decisions of one generation, step by step: how the prompt is made
//! ready, and what of each newly decoded text may be shown. The model, the
//! sampler and the tokenizer stay with the caller, which hands in what they
//! produced; this module decides what is emitted and when the generation
//! ends.
use vstd::prelude::*;
use vstd::string::*;
use vstd::utf8::*;

use crate::engine::logic::{
    CHATML_STOP, check_stop, common_boundary, ends_with_replacement, extends_tail, held_at, hit_at, stop_bytes,
    text_delta, StopCheck,
};
use crate::text::ends_with;
use crate::kernel::error::{Error, Result};
use crate::kernel::generation::FinishReason;
use crate::kernel::model_ref::TokenId;
use crate::text::{
    decimal, decimal_string, lemma_utf8_concat, occurs_at, str_ends_with, str_eq, string_views, substr,
    utf8,
};

verus! {

broadcast use vstd::utf8::group_utf8_lib;

// --- the prompt ------------------------------------------------------------------

/// The prompt tokens after the BOS decision.
pub open spec fn with_bos(tokens: Seq<TokenId>, raw: bool, wants_bos: bool, bos: Option<TokenId>) -> Seq<TokenId> {
    if !raw && wants_bos && bos is Some {
        seq![bos->0] + tokens
    } else {
        tokens
    }
}

/// The prompt as fed and the most tokens that may be generated after it,
/// or why the prompt cannot be run.
pub open spec fn prompt_plan(
    tokens: Seq<TokenId>,
    raw: bool,
    wants_bos: bool,
    bos: Option<TokenId>,
    context_length: usize,
    max_tokens: usize,
) -> core::result::Result<(Seq<TokenId>, nat), Seq<char>> {
    let t = with_bos(tokens, raw, wants_bos, bos);
    if t.len() == 0 {
        Err("prompt is empty"@)
    } else if t.len() >= context_length {
        Err(
            "prompt is "@ + decimal(t.len()) + " tokens but the context window is "@ + decimal(
                context_length as nat,
            ) + "; leave room for at least one generated token"@,
        )
    } else {
        let room = (context_length - t.len()) as nat;
        Ok((t, if max_tokens < room { max_tokens as nat } else { room }))
    }
}

/// Make a tokenised prompt ready: put the BOS in front when the checkpoint
/// wants one (`wants_bos`, as `needs_bos` decides) and the request is not
/// raw, refuse an empty prompt and one that leaves no room in the context
/// window, and bound the generation by what room is left.
pub fn prepare_prompt(
    tokens: Vec<TokenId>,
    raw: bool,
    wants_bos: bool,
    bos: Option<TokenId>,
    context_length: usize,
    max_tokens: usize,
) -> (r: Result<(Vec<TokenId>, usize)>)
    ensures
        match prompt_plan(tokens@, raw, wants_bos, bos, context_length, max_tokens) {
            Ok((t, n)) => r matches Ok((v, m)) && v@ == t && m == n,
            Err(msg) => r matches Err(Error::Invalid(x)) && x@ == msg,
        },
{
    let mut t = tokens;
    if !raw && wants_bos {
        match bos {
            Some(b) => {
                t.insert(0, b);
            },
            None => {},
        }
    }
    assert(t@ =~= with_bos(tokens@, raw, wants_bos, bos));
    if t.len() == 0 {
        return Err(Error::invalid("prompt is empty"));
    }
    if t.len() >= context_length {
        let mut m = "prompt is ".to_owned();
        let a = decimal_string(t.len() as u64);
        m.append(a.as_str());
        m.append(" tokens but the context window is ");
        let b = decimal_string(context_length as u64);
        m.append(b.as_str());
        m.append("; leave room for at least one generated token");
        return Err(Error::Invalid(m));
    }
    let room = context_length - t.len();
    let n = if max_tokens < room { max_tokens } else { room };
    Ok((t, n))
}

/// The stop sequences of a chat: without the checkpoint's own template the
/// ChatML fallback renders the prompt, and its turn end stops the reply.
pub open spec fn chat_stop_list(stops: Seq<Seq<char>>, has_template: bool) -> Seq<Seq<char>> {
    if !has_template && !stops.contains("<|im_end|>"@) {
        stops.push("<|im_end|>"@)
    } else {
        stops
    }
}

/// Without the checkpoint's own template the chat's stop list keeps every
/// stop the caller gave and holds ChatML's turn end; with one, it is the
/// caller's list as given. Nothing else is ever added.
pub proof fn law_the_chatml_fallback_stops_at_its_turn_end(stops: Seq<Seq<char>>, has_template: bool)
    ensures
        !has_template ==> chat_stop_list(stops, has_template).contains("<|im_end|>"@),
        forall|i: int| 0 <= i < stops.len() ==> chat_stop_list(stops, has_template).contains(#[trigger] stops[i]),
        has_template ==> chat_stop_list(stops, has_template) == stops,
        forall|x: Seq<char>| #[trigger] chat_stop_list(stops, has_template).contains(x) ==> stops.contains(x) || x
            == "<|im_end|>"@,
{
    let r = chat_stop_list(stops, has_template);
    assert forall|i: int| 0 <= i < stops.len() implies r.contains(#[trigger] stops[i]) by {
        assert(r[i] == stops[i]);
    }
    if !has_template && !stops.contains("<|im_end|>"@) {
        assert(r[stops.len() as int] == "<|im_end|>"@);
    }
    assert forall|x: Seq<char>| #[trigger] r.contains(x) implies stops.contains(x) || x == "<|im_end|>"@ by {
        let j = choose|j: int| 0 <= j < r.len() && r[j] == x;
        if j < stops.len() {
            assert(stops[j] == x);
        }
    }
}

pub fn chat_stops(stops: Vec<String>, has_template: bool) -> (r: Vec<String>)
    ensures
        string_views(r@) == chat_stop_list(string_views(stops@), has_template),
{
    if has_template {
        return stops;
    }
    let mut i: usize = 0;
    while i < stops.len()
        invariant
            i <= stops@.len(),
            forall|j: int| 0 <= j < i ==> stops@[j]@ != "<|im_end|>"@,
        decreases stops@.len() - i,
    {
        if str_eq(stops[i].as_str(), CHATML_STOP) {
            assert(string_views(stops@)[i as int] == "<|im_end|>"@);
            return stops;
        }
        i += 1;
    }
    assert(!string_views(stops@).contains("<|im_end|>"@)) by {
        assert forall|j: int| 0 <= j < string_views(stops@).len() implies string_views(stops@)[j]
            != "<|im_end|>"@ by {
            assert(string_views(stops@)[j] == stops@[j]@);
        }
    }
    let mut r = stops;
    let ghost before = r@;
    r.push(CHATML_STOP.to_owned());
    assert(string_views(r@) =~= string_views(before).push("<|im_end|>"@));
    r
}

// --- what may be shown -----------------------------------------------------------

/// `s` disagrees with `b` at some byte of `b` from `idx` on: no continuation
/// of `b` can make `s` begin at `idx`.
pub open spec fn clashes(b: Seq<u8>, idx: int, s: Seq<u8>) -> bool {
    exists|j: int| 0 <= j < s.len() && 0 <= idx + j < b.len() && #[trigger] s[j] != b[idx + j]
}

/// No stop sequence can begin before byte `n` of `b`, however `b` goes on.
pub open spec fn settled(b: Seq<u8>, n: int, stops: Seq<Seq<u8>>) -> bool {
    forall|idx: int, k: int| 0 <= idx < n && 0 <= k < stops.len() ==> #[trigger] clashes(b, idx, stops[k])
}

/// No stop sequence occurs anywhere in `b`.
pub open spec fn free_of(b: Seq<u8>, stops: Seq<Seq<u8>>) -> bool {
    forall|idx: int, k: int| 0 <= k < stops.len() ==> !#[trigger] occurs_at(b, stops[k], idx)
}

proof fn lemma_clash_extends(b: Seq<u8>, x: Seq<u8>, idx: int, s: Seq<u8>)
    requires
        clashes(b, idx, s),
    ensures
        clashes(b + x, idx, s),
{
    let j = choose|j: int| 0 <= j < s.len() && 0 <= idx + j < b.len() && #[trigger] s[j] != b[idx + j];
    assert((b + x)[idx + j] == b[idx + j]);
}

proof fn lemma_settled_extends(b: Seq<u8>, x: Seq<u8>, n: int, stops: Seq<Seq<u8>>)
    requires
        settled(b, n, stops),
    ensures
        settled(b + x, n, stops),
{
    assert forall|idx: int, k: int| 0 <= idx < n && 0 <= k < stops.len() implies #[trigger] clashes(
        b + x,
        idx,
        stops[k],
    ) by {
        lemma_clash_extends(b, x, idx, stops[k]);
    }
}

/// A clash inside the first `m` bytes rules out an occurrence in them.
proof fn lemma_clash_no_occurrence(b: Seq<u8>, m: int, idx: int, s: Seq<u8>)
    requires
        clashes(b, idx, s),
        0 <= m <= b.len(),
    ensures
        !occurs_at(b.take(m), s, idx),
{
    let j = choose|j: int| 0 <= j < s.len() && 0 <= idx + j < b.len() && #[trigger] s[j] != b[idx + j];
    if occurs_at(b.take(m), s, idx) {
        assert(b.take(m).subrange(idx, idx + s.len())[j] == s[j]);
        assert(b.take(m)[idx + j] == b[idx + j]);
    }
}

/// A clash found in `p` is a clash at the same place after `t`.
proof fn lemma_clash_shift(t: Seq<u8>, p: Seq<u8>, i: int, s: Seq<u8>)
    requires
        clashes(p, i, s),
    ensures
        clashes(t + p, t.len() + i, s),
{
    let j = choose|j: int| 0 <= j < s.len() && 0 <= i + j < p.len() && #[trigger] s[j] != p[i + j];
    assert((t + p)[t.len() + i + j] == p[i + j]);
}

/// The first byte of a non-empty UTF-8 text is not a continuation byte.
proof fn lemma_first_byte_leads(cs: Seq<char>)
    requires
        cs.len() > 0,
    ensures
        utf8(cs).len() > 0,
        !is_continuation_byte(utf8(cs)[0]),
{
    let b = utf8(cs);
    assert(valid_utf8(b));
    encode_utf8_first_scalar(cs);
    assert(b.len() > 0);
    assert(valid_first_scalar(b));
}

/// Where no stop sequence begins and none could still be completed, every
/// stop sequence clashes with what is there.
proof fn lemma_clash_from_check(p: Seq<u8>, i: int, stop: Seq<char>)
    requires
        valid_utf8(p),
        0 <= i < p.len(),
        stop.len() > 0,
        !occurs_at(p, utf8(stop), i),
        is_char_boundary(p, i) ==> !extends_tail(p, i, utf8(stop)),
    ensures
        clashes(p, i, utf8(stop)),
{
    let s = utf8(stop);
    lemma_first_byte_leads(stop);
    if !is_char_boundary(p, i) {
        assert(is_continuation_byte(p[i]));
        assert(s[0] != p[i + 0]);
    } else if s.len() <= p.len() - i {
        let w = p.subrange(i, i + s.len());
        assert(w != s);
        assert(!(w =~= s));
        let j = choose|j: int| 0 <= j < s.len() && w[j] != s[j];
        assert(w[j] == p[i + j]);
    } else {
        let w = p.subrange(i, p.len() as int);
        let v = s.subrange(0, p.len() - i);
        assert(!(v =~= w));
        let j = choose|j: int| 0 <= j < p.len() - i && v[j] != w[j];
        assert(v[j] == s[j] && w[j] == p[i + j]);
    }
}


/// After a check that found no stop sequence in `p` and nothing worth
/// holding before `split`, the first `split` bytes of `p` are settled too,
/// and no stop sequence occurs in `t + p`.
proof fn lemma_check_settles(t: Seq<u8>, p: Seq<u8>, split: int, stops: Seq<String>)
    requires
        valid_utf8(p),
        0 <= split <= p.len(),
        forall|k: int| 0 <= k < stops.len() ==> (#[trigger] stops[k])@.len() > 0,
        settled(t + p, t.len() as int, stop_bytes(stops)),
        stops.len() > 0 && p.len() > 0 ==> (forall|j: int| !hit_at(p, stop_bytes(stops), j)),
        stops.len() > 0 && p.len() > 0 ==> (forall|i: int|
            0 <= i < split ==> !held_at(p, stop_bytes(stops), i)),
    ensures
        settled(t + p, t.len() + split, stop_bytes(stops)),
        free_of(t + p, stop_bytes(stops)),
{
    let sb = stop_bytes(stops);
    let b = t + p;
    assert forall|idx: int, k: int| 0 <= idx < t.len() + split && 0 <= k < sb.len() implies #[trigger] clashes(
        b,
        idx,
        sb[k],
    ) by {
        if idx >= t.len() {
            let i = idx - t.len();
            assert(sb[k] == utf8(stops[k]@));
            assert(!occurs_at(p, sb[k], i)) by {
                if occurs_at(p, sb[k], i) {
                    assert(hit_at(p, sb, i));
                }
            }
            assert(is_char_boundary(p, i) ==> !extends_tail(p, i, sb[k])) by {
                if is_char_boundary(p, i) && extends_tail(p, i, sb[k]) {
                    assert(held_at(p, sb, i));
                }
            }
            lemma_clash_from_check(p, i, stops[k]@);
            lemma_clash_shift(t, p, i, sb[k]);
            assert(t.len() + i == idx);
        }
    }
    assert forall|idx: int, k: int| 0 <= k < sb.len() implies !#[trigger] occurs_at(b, sb[k], idx) by {
        if occurs_at(b, sb[k], idx) {
            assert(sb[k] == utf8(stops[k]@));
            lemma_first_byte_leads(stops[k]@);
            if idx < t.len() {
                assert(clashes(b, idx, sb[k]));
                lemma_clash_no_occurrence(b, b.len() as int, idx, sb[k]);
                assert(b.take(b.len() as int) =~= b);
            } else {
                let i = idx - t.len();
                assert(p.subrange(i, i + sb[k].len()) =~= b.subrange(idx, idx + sb[k].len()));
                assert(occurs_at(p, sb[k], i));
                assert(hit_at(p, sb, i));
            }
        }
    }
}

/// After a check that found the earliest stop sequence of `p` at `i`, no
/// stop sequence occurs in `t + p[..i]`.
proof fn lemma_hit_is_clean(t: Seq<u8>, p: Seq<u8>, i: int, stops: Seq<String>)
    requires
        0 <= i <= p.len(),
        forall|k: int| 0 <= k < stops.len() ==> (#[trigger] stops[k])@.len() > 0,
        settled(t + p, t.len() as int, stop_bytes(stops)),
        forall|j: int| 0 <= j < i ==> !hit_at(p, stop_bytes(stops), j),
    ensures
        free_of(t + p.take(i), stop_bytes(stops)),
{
    let sb = stop_bytes(stops);
    let b = t + p;
    let c = t + p.take(i);
    assert(c =~= b.take(t.len() + i));
    assert forall|idx: int, k: int| 0 <= k < sb.len() implies !#[trigger] occurs_at(c, sb[k], idx) by {
        if occurs_at(c, sb[k], idx) {
            assert(sb[k] == utf8(stops[k]@));
            lemma_first_byte_leads(stops[k]@);
            if idx < t.len() {
                assert(clashes(b, idx, sb[k]));
                lemma_clash_no_occurrence(b, t.len() + i, idx, sb[k]);
            } else {
                let j = idx - t.len();
                assert(p.subrange(j, j + sb[k].len()) =~= c.subrange(idx, idx + sb[k].len()));
                assert(occurs_at(p, sb[k], j));
                assert(hit_at(p, sb, j));
            }
        }
    }
}

/// What is shown is free of stop sequences, whatever came before.
proof fn lemma_prefix_free(b: Seq<u8>, m: int, stops: Seq<Seq<u8>>)
    requires
        free_of(b, stops),
        0 <= m <= b.len(),
    ensures
        free_of(b.take(m), stops),
{
    assert forall|idx: int, k: int| 0 <= k < stops.len() implies !#[trigger] occurs_at(b.take(m), stops[k], idx) by {
        if occurs_at(b.take(m), stops[k], idx) {
            assert(b.take(m).subrange(idx, idx + stops[k].len()) =~= b.subrange(idx, idx + stops[k].len()));
            assert(occurs_at(b, stops[k], idx));
        }
    }
}

/// `d` is the text a decode to `cur` completed after one to `prev`: what
/// `cur` holds past the longest prefix, on a character boundary, that the
/// two share.
pub open spec fn completed_by(prev: Seq<char>, cur: Seq<char>, d: Seq<char>) -> bool {
    exists|b: int|
        #![trigger common_boundary(utf8(prev), utf8(cur), b)]
        {
            &&& common_boundary(utf8(prev), utf8(cur), b)
            &&& forall|b2: int| b < b2 ==> !common_boundary(utf8(prev), utf8(cur), b2)
            &&& utf8(d) == utf8(cur).subrange(b, utf8(cur).len() as int)
        }
}

/// The text a decode to `cur` completed after one to `prev` (there is
/// exactly one, see `lemma_delta_unique`).
pub open spec fn delta_text(prev: Seq<char>, cur: Seq<char>) -> Seq<char> {
    choose|d: Seq<char>| completed_by(prev, cur, d)
}

/// What a decode to `cur` adds to the held text after one to `prev`:
/// nothing while it ends in a split character.
pub open spec fn fresh_text(prev: Seq<char>, cur: Seq<char>) -> Seq<char> {
    if ends_with_replacement(utf8(cur)) {
        Seq::empty()
    } else {
        delta_text(prev, cur)
    }
}

proof fn lemma_delta_unique(prev: Seq<char>, cur: Seq<char>, d: Seq<char>)
    requires
        completed_by(prev, cur, d),
    ensures
        delta_text(prev, cur) == d,
{
    let e = delta_text(prev, cur);
    let (pb, cb) = (utf8(prev), utf8(cur));
    let b1 = choose|b: int|
        #![trigger common_boundary(pb, cb, b)]
        {
            &&& common_boundary(pb, cb, b)
            &&& forall|b2: int| b < b2 ==> !common_boundary(pb, cb, b2)
            &&& utf8(d) == cb.subrange(b, cb.len() as int)
        };
    let b2 = choose|b: int|
        #![trigger common_boundary(pb, cb, b)]
        {
            &&& common_boundary(pb, cb, b)
            &&& forall|b2: int| b < b2 ==> !common_boundary(pb, cb, b2)
            &&& utf8(e) == cb.subrange(b, cb.len() as int)
        };
    assert(b1 == b2) by {
        if b1 < b2 {
            assert(!common_boundary(pb, cb, b2));
        }
        if b2 < b1 {
            assert(!common_boundary(pb, cb, b1));
        }
    }
    encode_utf8_decode_utf8(d);
    encode_utf8_decode_utf8(e);
}

/// The first `i` in `from..end` where `f` holds, or `end`.
pub open spec fn first_where(f: spec_fn(int) -> bool, from: int, end: int) -> int
    decreases end - from,
{
    if from >= end {
        end
    } else if f(from) {
        from
    } else {
        first_where(f, from + 1, end)
    }
}

proof fn lemma_first_where(f: spec_fn(int) -> bool, from: int, end: int, i: int)
    requires
        from <= i <= end,
        forall|j: int| from <= j < i ==> !#[trigger] f(j),
        i < end ==> f(i),
    ensures
        first_where(f, from, end) == i,
    decreases i - from,
{
    if from < i {
        lemma_first_where(f, from + 1, end, i);
    }
}

/// Where the first stop sequence begins in `p`, or `p.len()`.
pub open spec fn first_hit(p: Seq<u8>, sb: Seq<Seq<u8>>) -> int {
    first_where(hits(p, sb), 0, p.len() as int)
}

/// Where a stop sequence begins in `p`.
pub open spec fn hits(p: Seq<u8>, sb: Seq<Seq<u8>>) -> spec_fn(int) -> bool {
    |i: int| hit_at(p, sb, i)
}

/// Where the tail of `p` could still become a stop sequence.
pub open spec fn holds(p: Seq<u8>, sb: Seq<Seq<u8>>) -> spec_fn(int) -> bool {
    |i: int| held_at(p, sb, i)
}

/// Where the text that could still become a stop sequence begins in `p`,
/// or `p.len()`.
pub open spec fn first_held(p: Seq<u8>, sb: Seq<Seq<u8>>) -> int {
    first_where(holds(p, sb), 0, p.len() as int)
}

/// Where one generation's decoding stands: the window start, the previous
/// decode, the text shown, the text held back, and whether a stop
/// sequence ended it.
pub struct DecodeState {
    pub ws: nat,
    pub prev: Seq<char>,
    pub text: Seq<char>,
    pub pending: Seq<char>,
    pub stopped: bool,
}

/// Nothing decoded yet.
pub open spec fn decode_start() -> DecodeState {
    DecodeState { ws: 0, prev: Seq::empty(), text: Seq::empty(), pending: Seq::empty(), stopped: false }
}

/// The window start and previous decode after a decode to `cur` of a
/// window that ends at token `generated`: unchanged while the decode ends
/// in a split character; restarted after the last token at a newline once
/// the window is longer than `DECODE_WINDOW`; otherwise `cur` is the
/// previous decode.
pub open spec fn window_after(ws: nat, prev: Seq<char>, generated: nat, cur: Seq<char>) -> (nat, Seq<char>) {
    if ends_with_replacement(utf8(cur)) {
        (ws, prev)
    } else if generated - ws > DECODE_WINDOW && ends_with(cur, "\n"@) {
        (generated, Seq::<char>::empty())
    } else {
        (ws, cur)
    }
}

/// One step: the window of `generated` tokens decoded to `cur`. What it
/// completed joins the held text; a stop sequence in that text ends the
/// generation before it; otherwise everything before the first place a
/// stop sequence could still begin is shown.
pub open spec fn decode_step(s: DecodeState, generated: nat, cur: Seq<char>, sb: Seq<Seq<u8>>) -> DecodeState {
    let (ws, prev) = window_after(s.ws, s.prev, generated, cur);
    let p = utf8(s.pending + fresh_text(s.prev, cur));
    let h = first_hit(p, sb);
    if h < p.len() {
        DecodeState { ws, prev, text: s.text + decode_utf8(p.take(h)), pending: Seq::empty(), stopped: true }
    } else {
        let n = first_held(p, sb);
        DecodeState {
            ws,
            prev,
            text: s.text + decode_utf8(p.take(n)),
            pending: decode_utf8(p.skip(n)),
            stopped: false,
        }
    }
}

/// Whether `v` holds `t`.
fn holds_token(v: &Vec<TokenId>, t: TokenId) -> (b: bool)
    ensures
        b == v@.contains(t),
{
    let mut i: usize = 0;
    while i < v.len()
        invariant
            i <= v@.len(),
            forall|j: int| 0 <= j < i ==> v@[j] != t,
        decreases v@.len() - i,
    {
        if v[i] == t {
            assert(v@[i as int] == t);
            return true;
        }
        i += 1;
    }
    false
}

/// After `DECODE_WINDOW` tokens the decoder restarts its window at a
/// newline, bounding the cost of re-decoding the tail each step.
pub const DECODE_WINDOW: usize = 1024;

/// The state of one generation's output: the tokens generated so far, the
/// text already shown, the text held back because a stop sequence might be
/// starting in it, and why the generation ended, once it has.
pub struct Decoder {
    stops: Vec<String>,
    eos: Vec<TokenId>,
    max_new: usize,
    generated: Vec<TokenId>,
    window_start: usize,
    prev_text: String,
    pending: String,
    text: String,
    finish: Option<FinishReason>,
}

/// What a generation produced once it is over.
pub struct Decoded {
    /// Everything shown, in order.
    pub text: String,
    /// What was shown last, when the held-back text was let go.
    pub tail: String,
    pub finish: FinishReason,
    pub completion_tokens: usize,
}

impl Decoder {
    pub closed spec fn stops_view(&self) -> Seq<String> {
        self.stops@
    }

    pub closed spec fn text_view(&self) -> Seq<char> {
        self.text@
    }

    pub closed spec fn pending_view(&self) -> Seq<char> {
        self.pending@
    }

    pub closed spec fn finish_view(&self) -> Option<FinishReason> {
        self.finish
    }

    pub closed spec fn generated_view(&self) -> Seq<TokenId> {
        self.generated@
    }

    pub closed spec fn eos_view(&self) -> Seq<TokenId> {
        self.eos@
    }

    pub closed spec fn max_new_view(&self) -> nat {
        self.max_new as nat
    }

    /// Where the decoding stands.
    pub closed spec fn state(&self) -> DecodeState {
        DecodeState {
            ws: self.window_start as nat,
            prev: self.prev_text@,
            text: self.text@,
            pending: self.pending@,
            stopped: self.finish == Some(FinishReason::StopSequence),
        }
    }

    /// The decoding's state agrees with the views: its text is the text
    /// shown, its held text the text held, and it is stopped exactly when
    /// a stop sequence ended the generation.
    pub proof fn lemma_state(&self)
        ensures
            self.state().text == self.text_view(),
            self.state().pending == self.pending_view(),
            self.state().stopped == (self.finish_view() == Some(FinishReason::StopSequence)),
    {
    }

    /// What has been decoded so far: the text shown, then the text held.
    pub closed spec fn stream(&self) -> Seq<u8> {
        utf8(self.text@ + self.pending@)
    }

    /// The state every step keeps.
    pub closed spec fn wf(&self) -> bool {
        let sb = stop_bytes(self.stops@);
        &&& forall|k: int| 0 <= k < self.stops@.len() ==> (#[trigger] self.stops@[k])@.len() > 0
        &&& self.window_start <= self.generated@.len() <= self.max_new
        &&& match self.finish {
            Some(FinishReason::StopSequence) => self.pending@.len() == 0 && free_of(
                utf8(self.text@),
                sb,
            ),
            _ => settled(self.stream(), utf8(self.text@).len() as int, sb) && free_of(
                self.stream(),
                sb,
            ),
        }
    }

    /// A decoder for a generation of at most `max_new` tokens that ends at
    /// any of `eos` and is cut before any of `stops`.
    pub fn new(stops: Vec<String>, eos: Vec<TokenId>, max_new: usize) -> (d: Decoder)
        requires
            forall|k: int| 0 <= k < stops@.len() ==> (#[trigger] stops@[k])@.len() > 0,
        ensures
            d.wf(),
            d.stops_view() == stops@,
            d.eos_view() == eos@,
            d.max_new_view() == max_new,
            d.text_view().len() == 0,
            d.generated_view().len() == 0,
            d.finish_view() is None,
            d.state() == decode_start(),
    {
        let d = Decoder {
            stops,
            eos,
            max_new,
            generated: Vec::new(),
            window_start: 0,
            prev_text: String::new(),
            pending: String::new(),
            text: String::new(),
            finish: None,
        };
        proof {
            assert(d.text@ + d.pending@ =~= Seq::<char>::empty());
            assert(utf8(Seq::<char>::empty()) =~= Seq::<u8>::empty());
        }
        d
    }

    /// Whether the generation is over.
    pub fn is_done(&self) -> (b: bool)
        ensures
            b == (self.finish_view() is Some),
    {
        self.finish.is_some()
    }

    /// The caller cancelled: the generation ends, keeping what was shown.
    pub fn cancel(&mut self)
        requires
            old(self).wf(),
            old(self).finish_view() is None,
        ensures
            final(self).wf(),
            final(self).finish_view() == Some(FinishReason::Cancelled),
            final(self).state() == old(self).state(),
            final(self).text_view() == old(self).text_view(),
            final(self).stops_view() == old(self).stops_view(),
            final(self).generated_view() == old(self).generated_view(),
            final(self).max_new_view() == old(self).max_new_view(),
            final(self).eos_view() == old(self).eos_view(),
    {
        self.finish = Some(FinishReason::Cancelled);
    }

    /// Take the sampled token. An end-of-sequence token ends the
    /// generation (`false`); any other is appended (`true`).
    pub fn accept(&mut self, next: TokenId) -> (more: bool)
        requires
            old(self).wf(),
            old(self).finish_view() is None,
            old(self).generated_view().len() < old(self).max_new_view(),
        ensures
            final(self).wf(),
            final(self).stops_view() == old(self).stops_view(),
            final(self).text_view() == old(self).text_view(),
            final(self).max_new_view() == old(self).max_new_view(),
            final(self).eos_view() == old(self).eos_view(),
            more == !old(self).eos_view().contains(next),
            final(self).state() == old(self).state(),
            more ==> final(self).generated_view() == old(self).generated_view().push(next)
                && final(self).finish_view() is None,
            !more ==> final(self).generated_view() == old(self).generated_view()
                && final(self).finish_view() == Some(FinishReason::Stop),
    {
        if holds_token(&self.eos, next) {
            self.finish = Some(FinishReason::Stop);
            return false;
        }
        self.generated.push(next);
        true
    }

    /// The tokens to decode this step: those of the current window, which
    /// starts where `window_after` last restarted it.
    pub fn window(&self) -> (w: &[TokenId])
        requires
            self.wf(),
        ensures
            self.state().ws <= self.generated_view().len(),
            w@ == self.generated_view().skip(self.state().ws as int),
    {
        let w = self.generated.as_slice();
        let r = &w[self.window_start..w.len()];
        assert(r@ =~= self.generated@.skip(self.window_start as int));
        assert(r@ == self.generated_view().skip(self.window_start as int));
        r
    }

    /// Take this step's decoding of the window. The newly completed text
    /// joins what is held; then what can no longer be the start of a stop
    /// sequence is shown (returned), and a stop sequence ends the generation
    /// before it. The step that generated the last allowed token ends it too.
    pub fn decoded(&mut self, cur: String) -> (emitted: String)
        requires
            old(self).wf(),
            old(self).finish_view() is None,
        ensures
            final(self).wf(),
            final(self).text_view() == old(self).text_view() + emitted@,
            final(self).stops_view() == old(self).stops_view(),
            final(self).generated_view() == old(self).generated_view(),
            final(self).eos_view() == old(self).eos_view(),
            final(self).max_new_view() == old(self).max_new_view(),
            final(self).finish_view() is None || final(self).finish_view() == Some(
                FinishReason::StopSequence,
            ) || final(self).finish_view() == Some(FinishReason::Length),
            final(self).finish_view() == Some(FinishReason::Length) ==> old(self).generated_view().len()
                == old(self).max_new_view(),
            final(self).finish_view() is None ==> old(self).generated_view().len()
                < old(self).max_new_view(),
            final(self).state() == decode_step(
                old(self).state(),
                old(self).generated_view().len(),
                cur@,
                stop_bytes(old(self).stops_view()),
            ),
    {
        let ghost s0 = self.state();
        let ghost n = self.generated@.len();
        let ghost sb = stop_bytes(self.stops@);
        let ghost c = cur@;
        self.absorb(cur);
        let ghost mid = self.pending@;
        assert(mid == s0.pending + fresh_text(s0.prev, c));
        let emitted = self.release();
        if self.finish.is_none() && self.generated.len() == self.max_new {
            self.finish = Some(FinishReason::Length);
        }
        proof {
            let w = window_after(s0.ws, s0.prev, n, c);
            assert(self.window_start as nat == w.0 && self.prev_text@ == w.1);
            let st = decode_step(s0, n, c, sb);
            assert(self.state().ws == st.ws);
            assert(self.state().prev == st.prev);
            assert(self.state().text == st.text);
            assert(self.state().pending == st.pending);
            assert(self.state().stopped == st.stopped);
        }
        emitted
    }

    /// The stream is settled up to the shown text and nothing else is
    /// owed: the state between absorbing a decode and releasing text.
    closed spec fn absorbed(&self) -> bool {
        &&& forall|k: int| 0 <= k < self.stops@.len() ==> (#[trigger] self.stops@[k])@.len() > 0
        &&& self.window_start <= self.generated@.len() <= self.max_new
        &&& self.finish is None
        &&& settled(self.stream(), utf8(self.text@).len() as int, stop_bytes(self.stops@))
    }

    /// Append the text this decode completed to what is held. While the
    /// decode ends in a split character nothing changes; otherwise what it
    /// added to the previous decode is held, and this decode becomes the
    /// previous one (or, at a newline past the window, the window restarts
    /// after the last token).
    fn absorb(&mut self, cur: String)
        requires
            old(self).wf(),
            old(self).finish is None,
        ensures
            final(self).absorbed(),
            final(self).text@ == old(self).text@,
            final(self).stops@ == old(self).stops@,
            final(self).generated@ == old(self).generated@,
            final(self).eos@ == old(self).eos@,
            final(self).max_new == old(self).max_new,
            final(self).pending@ == old(self).pending@ + fresh_text(old(self).prev_text@, cur@),
            (final(self).window_start as nat, final(self).prev_text@) == window_after(
                old(self).window_start as nat,
                old(self).prev_text@,
                old(self).generated@.len(),
                cur@,
            ),
    {
        let ghost sb = stop_bytes(self.stops@);
        let ghost t0 = self.text@;
        let ghost prev0 = self.prev_text@;
        let ps = self.prev_text.as_str();
        let cs = cur.as_str();
        let delta = text_delta(ps, cs);
        match delta {
            Some(d) => {
                assert(ps.spec_bytes() == utf8(prev0) && cs.spec_bytes() == utf8(cur@));
                assert(completed_by(prev0, cur@, d@));
                proof {
                    lemma_delta_unique(prev0, cur@, d@);
                }
                let ghost p0 = self.pending@;
                self.pending.append(d);
                proof {
                    lemma_utf8_concat(t0 + p0, d@);
                    lemma_settled_extends(utf8(t0 + p0), utf8(d@), utf8(t0).len() as int, sb);
                    assert(t0 + p0 + d@ =~= t0 + self.pending@);
                }
                self.prev_text = cur;
                if self.generated.len() - self.window_start > DECODE_WINDOW && str_ends_with(
                    self.prev_text.as_str(),
                    "\n",
                ) {
                    self.window_start = self.generated.len();
                    self.prev_text = String::new();
                }
            },
            None => {},
        }
    }

    /// Show what can no longer be the start of a stop sequence, or end the
    /// generation before the first stop sequence held.
    fn release(&mut self) -> (emitted: String)
        requires
            old(self).absorbed(),
        ensures
            final(self).wf(),
            final(self).text@ == old(self).text@ + emitted@,
            final(self).stops@ == old(self).stops@,
            final(self).generated@ == old(self).generated@,
            final(self).eos@ == old(self).eos@,
            final(self).max_new == old(self).max_new,
            final(self).finish is None || final(self).finish == Some(FinishReason::StopSequence),
            final(self).window_start == old(self).window_start,
            final(self).prev_text@ == old(self).prev_text@,
            ({
                let p = utf8(old(self).pending@);
                let sb = stop_bytes(old(self).stops@);
                if first_hit(p, sb) < p.len() {
                    &&& final(self).text@ == old(self).text@ + decode_utf8(p.take(first_hit(p, sb)))
                    &&& final(self).pending@.len() == 0
                    &&& final(self).finish == Some(FinishReason::StopSequence)
                } else {
                    &&& final(self).text@ == old(self).text@ + decode_utf8(p.take(first_held(p, sb)))
                    &&& final(self).pending@ == decode_utf8(p.skip(first_held(p, sb)))
                    &&& final(self).finish is None
                }
            }),
    {
        let ghost sb = stop_bytes(self.stops@);
        proof {
            lemma_utf8_concat(self.text@, self.pending@);
        }
        let ghost t = utf8(self.text@);
        let ghost p = utf8(self.pending@);
        let ps = self.pending.as_str();
        let len = ps.as_bytes().len();
        let chk = check_stop(ps, self.stops.as_slice());
        match chk {
            StopCheck::Hit(i) => {
                let head = substr(self.pending.as_str(), 0, i).to_owned();
                proof {
                    let k = choose|k: int| 0 <= k < sb.len() && #[trigger] occurs_at(p, sb[k], i as int);
                    assert(sb[k] == utf8(self.stops@[k]@));
                    lemma_first_byte_leads(self.stops@[k]@);
                    lemma_first_where(hits(p, sb), 0, p.len() as int, i as int);
                    encode_utf8_decode_utf8(head@);
                    assert(utf8(head@) =~= p.take(i as int));
                    lemma_hit_is_clean(t, p, i as int, self.stops@);
                    lemma_utf8_concat(self.text@, head@);
                    assert(p.subrange(0, i as int) =~= p.take(i as int));
                }
                self.text.append(head.as_str());
                self.pending = String::new();
                self.finish = Some(FinishReason::StopSequence);
                head
            },
            StopCheck::Partial(n) => {
                let split = len - n;
                proof {
                    lemma_check_settles(t, p, split as int, self.stops@);
                    lemma_first_where(hits(p, sb), 0, p.len() as int, p.len() as int);
                    lemma_first_where(holds(p, sb), 0, p.len() as int, split as int);
                }
                let head = substr(self.pending.as_str(), 0, split).to_owned();
                let rest = substr(self.pending.as_str(), split, len).to_owned();
                proof {
                    encode_utf8_decode_utf8(head@);
                    encode_utf8_decode_utf8(rest@);
                    assert(utf8(head@) =~= p.take(split as int));
                    assert(utf8(rest@) =~= p.skip(split as int));
                    lemma_utf8_concat(self.text@, head@);
                    lemma_utf8_concat(self.text@ + head@, rest@);
                    assert(utf8(head@) + utf8(rest@) =~= p);
                    assert(t + utf8(head@) + utf8(rest@) =~= t + p);
                }
                self.text.append(head.as_str());
                self.pending = rest;
                head
            },
            StopCheck::NoMatch => {
                proof {
                    lemma_check_settles(t, p, p.len() as int, self.stops@);
                    lemma_first_where(hits(p, sb), 0, p.len() as int, p.len() as int);
                    lemma_first_where(holds(p, sb), 0, p.len() as int, p.len() as int);
                    encode_utf8_decode_utf8(self.pending@);
                    assert(p.take(p.len() as int) =~= p);
                    assert(p.skip(p.len() as int) =~= Seq::<u8>::empty());
                    assert(decode_utf8(Seq::<u8>::empty()) =~= Seq::<char>::empty());
                }
                let head = self.pending.clone();
                proof {
                    lemma_utf8_concat(self.text@, head@);
                    assert(self.text@ + head@ + Seq::<char>::empty() =~= self.text@ + head@);
                }
                self.text.append(head.as_str());
                self.pending = String::new();
                head
            },
        }
    }

    /// End the generation: let go of what was held back (unless a stop
    /// sequence ended it, which leaves nothing held), and report.
    pub fn close(self) -> (r: Decoded)
        requires
            self.wf(),
        ensures
            r.text@ == self.text_view() + r.tail@,
            r.tail@ == (if self.finish_view() == Some(FinishReason::StopSequence) {
                Seq::empty()
            } else {
                self.pending_view()
            }),
            free_of(utf8(r.text@), stop_bytes(self.stops_view())),
            r.finish == match self.finish_view() {
                Some(f) => f,
                None => FinishReason::Length,
            },
            r.completion_tokens == self.generated_view().len(),
    {
        let finish = match self.finish {
            Some(f) => f,
            None => FinishReason::Length,
        };
        let mut text = self.text;
        let tail = match self.finish {
            Some(FinishReason::StopSequence) => String::new(),
            _ => self.pending,
        };
        proof {
            if self.finish != Some(FinishReason::StopSequence) {
                lemma_utf8_concat(self.text@, self.pending@);
            } else {
                assert(self.text@ + tail@ =~= self.text@);
            }
        }
        text.append(tail.as_str());
        Decoded { text, tail, finish, completion_tokens: self.generated.len() }
    }
}

/// The text a generation shows never contains any of its stop sequences:
/// a stop sequence ends the generation before it, and a tail that could
/// still become one is held back until it no longer can.
pub proof fn law_shown_text_never_holds_a_stop_sequence(d: &Decoder)
    requires
        d.wf(),
    ensures
        free_of(utf8(d.text_view()), stop_bytes(d.stops_view())),
{
    lemma_utf8_concat(d.text_view(), d.pending_view());
    if d.finish_view() != Some(FinishReason::StopSequence) {
        let t = utf8(d.text_view());
        let b = t + utf8(d.pending_view());
        lemma_prefix_free(b, t.len() as int, stop_bytes(d.stops_view()));
        assert(b.take(t.len() as int) =~= t);
    }
}

} // verus!
