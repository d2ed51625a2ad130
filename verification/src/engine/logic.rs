//! Pure logic over text and token ids: stop sequences, streaming deltas,
//! the prompt-cache plan, BOS placement and the ChatML fallback template.
use vstd::prelude::*;
use vstd::string::*;
use vstd::utf8::*;

use crate::kernel::chat::{role_name, Message};
use crate::kernel::model_ref::TokenId;
use crate::text::{occurs_at, find_bytes, substr, utf8};

verus! {

broadcast use vstd::utf8::group_utf8_lib;

// --- stop sequences ------------------------------------------------------------

/// What to do with the text not yet emitted.
#[derive(Debug, Clone, Copy, PartialEq, Eq, Structural)]
pub enum StopCheck {
    /// Emit everything.
    NoMatch,
    /// Emit all but the last `n` bytes: they could be the start of a stop
    /// sequence that a later token completes.
    Partial(usize),
    /// A stop sequence begins at byte `i`. Emit `pending[..i]` and finish.
    Hit(usize),
}

/// The stop sequences as byte strings.
pub open spec fn stop_bytes(stops: Seq<String>) -> Seq<Seq<u8>> {
    stops.map_values(|s: String| utf8(s@))
}

/// One of the first `n` stop sequences begins at byte `i` of `p`.
pub open spec fn hit_among(p: Seq<u8>, stops: Seq<Seq<u8>>, n: int, i: int) -> bool {
    exists|k: int| 0 <= k < n && #[trigger] occurs_at(p, stops[k], i)
}

/// Some stop sequence begins at byte `i` of `p`.
pub open spec fn hit_at(p: Seq<u8>, stops: Seq<Seq<u8>>, i: int) -> bool {
    hit_among(p, stops, stops.len() as int, i)
}

/// `s` is strictly longer than `p[idx..]` and starts with it.
pub open spec fn extends_tail(p: Seq<u8>, idx: int, s: Seq<u8>) -> bool {
    s.len() > p.len() - idx && s.subrange(0, p.len() - idx) == p.subrange(idx, p.len() as int)
}

/// The tail of `p` from character boundary `idx` could be the start of a
/// stop sequence that is not complete yet.
pub open spec fn held_at(p: Seq<u8>, stops: Seq<Seq<u8>>, idx: int) -> bool {
    &&& 0 <= idx < p.len()
    &&& is_char_boundary(p, idx)
    &&& exists|k: int| 0 <= k < stops.len() && #[trigger] extends_tail(p, idx, stops[k])
}

fn tail_starts(p: &[u8], idx: usize, s: &[u8]) -> (r: bool)
    requires
        idx < p@.len(),
    ensures
        r == extends_tail(p@, idx as int, s@),
{
    let n = p.len() - idx;
    if s.len() <= n {
        return false;
    }
    let mut k: usize = 0;
    while k < n
        invariant
            n == p@.len() - idx,
            idx < p@.len(),
            n < s@.len(),
            k <= n,
            forall|j: int| 0 <= j < k ==> s@[j] == p@[idx + j],
        decreases n - k,
    {
        assert(idx + k < p.len());
        if s[k] != p[idx + k] {
            assert(s@.subrange(0, n as int)[k as int] != p@.subrange(idx as int, p@.len() as int)[k as int]);
            return false;
        }
        k += 1;
    }
    assert(s@.subrange(0, n as int) =~= p@.subrange(idx as int, p@.len() as int));
    true
}

/// Decide how much of `pending` is safe to emit given `stops`.
///
/// The earliest place any stop sequence begins is a hit. Otherwise the
/// held-back tail is the longest one, starting on a character boundary, that
/// a stop sequence could still complete.
pub fn check_stop(pending: &str, stops: &[String]) -> (r: StopCheck)
    ensures
        ({
            let p = pending.spec_bytes();
            let s = stop_bytes(stops@);
            let active = stops@.len() > 0 && p.len() > 0;
            &&& r matches StopCheck::Hit(i) ==> active && hit_at(p, s, i as int) && forall|j: int|
                0 <= j < i ==> !hit_at(p, s, j)
            &&& r matches StopCheck::Partial(n) ==> active && (forall|j: int| !hit_at(p, s, j))
                && 0 < n <= p.len() && held_at(p, s, p.len() - n) && forall|idx: int|
                0 <= idx < p.len() - n ==> !held_at(p, s, idx)
            &&& r matches StopCheck::NoMatch ==> !active || ((forall|j: int| !hit_at(p, s, j))
                && forall|idx: int| !held_at(p, s, idx))
        }),
{
    let p = pending.as_bytes();
    let ghost s = stop_bytes(stops@);
    if stops.len() == 0 || p.len() == 0 {
        return StopCheck::NoMatch;
    }
    let mut best: Option<usize> = None;
    let mut k: usize = 0;
    while k < stops.len()
        invariant
            p@ == pending.spec_bytes(),
            s == stop_bytes(stops@),
            k <= stops@.len(),
            match best {
                Some(b) => hit_among(p@, s, k as int, b as int) && forall|j: int|
                    0 <= j < b ==> !hit_among(p@, s, k as int, j),
                None => forall|j: int| !hit_among(p@, s, k as int, j),
            },
        decreases stops@.len() - k,
    {
        let f = find_bytes(p, stops[k].as_str().as_bytes());
        assert(s[k as int] == utf8(stops@[k as int]@));
        let old_best = best;
        match f {
            Some(i) => {
                match best {
                    Some(b) => {
                        if i < b {
                            best = Some(i);
                        }
                    },
                    None => {
                        best = Some(i);
                    },
                }
            },
            None => {},
        }
        proof {
            assert forall|j: int| #[trigger] hit_among(p@, s, k + 1, j) == (hit_among(p@, s, k as int, j)
                || occurs_at(p@, s[k as int], j)) by {
                if occurs_at(p@, s[k as int], j) {
                    assert(hit_among(p@, s, k + 1, j));
                }
                if hit_among(p@, s, k + 1, j) && !occurs_at(p@, s[k as int], j) {
                    let kk = choose|kk: int| 0 <= kk < k + 1 && #[trigger] occurs_at(p@, s[kk], j);
                    assert(kk < k);
                    assert(hit_among(p@, s, k as int, j));
                }
                if hit_among(p@, s, k as int, j) {
                    let kk = choose|kk: int| 0 <= kk < k && #[trigger] occurs_at(p@, s[kk], j);
                    assert(0 <= kk < k + 1 && occurs_at(p@, s[kk], j));
                }
            }
        }
        k += 1;
    }
    match best {
        Some(i) => {
            return StopCheck::Hit(i);
        },
        None => {},
    }
    let len = p.len();
    let mut idx: usize = 0;
    while idx < len
        invariant
            p@ == pending.spec_bytes(),
            s == stop_bytes(stops@),
            len == p@.len(),
            idx <= len,
            stops@.len() > 0,
            forall|j: int| !hit_at(p@, s, j),
            forall|i: int| 0 <= i < idx ==> !held_at(p@, s, i),
        decreases len - idx,
    {
        if pending.is_char_boundary(idx) {
            let mut k: usize = 0;
            while k < stops.len()
                invariant
                    p@ == pending.spec_bytes(),
                    s == stop_bytes(stops@),
                    len == p@.len(),
                    idx < len,
                    is_char_boundary(p@, idx as int),
                    forall|j: int| !hit_at(p@, s, j),
                    forall|i: int| 0 <= i < idx ==> !held_at(p@, s, i),
                    stops@.len() > 0,
                    k <= stops@.len(),
                    forall|kk: int| 0 <= kk < k ==> !extends_tail(p@, idx as int, #[trigger] s[kk]),
                decreases stops@.len() - k,
            {
                assert(s[k as int] == utf8(stops@[k as int]@));
                if tail_starts(p, idx, stops[k].as_str().as_bytes()) {
                    assert(held_at(p@, s, idx as int));
                    return StopCheck::Partial(len - idx);
                }
                k += 1;
            }
        }
        idx += 1;
    }
    StopCheck::NoMatch
}

// --- streaming -----------------------------------------------------------------

/// The UTF-8 encoding of U+FFFD, which a decoder renders for an
/// incomplete character.
pub open spec fn replacement_bytes() -> Seq<u8> {
    seq![0xEFu8, 0xBFu8, 0xBDu8]
}

/// The text ends with U+FFFD.
pub open spec fn ends_with_replacement(b: Seq<u8>) -> bool {
    b.len() >= 3 && b.subrange(b.len() - 3, b.len() as int) == replacement_bytes()
}

/// `b` is a character boundary of `cur` and `prev` and `cur` agree on
/// everything before it.
pub open spec fn common_boundary(prev: Seq<u8>, cur: Seq<u8>, b: int) -> bool {
    &&& 0 <= b <= prev.len()
    &&& b <= cur.len()
    &&& is_char_boundary(cur, b)
    &&& prev.subrange(0, b) == cur.subrange(0, b)
}

/// The text newly completed between two decodes of a growing token list.
///
/// `None` while the current text ends in U+FFFD (a character split across
/// tokens); otherwise the current text after the longest prefix, on a
/// character boundary, that it shares with the previous one. When the
/// previous text is a prefix of the current, that is exactly the rest.
pub fn text_delta<'a>(prev: &str, cur: &'a str) -> (r: Option<&'a str>)
    ensures
        r is None <==> ends_with_replacement(cur.spec_bytes()),
        r matches Some(d) ==> exists|b: int|
            #![trigger common_boundary(prev.spec_bytes(), cur.spec_bytes(), b)]
            {
                &&& common_boundary(prev.spec_bytes(), cur.spec_bytes(), b)
                &&& forall|b2: int| b < b2 ==> !common_boundary(prev.spec_bytes(), cur.spec_bytes(), b2)
                &&& d.spec_bytes() == cur.spec_bytes().subrange(b, cur.spec_bytes().len() as int)
            },
{
    let pb = prev.as_bytes();
    let cb = cur.as_bytes();
    let cl = cb.len();
    if cl >= 3 && cb[cl - 3] == 0xEF && cb[cl - 2] == 0xBF && cb[cl - 1] == 0xBD {
        assert(cb@.subrange(cl - 3, cl as int) =~= replacement_bytes());
        return None;
    }
    proof {
        if ends_with_replacement(cb@) {
            assert(cb@.subrange(cl - 3, cl as int)[0] == cb@[cl - 3]);
            assert(cb@.subrange(cl - 3, cl as int)[1] == cb@[cl - 2]);
            assert(cb@.subrange(cl - 3, cl as int)[2] == cb@[cl - 1]);
        }
    }
    let n = if pb.len() < cl { pb.len() } else { cl };
    let mut i: usize = 0;
    let mut common: usize = 0;
    assert(pb@.subrange(0, 0) =~= cb@.subrange(0, 0));
    while i < n && pb[i] == cb[i]
        invariant
            pb@ == prev.spec_bytes(),
            cb@ == cur.spec_bytes(),
            n == (if pb@.len() < cb@.len() { pb@.len() } else { cb@.len() }),
            i <= n,
            common <= i,
            forall|j: int| 0 <= j < i ==> pb@[j] == cb@[j],
            common_boundary(pb@, cb@, common as int),
            forall|b2: int| common < b2 <= i ==> !is_char_boundary(cb@, b2),
        decreases n - i,
    {
        i += 1;
        if cur.is_char_boundary(i) {
            common = i;
            assert(pb@.subrange(0, i as int) =~= cb@.subrange(0, i as int));
        }
    }
    proof {
        assert forall|b2: int| common < b2 implies !common_boundary(pb@, cb@, b2) by {
            if b2 > i && b2 <= n {
                assert(pb@.subrange(0, b2)[i as int] == pb@[i as int]);
                assert(cb@.subrange(0, b2)[i as int] == cb@[i as int]);
            }
        }
    }
    let d = substr(cur, common, cl);
    Some(d)
}

// --- prompt cache ----------------------------------------------------------------

/// How to reuse a session whose cache holds `cached` when the new prompt is
/// `prompt`.
#[derive(Debug, Clone, Copy, PartialEq, Eq, Structural)]
pub struct PrefillPlan {
    /// Keep this many cached positions; drop the rest.
    pub keep: usize,
    /// Feed `prompt[keep..]`.
    pub feed_from: usize,
}

/// The length of the longest common prefix of two token lists.
pub open spec fn common_prefix_len(a: Seq<TokenId>, b: Seq<TokenId>) -> nat
    decreases a.len(),
{
    if a.len() > 0 && b.len() > 0 && a[0] == b[0] {
        1 + common_prefix_len(a.drop_first(), b.drop_first())
    } else {
        0
    }
}

proof fn lemma_common_prefix(a: Seq<TokenId>, b: Seq<TokenId>, i: int)
    requires
        0 <= i <= a.len(),
        i <= b.len(),
        forall|j: int| 0 <= j < i ==> a[j] == b[j],
        i == a.len() || i == b.len() || a[i] != b[i],
    ensures
        common_prefix_len(a, b) == i,
    decreases i,
{
    if i > 0 {
        lemma_common_prefix(a.drop_first(), b.drop_first(), i - 1);
    }
}

/// The plan for a prompt against a cache: keep the longest common prefix,
/// except that at least one token is always fed, because the logits for the
/// next position only exist after a feed.
pub open spec fn prefill_keep(cached: Seq<TokenId>, prompt: Seq<TokenId>) -> nat {
    let l = common_prefix_len(cached, prompt);
    if l == prompt.len() && l > 0 {
        (l - 1) as nat
    } else {
        l
    }
}

/// Keep the longest common prefix of the cache and the prompt -- except
/// that at least one prompt token is always fed. A prompt identical to the
/// cache re-feeds its last token.
pub fn plan_prefill(cached: &[TokenId], prompt: &[TokenId]) -> (plan: PrefillPlan)
    ensures
        plan.keep == prefill_keep(cached@, prompt@),
        plan.feed_from == plan.keep,
        plan.keep <= cached@.len(),
        cached@.subrange(0, plan.keep as int) == prompt@.subrange(0, plan.keep as int),
        prompt@.len() > 0 ==> plan.feed_from < prompt@.len(),
{
    let n = if cached.len() < prompt.len() { cached.len() } else { prompt.len() };
    let mut i: usize = 0;
    while i < n && cached[i] == prompt[i]
        invariant
            n == (if cached@.len() < prompt@.len() { cached@.len() } else { prompt@.len() }),
            i <= n,
            forall|j: int| 0 <= j < i ==> cached@[j] == prompt@[j],
        decreases n - i,
    {
        i += 1;
    }
    proof {
        lemma_common_prefix(cached@, prompt@, i as int);
    }
    let keep = if i == prompt.len() && i > 0 { i - 1 } else { i };
    assert(cached@.subrange(0, keep as int) =~= prompt@.subrange(0, keep as int));
    PrefillPlan { keep, feed_from: keep }
}

/// A prompt that extends what the cache holds feeds only its new tail.
pub proof fn law_a_growing_prompt_feeds_only_its_tail(cached: Seq<TokenId>, prompt: Seq<TokenId>)
    requires
        cached.len() < prompt.len(),
        prompt.subrange(0, cached.len() as int) == cached,
    ensures
        prefill_keep(cached, prompt) == cached.len(),
{
    assert forall|j: int| 0 <= j < cached.len() implies cached[j] == prompt[j] by {
        assert(prompt.subrange(0, cached.len() as int)[j] == prompt[j]);
    }
    lemma_common_prefix(cached, prompt, cached.len() as int);
}

// --- BOS -------------------------------------------------------------------------

/// Whether a BOS should be prepended: only if the checkpoint wants one and
/// the prompt does not already begin with its text (a doubled BOS hurts).
pub fn needs_bos(prompt: &str, bos_text: Option<&str>, add_bos: bool) -> (r: bool)
    ensures
        r == (add_bos && match bos_text {
            Some(b) => b@.len() == 0 || !occurs_at(prompt.spec_bytes(), b.spec_bytes(), 0),
            None => true,
        }),
{
    if !add_bos {
        return false;
    }
    match bos_text {
        Some(b) => {
            if b.is_empty() {
                return true;
            }
            !crate::text::bytes_occur_at(prompt.as_bytes(), b.as_bytes(), 0)
        },
        None => true,
    }
}

// --- ChatML ----------------------------------------------------------------------

/// The closing tag of a ChatML turn, also used as a stop sequence when the
/// ChatML fallback renders the prompt.
pub const CHATML_STOP: &'static str = "<|im_end|>";

/// The ChatML rendering of the turns, without the opened assistant turn.
pub open spec fn chatml_turns(ms: Seq<Message>) -> Seq<char>
    decreases ms.len(),
{
    if ms.len() == 0 {
        Seq::empty()
    } else {
        let m = ms.last();
        chatml_turns(ms.drop_last()) + "<|im_start|>"@ + role_name(m.role) + "\n"@ + m.content@
            + "<|im_end|>\n"@
    }
}

/// The full ChatML prompt: every turn, then the assistant's turn opened.
pub open spec fn chatml_prompt(ms: Seq<Message>) -> Seq<char> {
    chatml_turns(ms) + "<|im_start|>assistant\n"@
}

/// The fallback when a checkpoint carries no template: ChatML.
pub fn chatml(messages: &[Message]) -> (out: String)
    ensures
        out@ == chatml_prompt(messages@),
{
    let mut out = String::new();
    let mut i: usize = 0;
    while i < messages.len()
        invariant
            i <= messages@.len(),
            out@ == chatml_turns(messages@.subrange(0, i as int)),
        decreases messages@.len() - i,
    {
        let m = &messages[i];
        out.append("<|im_start|>");
        out.append(m.role.as_str());
        out.append("\n");
        out.append(m.content.as_str());
        out.append("<|im_end|>\n");
        assert(messages@.subrange(0, i + 1).drop_last() =~= messages@.subrange(0, i as int));
        i += 1;
    }
    assert(messages@.subrange(0, i as int) =~= messages@);
    out.append("<|im_start|>assistant\n");
    out
}

} // verus!
