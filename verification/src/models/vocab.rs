//! A vocabulary as a checkpoint describes it, lifted out of its
//! `tokenizer.*` metadata before any tokenizer has seen it, and written
//! back. The per-token scores are floats; they are read beside this by the
//! loader.
use vstd::prelude::*;
use vstd::string::*;

use crate::kernel::error::{Error, Result};
use crate::kernel::model_ref::TokenId;
use crate::models::config::{meta_get, meta_str, meta_u64};
use crate::models::meta::{MetaValue, Metadata};
use crate::text::string_views;

verus! {

/// The vocabulary of a checkpoint. `model` is the tokenizer type the file
/// names (`"llama"`, `"gpt2"`, ...), `pre` its pre-tokenizer variant, and
/// `token_types` follow the GGUF convention (1 normal, 2 unknown, 3
/// control, 4 user-defined, 5 unused, 6 byte).
#[derive(Debug, Clone, Default, PartialEq, Eq)]
pub struct Vocabulary {
    pub model: String,
    pub pre: Option<String>,
    pub tokens: Vec<String>,
    pub token_types: Vec<i32>,
    pub merges: Vec<String>,
    pub bos_token_id: Option<TokenId>,
    /// Every id that ends a generation: Llama 3 has two.
    pub eos_token_ids: Vec<TokenId>,
    pub unk_token_id: Option<TokenId>,
    pub pad_token_id: Option<TokenId>,
    pub add_bos_token: Option<bool>,
    pub add_eos_token: Option<bool>,
    /// The Jinja chat template embedded in the checkpoint, if any.
    pub chat_template: Option<String>,
}

impl Vocabulary {
    /// Whether `id` ends a generation.
    pub fn is_eos(&self, id: TokenId) -> (r: bool)
        ensures
            r == self.eos_token_ids@.contains(id),
    {
        let mut i: usize = 0;
        while i < self.eos_token_ids.len()
            invariant
                i <= self.eos_token_ids@.len(),
                forall|j: int| 0 <= j < i ==> self.eos_token_ids@[j] != id,
            decreases self.eos_token_ids@.len() - i,
        {
            if self.eos_token_ids[i] == id {
                assert(self.eos_token_ids@[i as int] == id);
                return true;
            }
            i += 1;
        }
        false
    }
}

/// A vocabulary as plain values.
pub struct VocabView {
    pub model: Seq<char>,
    pub pre: Option<Seq<char>>,
    pub tokens: Seq<Seq<char>>,
    pub token_types: Seq<i32>,
    pub merges: Seq<Seq<char>>,
    pub bos: Option<TokenId>,
    pub eos: Seq<TokenId>,
    pub unk: Option<TokenId>,
    pub pad: Option<TokenId>,
    pub add_bos: Option<bool>,
    pub add_eos: Option<bool>,
    pub chat_template: Option<Seq<char>>,
}

pub open spec fn text_opt(o: Option<String>) -> Option<Seq<char>> {
    match o {
        Some(s) => Some(s@),
        None => None,
    }
}

impl View for Vocabulary {
    type V = VocabView;

    open spec fn view(&self) -> VocabView {
        VocabView {
            model: self.model@,
            pre: text_opt(self.pre),
            tokens: string_views(self.tokens@),
            token_types: self.token_types@,
            merges: string_views(self.merges@),
            bos: self.bos_token_id,
            eos: self.eos_token_ids@,
            unk: self.unk_token_id,
            pad: self.pad_token_id,
            add_bos: self.add_bos_token,
            add_eos: self.add_eos_token,
            chat_template: text_opt(self.chat_template),
        }
    }
}

/// The text elements of an array, in order; others are skipped.
pub open spec fn strs_in(a: Seq<MetaValue>) -> Seq<Seq<char>>
    decreases a.len(),
{
    if a.len() == 0 {
        Seq::empty()
    } else {
        match a.last() {
            MetaValue::Str(s) => strs_in(a.drop_last()).push(s@),
            _ => strs_in(a.drop_last()),
        }
    }
}

/// An integer element as an `i32`, saturating; none for anything else.
pub open spec fn i32_of(v: MetaValue) -> Option<i32> {
    match v {
        MetaValue::U8(x) => Some(x as i32),
        MetaValue::I8(x) => Some(x as i32),
        MetaValue::U16(x) => Some(x as i32),
        MetaValue::I16(x) => Some(x as i32),
        MetaValue::I32(x) => Some(x),
        MetaValue::U32(x) => Some(if x > i32::MAX { i32::MAX } else { x as i32 }),
        MetaValue::U64(x) => Some(if x > i32::MAX { i32::MAX } else { x as i32 }),
        MetaValue::I64(x) => Some(
            if x > i32::MAX {
                i32::MAX
            } else if x < i32::MIN {
                i32::MIN
            } else {
                x as i32
            },
        ),
        _ => None,
    }
}

/// The integer elements of an array, in order; others are skipped.
pub open spec fn ints_in(a: Seq<MetaValue>) -> Seq<i32>
    decreases a.len(),
{
    if a.len() == 0 {
        Seq::empty()
    } else {
        match i32_of(a.last()) {
            Some(x) => ints_in(a.drop_last()).push(x),
            None => ints_in(a.drop_last()),
        }
    }
}

/// A list of texts under a key; empty when absent or not an array.
pub open spec fn meta_strs(m: Map<Seq<char>, MetaValue>, k: Seq<char>) -> Seq<Seq<char>> {
    match meta_get(m, k) {
        Some(MetaValue::Array(a)) => strs_in(a@),
        _ => Seq::empty(),
    }
}

/// A list of integers under a key; empty when absent or not an array.
pub open spec fn meta_ints(m: Map<Seq<char>, MetaValue>, k: Seq<char>) -> Seq<i32> {
    match meta_get(m, k) {
        Some(MetaValue::Array(a)) => ints_in(a@),
        _ => Seq::empty(),
    }
}

pub open spec fn meta_bool(m: Map<Seq<char>, MetaValue>, k: Seq<char>) -> Option<bool> {
    match meta_get(m, k) {
        Some(MetaValue::Bool(b)) => Some(b),
        _ => None,
    }
}

/// A token id under a key: a non-negative integer that fits a token id.
pub open spec fn meta_token(m: Map<Seq<char>, MetaValue>, k: Seq<char>) -> Option<TokenId> {
    match meta_u64(m, k) {
        Some(x) => if x <= u32::MAX {
            Some(x as u32)
        } else {
            None
        },
        None => None,
    }
}

/// `ids` with `id` added at the end unless absent or already there.
pub open spec fn with_id(ids: Seq<TokenId>, id: Option<TokenId>) -> Seq<TokenId> {
    match id {
        Some(x) => if ids.contains(x) {
            ids
        } else {
            ids.push(x)
        },
        None => ids,
    }
}

/// Every end-of-generation id the metadata names: the EOS, then the
/// end-of-turn and end-of-message ids, each once.
pub open spec fn eos_ids_of(m: Map<Seq<char>, MetaValue>) -> Seq<TokenId> {
    with_id(
        with_id(
            with_id(Seq::empty(), meta_token(m, "tokenizer.ggml.eos_token_id"@)),
            meta_token(m, "tokenizer.ggml.eot_token_id"@),
        ),
        meta_token(m, "tokenizer.ggml.eom_token_id"@),
    )
}

/// The refusal of metadata without tokens.
pub open spec fn no_tokens_message() -> Seq<char> {
    "metadata has no tokenizer.ggml.tokens; this file carries no vocabulary"@
}

/// The vocabulary metadata describes, or why there is none: without
/// tokens a model cannot be talked to; everything else is optional.
pub open spec fn vocabulary_of(m: Map<Seq<char>, MetaValue>) -> core::result::Result<VocabView, Seq<char>> {
    let tokens = meta_strs(m, "tokenizer.ggml.tokens"@);
    if tokens.len() == 0 {
        Err(no_tokens_message())
    } else {
        Ok(
            VocabView {
                model: match meta_str(m, "tokenizer.ggml.model"@) {
                    Some(s) => s,
                    None => Seq::empty(),
                },
                pre: meta_str(m, "tokenizer.ggml.pre"@),
                tokens,
                token_types: meta_ints(m, "tokenizer.ggml.token_type"@),
                merges: meta_strs(m, "tokenizer.ggml.merges"@),
                bos: meta_token(m, "tokenizer.ggml.bos_token_id"@),
                eos: eos_ids_of(m),
                unk: meta_token(m, "tokenizer.ggml.unknown_token_id"@),
                pad: meta_token(m, "tokenizer.ggml.padding_token_id"@),
                add_bos: meta_bool(m, "tokenizer.ggml.add_bos_token"@),
                add_eos: meta_bool(m, "tokenizer.ggml.add_eos_token"@),
                chat_template: meta_str(m, "tokenizer.chat_template"@),
            },
        )
    }
}

fn text_at(meta: &Metadata, key: &str) -> (r: Option<String>)
    ensures
        text_opt(r) == meta_str(meta@, key@),
{
    match meta.get(key) {
        Some(v) => match v.as_str() {
            Some(s) => Some(s.to_owned()),
            None => None,
        },
        None => None,
    }
}

fn texts_at(meta: &Metadata, key: &str) -> (r: Vec<String>)
    ensures
        string_views(r@) == meta_strs(meta@, key@),
{
    let a = match meta.get(key) {
        Some(v) => match v.as_array() {
            Some(a) => a,
            None => return Vec::new(),
        },
        None => return Vec::new(),
    };
    let mut out: Vec<String> = Vec::new();
    let mut i: usize = 0;
    while i < a.len()
        invariant
            i <= a@.len(),
            string_views(out@) == strs_in(a@.take(i as int)),
        decreases a@.len() - i,
    {
        assert(a@.take(i + 1).drop_last() =~= a@.take(i as int));
        assert(a@.take(i + 1).last() == a@[i as int]);
        match a[i].as_str() {
            Some(s) => {
                let ghost o = out@;
                out.push(s.to_owned());
                assert(string_views(out@) =~= string_views(o).push(s@));
            },
            None => {},
        }
        i += 1;
    }
    assert(a@.take(i as int) =~= a@);
    out
}

fn clamp_i32(v: &MetaValue) -> (r: Option<i32>)
    ensures
        r == i32_of(*v),
{
    match v {
        MetaValue::U8(x) => Some(*x as i32),
        MetaValue::I8(x) => Some(*x as i32),
        MetaValue::U16(x) => Some(*x as i32),
        MetaValue::I16(x) => Some(*x as i32),
        MetaValue::I32(x) => Some(*x),
        MetaValue::U32(x) => Some(if *x > 2147483647u32 { i32::MAX } else { *x as i32 }),
        MetaValue::U64(x) => Some(if *x > 2147483647u64 { i32::MAX } else { *x as i32 }),
        MetaValue::I64(x) => Some(
            if *x > 2147483647i64 {
                i32::MAX
            } else if *x < -2147483648i64 {
                i32::MIN
            } else {
                *x as i32
            },
        ),
        _ => None,
    }
}

fn ints_at(meta: &Metadata, key: &str) -> (r: Vec<i32>)
    ensures
        r@ == meta_ints(meta@, key@),
{
    let a = match meta.get(key) {
        Some(v) => match v.as_array() {
            Some(a) => a,
            None => return Vec::new(),
        },
        None => return Vec::new(),
    };
    let mut out: Vec<i32> = Vec::new();
    let mut i: usize = 0;
    while i < a.len()
        invariant
            i <= a@.len(),
            out@ == ints_in(a@.take(i as int)),
        decreases a@.len() - i,
    {
        assert(a@.take(i + 1).drop_last() =~= a@.take(i as int));
        assert(a@.take(i + 1).last() == a@[i as int]);
        match clamp_i32(&a[i]) {
            Some(x) => out.push(x),
            None => {},
        }
        i += 1;
    }
    assert(a@.take(i as int) =~= a@);
    out
}

fn token_at(meta: &Metadata, key: &str) -> (r: Option<TokenId>)
    ensures
        r == meta_token(meta@, key@),
{
    match meta.get(key) {
        Some(v) => match v.as_u64() {
            Some(x) => if x <= 4294967295u64 {
                Some(x as u32)
            } else {
                None
            },
            None => None,
        },
        None => None,
    }
}

fn bool_at(meta: &Metadata, key: &str) -> (r: Option<bool>)
    ensures
        r == meta_bool(meta@, key@),
{
    match meta.get(key) {
        Some(v) => v.as_bool(),
        None => None,
    }
}

fn add_id(ids: &mut Vec<TokenId>, id: Option<TokenId>)
    ensures
        final(ids)@ == with_id(old(ids)@, id),
{
    match id {
        Some(x) => {
            let mut found = false;
            let mut i: usize = 0;
            while i < ids.len() && !found
                invariant
                    i <= ids@.len(),
                    found ==> ids@.contains(x),
                    !found ==> forall|j: int| 0 <= j < i ==> ids@[j] != x,
                decreases ids@.len() - i,
            {
                if ids[i] == x {
                    assert(ids@[i as int] == x);
                    found = true;
                }
                i += 1;
            }
            if !found {
                ids.push(x);
            }
        },
        None => {},
    }
}

/// Each element is the text at the same place.
pub open spec fn strs_are(a: Seq<MetaValue>, ss: Seq<Seq<char>>) -> bool {
    &&& a.len() == ss.len()
    &&& forall|i: int| 0 <= i < a.len() ==> (#[trigger] a[i] matches MetaValue::Str(s) && s@ == ss[i])
}

/// Each element is the `i32` at the same place.
pub open spec fn ints_are(a: Seq<MetaValue>, xs: Seq<i32>) -> bool {
    &&& a.len() == xs.len()
    &&& forall|i: int| 0 <= i < a.len() ==> #[trigger] a[i] == MetaValue::I32(xs[i])
}

/// The keys a vocabulary is written under.
pub open spec fn vocab_key_set() -> Set<Seq<char>> {
    set![
        "tokenizer.ggml.model"@,
        "tokenizer.ggml.pre"@,
        "tokenizer.ggml.tokens"@,
        "tokenizer.ggml.token_type"@,
        "tokenizer.ggml.merges"@,
        "tokenizer.ggml.bos_token_id"@,
        "tokenizer.ggml.eos_token_id"@,
        "tokenizer.ggml.eot_token_id"@,
        "tokenizer.ggml.eom_token_id"@,
        "tokenizer.ggml.unknown_token_id"@,
        "tokenizer.ggml.padding_token_id"@,
        "tokenizer.ggml.add_bos_token"@,
        "tokenizer.ggml.add_eos_token"@,
        "tokenizer.chat_template"@,
    ]
}

/// That `m` is what `vocabulary_to_metadata` writes for `v`: the type
/// always, every other field only when it is there (GGUF has no empty
/// typed array), lists as arrays, ids as `u32`s, the first three
/// end-of-generation ids as the EOS, end-of-turn and end-of-message ids.
pub open spec fn vocab_written(m: Map<Seq<char>, MetaValue>, v: VocabView) -> bool {
    &&& m.dom().subset_of(vocab_key_set())
    &&& m.contains_key("tokenizer.ggml.model"@)
    &&& m["tokenizer.ggml.model"@] matches MetaValue::Str(s) && s@ == v.model
    &&& m.contains_key("tokenizer.ggml.pre"@) == v.pre is Some
    &&& v.pre matches Some(p) ==> (m["tokenizer.ggml.pre"@] matches MetaValue::Str(s) && s@ == p)
    &&& m.contains_key("tokenizer.ggml.tokens"@) == (v.tokens.len() > 0)
    &&& v.tokens.len() > 0 ==> (m["tokenizer.ggml.tokens"@] matches MetaValue::Array(a) && strs_are(a@, v.tokens))
    &&& m.contains_key("tokenizer.ggml.token_type"@) == (v.token_types.len() > 0)
    &&& v.token_types.len() > 0 ==> (m["tokenizer.ggml.token_type"@] matches MetaValue::Array(a) && ints_are(
        a@,
        v.token_types,
    ))
    &&& m.contains_key("tokenizer.ggml.merges"@) == (v.merges.len() > 0)
    &&& v.merges.len() > 0 ==> (m["tokenizer.ggml.merges"@] matches MetaValue::Array(a) && strs_are(a@, v.merges))
    &&& m.contains_key("tokenizer.ggml.bos_token_id"@) == v.bos is Some
    &&& v.bos matches Some(i) ==> m["tokenizer.ggml.bos_token_id"@] == MetaValue::U32(i)
    &&& m.contains_key("tokenizer.ggml.eos_token_id"@) == (v.eos.len() > 0)
    &&& v.eos.len() > 0 ==> m["tokenizer.ggml.eos_token_id"@] == MetaValue::U32(v.eos[0])
    &&& m.contains_key("tokenizer.ggml.eot_token_id"@) == (v.eos.len() > 1)
    &&& v.eos.len() > 1 ==> m["tokenizer.ggml.eot_token_id"@] == MetaValue::U32(v.eos[1])
    &&& m.contains_key("tokenizer.ggml.eom_token_id"@) == (v.eos.len() > 2)
    &&& v.eos.len() > 2 ==> m["tokenizer.ggml.eom_token_id"@] == MetaValue::U32(v.eos[2])
    &&& m.contains_key("tokenizer.ggml.unknown_token_id"@) == v.unk is Some
    &&& v.unk matches Some(i) ==> m["tokenizer.ggml.unknown_token_id"@] == MetaValue::U32(i)
    &&& m.contains_key("tokenizer.ggml.padding_token_id"@) == v.pad is Some
    &&& v.pad matches Some(i) ==> m["tokenizer.ggml.padding_token_id"@] == MetaValue::U32(i)
    &&& m.contains_key("tokenizer.ggml.add_bos_token"@) == v.add_bos is Some
    &&& v.add_bos matches Some(b) ==> m["tokenizer.ggml.add_bos_token"@] == MetaValue::Bool(b)
    &&& m.contains_key("tokenizer.ggml.add_eos_token"@) == v.add_eos is Some
    &&& v.add_eos matches Some(b) ==> m["tokenizer.ggml.add_eos_token"@] == MetaValue::Bool(b)
    &&& m.contains_key("tokenizer.chat_template"@) == v.chat_template is Some
    &&& v.chat_template matches Some(t) ==> (m["tokenizer.chat_template"@] matches MetaValue::Str(s) && s@ == t)
}

/// The keys of the same length differ, so no write replaces another.
proof fn lemma_vocab_keys_differ()
    ensures
        "tokenizer.ggml.tokens"@ != "tokenizer.ggml.merges"@,
        "tokenizer.ggml.bos_token_id"@ != "tokenizer.ggml.eos_token_id"@,
        "tokenizer.ggml.bos_token_id"@ != "tokenizer.ggml.eot_token_id"@,
        "tokenizer.ggml.bos_token_id"@ != "tokenizer.ggml.eom_token_id"@,
        "tokenizer.ggml.eos_token_id"@ != "tokenizer.ggml.eot_token_id"@,
        "tokenizer.ggml.eos_token_id"@ != "tokenizer.ggml.eom_token_id"@,
        "tokenizer.ggml.eot_token_id"@ != "tokenizer.ggml.eom_token_id"@,
        "tokenizer.ggml.add_bos_token"@ != "tokenizer.ggml.add_eos_token"@,
        "tokenizer.ggml.unknown_token_id"@ != "tokenizer.ggml.padding_token_id"@,
        "tokenizer.ggml.model"@.len() == 20,
        "tokenizer.ggml.pre"@.len() == 18,
        "tokenizer.ggml.tokens"@.len() == 21,
        "tokenizer.ggml.merges"@.len() == 21,
        "tokenizer.ggml.token_type"@.len() == 25,
        "tokenizer.ggml.bos_token_id"@.len() == 27,
        "tokenizer.ggml.eos_token_id"@.len() == 27,
        "tokenizer.ggml.eot_token_id"@.len() == 27,
        "tokenizer.ggml.eom_token_id"@.len() == 27,
        "tokenizer.ggml.add_bos_token"@.len() == 28,
        "tokenizer.ggml.add_eos_token"@.len() == 28,
        "tokenizer.ggml.unknown_token_id"@.len() == 31,
        "tokenizer.ggml.padding_token_id"@.len() == 31,
        "tokenizer.chat_template"@.len() == 23,
{
    reveal_strlit("tokenizer.ggml.model");
    reveal_strlit("tokenizer.ggml.pre");
    reveal_strlit("tokenizer.ggml.tokens");
    reveal_strlit("tokenizer.ggml.merges");
    reveal_strlit("tokenizer.ggml.token_type");
    reveal_strlit("tokenizer.ggml.bos_token_id");
    reveal_strlit("tokenizer.ggml.eos_token_id");
    reveal_strlit("tokenizer.ggml.eot_token_id");
    reveal_strlit("tokenizer.ggml.eom_token_id");
    reveal_strlit("tokenizer.ggml.add_bos_token");
    reveal_strlit("tokenizer.ggml.add_eos_token");
    reveal_strlit("tokenizer.ggml.unknown_token_id");
    reveal_strlit("tokenizer.ggml.padding_token_id");
    reveal_strlit("tokenizer.chat_template");
    assert("tokenizer.ggml.tokens"@[15] != "tokenizer.ggml.merges"@[15]);
    assert("tokenizer.ggml.bos_token_id"@[15] != "tokenizer.ggml.eos_token_id"@[15]);
    assert("tokenizer.ggml.bos_token_id"@[15] != "tokenizer.ggml.eot_token_id"@[15]);
    assert("tokenizer.ggml.bos_token_id"@[15] != "tokenizer.ggml.eom_token_id"@[15]);
    assert("tokenizer.ggml.eos_token_id"@[17] != "tokenizer.ggml.eot_token_id"@[17]);
    assert("tokenizer.ggml.eos_token_id"@[17] != "tokenizer.ggml.eom_token_id"@[17]);
    assert("tokenizer.ggml.eot_token_id"@[17] != "tokenizer.ggml.eom_token_id"@[17]);
    assert("tokenizer.ggml.add_bos_token"@[19] != "tokenizer.ggml.add_eos_token"@[19]);
    assert("tokenizer.ggml.unknown_token_id"@[15] != "tokenizer.ggml.padding_token_id"@[15]);
}

proof fn lemma_strs_read_back(a: Seq<MetaValue>, ss: Seq<Seq<char>>)
    requires
        strs_are(a, ss),
    ensures
        strs_in(a) == ss,
    decreases a.len(),
{
    if a.len() > 0 {
        let n = a.len() - 1;
        assert(a.drop_last()[n - 1] == a[n - 1] || n == 0);
        assert(strs_are(a.drop_last(), ss.drop_last())) by {
            assert forall|i: int| 0 <= i < a.drop_last().len() implies (#[trigger] a.drop_last()[i] matches MetaValue::Str(
                s,
            ) && s@ == ss.drop_last()[i]) by {
                assert(a.drop_last()[i] == a[i]);
            }
        }
        lemma_strs_read_back(a.drop_last(), ss.drop_last());
        assert(a.last() == a[n]);
        assert(ss.drop_last().push(ss.last()) =~= ss);
    } else {
        assert(ss =~= Seq::<Seq<char>>::empty());
    }
}

proof fn lemma_ints_read_back(a: Seq<MetaValue>, xs: Seq<i32>)
    requires
        ints_are(a, xs),
    ensures
        ints_in(a) == xs,
    decreases a.len(),
{
    if a.len() > 0 {
        let n = a.len() - 1;
        assert(ints_are(a.drop_last(), xs.drop_last())) by {
            assert forall|i: int| 0 <= i < a.drop_last().len() implies #[trigger] a.drop_last()[i]
                == MetaValue::I32(xs.drop_last()[i]) by {
                assert(a.drop_last()[i] == a[i]);
            }
        }
        lemma_ints_read_back(a.drop_last(), xs.drop_last());
        assert(a.last() == a[n]);
        assert(xs.drop_last().push(xs.last()) =~= xs);
    } else {
        assert(xs =~= Seq::<i32>::empty());
    }
}

/// A vocabulary written as metadata reads back as itself, when it has
/// tokens (without them there is no vocabulary to read) and at most three
/// distinct end-of-generation ids (the three keys that hold them).
pub proof fn law_vocabulary_round_trips_through_metadata(v: VocabView, m: Map<Seq<char>, MetaValue>)
    requires
        vocab_written(m, v),
        v.tokens.len() > 0,
        v.eos.len() <= 3,
        v.eos.no_duplicates(),
    ensures
        vocabulary_of(m) == Ok::<VocabView, Seq<char>>(v),
{
    lemma_vocab_keys_differ();
    let a = m["tokenizer.ggml.tokens"@]->Array_0;
    lemma_strs_read_back(a@, v.tokens);
    if v.merges.len() > 0 {
        lemma_strs_read_back(m["tokenizer.ggml.merges"@]->Array_0@, v.merges);
    } else {
        assert(v.merges =~= Seq::<Seq<char>>::empty());
    }
    if v.token_types.len() > 0 {
        lemma_ints_read_back(m["tokenizer.ggml.token_type"@]->Array_0@, v.token_types);
    } else {
        assert(v.token_types =~= Seq::<i32>::empty());
    }
    let e = eos_ids_of(m);
    let e0 = with_id(Seq::empty(), meta_token(m, "tokenizer.ggml.eos_token_id"@));
    let e1 = with_id(e0, meta_token(m, "tokenizer.ggml.eot_token_id"@));
    if v.eos.len() == 0 {
        assert(e =~= v.eos);
    } else if v.eos.len() == 1 {
        assert(e0 =~= seq![v.eos[0]]);
        assert(e =~= v.eos);
    } else if v.eos.len() == 2 {
        assert(e0 =~= seq![v.eos[0]]);
        assert(!e0.contains(v.eos[1])) by {
            assert(v.eos[0] != v.eos[1]);
        }
        assert(e1 =~= seq![v.eos[0], v.eos[1]]);
        assert(e =~= v.eos);
    } else {
        assert(e0 =~= seq![v.eos[0]]);
        assert(v.eos[0] != v.eos[1] && v.eos[0] != v.eos[2] && v.eos[1] != v.eos[2]);
        assert(!e0.contains(v.eos[1]));
        assert(e1 =~= seq![v.eos[0], v.eos[1]]);
        assert(!e1.contains(v.eos[2])) by {
            if e1.contains(v.eos[2]) {
                let j = choose|j: int| 0 <= j < e1.len() && e1[j] == v.eos[2];
                assert(j == 0 || j == 1);
            }
        }
        assert(e =~= v.eos);
    }
}

/// Lift the `tokenizer.*` metadata into a vocabulary. Every
/// end-of-generation id the file names is collected: the EOS and, where
/// present, the end-of-turn and end-of-message ids.
pub fn vocabulary_from_metadata(meta: &Metadata) -> (r: Result<Vocabulary>)
    ensures
        match vocabulary_of(meta@) {
            Ok(v) => r matches Ok(x) && x@ == v,
            Err(msg) => r matches Err(Error::Invalid(x)) && x@ == msg,
        },
{
    let tokens = texts_at(meta, "tokenizer.ggml.tokens");
    if tokens.len() == 0 {
        return Err(Error::invalid("metadata has no tokenizer.ggml.tokens; this file carries no vocabulary"));
    }
    let mut eos: Vec<TokenId> = Vec::new();
    add_id(&mut eos, token_at(meta, "tokenizer.ggml.eos_token_id"));
    add_id(&mut eos, token_at(meta, "tokenizer.ggml.eot_token_id"));
    add_id(&mut eos, token_at(meta, "tokenizer.ggml.eom_token_id"));
    let model = match text_at(meta, "tokenizer.ggml.model") {
        Some(s) => s,
        None => String::new(),
    };
    let v = Vocabulary {
        model,
        pre: text_at(meta, "tokenizer.ggml.pre"),
        tokens,
        token_types: ints_at(meta, "tokenizer.ggml.token_type"),
        merges: texts_at(meta, "tokenizer.ggml.merges"),
        bos_token_id: token_at(meta, "tokenizer.ggml.bos_token_id"),
        eos_token_ids: eos,
        unk_token_id: token_at(meta, "tokenizer.ggml.unknown_token_id"),
        pad_token_id: token_at(meta, "tokenizer.ggml.padding_token_id"),
        add_bos_token: bool_at(meta, "tokenizer.ggml.add_bos_token"),
        add_eos_token: bool_at(meta, "tokenizer.ggml.add_eos_token"),
        chat_template: text_at(meta, "tokenizer.chat_template"),
    };
    assert(v@ == vocabulary_of(meta@)->Ok_0);
    Ok(v)
}

fn str_values(ss: &Vec<String>) -> (r: Vec<MetaValue>)
    ensures
        strs_are(r@, string_views(ss@)),
{
    let mut out: Vec<MetaValue> = Vec::new();
    let mut i: usize = 0;
    while i < ss.len()
        invariant
            i <= ss@.len(),
            out@.len() == i,
            forall|j: int| 0 <= j < i ==> (#[trigger] out@[j] matches MetaValue::Str(s) && s@ == ss@[j]@),
        decreases ss@.len() - i,
    {
        out.push(MetaValue::Str(ss[i].clone()));
        i += 1;
    }
    out
}

fn int_values(xs: &Vec<i32>) -> (r: Vec<MetaValue>)
    ensures
        ints_are(r@, xs@),
{
    let mut out: Vec<MetaValue> = Vec::new();
    let mut i: usize = 0;
    while i < xs.len()
        invariant
            i <= xs@.len(),
            out@.len() == i,
            forall|j: int| 0 <= j < i ==> #[trigger] out@[j] == MetaValue::I32(xs@[j]),
        decreases xs@.len() - i,
    {
        out.push(MetaValue::I32(xs[i]));
        i += 1;
    }
    out
}

/// `m` with `k` set to the value, if there is one.
pub open spec fn put(m: Map<Seq<char>, MetaValue>, k: Seq<char>, o: Option<MetaValue>) -> Map<Seq<char>, MetaValue> {
    match o {
        Some(x) => m.insert(k, x),
        None => m,
    }
}

fn put_value(m: &mut Metadata, key: &str, o: Option<MetaValue>)
    ensures
        final(m)@ == put(old(m)@, key@, o),
{
    match o {
        Some(x) => m.insert(key.to_owned(), x),
        None => {},
    }
}

fn text_value(o: &Option<String>) -> (r: Option<MetaValue>)
    ensures
        match *o {
            Some(s) => r matches Some(MetaValue::Str(x)) && x@ == s@,
            None => r is None,
        },
{
    match o {
        Some(s) => Some(MetaValue::Str(s.clone())),
        None => None,
    }
}

fn id_value(o: Option<TokenId>) -> (r: Option<MetaValue>)
    ensures
        r == match o {
            Some(i) => Some(MetaValue::U32(i)),
            None => None::<MetaValue>,
        },
{
    match o {
        Some(i) => Some(MetaValue::U32(i)),
        None => None,
    }
}

fn flag_value(o: Option<bool>) -> (r: Option<MetaValue>)
    ensures
        r == match o {
            Some(b) => Some(MetaValue::Bool(b)),
            None => None::<MetaValue>,
        },
{
    match o {
        Some(b) => Some(MetaValue::Bool(b)),
        None => None,
    }
}

fn texts_value(ss: &Vec<String>) -> (r: Option<MetaValue>)
    ensures
        ss@.len() == 0 ==> r is None,
        ss@.len() > 0 ==> (r matches Some(MetaValue::Array(a)) && strs_are(a@, string_views(ss@))),
{
    if ss.len() == 0 {
        None
    } else {
        Some(MetaValue::Array(str_values(ss)))
    }
}

fn ints_value(xs: &Vec<i32>) -> (r: Option<MetaValue>)
    ensures
        xs@.len() == 0 ==> r is None,
        xs@.len() > 0 ==> (r matches Some(MetaValue::Array(a)) && ints_are(a@, xs@)),
{
    if xs.len() == 0 {
        None
    } else {
        Some(MetaValue::Array(int_values(xs)))
    }
}

fn nth_id_value(ids: &Vec<TokenId>, i: usize) -> (r: Option<MetaValue>)
    ensures
        i < ids@.len() ==> r == Some(MetaValue::U32(ids@[i as int])),
        i >= ids@.len() ==> r is None,
{
    if i < ids.len() {
        Some(MetaValue::U32(ids[i]))
    } else {
        None
    }
}

/// The metadata that reads back as this vocabulary. Empty lists are left
/// out, because GGUF cannot hold an empty typed array.
#[verifier::rlimit(50)]
pub fn vocabulary_to_metadata(v: &Vocabulary) -> (m: Metadata)
    ensures
        vocab_written(m@, v@),
{
    proof {
        lemma_vocab_keys_differ();
    }
    let mut m = Metadata::new();
    m.insert("tokenizer.ggml.model".to_owned(), MetaValue::Str(v.model.clone()));
    put_value(&mut m, "tokenizer.ggml.pre", text_value(&v.pre));
    put_value(&mut m, "tokenizer.ggml.tokens", texts_value(&v.tokens));
    put_value(&mut m, "tokenizer.ggml.token_type", ints_value(&v.token_types));
    put_value(&mut m, "tokenizer.ggml.merges", texts_value(&v.merges));
    put_value(&mut m, "tokenizer.ggml.bos_token_id", id_value(v.bos_token_id));
    put_value(&mut m, "tokenizer.ggml.eos_token_id", nth_id_value(&v.eos_token_ids, 0));
    put_value(&mut m, "tokenizer.ggml.eot_token_id", nth_id_value(&v.eos_token_ids, 1));
    put_value(&mut m, "tokenizer.ggml.eom_token_id", nth_id_value(&v.eos_token_ids, 2));
    put_value(&mut m, "tokenizer.ggml.unknown_token_id", id_value(v.unk_token_id));
    put_value(&mut m, "tokenizer.ggml.padding_token_id", id_value(v.pad_token_id));
    put_value(&mut m, "tokenizer.ggml.add_bos_token", flag_value(v.add_bos_token));
    put_value(&mut m, "tokenizer.ggml.add_eos_token", flag_value(v.add_eos_token));
    put_value(&mut m, "tokenizer.chat_template", text_value(&v.chat_template));
    assert(m@.dom().subset_of(vocab_key_set()));
    m
}

} // verus!
