//! Text to tokens and back: the trait the engine requires, the byte-level
//! tokenizer that ships with it, and the pre-tokenizer regex each
//! vocabulary calls for.
use vstd::prelude::*;
use vstd::string::*;
use vstd::utf8::*;

use crate::kernel::error::Result;
use crate::kernel::model_ref::TokenId;
use crate::text::{str_eq, utf8};

verus! {

broadcast use vstd::utf8::group_utf8_lib;

/// Text to tokens and back. `encode` never adds special tokens; the engine
/// decides about BOS itself. `decode` skips special tokens and renders a
/// trailing incomplete UTF-8 sequence as U+FFFD.
///
/// A tokenizer is a fixed vocabulary: the same text always encodes to the
/// same tokens, the same tokens always decode to the same text, and its BOS
/// and special tokens do not change. The spec functions name those answers.
pub trait Tokenizer {
    /// The tokens `encode` gives for a text.
    spec fn encoding(&self, text: Seq<char>) -> Seq<TokenId>;

    /// The text `decode` gives for some tokens.
    spec fn decoding(&self, tokens: Seq<TokenId>) -> Seq<char>;

    /// The BOS token, if the vocabulary has one.
    spec fn bos(&self) -> Option<TokenId>;

    /// Whether the checkpoint asks for a BOS.
    spec fn wants_bos(&self) -> bool;

    /// The text of a special token.
    spec fn special_text(&self, id: TokenId) -> Option<Seq<char>>;

    fn encode(&self, text: &str) -> (r: Result<Vec<TokenId>>)
        ensures
            r matches Ok(ids) ==> ids@ == self.encoding(text@),
    ;

    fn decode(&self, tokens: &[TokenId]) -> (r: Result<String>)
        ensures
            r matches Ok(s) ==> s@ == self.decoding(tokens@),
    ;

    fn bos_token(&self) -> (r: Option<TokenId>)
        ensures
            r == self.bos(),
    ;

    /// Whether this checkpoint expects a BOS at the start of every prompt.
    fn add_bos(&self) -> (r: bool)
        ensures
            r == self.wants_bos(),
    ;

    /// Every id that ends a generation.
    spec fn eos_ids(&self) -> Seq<TokenId>;

    /// The checkpoint's own chat template.
    spec fn template(&self) -> Option<Seq<char>>;

    /// Every id that ends a generation.
    fn eos_tokens(&self) -> (r: Vec<TokenId>)
        ensures
            r@ == self.eos_ids(),
    ;

    /// The checkpoint's own Jinja chat template, if it has one.
    fn chat_template(&self) -> (r: Option<String>)
        ensures
            match r {
                Some(t) => self.template() == Some(t@),
                None => self.template() is None,
            },
    ;

    /// The text of a special token, for templates that splice it in.
    fn special_token_text(&self, id: TokenId) -> (r: Option<String>)
        ensures
            match r {
                Some(t) => self.special_text(id) == Some(t@),
                None => self.special_text(id) is None,
            },
    ;
}

/// The text `String::from_utf8_lossy` makes of some bytes.
pub uninterp spec fn lossy_text(bytes: Seq<u8>) -> Seq<char>;

/// `String::from_utf8_lossy(bytes).into_owned()`: valid UTF-8 decodes as
/// itself; each invalid sequence becomes U+FFFD.
#[verifier::external_body]
fn from_utf8_lossy(bytes: &[u8]) -> (s: String)
    ensures
        s@ == lossy_text(bytes@),
        valid_utf8(bytes@) ==> s@ == decode_utf8(bytes@),
{
    String::from_utf8_lossy(bytes).into_owned()
}

/// Bytes are tokens: id `b` is byte `b`, `256` is BOS, `257` is EOS.
/// Decoding an incomplete multi-byte character yields U+FFFD, exactly like
/// a byte-level BPE tokenizer.
#[derive(Debug, Clone)]
pub struct ByteTokenizer {
    pub add_bos: bool,
    pub chat_template: Option<String>,
}

/// The id of a byte.
pub open spec fn byte_ids(b: Seq<u8>) -> Seq<TokenId> {
    b.map_values(|x: u8| x as TokenId)
}

/// The bytes that the ids below 256 stand for, special tokens skipped.
pub open spec fn id_bytes(ids: Seq<TokenId>) -> Seq<u8>
    decreases ids.len(),
{
    if ids.len() == 0 {
        Seq::empty()
    } else if ids.last() < 256 {
        id_bytes(ids.drop_last()).push(ids.last() as u8)
    } else {
        id_bytes(ids.drop_last())
    }
}

impl ByteTokenizer {
    pub const BOS: TokenId = 256;

    pub const EOS: TokenId = 257;

    pub const VOCAB: usize = 258;

    pub fn new() -> (t: Self)
        ensures
            !t.add_bos,
            t.chat_template is None,
    {
        ByteTokenizer { add_bos: false, chat_template: None }
    }

    pub fn with_add_bos(self, yes: bool) -> (t: Self)
        ensures
            t.add_bos == yes,
            t.chat_template == self.chat_template,
    {
        ByteTokenizer { add_bos: yes, ..self }
    }

    pub fn with_chat_template(self, template: &str) -> (t: Self)
        ensures
            t.add_bos == self.add_bos,
            t.chat_template matches Some(c) && c@ == template@,
    {
        ByteTokenizer { chat_template: Some(template.to_owned()), ..self }
    }
}

impl Tokenizer for ByteTokenizer {
    open spec fn encoding(&self, text: Seq<char>) -> Seq<TokenId> {
        byte_ids(utf8(text))
    }

    open spec fn decoding(&self, tokens: Seq<TokenId>) -> Seq<char> {
        lossy_text(id_bytes(tokens))
    }

    open spec fn bos(&self) -> Option<TokenId> {
        Some(256u32)
    }

    open spec fn wants_bos(&self) -> bool {
        self.add_bos
    }

    open spec fn eos_ids(&self) -> Seq<TokenId> {
        seq![257u32]
    }

    open spec fn template(&self) -> Option<Seq<char>> {
        match self.chat_template {
            Some(t) => Some(t@),
            None => None,
        }
    }

    open spec fn special_text(&self, id: TokenId) -> Option<Seq<char>> {
        if id == 256 {
            Some("<s>"@)
        } else if id == 257 {
            Some("</s>"@)
        } else {
            None
        }
    }

    fn encode(&self, text: &str) -> (r: Result<Vec<TokenId>>)
        ensures
            r matches Ok(ids) && ids@ == byte_ids(utf8(text@)),
    {
        let b = text.as_bytes();
        let mut ids: Vec<TokenId> = Vec::new();
        let mut i: usize = 0;
        while i < b.len()
            invariant
                i <= b@.len(),
                ids@ == byte_ids(b@.subrange(0, i as int)),
            decreases b@.len() - i,
        {
            ids.push(b[i] as TokenId);
            assert(ids@ =~= byte_ids(b@.subrange(0, i + 1)));
            i += 1;
        }
        assert(b@.subrange(0, i as int) =~= b@);
        Ok(ids)
    }

    fn decode(&self, tokens: &[TokenId]) -> (r: Result<String>)
        ensures
            r matches Ok(s) && s@ == lossy_text(id_bytes(tokens@)),
    {
        let mut bytes: Vec<u8> = Vec::new();
        let mut i: usize = 0;
        while i < tokens.len()
            invariant
                i <= tokens@.len(),
                bytes@ == id_bytes(tokens@.subrange(0, i as int)),
            decreases tokens@.len() - i,
        {
            assert(tokens@.subrange(0, i + 1).drop_last() =~= tokens@.subrange(0, i as int));
            if tokens[i] < 256 {
                bytes.push(tokens[i] as u8);
            }
            i += 1;
        }
        assert(tokens@.subrange(0, i as int) =~= tokens@);
        Ok(from_utf8_lossy(bytes.as_slice()))
    }

    fn bos_token(&self) -> (r: Option<TokenId>)
        ensures
            r == Some(256u32),
    {
        Some(Self::BOS)
    }

    fn add_bos(&self) -> (r: bool)
        ensures
            r == self.add_bos,
    {
        self.add_bos
    }

    fn eos_tokens(&self) -> (r: Vec<TokenId>)
        ensures
            r@ == seq![257u32],
    {
        let mut v = Vec::new();
        v.push(Self::EOS);
        v
    }

    fn chat_template(&self) -> (r: Option<String>)
        ensures
            r == self.chat_template,
    {
        match &self.chat_template {
            Some(t) => Some(t.clone()),
            None => None,
        }
    }

    fn special_token_text(&self, id: TokenId) -> (r: Option<String>)
        ensures
            id == 256 ==> (r matches Some(s) && s@ == "<s>"@),
            id == 257 ==> (r matches Some(s) && s@ == "</s>"@),
            id != 256 && id != 257 ==> r is None,
    {
        if id == Self::BOS {
            Some("<s>".to_owned())
        } else if id == Self::EOS {
            Some("</s>".to_owned())
        } else {
            None
        }
    }
}

/// The GPT-2 pre-tokeniser regex, which most byte-level BPE vocabularies use.
pub const GPT2_PATTERN: &'static str =
    r"'s|'t|'re|'ve|'m|'ll|'d| ?\p{L}+| ?\p{N}+| ?[^\s\p{L}\p{N}]+|\s+(?!\S)|\s+";

/// Llama 3's: case-insensitive contractions, digits in groups of up to three.
pub const LLAMA3_PATTERN: &'static str =
    r"(?i:'s|'t|'re|'ve|'m|'ll|'d)|[^\r\n\p{L}\p{N}]?\p{L}+|\p{N}{1,3}| ?[^\s\p{L}\p{N}]+[\r\n]*|\s*[\r\n]+|\s+(?!\S)|\s+";

/// Qwen2's: like Llama 3 but single digits.
pub const QWEN2_PATTERN: &'static str =
    r"(?i:'s|'t|'re|'ve|'m|'ll|'d)|[^\r\n\p{L}\p{N}]?\p{L}+|\p{N}| ?[^\s\p{L}\p{N}]+[\r\n]*|\s*[\r\n]+|\s+(?!\S)|\s+";

/// The split regex a `tokenizer.ggml.pre` value names: Llama 3's for
/// `llama-bpe` and `llama3`, Qwen2's for `qwen2`, `deepseek-llm` and
/// `deepseek-coder`, GPT-2's for anything else.
pub open spec fn pattern_for(pre: Option<Seq<char>>) -> Seq<char> {
    match pre {
        Some(p) => if p == "llama-bpe"@ || p == "llama3"@ {
            LLAMA3_PATTERN@
        } else if p == "qwen2"@ || p == "deepseek-llm"@ || p == "deepseek-coder"@ {
            QWEN2_PATTERN@
        } else {
            GPT2_PATTERN@
        },
        None => GPT2_PATTERN@,
    }
}

/// The split regex a `tokenizer.ggml.pre` value calls for. Unknown values
/// get GPT-2's, which is what llama.cpp also falls back to.
pub fn pre_tokenizer_pattern(pre: Option<&str>) -> (r: &'static str)
    ensures
        r@ == pattern_for(match pre {
            Some(p) => Some(p@),
            None => None,
        }),
{
    match pre {
        Some(p) => if str_eq(p, "llama-bpe") || str_eq(p, "llama3") {
            LLAMA3_PATTERN
        } else if str_eq(p, "qwen2") || str_eq(p, "deepseek-llm") || str_eq(p, "deepseek-coder") {
            QWEN2_PATTERN
        } else {
            GPT2_PATTERN
        },
        None => GPT2_PATTERN,
    }
}

} // verus!
