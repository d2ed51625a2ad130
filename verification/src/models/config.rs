//! The shape of a model as its metadata gives it: the architecture, the
//! sizes and counts, and the rotary scaling scheme. The float
//! hyperparameters (the norm epsilon, the rotary base and the linear
//! scaling factor) are read from the same metadata by the loader; no
//! decision made here depends on them.
use vstd::prelude::*;
use vstd::string::*;

use crate::hub::logic::holds_name;
use crate::kernel::error::{Error, Result};
use crate::models::meta::{u64_of, MetaValue, Metadata};
use crate::models::{arch_name, Architecture, TensorSpec};
use crate::text::{debug_quoted, debug_str, decimal, decimal_string, str_eq, string_views};

verus! {

/// How positions are stretched before the rotary embedding.
#[derive(Debug, Clone, Copy, PartialEq, Eq, Structural)]
pub enum RopeScaling {
    /// Positions as they are.
    Unscaled,
    /// Positions divided by a factor (the "linear" scheme).
    Linear,
}

/// Everything about a model's shape that its metadata says.
#[derive(Debug, Clone, PartialEq, Eq)]
pub struct ModelConfig {
    pub architecture: Architecture,
    pub name: String,
    pub hidden_size: usize,
    pub intermediate_size: usize,
    pub num_layers: usize,
    pub num_heads: usize,
    pub num_kv_heads: usize,
    pub head_dim: usize,
    pub vocab_size: usize,
    pub context_length: usize,
    pub rope_scaling: RopeScaling,
}

/// A configuration with its name as text.
pub struct ConfigView {
    pub architecture: Architecture,
    pub name: Seq<char>,
    pub hidden_size: usize,
    pub intermediate_size: usize,
    pub num_layers: usize,
    pub num_heads: usize,
    pub num_kv_heads: usize,
    pub head_dim: usize,
    pub vocab_size: usize,
    pub context_length: usize,
    pub rope_scaling: RopeScaling,
}

impl View for ModelConfig {
    type V = ConfigView;

    open spec fn view(&self) -> ConfigView {
        ConfigView {
            architecture: self.architecture,
            name: self.name@,
            hidden_size: self.hidden_size,
            intermediate_size: self.intermediate_size,
            num_layers: self.num_layers,
            num_heads: self.num_heads,
            num_kv_heads: self.num_kv_heads,
            head_dim: self.head_dim,
            vocab_size: self.vocab_size,
            context_length: self.context_length,
            rope_scaling: self.rope_scaling,
        }
    }
}

/// The value of a key, if it is set.
pub open spec fn meta_get(m: Map<Seq<char>, MetaValue>, k: Seq<char>) -> Option<MetaValue> {
    if m.contains_key(k) {
        Some(m[k])
    } else {
        None
    }
}

/// An integer key, widened; none when absent or not a non-negative integer.
pub open spec fn meta_u64(m: Map<Seq<char>, MetaValue>, k: Seq<char>) -> Option<u64> {
    match meta_get(m, k) {
        Some(v) => u64_of(v),
        None => None,
    }
}

/// A text key; none when absent or not text.
pub open spec fn meta_str(m: Map<Seq<char>, MetaValue>, k: Seq<char>) -> Option<Seq<char>> {
    match meta_get(m, k) {
        Some(MetaValue::Str(s)) => Some(s@),
        _ => None,
    }
}

/// The length of an array key; none when absent or not an array.
pub open spec fn meta_array_len(m: Map<Seq<char>, MetaValue>, k: Seq<char>) -> Option<nat> {
    match meta_get(m, k) {
        Some(MetaValue::Array(a)) => Some(a@.len()),
        _ => None,
    }
}

/// An architecture's key, `<arch>.<suffix>`.
pub open spec fn key_of(a: Architecture, suffix: Seq<char>) -> Seq<char> {
    arch_name(a) + "."@ + suffix
}

/// The architecture a name stands for.
pub open spec fn arch_named(s: Seq<char>) -> Option<Architecture> {
    if s == "llama"@ {
        Some(Architecture::Llama)
    } else if s == "qwen2"@ {
        Some(Architecture::Qwen2)
    } else {
        None
    }
}

/// An integer key that must be there.
pub open spec fn required(m: Map<Seq<char>, MetaValue>, k: Seq<char>) -> core::result::Result<u64, Seq<char>> {
    match meta_u64(m, k) {
        Some(v) => Ok(v),
        None => Err("metadata key "@ + debug_quoted(k) + " is missing or not an integer"@),
    }
}

/// The rotary scaling a file asks for: none when it says nothing (or
/// something that is not text) or `none`, linear when it says `linear`.
pub open spec fn scaling_of(m: Map<Seq<char>, MetaValue>, a: Architecture) -> core::result::Result<RopeScaling, Seq<char>> {
    match meta_str(m, key_of(a, "rope.scaling.type"@)) {
        None => Ok(RopeScaling::Unscaled),
        Some(t) => if t == "none"@ {
            Ok(RopeScaling::Unscaled)
        } else if t == "linear"@ {
            Ok(RopeScaling::Linear)
        } else {
            Err("rope scaling type "@ + debug_quoted(t) + " is not supported yet (linear is)"@)
        },
    }
}

/// What is wrong with a configuration, checked in this order.
pub open spec fn invalidity(c: ConfigView) -> Option<Seq<char>> {
    if c.num_layers == 0 || c.num_heads == 0 || c.num_kv_heads == 0 {
        Some("model config: layer and head counts must be positive"@)
    } else if c.num_heads % c.num_kv_heads != 0 {
        Some(
            "model config: head_count "@ + decimal(c.num_heads as nat)
                + " is not a multiple of head_count_kv "@ + decimal(c.num_kv_heads as nat),
        )
    } else if c.head_dim == 0 || c.head_dim % 2 != 0 {
        Some(
            "model config: head_dim "@ + decimal(c.head_dim as nat)
                + " must be positive and even for RoPE"@,
        )
    } else if c.hidden_size == 0 || c.intermediate_size == 0 || c.vocab_size == 0 {
        Some("model config: embedding, feed-forward and vocabulary sizes must be positive"@)
    } else if c.context_length == 0 {
        Some("model config: context_length must be positive"@)
    } else {
        None
    }
}

/// The vocabulary size: the architecture's own key, else the number of
/// tokens the file lists.
pub open spec fn vocab_size_of(m: Map<Seq<char>, MetaValue>, a: Architecture) -> Option<usize> {
    match meta_u64(m, key_of(a, "vocab_size"@)) {
        Some(v) => Some(v as usize),
        None => match meta_array_len(m, "tokenizer.ggml.tokens"@) {
            Some(n) => Some(n as usize),
            None => None,
        },
    }
}

/// The head dimension: the key length, else the rotary dimension count,
/// else the hidden size shared out among the heads.
pub open spec fn head_dim_of(m: Map<Seq<char>, MetaValue>, a: Architecture, hidden: usize, heads: usize) -> usize {
    match meta_u64(m, key_of(a, "attention.key_length"@)) {
        Some(v) => v as usize,
        None => match meta_u64(m, key_of(a, "rope.dimension_count"@)) {
            Some(v) => v as usize,
            None => if heads == 0 {
                0
            } else {
                (hidden / heads) as usize
            },
        },
    }
}

/// The configuration a llama.cpp-converted file of architecture `a`
/// (named `an` in it) carries, or why it cannot be read.
pub open spec fn config_for(m: Map<Seq<char>, MetaValue>, a: Architecture, an: Seq<char>) -> core::result::Result<ConfigView, Seq<char>> {
    let h = required(m, key_of(a, "embedding_length"@));
    let l = required(m, key_of(a, "block_count"@));
    let nh = required(m, key_of(a, "attention.head_count"@));
    let f = required(m, key_of(a, "feed_forward_length"@));
    let c = required(m, key_of(a, "context_length"@));
    if h is Err {
        Err(h->Err_0)
    } else if l is Err {
        Err(l->Err_0)
    } else if nh is Err {
        Err(nh->Err_0)
    } else if f is Err {
        Err(f->Err_0)
    } else if c is Err {
        Err(c->Err_0)
    } else {
        let hidden = h->Ok_0 as usize;
        let heads = nh->Ok_0 as usize;
        let kv = (match meta_u64(m, key_of(a, "attention.head_count_kv"@)) {
            Some(v) => v,
            None => heads as u64,
        }) as usize;
        match vocab_size_of(m, a) {
            None => Err(
                "cannot determine vocabulary size: neither "@ + key_of(a, "vocab_size"@)
                    + " nor tokenizer.ggml.tokens present"@,
            ),
            Some(vocab) => match scaling_of(m, a) {
                Err(e) => Err(e),
                Ok(sc) => {
                    let cfg = ConfigView {
                        architecture: a,
                        name: match meta_str(m, "general.name"@) {
                            Some(n) => n,
                            None => an,
                        },
                        hidden_size: hidden,
                        intermediate_size: f->Ok_0 as usize,
                        num_layers: l->Ok_0 as usize,
                        num_heads: heads,
                        num_kv_heads: kv,
                        head_dim: head_dim_of(m, a, hidden, heads),
                        vocab_size: vocab,
                        context_length: c->Ok_0 as usize,
                        rope_scaling: sc,
                    };
                    match invalidity(cfg) {
                        Some(e) => Err(e),
                        None => Ok(cfg),
                    }
                },
            },
        }
    }
}

/// The configuration a file's metadata carries, or why it cannot be read.
pub open spec fn config_from(m: Map<Seq<char>, MetaValue>) -> core::result::Result<ConfigView, Seq<char>> {
    match meta_str(m, "general.architecture"@) {
        None => Err("metadata has no general.architecture"@),
        Some(an) => match arch_named(an) {
            None => Err(
                "architecture "@ + debug_quoted(an) + " is not supported yet; infy runs llama, qwen2"@,
            ),
            Some(a) => config_for(m, a, an),
        },
    }
}

/// `<arch>.<suffix>`.
fn key(a: Architecture, suffix: &str) -> (r: String)
    ensures
        r@ == key_of(a, suffix@),
{
    let mut k = a.gguf_name().to_owned();
    k.append(".");
    k.append(suffix);
    k
}

fn optional_u64(meta: &Metadata, k: &str) -> (r: Option<u64>)
    ensures
        r == meta_u64(meta@, k@),
{
    match meta.get(k) {
        Some(v) => v.as_u64(),
        None => None,
    }
}

fn optional_str<'a>(meta: &'a Metadata, k: &str) -> (r: Option<&'a str>)
    ensures
        match meta_str(meta@, k@) {
            Some(s) => r matches Some(x) && x@ == s,
            None => r is None,
        },
{
    match meta.get(k) {
        Some(v) => v.as_str(),
        None => None,
    }
}

fn required_u64(meta: &Metadata, k: &str) -> (r: Result<u64>)
    ensures
        match required(meta@, k@) {
            Ok(v) => r == Ok::<u64, Error>(v),
            Err(m) => r matches Err(Error::Invalid(x)) && x@ == m,
        },
{
    match optional_u64(meta, k) {
        Some(v) => Ok(v),
        None => {
            let mut m = "metadata key ".to_owned();
            let q = debug_str(k);
            m.append(q.as_str());
            m.append(" is missing or not an integer");
            Err(Error::Invalid(m))
        },
    }
}

impl ModelConfig {
    /// Read the configuration a llama.cpp-converted GGUF carries.
    pub fn from_metadata(meta: &Metadata) -> (r: Result<ModelConfig>)
        ensures
            match config_from(meta@) {
                Ok(c) => r matches Ok(x) && x@ == c,
                Err(m) => r matches Err(Error::Invalid(x)) && x@ == m,
            },
    {
        proof {
            reveal_strlit("llama");
            reveal_strlit("qwen2");
        }
        let arch_name = match optional_str(meta, "general.architecture") {
            Some(n) => n,
            None => return Err(Error::Invalid("metadata has no general.architecture".to_owned())),
        };
        let architecture = match Architecture::parse(arch_name) {
            Ok(a) => a,
            Err(e) => return Err(e),
        };
        let ek = key(architecture, "embedding_length");
        let hidden = match required_u64(meta, ek.as_str()) {
            Ok(v) => v as usize,
            Err(e) => return Err(e),
        };
        let bk = key(architecture, "block_count");
        let layers = match required_u64(meta, bk.as_str()) {
            Ok(v) => v as usize,
            Err(e) => return Err(e),
        };
        let hk = key(architecture, "attention.head_count");
        let heads = match required_u64(meta, hk.as_str()) {
            Ok(v) => v as usize,
            Err(e) => return Err(e),
        };
        let kvk = key(architecture, "attention.head_count_kv");
        let kv = match optional_u64(meta, kvk.as_str()) {
            Some(v) => v as usize,
            None => heads as u64 as usize,
        };
        let fk = key(architecture, "feed_forward_length");
        let ff = match required_u64(meta, fk.as_str()) {
            Ok(v) => v as usize,
            Err(e) => return Err(e),
        };
        let ck = key(architecture, "context_length");
        let ctx = match required_u64(meta, ck.as_str()) {
            Ok(v) => v as usize,
            Err(e) => return Err(e),
        };
        let kl = key(architecture, "attention.key_length");
        let rd = key(architecture, "rope.dimension_count");
        let head_dim = match optional_u64(meta, kl.as_str()) {
            Some(v) => v as usize,
            None => match optional_u64(meta, rd.as_str()) {
                Some(v) => v as usize,
                None => if heads == 0 {
                    0
                } else {
                    hidden / heads
                },
            },
        };
        let vk = key(architecture, "vocab_size");
        let vocab = match optional_u64(meta, vk.as_str()) {
            Some(v) => v as usize,
            None => match meta.get("tokenizer.ggml.tokens") {
                Some(t) => match t.as_array() {
                    Some(a) => a.len(),
                    None => return Err(no_vocabulary(vk.as_str())),
                },
                None => return Err(no_vocabulary(vk.as_str())),
            },
        };
        let sk = key(architecture, "rope.scaling.type");
        let rope_scaling = match optional_str(meta, sk.as_str()) {
            None => RopeScaling::Unscaled,
            Some(t) => {
                if str_eq(t, "none") {
                    RopeScaling::Unscaled
                } else if str_eq(t, "linear") {
                    RopeScaling::Linear
                } else {
                    let mut m = "rope scaling type ".to_owned();
                    let q = debug_str(t);
                    m.append(q.as_str());
                    m.append(" is not supported yet (linear is)");
                    return Err(Error::Invalid(m));
                }
            },
        };
        let name = match optional_str(meta, "general.name") {
            Some(n) => n.to_owned(),
            None => arch_name.to_owned(),
        };
        let cfg = ModelConfig {
            architecture,
            name,
            hidden_size: hidden,
            intermediate_size: ff,
            num_layers: layers,
            num_heads: heads,
            num_kv_heads: kv,
            head_dim,
            vocab_size: vocab,
            context_length: ctx,
            rope_scaling,
        };
        match cfg.validate() {
            Ok(()) => Ok(cfg),
            Err(e) => Err(e),
        }
    }

    /// Check the shape is one the architecture can run.
    pub fn validate(&self) -> (r: Result<()>)
        ensures
            match invalidity(self@) {
                Some(m) => r matches Err(Error::Invalid(x)) && x@ == m,
                None => r is Ok,
            },
    {
        if self.num_layers == 0 || self.num_heads == 0 || self.num_kv_heads == 0 {
            return Err(Error::Invalid("model config: layer and head counts must be positive".to_owned()));
        }
        if self.num_heads % self.num_kv_heads != 0 {
            let mut m = "model config: head_count ".to_owned();
            let a = decimal_string(self.num_heads as u64);
            m.append(a.as_str());
            m.append(" is not a multiple of head_count_kv ");
            let b = decimal_string(self.num_kv_heads as u64);
            m.append(b.as_str());
            return Err(Error::Invalid(m));
        }
        if self.head_dim == 0 || self.head_dim % 2 != 0 {
            let mut m = "model config: head_dim ".to_owned();
            let a = decimal_string(self.head_dim as u64);
            m.append(a.as_str());
            m.append(" must be positive and even for RoPE");
            return Err(Error::Invalid(m));
        }
        if self.hidden_size == 0 || self.intermediate_size == 0 || self.vocab_size == 0 {
            return Err(
                Error::Invalid(
                    "model config: embedding, feed-forward and vocabulary sizes must be positive".to_owned(),
                ),
            );
        }
        if self.context_length == 0 {
            return Err(Error::Invalid("model config: context_length must be positive".to_owned()));
        }
        Ok(())
    }

    /// Whether the architecture expects interleaved-pair rotary embedding.
    pub fn rope_interleaved(&self) -> (r: bool)
        ensures
            r == (self.architecture == Architecture::Llama),
    {
        self.architecture.rope_interleaved()
    }

    /// Bytes the KV cache holds for `tokens` positions at `elem_bytes` per
    /// element: two tensors per layer of `num_kv_heads × tokens × head_dim`.
    pub fn kv_cache_bytes(&self, tokens: usize, elem_bytes: usize) -> (r: usize)
        requires
            2 * self.num_layers <= usize::MAX,
            2 * self.num_layers * self.num_kv_heads <= usize::MAX,
            2 * self.num_layers * self.num_kv_heads * tokens <= usize::MAX,
            2 * self.num_layers * self.num_kv_heads * tokens * self.head_dim <= usize::MAX,
            2 * self.num_layers * self.num_kv_heads * tokens * self.head_dim * elem_bytes <= usize::MAX,
        ensures
            r == 2 * self.num_layers * self.num_kv_heads * tokens * self.head_dim * elem_bytes,
    {
        2 * self.num_layers * self.num_kv_heads * tokens * self.head_dim * elem_bytes
    }
}


/// A tensor as plain values: name, shape, whether it is required.
pub open spec fn tensor_view(t: TensorSpec) -> (Seq<char>, Seq<usize>, bool) {
    (t.name@, t.shape@, t.required)
}

pub open spec fn tensor_views(s: Seq<TensorSpec>) -> Seq<(Seq<char>, Seq<usize>, bool)> {
    s.map_values(|t: TensorSpec| tensor_view(t))
}

/// The tensors of block `i`: norms, attention projections (with their
/// optional biases) and the feed-forward projections.
pub open spec fn layer_plan(c: ConfigView, i: nat) -> Seq<(Seq<char>, Seq<usize>, bool)> {
    let p = "blk."@ + decimal(i);
    let h = c.hidden_size;
    let kv = (c.num_kv_heads * c.head_dim) as usize;
    let q = (c.num_heads * c.head_dim) as usize;
    let f = c.intermediate_size;
    seq![
        (p + ".attn_norm.weight"@, seq![h], true),
        (p + ".attn_q.weight"@, seq![q, h], true),
        (p + ".attn_k.weight"@, seq![kv, h], true),
        (p + ".attn_v.weight"@, seq![kv, h], true),
        (p + ".attn_output.weight"@, seq![h, q], true),
        (p + ".attn_q.bias"@, seq![q], false),
        (p + ".attn_k.bias"@, seq![kv], false),
        (p + ".attn_v.bias"@, seq![kv], false),
        (p + ".ffn_norm.weight"@, seq![h], true),
        (p + ".ffn_gate.weight"@, seq![f, h], true),
        (p + ".ffn_up.weight"@, seq![f, h], true),
        (p + ".ffn_down.weight"@, seq![h, f], true),
    ]
}

/// The tensors of the first `n` blocks, block by block.
pub open spec fn layers_plan(c: ConfigView, n: nat) -> Seq<(Seq<char>, Seq<usize>, bool)>
    decreases n,
{
    if n == 0 {
        Seq::empty()
    } else {
        layers_plan(c, (n - 1) as nat) + layer_plan(c, (n - 1) as nat)
    }
}

proof fn lemma_layers_plan_index(c: ConfigView, n: nat, i: nat, j: int)
    requires
        i < n,
        0 <= j < 12,
    ensures
        layers_plan(c, n).len() == 12 * n,
        layers_plan(c, n)[12 * i + j] == layer_plan(c, i)[j],
    decreases n,
{
    lemma_layers_plan_len(c, (n - 1) as nat);
    if i < n - 1 {
        lemma_layers_plan_index(c, (n - 1) as nat, i, j);
    }
}

proof fn lemma_layers_plan_len(c: ConfigView, n: nat)
    ensures
        layers_plan(c, n).len() == 12 * n,
    decreases n,
{
    if n > 0 {
        lemma_layers_plan_len(c, (n - 1) as nat);
    }
}

/// In every block the value projection has as many rows as the key
/// projection, one per key/value head dimension (`num_kv_heads *
/// head_dim`), and a column per hidden unit: grouped-query attention shares
/// its key/value heads, so V is not shaped like Q. Both are required.
pub proof fn law_value_projection_is_shaped_like_the_key_projection(c: ConfigView, i: nat)
    requires
        shapes_fit(c),
        i < c.num_layers,
    ensures
        ({
            let plan = tensor_plan(c);
            let at: int = 4 + 12 * (i as int);
            &&& plan[at + 3].0 == "blk."@ + decimal(i) + ".attn_v.weight"@
            &&& plan[at + 2].0 == "blk."@ + decimal(i) + ".attn_k.weight"@
            &&& plan[at + 3].1.len() == 2
            &&& plan[at + 3].1[0] == c.num_kv_heads * c.head_dim
            &&& plan[at + 3].1[1] == c.hidden_size
            &&& plan[at + 3].1 == plan[at + 2].1
            &&& plan[at + 3].2 && plan[at + 2].2
            &&& plan.contains(("blk."@ + decimal(i) + ".attn_v.weight"@, seq![(c.num_kv_heads * c.head_dim) as usize, c.hidden_size], true))
        }),
{
    let n = c.num_layers as nat;
    lemma_layers_plan_index(c, n, i, 2);
    lemma_layers_plan_index(c, n, i, 3);
    let plan = tensor_plan(c);
    let at: int = 4 + 12 * (i as int);
    assert(plan[at + 3] == layers_plan(c, n)[12 * (i as int) + 3]);
    assert(plan[at + 2] == layers_plan(c, n)[12 * (i as int) + 2]);
}

/// Every tensor the architecture reads, in `(out, in)` orientation: the
/// embedding, the final norm, the output projection (tied to the embedding
/// when a file lacks it), the rotary frequency factors (Llama 3.1+ only),
/// then each block's.
pub open spec fn tensor_plan(c: ConfigView) -> Seq<(Seq<char>, Seq<usize>, bool)> {
    seq![
        ("token_embd.weight"@, seq![c.vocab_size, c.hidden_size], true),
        ("output_norm.weight"@, seq![c.hidden_size], true),
        ("output.weight"@, seq![c.vocab_size, c.hidden_size], false),
        ("rope_freqs.weight"@, seq![c.head_dim / 2], false),
    ] + layers_plan(c, c.num_layers as nat)
}

/// The required tensors of `plan` not in `present`, in plan order.
pub open spec fn missing_of(plan: Seq<(Seq<char>, Seq<usize>, bool)>, present: Seq<Seq<char>>) -> Seq<Seq<char>>
    decreases plan.len(),
{
    if plan.len() == 0 {
        Seq::empty()
    } else {
        let t = plan.last();
        missing_of(plan.drop_last(), present) + if t.2 && !present.contains(t.0) {
            seq![t.0]
        } else {
            Seq::empty()
        }
    }
}

/// That the products a tensor's shape holds fit a `usize`.
pub open spec fn shapes_fit(c: ConfigView) -> bool {
    &&& c.num_heads * c.head_dim <= usize::MAX
    &&& c.num_kv_heads * c.head_dim <= usize::MAX
}

fn shape1(a: usize) -> (v: Vec<usize>)
    ensures
        v@ == seq![a],
{
    let mut v: Vec<usize> = Vec::new();
    v.push(a);
    v
}

fn shape2(a: usize, b: usize) -> (v: Vec<usize>)
    ensures
        v@ == seq![a, b],
{
    let mut v: Vec<usize> = Vec::new();
    v.push(a);
    v.push(b);
    v
}

fn named(prefix: &str, suffix: &str, shape: Vec<usize>, required: bool) -> (t: TensorSpec)
    ensures
        tensor_view(t) == (prefix@ + suffix@, shape@, required),
{
    let mut name = prefix.to_owned();
    name.append(suffix);
    TensorSpec { name, shape, required }
}

fn tensor(name: &str, shape: Vec<usize>, required: bool) -> (t: TensorSpec)
    ensures
        tensor_view(t) == (name@, shape@, required),
{
    TensorSpec { name: name.to_owned(), shape, required }
}

impl ModelConfig {
    fn layer_tensors(&self, i: usize) -> (v: Vec<TensorSpec>)
        requires
            shapes_fit(self@),
        ensures
            tensor_views(v@) == layer_plan(self@, i as nat),
    {
        let mut p = "blk.".to_owned();
        let d = decimal_string(i as u64);
        p.append(d.as_str());
        let ps = p.as_str();
        let h = self.hidden_size;
        let kv = self.num_kv_heads * self.head_dim;
        let q = self.num_heads * self.head_dim;
        let f = self.intermediate_size;
        let mut v: Vec<TensorSpec> = Vec::new();
        v.push(named(ps, ".attn_norm.weight", shape1(h), true));
        v.push(named(ps, ".attn_q.weight", shape2(q, h), true));
        v.push(named(ps, ".attn_k.weight", shape2(kv, h), true));
        v.push(named(ps, ".attn_v.weight", shape2(kv, h), true));
        v.push(named(ps, ".attn_output.weight", shape2(h, q), true));
        v.push(named(ps, ".attn_q.bias", shape1(q), false));
        v.push(named(ps, ".attn_k.bias", shape1(kv), false));
        v.push(named(ps, ".attn_v.bias", shape1(kv), false));
        v.push(named(ps, ".ffn_norm.weight", shape1(h), true));
        v.push(named(ps, ".ffn_gate.weight", shape2(f, h), true));
        v.push(named(ps, ".ffn_up.weight", shape2(f, h), true));
        v.push(named(ps, ".ffn_down.weight", shape2(h, f), true));
        assert(tensor_views(v@) =~= layer_plan(self@, i as nat));
        v
    }

    /// Every tensor the architecture reads, with the shape it expects.
    pub fn tensor_spec(&self) -> (r: Vec<TensorSpec>)
        requires
            shapes_fit(self@),
        ensures
            tensor_views(r@) == tensor_plan(self@),
    {
        let mut out: Vec<TensorSpec> = Vec::new();
        out.push(tensor("token_embd.weight", shape2(self.vocab_size, self.hidden_size), true));
        out.push(tensor("output_norm.weight", shape1(self.hidden_size), true));
        out.push(tensor("output.weight", shape2(self.vocab_size, self.hidden_size), false));
        out.push(tensor("rope_freqs.weight", shape1(self.head_dim / 2), false));
        let ghost head = tensor_views(out@);
        assert(tensor_plan(self@) =~= head + layers_plan(self@, self.num_layers as nat));
        let mut i: usize = 0;
        while i < self.num_layers
            invariant
                i <= self.num_layers,
                shapes_fit(self@),
                tensor_views(out@) == head + layers_plan(self@, i as nat),
            decreases self.num_layers - i,
        {
            let mut layer = self.layer_tensors(i);
            let ghost before = out@;
            let ghost lv = layer@;
            out.append(&mut layer);
            assert(out@ =~= before + lv);
            assert(tensor_views(out@) =~= tensor_views(before) + tensor_views(lv));
            assert(layers_plan(self@, (i + 1) as nat) == layers_plan(self@, i as nat) + layer_plan(
                self@,
                i as nat,
            ));
            i += 1;
        }
        out
    }

    /// The required tensors missing from `present`, for an error that names
    /// them all instead of failing on the first.
    pub fn missing_tensors(&self, present: &[String]) -> (r: Vec<String>)
        requires
            shapes_fit(self@),
        ensures
            string_views(r@) == missing_of(tensor_plan(self@), string_views(present@)),
    {
        let specs = self.tensor_spec();
        let ghost plan = tensor_plan(self@);
        let mut out: Vec<String> = Vec::new();
        let mut i: usize = 0;
        while i < specs.len()
            invariant
                i <= specs@.len(),
                tensor_views(specs@) == plan,
                string_views(out@) == missing_of(plan.take(i as int), string_views(present@)),
            decreases specs@.len() - i,
        {
            assert(plan.take(i + 1).drop_last() =~= plan.take(i as int));
            assert(plan.take(i + 1).last() == tensor_view(specs@[i as int]));
            let ghost before = out@;
            if specs[i].required && !holds_name(present, specs[i].name.as_str()) {
                out.push(specs[i].name.clone());
                assert(string_views(out@) =~= string_views(before) + seq![specs@[i as int].name@]);
            } else {
                assert(string_views(out@) =~= string_views(before) + Seq::<Seq<char>>::empty());
            }
            i += 1;
        }
        assert(plan.take(specs@.len() as int) =~= plan);
        out
    }
}

/// The keys `to_metadata` writes for `c`.
pub open spec fn written_keys(c: ConfigView) -> Set<Seq<char>> {
    let a = c.architecture;
    let base = set![
        "general.architecture"@,
        "general.name"@,
        key_of(a, "embedding_length"@),
        key_of(a, "block_count"@),
        key_of(a, "attention.head_count"@),
        key_of(a, "attention.head_count_kv"@),
        key_of(a, "feed_forward_length"@),
        key_of(a, "context_length"@),
        key_of(a, "vocab_size"@),
        key_of(a, "rope.dimension_count"@),
    ];
    if c.rope_scaling == RopeScaling::Linear {
        base.insert(key_of(a, "rope.scaling.type"@))
    } else {
        base
    }
}

/// That `m` is what `to_metadata` writes for `c`: the architecture and
/// the name as text, every count as a `u32`, the head dimension as the
/// rotary dimension count, and the scaling type when it is linear.
pub open spec fn written(m: Map<Seq<char>, MetaValue>, c: ConfigView) -> bool {
    let a = c.architecture;
    &&& m.dom() == written_keys(c)
    &&& m["general.architecture"@] matches MetaValue::Str(s) && s@ == arch_name(a)
    &&& m["general.name"@] matches MetaValue::Str(s) && s@ == c.name
    &&& m[key_of(a, "embedding_length"@)] == MetaValue::U32(c.hidden_size as u32)
    &&& m[key_of(a, "block_count"@)] == MetaValue::U32(c.num_layers as u32)
    &&& m[key_of(a, "attention.head_count"@)] == MetaValue::U32(c.num_heads as u32)
    &&& m[key_of(a, "attention.head_count_kv"@)] == MetaValue::U32(c.num_kv_heads as u32)
    &&& m[key_of(a, "feed_forward_length"@)] == MetaValue::U32(c.intermediate_size as u32)
    &&& m[key_of(a, "context_length"@)] == MetaValue::U32(c.context_length as u32)
    &&& m[key_of(a, "vocab_size"@)] == MetaValue::U32(c.vocab_size as u32)
    &&& m[key_of(a, "rope.dimension_count"@)] == MetaValue::U32(c.head_dim as u32)
    &&& c.rope_scaling == RopeScaling::Linear ==> (m[key_of(a, "rope.scaling.type"@)] matches MetaValue::Str(
        s,
    ) && s@ == "linear"@)
}

/// The keys a configuration is written under, then the key length that
/// `from_metadata` looks at first.
pub open spec fn key_list(a: Architecture) -> Seq<Seq<char>> {
    seq![
        "general.architecture"@,
        "general.name"@,
        key_of(a, "embedding_length"@),
        key_of(a, "block_count"@),
        key_of(a, "attention.head_count"@),
        key_of(a, "attention.head_count_kv"@),
        key_of(a, "feed_forward_length"@),
        key_of(a, "context_length"@),
        key_of(a, "vocab_size"@),
        key_of(a, "rope.dimension_count"@),
        key_of(a, "rope.scaling.type"@),
        key_of(a, "attention.key_length"@),
    ]
}

/// Those keys are all different.
proof fn lemma_keys_differ(a: Architecture)
    ensures
        key_list(a).len() == 12,
        forall|i: int, j: int| 0 <= i < j < 12 ==> key_list(a)[i] != key_list(a)[j],
{
    reveal_strlit("llama");
    reveal_strlit("qwen2");
    reveal_strlit(".");
    reveal_strlit("general.architecture");
    reveal_strlit("general.name");
    reveal_strlit("embedding_length");
    reveal_strlit("block_count");
    reveal_strlit("attention.head_count");
    reveal_strlit("attention.head_count_kv");
    reveal_strlit("feed_forward_length");
    reveal_strlit("context_length");
    reveal_strlit("vocab_size");
    reveal_strlit("rope.dimension_count");
    reveal_strlit("rope.scaling.type");
    reveal_strlit("attention.key_length");
    let ks = key_list(a);
    assert(arch_name(a).len() == 5);
    // Keys of one length differ in a character.
    assert(ks[0][0] != ks[7][0]);
    assert(ks[4][6] != ks[9][6]);
    assert(ks[4][16] != ks[11][16]);
    assert(ks[9][6] != ks[11][6]);
    assert forall|i: int, j: int| 0 <= i < j < 12 implies ks[i] != ks[j] by {
        if ks[i] == ks[j] {
            assert(ks[i].len() == ks[j].len());
            assert(ks[i][0] == ks[j][0]);
            assert(ks[i][6] == ks[j][6]);
            assert(ks[i][16] == ks[j][16]);
        }
    }
}

/// Names each key of `key_list`, so that its distinctness applies.
proof fn lemma_key_names(a: Architecture)
    ensures
        key_list(a)[0] == "general.architecture"@,
        key_list(a)[1] == "general.name"@,
        key_list(a)[2] == key_of(a, "embedding_length"@),
        key_list(a)[3] == key_of(a, "block_count"@),
        key_list(a)[4] == key_of(a, "attention.head_count"@),
        key_list(a)[5] == key_of(a, "attention.head_count_kv"@),
        key_list(a)[6] == key_of(a, "feed_forward_length"@),
        key_list(a)[7] == key_of(a, "context_length"@),
        key_list(a)[8] == key_of(a, "vocab_size"@),
        key_list(a)[9] == key_of(a, "rope.dimension_count"@),
        key_list(a)[10] == key_of(a, "rope.scaling.type"@),
        key_list(a)[11] == key_of(a, "attention.key_length"@),
{
}

impl ModelConfig {
    /// The metadata that reads back as this configuration. The float
    /// hyperparameters are written beside these keys by the loader.
    pub fn to_metadata(&self) -> (m: Metadata)
        ensures
            written(m@, self@),
    {
        let a = self.architecture;
        proof {
            lemma_keys_differ(a);
            lemma_key_names(a);
        }
        let mut m = Metadata::new();
        m.insert("general.architecture".to_owned(), MetaValue::Str(a.gguf_name().to_owned()));
        m.insert("general.name".to_owned(), MetaValue::Str(self.name.clone()));
        m.insert(key(a, "embedding_length"), MetaValue::U32(self.hidden_size as u32));
        m.insert(key(a, "block_count"), MetaValue::U32(self.num_layers as u32));
        m.insert(key(a, "attention.head_count"), MetaValue::U32(self.num_heads as u32));
        m.insert(key(a, "attention.head_count_kv"), MetaValue::U32(self.num_kv_heads as u32));
        m.insert(key(a, "feed_forward_length"), MetaValue::U32(self.intermediate_size as u32));
        m.insert(key(a, "context_length"), MetaValue::U32(self.context_length as u32));
        m.insert(key(a, "vocab_size"), MetaValue::U32(self.vocab_size as u32));
        m.insert(key(a, "rope.dimension_count"), MetaValue::U32(self.head_dim as u32));
        if self.rope_scaling == RopeScaling::Linear {
            m.insert(key(a, "rope.scaling.type"), MetaValue::Str("linear".to_owned()));
        }
        assert(m@.dom() =~= written_keys(self@));
        m
    }
}

/// A configuration written as metadata reads back as itself, when it is
/// one `from_metadata` accepts and its counts fit the `u32`s they are
/// written as.
pub proof fn law_config_round_trips_through_metadata(c: ModelConfig, m: Metadata)
    requires
        written(m@, c@),
        invalidity(c@) is None,
        c.hidden_size <= u32::MAX,
        c.intermediate_size <= u32::MAX,
        c.num_layers <= u32::MAX,
        c.num_heads <= u32::MAX,
        c.num_kv_heads <= u32::MAX,
        c.head_dim <= u32::MAX,
        c.vocab_size <= u32::MAX,
        c.context_length <= u32::MAX,
    ensures
        config_from(m@) == Ok::<ConfigView, Seq<char>>(c@),
{
    let a = c.architecture;
    lemma_keys_differ(a);
    lemma_key_names(a);
    reveal_strlit("llama");
    reveal_strlit("qwen2");
    reveal_strlit("none");
    reveal_strlit("linear");
    assert("llama"@ != "qwen2"@) by {
        assert("llama"@[0] != "qwen2"@[0]);
    }
    assert(arch_named(arch_name(a)) == Some(a));
    assert(!m@.contains_key(key_of(a, "attention.key_length"@)));
    assert(c.rope_scaling == RopeScaling::Unscaled ==> !m@.contains_key(key_of(a, "rope.scaling.type"@)));
    assert("linear"@ != "none"@) by {
        assert("linear"@.len() != "none"@.len());
    }
}

fn no_vocabulary(vocab_key: &str) -> (e: Error)
    ensures
        e matches Error::Invalid(m) && m@ == "cannot determine vocabulary size: neither "@ + vocab_key@
            + " nor tokenizer.ggml.tokens present"@,
{
    let mut m = "cannot determine vocabulary size: neither ".to_owned();
    m.append(vocab_key);
    m.append(" nor tokenizer.ggml.tokens present");
    Error::Invalid(m)
}

} // verus!
