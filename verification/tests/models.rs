use infy::kernel::error::Error;
use infy::models::config::{ModelConfig, RopeScaling};
use infy::models::device::{choose_device, DeviceChoice};
use infy::models::meta::{MetaValue, Metadata};
use infy::models::vocab::{vocabulary_from_metadata, vocabulary_to_metadata, Vocabulary};
use infy::models::Architecture;

#[test]
fn architectures_parse_by_their_gguf_name() {
    assert_eq!(Architecture::parse("llama").unwrap(), Architecture::Llama);
    assert_eq!(Architecture::parse("qwen2").unwrap(), Architecture::Qwen2);
    for a in [Architecture::Llama, Architecture::Qwen2] {
        assert_eq!(Architecture::parse(a.gguf_name()).unwrap(), a);
    }
    match Architecture::parse("mamba") {
        Err(Error::Invalid(m)) => assert_eq!(
            m,
            "architecture \"mamba\" is not supported yet; infy runs llama, qwen2"
        ),
        other => panic!("{other:?}"),
    }
}

#[test]
fn only_llama_rotates_interleaved_pairs() {
    assert!(Architecture::Llama.rope_interleaved());
    assert!(!Architecture::Qwen2.rope_interleaved());
}


fn s(v: &str) -> MetaValue {
    MetaValue::Str(v.into())
}

fn llama_meta() -> Metadata {
    let mut m = Metadata::new();
    m.insert("general.architecture".into(), s("llama"));
    m.insert("general.name".into(), s("SmolLM2 135M Instruct"));
    m.insert("llama.embedding_length".into(), MetaValue::U32(576));
    m.insert("llama.block_count".into(), MetaValue::U32(30));
    m.insert("llama.attention.head_count".into(), MetaValue::U32(9));
    m.insert("llama.attention.head_count_kv".into(), MetaValue::U32(3));
    m.insert("llama.feed_forward_length".into(), MetaValue::U32(1536));
    m.insert("llama.context_length".into(), MetaValue::U32(8192));
    m.insert(
        "llama.attention.layer_norm_rms_epsilon".into(),
        MetaValue::F32(1e-5f32.to_bits()),
    );
    m.insert("llama.rope.freq_base".into(), MetaValue::F32(100_000.0f32.to_bits()));
    m.insert("llama.vocab_size".into(), MetaValue::U32(49152));
    m
}

#[test]
fn reads_a_llama_cpp_style_header() {
    let c = ModelConfig::from_metadata(&llama_meta()).unwrap();
    assert_eq!(c.architecture, Architecture::Llama);
    assert_eq!(c.name, "SmolLM2 135M Instruct");
    assert_eq!(
        (c.hidden_size, c.num_layers, c.num_heads, c.num_kv_heads),
        (576, 30, 9, 3)
    );
    assert_eq!(c.head_dim, 64, "derived from hidden / heads when not stated");
    assert_eq!(c.vocab_size, 49152);
    assert_eq!(c.context_length, 8192);
    assert_eq!(c.rope_scaling, RopeScaling::Unscaled);
    assert!(c.rope_interleaved(), "llama.cpp permutes llama q/k for interleaved rope");
}

#[test]
fn qwen2_uses_neox_rope_and_defaults_kv_heads_to_heads() {
    let mut m = Metadata::new();
    m.insert("general.architecture".into(), s("qwen2"));
    m.insert("qwen2.embedding_length".into(), MetaValue::U64(896));
    m.insert("qwen2.block_count".into(), MetaValue::U32(24));
    m.insert("qwen2.attention.head_count".into(), MetaValue::U32(14));
    m.insert("qwen2.feed_forward_length".into(), MetaValue::U32(4864));
    m.insert("qwen2.context_length".into(), MetaValue::U32(32768));
    m.insert("qwen2.attention.key_length".into(), MetaValue::U32(64));
    m.insert(
        "tokenizer.ggml.tokens".into(),
        MetaValue::Array(vec![s("a"), s("b")]),
    );
    let c = ModelConfig::from_metadata(&m).unwrap();
    assert_eq!(c.architecture, Architecture::Qwen2);
    assert!(!c.rope_interleaved());
    assert_eq!(c.num_kv_heads, 14);
    assert_eq!(c.head_dim, 64);
    assert_eq!(c.vocab_size, 2, "falls back to the token list length");
    assert_eq!(c.name, "qwen2", "falls back to the architecture name");
}

#[test]
fn errors_name_the_missing_key_and_the_unsupported_architecture() {
    let mut m = llama_meta();
    m.remove("llama.block_count");
    match ModelConfig::from_metadata(&m) {
        Err(Error::Invalid(msg)) => assert!(msg.contains("llama.block_count"), "{msg}"),
        other => panic!("{other:?}"),
    }
    let mut m = llama_meta();
    m.insert("general.architecture".into(), s("gemma2"));
    match ModelConfig::from_metadata(&m) {
        Err(Error::Invalid(msg)) => {
            assert!(msg.contains("gemma2") && msg.contains("llama, qwen2"), "{msg}")
        }
        other => panic!("{other:?}"),
    }
    let mut m = llama_meta();
    m.insert("llama.rope.scaling.type".into(), s("yarn"));
    assert!(
        matches!(ModelConfig::from_metadata(&m), Err(Error::Invalid(msg)) if msg.contains("yarn"))
    );
}

#[test]
fn errors_read_exactly() {
    let mut m = llama_meta();
    m.remove("llama.block_count");
    match ModelConfig::from_metadata(&m) {
        Err(Error::Invalid(msg)) => assert_eq!(
            msg,
            "metadata key \"llama.block_count\" is missing or not an integer"
        ),
        other => panic!("{other:?}"),
    }
    let mut m = llama_meta();
    m.insert("llama.block_count".into(), MetaValue::I32(-1));
    assert!(ModelConfig::from_metadata(&m).is_err(), "a negative count is no count");
    let mut m = llama_meta();
    m.remove("general.architecture");
    match ModelConfig::from_metadata(&m) {
        Err(Error::Invalid(msg)) => assert_eq!(msg, "metadata has no general.architecture"),
        other => panic!("{other:?}"),
    }
    let mut m = llama_meta();
    m.remove("llama.vocab_size");
    match ModelConfig::from_metadata(&m) {
        Err(Error::Invalid(msg)) => assert_eq!(
            msg,
            "cannot determine vocabulary size: neither llama.vocab_size nor tokenizer.ggml.tokens present"
        ),
        other => panic!("{other:?}"),
    }
    let mut m = llama_meta();
    m.insert("llama.rope.scaling.type".into(), s("yarn"));
    match ModelConfig::from_metadata(&m) {
        Err(Error::Invalid(msg)) => assert_eq!(
            msg,
            "rope scaling type \"yarn\" is not supported yet (linear is)"
        ),
        other => panic!("{other:?}"),
    }
    let mut m = llama_meta();
    m.insert("llama.context_length".into(), MetaValue::U8(0));
    match ModelConfig::from_metadata(&m) {
        Err(Error::Invalid(msg)) => assert_eq!(msg, "model config: context_length must be positive"),
        other => panic!("{other:?}"),
    }
}

#[test]
fn linear_rope_scaling_is_read() {
    let mut m = llama_meta();
    m.insert("llama.rope.scaling.type".into(), s("linear"));
    m.insert("llama.rope.scaling.factor".into(), MetaValue::F32(4.0f32.to_bits()));
    let c = ModelConfig::from_metadata(&m).unwrap();
    assert_eq!(c.rope_scaling, RopeScaling::Linear);
    m.insert("llama.rope.scaling.type".into(), s("none"));
    assert_eq!(ModelConfig::from_metadata(&m).unwrap().rope_scaling, RopeScaling::Unscaled);
}

#[test]
fn validation_rejects_impossible_shapes() {
    let mut c = ModelConfig::from_metadata(&llama_meta()).unwrap();
    c.num_kv_heads = 4;
    assert!(matches!(c.validate(), Err(Error::Invalid(m)) if m.contains("multiple")));
    c.num_kv_heads = 3;
    c.head_dim = 7;
    assert!(matches!(c.validate(), Err(Error::Invalid(m)) if m.contains("even")));
}

#[test]
fn metadata_round_trips_through_the_config() {
    let c = ModelConfig::from_metadata(&llama_meta()).unwrap();
    let back = ModelConfig::from_metadata(&c.to_metadata()).unwrap();
    assert_eq!(back, c);
    let mut lin = c.clone();
    lin.rope_scaling = RopeScaling::Linear;
    assert_eq!(ModelConfig::from_metadata(&lin.to_metadata()).unwrap(), lin);
}

#[test]
fn tensor_spec_matches_what_llama_cpp_writes() {
    let c = ModelConfig::from_metadata(&llama_meta()).unwrap();
    let spec = c.tensor_spec();
    let find = |n: &str| {
        spec.iter()
            .find(|s| s.name == n)
            .unwrap_or_else(|| panic!("{n}"))
    };
    assert_eq!(find("token_embd.weight").shape, vec![49152, 576]);
    assert_eq!(find("blk.0.attn_q.weight").shape, vec![576, 576]);
    assert_eq!(
        find("blk.29.attn_k.weight").shape,
        vec![192, 576],
        "kv heads × head_dim rows"
    );
    assert_eq!(find("blk.0.attn_output.weight").shape, vec![576, 576]);
    assert_eq!(find("blk.0.ffn_gate.weight").shape, vec![1536, 576]);
    assert_eq!(find("blk.0.ffn_down.weight").shape, vec![576, 1536]);
    assert!(!find("output.weight").required, "tied embeddings are common");
    assert!(!find("blk.0.attn_q.bias").required);
    assert!(find("blk.0.attn_q.weight").required);
    assert_eq!(spec.iter().filter(|s| s.required).count(), 2 + 30 * 9);

    let present: Vec<String> = spec
        .iter()
        .filter(|s| s.required)
        .map(|s| s.name.clone())
        .collect();
    assert!(c.missing_tensors(&present).is_empty());
    let missing = c.missing_tensors(&present[..present.len() - 1]);
    assert_eq!(missing, vec!["blk.29.ffn_down.weight".to_string()]);
}

#[test]
fn kv_cache_size_is_two_tensors_per_layer() {
    let c = ModelConfig::from_metadata(&llama_meta()).unwrap();
    // 30 layers × 2 × 3 kv heads × 64 dims × 4 bytes per position
    assert_eq!(c.kv_cache_bytes(1, 4), 30 * 2 * 3 * 64 * 4);
    assert_eq!(c.kv_cache_bytes(1000, 2), 30 * 2 * 3 * 64 * 2 * 1000);
}

#[test]
fn metadata_keeps_the_last_write_and_forgets_a_removed_key() {
    let mut m = Metadata::new();
    m.insert("k".into(), MetaValue::U8(1));
    m.insert("j".into(), MetaValue::Bool(true));
    m.insert("k".into(), MetaValue::I64(-2));
    assert_eq!(m.get("k"), Some(&MetaValue::I64(-2)));
    assert_eq!(m.get("k").and_then(|v| v.as_u64()), None, "negative is not a count");
    assert_eq!(m.get("j").and_then(|v| v.as_bool()), Some(true));
    m.remove("k");
    assert_eq!(m.get("k"), None);
    assert_eq!(m.get("j"), Some(&MetaValue::Bool(true)));
    assert_eq!(MetaValue::I16(7).as_u64(), Some(7));
    assert_eq!(s("x").as_str(), Some("x"));
    assert_eq!(MetaValue::F32(0).as_u64(), None, "a float is not a count");
}

#[test]
fn devices_are_chosen_by_name_and_by_what_the_build_offers() {
    assert_eq!(choose_device("cpu", true, true).unwrap(), DeviceChoice::Cpu);
    assert_eq!(choose_device("auto", true, true).unwrap(), DeviceChoice::Cuda(0));
    assert_eq!(choose_device("auto", false, true).unwrap(), DeviceChoice::Metal);
    assert_eq!(choose_device("auto", false, false).unwrap(), DeviceChoice::Cpu);
    assert_eq!(choose_device("cuda", true, false).unwrap(), DeviceChoice::Cuda(0));
    assert_eq!(choose_device("cuda:3", true, false).unwrap(), DeviceChoice::Cuda(3));
    assert_eq!(choose_device("cuda:+2", true, false).unwrap(), DeviceChoice::Cuda(2));
    assert_eq!(choose_device("metal", false, true).unwrap(), DeviceChoice::Metal);
    match choose_device("cuda:x", true, false) {
        Err(Error::Invalid(m)) => assert_eq!(m, "device \"cuda:x\": expected cuda or cuda:<n>"),
        other => panic!("{other:?}"),
    }
    match choose_device("cuda:", true, false) {
        Err(Error::Invalid(m)) => assert!(m.contains("expected cuda or cuda:<n>"), "{m}"),
        other => panic!("{other:?}"),
    }
    match choose_device("cuda:1", false, false) {
        Err(Error::Unavailable(m)) => assert!(m.starts_with("this build has no CUDA support"), "{m}"),
        other => panic!("{other:?}"),
    }
    match choose_device("metal", false, false) {
        Err(Error::Unavailable(m)) => assert!(m.starts_with("this build has no Metal support"), "{m}"),
        other => panic!("{other:?}"),
    }
    match choose_device("tpu", true, true) {
        Err(Error::Invalid(m)) => assert_eq!(
            m,
            "unknown device \"tpu\"; use auto, cpu, cuda, cuda:<n> or metal"
        ),
        other => panic!("{other:?}"),
    }
    assert!(choose_device("cuda:99999999999999999999999", true, false).is_err(), "an ordinal must fit");
}

#[test]
fn meta_value_widening() {
    assert_eq!(MetaValue::U8(7).as_u64(), Some(7));
    assert_eq!(MetaValue::I32(-1).as_u64(), None);
    assert_eq!(MetaValue::Str("x".into()).as_u64(), None);
    assert_eq!(MetaValue::Bool(true).as_bool(), Some(true));
}

#[test]
fn vocabulary_round_trips_and_collects_every_end_token() {
    let mut v = Vocabulary {
        model: "gpt2".into(),
        pre: Some("llama-bpe".into()),
        tokens: vec![
            "<|begin_of_text|>".into(),
            "a".into(),
            "b".into(),
            "<|eot_id|>".into(),
        ],
        token_types: vec![3, 1, 1, 3],
        merges: vec!["a b".into()],
        bos_token_id: Some(0),
        eos_token_ids: vec![2, 3],
        unk_token_id: None,
        pad_token_id: Some(0),
        add_bos_token: Some(true),
        add_eos_token: Some(false),
        chat_template: Some("{{ messages }}".into()),
    };
    let back = vocabulary_from_metadata(&vocabulary_to_metadata(&v)).unwrap();
    assert_eq!(back, v);

    v.eos_token_ids = vec![2, 3, 5];
    assert_eq!(
        vocabulary_from_metadata(&vocabulary_to_metadata(&v))
            .unwrap()
            .eos_token_ids,
        vec![2, 3, 5]
    );

    let mut m = vocabulary_to_metadata(&v);
    m.insert("tokenizer.ggml.eot_token_id".into(), MetaValue::U32(2));
    assert_eq!(
        vocabulary_from_metadata(&m).unwrap().eos_token_ids,
        vec![2, 5],
        "duplicates collapse"
    );

    assert!(
        matches!(vocabulary_from_metadata(&Metadata::new()), Err(Error::Invalid(m)) if m.contains("tokenizer.ggml.tokens"))
    );
}

#[test]
fn vocabulary_eos_is_a_set() {
    let v = Vocabulary {
        eos_token_ids: vec![2, 128009],
        ..Default::default()
    };
    assert!(v.is_eos(2));
    assert!(v.is_eos(128009));
    assert!(!v.is_eos(1));
}

#[test]
fn vocabulary_token_types_saturate_and_skip_what_is_not_an_integer() {
    let mut m = Metadata::new();
    m.insert("tokenizer.ggml.tokens".into(), MetaValue::Array(vec![MetaValue::Str("x".into()), MetaValue::U8(7)]));
    m.insert(
        "tokenizer.ggml.token_type".into(),
        MetaValue::Array(vec![MetaValue::I32(1), MetaValue::U64(5_000_000_000), MetaValue::Str("no".into()), MetaValue::I64(-5_000_000_000)]),
    );
    m.insert("tokenizer.ggml.bos_token_id".into(), MetaValue::U64(5_000_000_000));
    let v = vocabulary_from_metadata(&m).unwrap();
    assert_eq!(v.tokens, vec!["x".to_string()]);
    assert_eq!(v.token_types, vec![1, i32::MAX, i32::MIN]);
    assert_eq!(v.bos_token_id, None);
    assert_eq!(v.model, "");
    assert!(v.eos_token_ids.is_empty());
}
