use infy::engine::logic::{check_stop, chatml, needs_bos, plan_prefill, text_delta, PrefillPlan, StopCheck};
use infy::engine::rng::Rng;
use infy::engine::template::render_chat_template;
use infy::engine::tokenizer::{pre_tokenizer_pattern, ByteTokenizer, Tokenizer};
use infy::kernel::chat::{Message, Role};
use infy::kernel::error::Error;

#[test]
fn stop_detection() {
    let stops = vec!["world".to_string(), "END".to_string()];
    assert_eq!(check_stop("hello ", &stops), StopCheck::NoMatch);
    assert_eq!(check_stop("hello wo", &stops), StopCheck::Partial(2));
    assert_eq!(check_stop("hello world!", &stops), StopCheck::Hit(6));
    assert_eq!(
        check_stop("xENDy world", &stops),
        StopCheck::Hit(1),
        "earliest wins"
    );
    assert_eq!(
        check_stop("héllo wo", &stops),
        StopCheck::Partial(2),
        "multi-byte text before the suffix"
    );
    assert_eq!(check_stop("", &stops), StopCheck::NoMatch);
    assert_eq!(check_stop("anything", &[]), StopCheck::NoMatch);
    let cjk = vec!["世界".to_string()];
    assert_eq!(
        check_stop("你好世", &cjk),
        StopCheck::Partial(3),
        "held back on a character boundary"
    );
    assert_eq!(check_stop("你好世界", &cjk), StopCheck::Hit(6));
}

#[test]
fn streaming_deltas() {
    assert_eq!(text_delta("hel", "hello"), Some("lo"));
    assert_eq!(text_delta("", "h"), Some("h"));
    assert_eq!(text_delta("hello", "hello"), Some(""));
    assert_eq!(
        text_delta("h", "h\u{FFFD}"),
        None,
        "wait for the rest of the character"
    );
    assert_eq!(
        text_delta("h\u{FFFD}", "hé"),
        Some("é"),
        "and emit it once complete"
    );
    assert_eq!(
        text_delta("abc", "abd"),
        Some("d"),
        "a rewritten prefix keeps the common part"
    );
    assert_eq!(text_delta("xyz", "abc"), Some("abc"));
}

#[test]
fn prefill_plans() {
    assert_eq!(
        plan_prefill(&[], &[1, 2, 3]),
        PrefillPlan {
            keep: 0,
            feed_from: 0
        }
    );
    assert_eq!(
        plan_prefill(&[1, 2, 3], &[1, 2, 3, 4, 5]),
        PrefillPlan {
            keep: 3,
            feed_from: 3
        }
    );
    assert_eq!(
        plan_prefill(&[1, 2, 9, 9], &[1, 2, 3]),
        PrefillPlan {
            keep: 2,
            feed_from: 2
        }
    );
    assert_eq!(
        plan_prefill(&[1, 2, 3], &[1, 2, 3]),
        PrefillPlan {
            keep: 2,
            feed_from: 2
        },
        "always feed at least one"
    );
    assert_eq!(
        plan_prefill(&[1, 2, 3, 4], &[1, 2]),
        PrefillPlan {
            keep: 1,
            feed_from: 1
        }
    );
    assert_eq!(
        plan_prefill(&[5], &[1]),
        PrefillPlan {
            keep: 0,
            feed_from: 0
        }
    );
    assert_eq!(
        plan_prefill(&[], &[]),
        PrefillPlan {
            keep: 0,
            feed_from: 0
        }
    );
}

#[test]
fn bos_rules() {
    assert!(needs_bos("hi", Some("<s>"), true));
    assert!(!needs_bos("<s>hi", Some("<s>"), true));
    assert!(!needs_bos("hi", Some("<s>"), false));
    assert!(needs_bos("hi", None, true));
    assert!(needs_bos("hi", Some(""), true));
}

fn msgs() -> Vec<Message> {
    vec![
        Message::system("Be brief."),
        Message::user("Hi "),
        Message::assistant("Hello!"),
        Message::user("Bye"),
    ]
}

const CHATML_TEMPLATE: &str = "{% for message in messages %}{{'<|im_start|>' + message['role'] + '\n' + message['content'] + '<|im_end|>' + '\n'}}{% endfor %}{% if add_generation_prompt %}{{ '<|im_start|>assistant\n' }}{% endif %}";

#[test]
fn chatml_template_and_fallback_agree() {
    let rendered = render_chat_template(CHATML_TEMPLATE, &msgs(), None, None).unwrap();
    assert_eq!(rendered, chatml(&msgs()));
    assert_eq!(
        rendered,
        "<|im_start|>system\nBe brief.<|im_end|>\n<|im_start|>user\nHi <|im_end|>\n<|im_start|>assistant\nHello!<|im_end|>\n<|im_start|>user\nBye<|im_end|>\n<|im_start|>assistant\n"
    );
}

const LLAMA3_TEMPLATE: &str = "{{ bos_token }}{% for message in messages %}{{ '<|start_header_id|>' + message['role'] + '<|end_header_id|>\n\n' + message['content'] | trim + '<|eot_id|>' }}{% endfor %}{% if add_generation_prompt %}{{ '<|start_header_id|>assistant<|end_header_id|>\n\n' }}{% endif %}";

#[test]
fn llama3_style_template_uses_bos_and_trim() {
    let r = render_chat_template(
        LLAMA3_TEMPLATE,
        &msgs()[1..2],
        Some("<|begin_of_text|>"),
        Some("<|eot_id|>"),
    )
    .unwrap();
    assert_eq!(r, "<|begin_of_text|><|start_header_id|>user<|end_header_id|>\n\nHi<|eot_id|><|start_header_id|>assistant<|end_header_id|>\n\n");
}

const LLAMA2_TEMPLATE: &str = "{% if messages[0]['role'] == 'system' %}{% set loop_messages = messages[1:] %}{% set system_message = messages[0]['content'] %}{% else %}{% set loop_messages = messages %}{% set system_message = false %}{% endif %}{% for message in loop_messages %}{% if (message['role'] == 'user') != (loop.index0 % 2 == 0) %}{{ raise_exception('Conversation roles must alternate user/assistant/user/assistant/...') }}{% endif %}{% if loop.index0 == 0 and system_message != false %}{% set content = '<<SYS>>\n' + system_message + '\n<</SYS>>\n\n' + message['content'] %}{% else %}{% set content = message['content'] %}{% endif %}{% if message['role'] == 'user' %}{{ bos_token + '[INST] ' + content.strip() + ' [/INST]' }}{% elif message['role'] == 'assistant' %}{{ ' '  + content.strip() + ' ' + eos_token }}{% endif %}{% endfor %}";

#[test]
fn llama2_style_template_uses_python_methods_slicing_and_raise_exception() {
    let r = render_chat_template(LLAMA2_TEMPLATE, &msgs(), Some("<s>"), Some("</s>")).unwrap();
    assert_eq!(
        r,
        "<s>[INST] <<SYS>>\nBe brief.\n<</SYS>>\n\nHi [/INST] Hello! </s><s>[INST] Bye [/INST]"
    );

    let bad = vec![Message::user("a"), Message::user("b")];
    match render_chat_template(LLAMA2_TEMPLATE, &bad, Some("<s>"), Some("</s>")) {
        Err(Error::Invalid(m)) => assert!(m.contains("must alternate"), "{m}"),
        other => panic!("{other:?}"),
    }
}

#[test]
fn template_with_namespace_loop_last_and_tools_none() {
    let t = "{% set ns = namespace(n=0) %}{% for m in messages %}{% set ns.n = ns.n + 1 %}{% if loop.last %}last={{ m.role }} {% endif %}{% endfor %}n={{ ns.n }}{% if tools is not none %} TOOLS{% endif %}";
    let r = render_chat_template(t, &msgs(), None, None).unwrap();
    assert_eq!(r, "last=user n=4");
    assert!(
        matches!(render_chat_template("{% for x in %}", &msgs(), None, None), Err(Error::Invalid(m)) if m.contains("parse"))
    );
    assert_eq!(msgs()[0].role, Role::System);
}

#[test]
fn chatml_fallback_opens_the_assistant_turn() {
    assert_eq!(chatml(&[]), "<|im_start|>assistant\n");
    assert_eq!(
        chatml(&[Message::user("x")]),
        "<|im_start|>user\nx<|im_end|>\n<|im_start|>assistant\n"
    );
}

#[test]
fn the_generator_is_seeded_and_never_yields_zero() {
    let mut a = Rng::new(42);
    let mut b = Rng::new(42);
    for _ in 0..100 {
        let x = a.next_u64();
        assert_eq!(x, b.next_u64());
        assert_ne!(x, 0);
    }
    assert_ne!(Rng::new(1).next_u64(), Rng::new(2).next_u64());
    assert_ne!(Rng::new(0).next_u64(), 0, "the zero seed is remapped");
}

#[test]
fn byte_tokenizer_round_trips_and_marks_incomplete_characters() {
    let t = ByteTokenizer::new();
    let ids = t.encode("hé").unwrap();
    assert_eq!(ids, vec![104, 0xC3, 0xA9]);
    assert_eq!(t.decode(&ids).unwrap(), "hé");
    assert_eq!(t.decode(&ids[..2]).unwrap(), "h\u{FFFD}");
    assert_eq!(t.decode(&[ByteTokenizer::BOS, 104, ByteTokenizer::EOS]).unwrap(), "h");
    assert_eq!(t.eos_tokens(), vec![ByteTokenizer::EOS]);
    assert!(!t.add_bos());
    assert!(t.with_add_bos(true).add_bos());
    let c = ByteTokenizer::new().with_chat_template("{{ x }}");
    assert_eq!(c.chat_template().as_deref(), Some("{{ x }}"));
}

#[test]
fn pre_tokenizer_patterns_follow_the_named_family() {
    assert_eq!(pre_tokenizer_pattern(Some("llama3")), pre_tokenizer_pattern(Some("llama-bpe")));
    assert_eq!(pre_tokenizer_pattern(Some("qwen2")), pre_tokenizer_pattern(Some("deepseek-llm")));
    assert_eq!(pre_tokenizer_pattern(None), pre_tokenizer_pattern(Some("unknown")));
    assert_ne!(pre_tokenizer_pattern(Some("llama3")), pre_tokenizer_pattern(None));
}

#[test]
fn a_failed_template_says_how_it_failed() {
    assert_eq!(
        infy::engine::template::template_outcome(Ok("x".to_string())).unwrap(),
        "x"
    );
    match infy::engine::template::template_outcome(Err((true, "bad".to_string()))) {
        Err(infy::kernel::error::Error::Invalid(m)) => assert_eq!(m, "chat template does not parse: bad"),
        other => panic!("{other:?}"),
    }
    match infy::engine::template::template_outcome(Err((false, "boom".to_string()))) {
        Err(infy::kernel::error::Error::Invalid(m)) => assert_eq!(m, "chat template failed: boom"),
        other => panic!("{other:?}"),
    }
}
