use infy::bootstrap::{default_model, parse_override, Bootstrap};
use infy::hub::service::LocalModel;
use infy::kernel::error::Error;
use infy::runtime::logic::RuntimeKind;

#[test]
fn overrides_parse_name_and_value() {
    assert_eq!(
        parse_override("ollama=/opt/ollama").unwrap(),
        (RuntimeKind::Ollama, "/opt/ollama".into())
    );
    assert_eq!(
        parse_override("llama.cpp=http://127.0.0.1:9000").unwrap(),
        (RuntimeKind::LlamaCpp, "http://127.0.0.1:9000".into())
    );
    assert!(matches!(parse_override("ollama"), Err(Error::Invalid(m)) if m.contains("name=value")));
    assert!(matches!(parse_override("=x"), Err(Error::Invalid(_))));
    assert!(matches!(parse_override("vllm=x"), Err(Error::Invalid(m)) if m.contains("vllm")));
}

#[test]
fn bootstrap_defaults_and_overrides() {
    let bins = vec!["ollama=/a".to_string(), "lms=/l".to_string(), "ollama=/b".to_string()];
    let urls = vec!["llamacpp=http://h:1".to_string()];
    let b = Bootstrap::new(
        "/data".into(),
        None,
        "cpu".into(),
        "warn".into(),
        Some("  ".into()),
        &bins,
        &urls,
    )
    .unwrap();
    assert_eq!(b.models_dir, "/data/models");
    assert_eq!(b.run_dir(), "/data/run");
    assert_eq!(b.hub_cache_dir(), "/data/hub-cache");
    assert_eq!(b.hf_token, None, "a blank token is no token");
    assert_eq!(b.runtime_overrides.get(RuntimeKind::Ollama).binary.as_deref(), Some("/b"));
    assert_eq!(b.runtime_overrides.get(RuntimeKind::LmStudio).binary.as_deref(), Some("/l"));
    assert_eq!(
        b.runtime_overrides.get(RuntimeKind::LlamaCpp).url.as_deref(),
        Some("http://h:1")
    );
    assert_eq!(b.runtime_overrides.get(RuntimeKind::LlamaCpp).binary, None);

    let b = Bootstrap::new("/d/".into(), Some("/m".into()), "auto".into(), "info".into(), Some("t".into()), &[], &[]).unwrap();
    assert_eq!(b.models_dir, "/m");
    assert_eq!(b.hf_token.as_deref(), Some("t"));
    assert_eq!(b.run_dir(), "/d/run");

    let bad = vec!["nope".to_string()];
    match Bootstrap::new("/d".into(), None, "auto".into(), "warn".into(), None, &bad, &[]) {
        Err(Error::Invalid(m)) => assert_eq!(
            m,
            "runtime override \"nope\" must be name=value, e.g. ollama=/usr/local/bin/ollama"
        ),
        other => panic!("{:?}", other.map(|_| ())),
    }
}

#[test]
fn the_only_local_model_is_the_default() {
    let m = |n: &str| LocalModel {
        name: n.to_string(),
        path: format!("/d/{n}"),
        size_bytes: 1,
    };
    assert_eq!(default_model(&[m("a.gguf")], "/d").unwrap(), "a.gguf");
    match default_model(&[], "/d") {
        Err(Error::NotFound(msg)) => assert!(
            msg.starts_with("no model: nothing in /d and no --model given."),
            "{msg}"
        ),
        other => panic!("{other:?}"),
    }
    match default_model(&[m("a.gguf"), m("o--r/b.gguf")], "/d") {
        Err(Error::Invalid(msg)) => assert_eq!(
            msg,
            "2 local models; choose one with --model: a.gguf, o--r/b.gguf"
        ),
        other => panic!("{other:?}"),
    }
}
