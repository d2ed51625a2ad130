use infy::kernel::cancel::Cancel;
use infy::kernel::chat::{chat_outcome, chat_step, ChatAction, Message, Role};
use infy::kernel::error::Error;
use infy::kernel::generation::Usage;
use infy::kernel::model_ref::ModelRef;

#[test]
fn role_round_trips_through_its_string_form() {
    for r in [Role::System, Role::User, Role::Assistant] {
        assert_eq!(r.as_str().parse::<Role>().unwrap(), r);
    }
    assert!(matches!("tool".parse::<Role>(), Err(Error::Invalid(_))));
}

#[test]
fn error_display_carries_context_and_source() {
    let io = std::io::Error::new(std::io::ErrorKind::NotFound, "gone");
    let e = Error::wrap("opening model.gguf", &io.to_string());
    assert_eq!(e.message(), "opening model.gguf: gone");
    assert!(e.source().is_some());
    assert_eq!(Error::internal("plain").message(), "plain");
    assert!(Error::Cancelled.is_cancelled());
}

#[test]
fn cancel_flag_is_shared_between_clones() {
    let c = Cancel::new();
    let c2 = c.clone();
    assert!(c.check().is_ok());
    c2.cancel();
    assert!(c.is_cancelled());
    assert!(c.check().unwrap_err().is_cancelled());
}

#[test]
fn model_ref_accepts_the_shapes_users_type() {
    for ok in [
        "hf:Qwen/Qwen2.5-0.5B-Instruct-GGUF",
        "./m.gguf",
        "ollama:llama3.2:3b",
        "tiny",
    ] {
        assert_eq!(ModelRef::new(ok).unwrap().as_str(), ok);
    }
}

#[test]
fn model_ref_trims_and_rejects_whitespace_inside() {
    assert_eq!(ModelRef::new("  tiny \n").unwrap().as_str(), "tiny");
    for bad in ["", "   ", "a b", "a\tb", "a\u{7}b"] {
        assert!(
            matches!(ModelRef::new(bad), Err(Error::Invalid(_))),
            "{bad:?}"
        );
    }
}

#[test]
fn model_ref_errors_name_the_problem() {
    match ModelRef::new("  ") {
        Err(Error::Invalid(m)) => assert_eq!(m, "model ref is empty"),
        other => panic!("{other:?}"),
    }
    match ModelRef::new("a b") {
        Err(Error::Invalid(m)) => {
            assert_eq!(m, "model ref \"a b\" contains whitespace or control characters")
        }
        other => panic!("{other:?}"),
    }
}

#[test]
fn error_messages_name_their_kind() {
    assert_eq!(Error::not_found("m").message(), "not found: m");
    assert_eq!(Error::invalid("x").message(), "invalid: x");
    assert_eq!(Error::unavailable("y").message(), "unavailable: y");
    assert_eq!(Error::Cancelled.message(), "cancelled");
    assert!(Error::internal("plain").source().is_none());
    assert!(!Error::invalid("x").is_cancelled());
}

#[test]
fn role_parse_refuses_unknown_roles_with_the_choices() {
    match Role::parse("tool") {
        Err(Error::Invalid(m)) => {
            assert_eq!(m, "unknown role \"tool\"; expected system, user or assistant")
        }
        other => panic!("{other:?}"),
    }
    let m = Message::user("hi");
    assert_eq!(m.role, Role::User);
    assert_eq!(m.content, "hi");
}

#[test]
fn usage_total_adds_prompt_and_completion() {
    let u = Usage {
        prompt_tokens: 7,
        completion_tokens: 5,
        cached_tokens: 3,
    };
    assert_eq!(u.total(), 12);
}

#[test]
fn each_kind_of_failure_has_its_exit_code() {
    assert_eq!(Error::invalid("x").exit_code(), 2);
    assert_eq!(Error::not_found("x").exit_code(), 3);
    assert_eq!(Error::unavailable("x").exit_code(), 4);
    assert_eq!(Error::Cancelled.exit_code(), 130);
    assert_eq!(Error::wrap("a", "b").exit_code(), 1);
}

fn turns(h: &[Message]) -> Vec<(Role, String)> {
    h.iter().map(|m| (m.role, m.content.clone())).collect()
}

#[test]
fn the_chat_prompt_reads_commands_and_turns() {
    let mut h = vec![Message::system("be brief")];
    assert_eq!(chat_step(&mut h, "   "), ChatAction::Skip);
    assert_eq!(chat_step(&mut h, " /prompt "), ChatAction::ShowPrompt);
    assert_eq!(turns(&h), vec![(Role::System, "be brief".to_string())]);
    assert_eq!(chat_step(&mut h, "  hi there \n"), ChatAction::Send);
    assert_eq!(turns(&h).last().unwrap(), &(Role::User, "hi there".to_string()));
    chat_outcome(&mut h, Some("hello".to_string()));
    assert_eq!(turns(&h).last().unwrap(), &(Role::Assistant, "hello".to_string()));
    assert_eq!(chat_step(&mut h, "again"), ChatAction::Send);
    chat_outcome(&mut h, None);
    assert_eq!(h.len(), 3, "a failed turn is taken back");
    assert_eq!(chat_step(&mut h, "/reset"), ChatAction::Cleared);
    assert_eq!(turns(&h), vec![(Role::System, "be brief".to_string())]);
    assert_eq!(chat_step(&mut h, "/quit"), ChatAction::Quit);
    assert_eq!(chat_step(&mut h, "/exit"), ChatAction::Quit);
    assert_eq!(h.len(), 1);
}
