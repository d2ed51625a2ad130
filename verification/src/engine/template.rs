//! Chat templates: a checkpoint's Jinja template rendered the way
//! `transformers` renders it, through `minijinja`.
use minijinja::{Environment, Value};
use vstd::prelude::*;
use vstd::string::*;

use crate::kernel::chat::{role_name, Message};
use crate::kernel::error::{Error, Result};
use crate::text::string_views;

verus! {

#[verifier::external_type_specification]
#[verifier::external_body]
pub struct ExEnvironment<'source>(Environment<'source>);

/// What rendering a template gives: the text, or why it failed -- `true`
/// when the template does not parse, `false` when it fails while rendering --
/// with minijinja's description.
pub uninterp spec fn jinja_rendered(
    template: Seq<char>,
    roles: Seq<Seq<char>>,
    contents: Seq<Seq<char>>,
    bos: Seq<char>,
    eos: Seq<char>,
) -> core::result::Result<Seq<char>, (bool, Seq<char>)>;

/// `minijinja::Environment::new` configured as `transformers` configures
/// Jinja for chat templates: `trim_blocks` and `lstrip_blocks` on, Python
/// string methods available through `minijinja_contrib::pycompat`, and
/// `raise_exception(msg)` failing the render with `msg`. Nothing is stated
/// of the value, which is only ever handed to `jinja_render`.
#[verifier::external_body]
fn chat_environment<'a>() -> Environment<'a> {
    let mut env = Environment::new();
    env.set_trim_blocks(true);
    env.set_lstrip_blocks(true);
    env.set_unknown_method_callback(minijinja_contrib::pycompat::unknown_method_callback);
    env.add_function("raise_exception", |msg: String| -> core::result::Result<Value, minijinja::Error> {
        Err(minijinja::Error::new(minijinja::ErrorKind::InvalidOperation, msg))
    });
    env
}

/// `Environment::template_from_str` then `Template::render` with the
/// context `messages` (each a map of `role` and `content`), `bos_token`,
/// `eos_token`, `add_generation_prompt = true` and `tools = none`. The
/// result is named by `jinja_rendered`, for an environment built by
/// `chat_environment`, the only one this crate makes.
#[verifier::external_body]
fn jinja_render<'a>(env: &Environment<'a>, template: &'a str, roles: &Vec<String>, contents: &Vec<String>, bos: &str, eos: &str) -> (r: core::result::Result<String, (bool, String)>)
    ensures
        jinja_rendered(template@, string_views(roles@), string_views(contents@), bos@, eos@)
            == match r {
            Ok(s) => Ok(s@),
            Err((parse, d)) => Err((parse, d@)),
        },
{
    let tmpl = env.template_from_str(template).map_err(|e| (true, e.to_string()))?;
    let messages: Vec<Value> = roles.iter().zip(contents).map(|(r, c)| Value::from_iter([("role", r.as_str()), ("content", c.as_str())])).collect();
    let ctx = Value::from_iter([("messages", Value::from(messages)), ("bos_token", Value::from(bos)), ("eos_token", Value::from(eos)), ("add_generation_prompt", Value::from(true)), ("tools", Value::from(()))]);
    tmpl.render(ctx).map_err(|e| (false, e.to_string()))
}

/// The role names of the messages.
pub open spec fn roles_of(ms: Seq<Message>) -> Seq<Seq<char>> {
    ms.map_values(|m: Message| role_name(m.role))
}

/// The contents of the messages.
pub open spec fn contents_of(ms: Seq<Message>) -> Seq<Seq<char>> {
    ms.map_values(|m: Message| m.content@)
}

/// An optional text, empty when absent.
pub open spec fn text_or_empty(t: Option<Seq<char>>) -> Seq<char> {
    match t {
        Some(s) => s,
        None => Seq::empty(),
    }
}

/// What `render_chat_template` answers for a rendering outcome.
pub open spec fn template_result_matches(
    outcome: core::result::Result<Seq<char>, (bool, Seq<char>)>,
    r: Result<String>,
) -> bool {
    match outcome {
        Ok(t) => r matches Ok(s) && s@ == t,
        Err((true, d)) => r matches Err(Error::Invalid(m)) && m@ == "chat template does not parse: "@ + d,
        Err((false, d)) => r matches Err(Error::Invalid(m)) && m@ == "chat template failed: "@ + d,
    }
}

/// Render a checkpoint's Jinja chat template the way `transformers` does:
/// `trim_blocks` and `lstrip_blocks` on, Python string methods available,
/// `raise_exception` defined, `tools` absent, and `add_generation_prompt`
/// true so the model's turn is opened. A missing BOS or EOS text is the
/// empty string.
pub fn render_chat_template(
    template: &str,
    messages: &[Message],
    bos_token: Option<&str>,
    eos_token: Option<&str>,
) -> (r: Result<String>)
    ensures
        template_result_matches(
            jinja_rendered(
                template@,
                roles_of(messages@),
                contents_of(messages@),
                text_or_empty(match bos_token { Some(b) => Some(b@), None => None }),
                text_or_empty(match eos_token { Some(e) => Some(e@), None => None }),
            ),
            r,
        ),
{
    let mut roles: Vec<String> = Vec::new();
    let mut contents: Vec<String> = Vec::new();
    let mut i: usize = 0;
    while i < messages.len()
        invariant
            i <= messages@.len(),
            roles@.len() == i,
            contents@.len() == i,
            forall|j: int| 0 <= j < i ==> (#[trigger] roles@[j])@ == role_name(messages@[j].role),
            forall|j: int| 0 <= j < i ==> (#[trigger] contents@[j])@ == messages@[j].content@,
        decreases messages@.len() - i,
    {
        roles.push(messages[i].role.as_str().to_owned());
        contents.push(messages[i].content.clone());
        i += 1;
    }
    assert(string_views(roles@) =~= roles_of(messages@));
    assert(string_views(contents@) =~= contents_of(messages@));
    let bos = match bos_token {
        Some(b) => b,
        None => "",
    };
    let eos = match eos_token {
        Some(e) => e,
        None => "",
    };
    proof {
        reveal_strlit("");
        assert(""@ =~= Seq::<char>::empty());
    }
    assert(bos@ == text_or_empty(match bos_token { Some(b) => Some(b@), None => None }));
    assert(eos@ == text_or_empty(match eos_token { Some(e) => Some(e@), None => None }));
    let env = chat_environment();
    template_outcome(jinja_render(&env, template, &roles, &contents, bos, eos))
}

/// The text of a rendering, or why the template failed: a template that
/// does not parse, or one that fails while rendering, with minijinja's
/// description.
pub fn template_outcome(outcome: core::result::Result<String, (bool, String)>) -> (r: Result<String>)
    ensures
        template_result_matches(
            match outcome {
                Ok(s) => Ok(s@),
                Err((parse, d)) => Err((parse, d@)),
            },
            r,
        ),
{
    match outcome {
        Ok(s) => Ok(s),
        Err((parse, d)) => {
            let mut m = if parse {
                "chat template does not parse: ".to_owned()
            } else {
                "chat template failed: ".to_owned()
            };
            m.append(d.as_str());
            Err(Error::Invalid(m))
        },
    }
}

} // verus!
