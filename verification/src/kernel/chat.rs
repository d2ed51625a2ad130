//! Chat messages: a role and the text that role said.
use vstd::prelude::*;
use vstd::string::*;

use crate::kernel::error::{Error, Result};
use crate::kernel::model_ref::{trim_text, trimmed};
use crate::text::{debug_quoted, debug_str, str_eq};

verus! {

/// Who said a message.
#[derive(Debug, Clone, Copy, PartialEq, Eq, Structural)]
pub enum Role {
    System,
    User,
    Assistant,
}

/// The wire name of a role.
pub open spec fn role_name(r: Role) -> Seq<char> {
    match r {
        Role::System => "system"@,
        Role::User => "user"@,
        Role::Assistant => "assistant"@,
    }
}

impl Role {
    /// `"system"`, `"user"` or `"assistant"`, as chat templates and the
    /// OpenAI protocol spell them.
    pub fn as_str(&self) -> (s: &'static str)
        ensures
            s@ == role_name(*self),
    {
        match self {
            Role::System => "system",
            Role::User => "user",
            Role::Assistant => "assistant",
        }
    }

    /// The role a wire name names; any other name is invalid.
    pub fn parse(s: &str) -> (r: Result<Role>)
        ensures
            r matches Ok(role) ==> role_name(role) == s@,
            r is Err <==> (s@ != "system"@ && s@ != "user"@ && s@ != "assistant"@),
            r matches Err(e) ==> e matches Error::Invalid(m) && m@ == "unknown role "@
                + debug_quoted(s@) + "; expected system, user or assistant"@,
    {
        if str_eq(s, "system") {
            Ok(Role::System)
        } else if str_eq(s, "user") {
            Ok(Role::User)
        } else if str_eq(s, "assistant") {
            Ok(Role::Assistant)
        } else {
            let mut m = "unknown role ".to_owned();
            let q = debug_str(s);
            m.append(q.as_str());
            m.append("; expected system, user or assistant");
            Err(Error::Invalid(m))
        }
    }
}

/// One turn of a conversation.
#[derive(Debug, Clone)]
pub struct Message {
    pub role: Role,
    pub content: String,
}

impl Message {
    pub fn new(role: Role, content: &str) -> (m: Self)
        ensures
            m.role == role,
            m.content@ == content@,
    {
        Message { role, content: content.to_owned() }
    }

    pub fn system(content: &str) -> (m: Self)
        ensures
            m.role == Role::System,
            m.content@ == content@,
    {
        Message::new(Role::System, content)
    }

    pub fn user(content: &str) -> (m: Self)
        ensures
            m.role == Role::User,
            m.content@ == content@,
    {
        Message::new(Role::User, content)
    }

    pub fn assistant(content: &str) -> (m: Self)
        ensures
            m.role == Role::Assistant,
            m.content@ == content@,
    {
        Message::new(Role::Assistant, content)
    }
}

/// A role's wire name reads back as that role: `parse(r.as_str())` is
/// `Ok(r)`, because no two roles share a name.
pub proof fn law_role_round_trip(r: Role, back: Role)
    requires
        role_name(back) == role_name(r),
    ensures
        back == r,
{
    reveal_strlit("system");
    reveal_strlit("user");
    reveal_strlit("assistant");
    assert("system"@.len() == 6 && "user"@.len() == 4 && "assistant"@.len() == 9);
    assert(role_name(back).len() == role_name(r).len());
}

/// A message as its role and text.
pub open spec fn message_view(m: Message) -> (Role, Seq<char>) {
    (m.role, m.content@)
}

/// A conversation as roles and texts.
pub open spec fn history_view(h: Seq<Message>) -> Seq<(Role, Seq<char>)> {
    h.map_values(|m: Message| message_view(m))
}

/// What one line typed at the chat prompt asks for.
#[derive(Debug, Clone, Copy, PartialEq, Eq, Structural)]
pub enum ChatAction {
    /// Leave the chat (`/quit`, `/exit`).
    Quit,
    /// Nothing to do (an empty line).
    Skip,
    /// The conversation was cleared but for its system messages (`/reset`).
    Cleared,
    /// Show the last prompt as sent (`/prompt`).
    ShowPrompt,
    /// The line is the user's next turn; send the conversation.
    Send,
}

pub open spec fn chat_action_of(line: Seq<char>) -> ChatAction {
    let t = trimmed(line);
    if t.len() == 0 {
        ChatAction::Skip
    } else if t == "/quit"@ || t == "/exit"@ {
        ChatAction::Quit
    } else if t == "/reset"@ {
        ChatAction::Cleared
    } else if t == "/prompt"@ {
        ChatAction::ShowPrompt
    } else {
        ChatAction::Send
    }
}

/// The system messages of a conversation, in order.
pub open spec fn system_only(h: Seq<(Role, Seq<char>)>) -> Seq<(Role, Seq<char>)> {
    h.filter(|m: (Role, Seq<char>)| m.0 == Role::System)
}

/// The conversation after a line: `/reset` keeps only the system
/// messages, a turn appends the trimmed line as the user's, anything else
/// leaves it as it was.
pub open spec fn chat_history_of(h: Seq<(Role, Seq<char>)>, line: Seq<char>) -> Seq<(Role, Seq<char>)> {
    match chat_action_of(line) {
        ChatAction::Cleared => system_only(h),
        ChatAction::Send => h.push((Role::User, trimmed(line))),
        _ => h,
    }
}

/// Take one line typed at the chat prompt: decide what it asks for and
/// update the conversation accordingly.
pub fn chat_step(history: &mut Vec<Message>, line: &str) -> (a: ChatAction)
    ensures
        a == chat_action_of(line@),
        history_view(final(history)@) == chat_history_of(history_view(old(history)@), line@),
{
    let t = trim_text(line);
    let ts = t.as_str();
    proof {
        reveal_strlit("/quit");
        reveal_strlit("/exit");
        reveal_strlit("/reset");
        reveal_strlit("/prompt");
    }
    if ts.unicode_len() == 0 {
        return ChatAction::Skip;
    }
    if str_eq(ts, "/quit") || str_eq(ts, "/exit") {
        return ChatAction::Quit;
    }
    if str_eq(ts, "/reset") {
        let ghost h0 = history_view(history@);
        let mut kept: Vec<Message> = Vec::new();
        let mut i: usize = 0;
        while i < history.len()
            invariant
                i <= history@.len(),
                h0 == history_view(history@),
                history_view(kept@) == system_only(h0.take(i as int)),
            decreases history@.len() - i,
        {
            proof {
                assert(h0.take(i + 1) =~= h0.take(i as int).push(h0[i as int]));
                h0.take(i as int).lemma_filter_push(h0[i as int], |m: (Role, Seq<char>)| m.0 == Role::System);
            }
            if history[i].role == Role::System {
                let m = Message::new(Role::System, history[i].content.as_str());
                let ghost k0 = kept@;
                kept.push(m);
                assert(history_view(kept@) =~= history_view(k0).push(message_view(m)));
            }
            i += 1;
        }
        assert(h0.take(i as int) =~= h0);
        *history = kept;
        return ChatAction::Cleared;
    }
    if str_eq(ts, "/prompt") {
        return ChatAction::ShowPrompt;
    }
    let ghost h0 = history@;
    history.push(Message::user(ts));
    assert(history_view(history@) =~= history_view(h0).push((Role::User, trimmed(line@))));
    ChatAction::Send
}

/// The conversation after a sent turn: with the reply, it becomes the
/// assistant's turn; without one (the request failed or was interrupted),
/// the user's turn is taken back.
pub open spec fn chat_outcome_of(h: Seq<(Role, Seq<char>)>, reply: Option<Seq<char>>) -> Seq<(Role, Seq<char>)> {
    match reply {
        Some(t) => h.push((Role::Assistant, t)),
        None => if h.len() > 0 {
            h.drop_last()
        } else {
            h
        },
    }
}

/// Take what came of a sent turn.
pub fn chat_outcome(history: &mut Vec<Message>, reply: Option<String>)
    ensures
        history_view(final(history)@) == chat_outcome_of(
            history_view(old(history)@),
            match reply {
                Some(t) => Some(t@),
                None => None,
            },
        ),
{
    let ghost h0 = history@;
    match reply {
        Some(t) => {
            history.push(Message::assistant(t.as_str()));
            assert(history_view(history@) =~= history_view(h0).push((Role::Assistant, t@)));
        },
        None => {
            if history.len() > 0 {
                history.pop();
                assert(history_view(history@) =~= history_view(h0).drop_last());
            }
        },
    }
}

impl std::str::FromStr for Role {
    type Err = Error;

    fn from_str(s: &str) -> (r: Result<Self>)
        ensures
            r matches Ok(role) ==> role_name(role) == s@,
            r is Err <==> (s@ != "system"@ && s@ != "user"@ && s@ != "assistant"@),
            r matches Err(e) ==> e matches Error::Invalid(m) && m@ == "unknown role "@
                + debug_quoted(s@) + "; expected system, user or assistant"@,
    {
        Role::parse(s)
    }
}

} // verus!
