//! Reading a runtime's streamed answer: the lines of a server-sent event
//! stream in, the text to show out, and at the end what the runtime said
//! about the model, the finish and the tokens, or why it refused.
use vstd::prelude::*;
use vstd::string::*;

use crate::kernel::error::{Error, Result};
use crate::kernel::generation::{FinishReason, Usage};
use crate::kernel::model_ref::{trim_text, trimmed};
use crate::runtime::json::{json_read, read_json, Json};
use crate::runtime::logic::{member, member_of, text_member, text_member_of, RuntimeKind};
use crate::runtime::service::{
    finish_named, finish_named_spec, stream_failure, stream_failure_error, stream_finish,
};
use crate::text::{chars_of, starts_with, str_eq, str_starts_with, string_from_chars};

verus! {

/// The payload of a server-sent `data:` line, trimmed; `None` for any other
/// line and for the `[DONE]` marker that ends the stream.
pub open spec fn data_payload(line: Seq<char>) -> Option<Seq<char>> {
    if starts_with(line, "data:"@) && trimmed(line.skip(5)) != "[DONE]"@ {
        Some(trimmed(line.skip(5)))
    } else {
        None
    }
}

pub fn data_line(line: &str) -> (r: Option<String>)
    ensures
        match data_payload(line@) {
            Some(p) => r matches Some(x) && x@ == p,
            None => r is None,
        },
{
    proof {
        reveal_strlit("data:");
        reveal_strlit("[DONE]");
    }
    if !str_starts_with(line, "data:") {
        return None;
    }
    let cs = chars_of(line);
    let rest = string_from_chars(&cs, 5, cs.len());
    assert(rest@ =~= line@.skip(5));
    let p = trim_text(rest.as_str());
    if str_eq(p.as_str(), "[DONE]") {
        None
    } else {
        Some(p)
    }
}

/// What one streamed chunk says: the model that answered (empty when it
/// does not say), the text it adds, how it finished, and the token counts.
pub struct Frame {
    pub model: Seq<char>,
    pub text: Option<Seq<char>>,
    pub finish: Option<Seq<char>>,
    pub usage: Option<Usage>,
}

/// An optional count that must fit a `usize`: absent or null is zero.
pub open spec fn count_of(m: Option<Json>) -> Option<usize> {
    match m {
        None => Some(0),
        Some(Json::Null) => Some(0),
        Some(Json::Number(Some(n))) => if n <= usize::MAX {
            Some(n as usize)
        } else {
            None
        },
        _ => None,
    }
}

/// The `usage` member of a chunk: absent or null is none; an object gives
/// the prompt and completion counts and, under `prompt_tokens_details`, the
/// cached count.
pub open spec fn usage_of(m: Option<Json>) -> Option<Option<Usage>> {
    match m {
        None => Some(None),
        Some(Json::Null) => Some(None),
        Some(Json::Object(u)) => {
            let cached = match member(u@, "prompt_tokens_details"@) {
                None => Some(0usize),
                Some(Json::Null) => Some(0usize),
                Some(Json::Object(d)) => count_of(member(d@, "cached_tokens"@)),
                _ => None,
            };
            match (
                count_of(member(u@, "prompt_tokens"@)),
                count_of(member(u@, "completion_tokens"@)),
                cached,
            ) {
                (Some(p), Some(c), Some(k)) => Some(
                    Some(Usage { prompt_tokens: p, completion_tokens: c, cached_tokens: k }),
                ),
                _ => None,
            }
        },
        _ => None,
    }
}

/// The text a choice adds: a chat choice's `delta.content`, a completion
/// choice's `text`.
pub open spec fn choice_text(chat: bool, c: Seq<(String, Json)>) -> Option<Option<Seq<char>>> {
    if chat {
        match member(c, "delta"@) {
            None => Some(None),
            Some(Json::Null) => Some(None),
            Some(Json::Object(d)) => text_member(member(d@, "content"@)),
            _ => None,
        }
    } else {
        text_member(member(c, "text"@))
    }
}

/// A chunk as a frame; `None` when it is not a chunk of the expected
/// shape. Only the first choice is read.
pub open spec fn frame_of(chat: bool, j: Json) -> Option<Frame> {
    match j {
        Json::Object(o) => {
            let model = match member(o@, "model"@) {
                None => Some(Seq::<char>::empty()),
                Some(Json::Text(s)) => Some(s@),
                _ => None,
            };
            let choice = match member(o@, "choices"@) {
                None => Some((Some(None), Some(None))),
                Some(Json::Array(cs)) => if cs@.len() == 0 {
                    Some((Some(None), Some(None)))
                } else {
                    match cs@[0] {
                        Json::Object(c) => Some(
                            (choice_text(chat, c@), text_member(member(c@, "finish_reason"@))),
                        ),
                        _ => None,
                    }
                },
                _ => None,
            };
            match (model, choice, usage_of(member(o@, "usage"@))) {
                (Some(m), Some((Some(t), Some(f))), Some(u)) => Some(
                    Frame { model: m, text: t, finish: f, usage: u },
                ),
                _ => None,
            }
        },
        _ => None,
    }
}

/// What has been read of a stream so far.
pub struct StreamView {
    /// Whether the stream is a chat (`delta.content`) or a completion
    /// (`text`).
    pub chat: bool,
    /// Every piece of text shown, in order.
    pub text: Seq<char>,
    /// The model the runtime says answered; the requested one until it says.
    pub answered: Seq<char>,
    /// The last finish the runtime gave.
    pub finish: Option<FinishReason>,
    /// The last token counts the runtime gave.
    pub usage: Usage,
    /// Whatever was not a chunk, trimmed and run together: on an error
    /// status, the body that says why.
    pub leftovers: Seq<char>,
}

/// Reading one line: the state after it, and the text it shows, if any.
pub open spec fn stream_step(chat: bool, s: StreamView, line: Seq<char>) -> (StreamView, Option<Seq<char>>) {
    let keep = |x: Seq<char>| StreamView { leftovers: s.leftovers + x, ..s };
    match data_payload(line) {
        None => (if trimmed(line).len() > 0 {
            keep(trimmed(line))
        } else {
            s
        }, None),
        Some(p) => match json_read(p) {
            Err(_) => (keep(p), None),
            Ok(j) => match frame_of(chat, j) {
                None => (keep(p), None),
                Some(f) => {
                    let shown = match f.text {
                        Some(t) => if t.len() > 0 {
                            Some(t)
                        } else {
                            None
                        },
                        None => None,
                    };
                    (
                        StreamView {
                            chat: s.chat,
                            text: match shown {
                                Some(t) => s.text + t,
                                None => s.text,
                            },
                            answered: if f.model.len() > 0 {
                                f.model
                            } else {
                                s.answered
                            },
                            finish: match f.finish {
                                Some(n) => Some(finish_named_spec(n)),
                                None => s.finish,
                            },
                            usage: match f.usage {
                                Some(u) => u,
                                None => s.usage,
                            },
                            leftovers: s.leftovers,
                        },
                        shown,
                    )
                },
            },
        },
    }
}

/// The `error.message` of an OpenAI-style error body.
pub open spec fn error_message(body: Seq<char>) -> Option<Seq<char>> {
    match json_read(body) {
        Ok(j) => error_message_of_json(j),
        Err(_) => None,
    }
}

/// Why a refused stream was refused: the error body's message, else the
/// leftovers as they are.
pub open spec fn refusal_detail(leftovers: Seq<char>) -> Seq<char> {
    match error_message(trimmed(leftovers)) {
        Some(m) => m,
        None => trimmed(leftovers),
    }
}

/// How a stream ended, once the runtime's status is known.
#[derive(Debug)]
pub struct StreamEnd {
    pub model: String,
    pub text: String,
    pub finish: FinishReason,
    pub usage: Usage,
}

/// Reads a runtime's streamed answer line by line.
#[derive(Debug)]
pub struct StreamReader {
    chat: bool,
    text: String,
    answered: String,
    finish: Option<FinishReason>,
    usage: Usage,
    leftovers: String,
}

impl View for StreamReader {
    type V = StreamView;

    closed spec fn view(&self) -> StreamView {
        StreamView {
            chat: self.chat,
            text: self.text@,
            answered: self.answered@,
            finish: self.finish,
            usage: self.usage,
            leftovers: self.leftovers@,
        }
    }
}

impl StreamReader {
    /// Whether the stream is a chat (`delta.content`) or a completion
    /// (`text`); the same as the view's `chat`.
    pub closed spec fn is_chat(&self) -> bool {
        self.chat
    }

    /// A reader for a stream asked of `requested_model`.
    pub fn new(chat: bool, requested_model: &str) -> (r: Self)
        ensures
            r.is_chat() == chat,
            r@ == (StreamView {
                chat,
                text: Seq::empty(),
                answered: requested_model@,
                finish: None,
                usage: Usage { prompt_tokens: 0, completion_tokens: 0, cached_tokens: 0 },
                leftovers: Seq::empty(),
            }),
    {
        StreamReader {
            chat,
            text: String::new(),
            answered: requested_model.to_owned(),
            finish: None,
            usage: Usage { prompt_tokens: 0, completion_tokens: 0, cached_tokens: 0 },
            leftovers: String::new(),
        }
    }

    /// Read one line of the stream; the text it adds, when it adds some.
    pub fn accept(&mut self, line: &str) -> (shown: Option<String>)
        ensures
            final(self).is_chat() == old(self).is_chat(),
            final(self)@ == stream_step(old(self).is_chat(), old(self)@, line@).0,
            match stream_step(old(self).is_chat(), old(self)@, line@).1 {
                Some(t) => shown matches Some(x) && x@ == t,
                None => shown is None,
            },
    {
        let payload = match data_line(line) {
            Some(p) => p,
            None => {
                let t = trim_text(line);
                if t.as_str().unicode_len() > 0 {
                    self.leftovers.append(t.as_str());
                }
                return None;
            },
        };
        let j = match read_json(payload.as_str()) {
            Ok(j) => j,
            Err(_) => {
                self.leftovers.append(payload.as_str());
                return None;
            },
        };
        let frame = match frame_from(self.chat, &j) {
            Some(f) => f,
            None => {
                self.leftovers.append(payload.as_str());
                return None;
            },
        };
        let (model, text, finish, usage) = frame;
        if model.as_str().unicode_len() > 0 {
            self.answered = model;
        }
        match finish {
            Some(n) => {
                self.finish = Some(finish_named(n.as_str()));
            },
            None => {},
        }
        match usage {
            Some(u) => {
                self.usage = u;
            },
            None => {},
        }
        match text {
            Some(t) => {
                if t.as_str().unicode_len() > 0 {
                    self.text.append(t.as_str());
                    Some(t)
                } else {
                    None
                }
            },
            None => None,
        }
    }

    /// End the stream the runtime answered with `status`: on an error
    /// status, the refusal; otherwise what was read, finished as cancelled
    /// when `cancelled`, else as the runtime said, else as a stop.
    pub fn end(self, kind: RuntimeKind, status: u16, cancelled: bool, requested_model: &str) -> (r: Result<StreamEnd>)
        ensures
            status >= 400 ==> r is Err && stream_failure_error(
                kind,
                status,
                requested_model@,
                refusal_detail(self@.leftovers),
                r->Err_0,
            ),
            status < 400 ==> (r matches Ok(e) && e.model@ == self@.answered && e.text@ == self@.text
                && e.usage == self@.usage && e.finish == (if cancelled {
                FinishReason::Cancelled
            } else {
                match self@.finish {
                    Some(x) => x,
                    None => FinishReason::Stop,
                }
            })),
    {
        if status >= 400 {
            let t = trim_text(self.leftovers.as_str());
            let detail = match error_message_of(t.as_str()) {
                Some(m) => m,
                None => t,
            };
            return Err(stream_failure(kind, status, requested_model, detail.as_str()));
        }
        let finish = stream_finish(cancelled, self.finish);
        Ok(StreamEnd { model: self.answered, text: self.text, finish, usage: self.usage })
    }
}

fn error_message_of(body: &str) -> (r: Option<String>)
    ensures
        match error_message(body@) {
            Some(m) => r matches Some(x) && x@ == m,
            None => r is None,
        },
{
    match read_json(body) {
        Ok(j) => error_message_in(&j),
        Err(_) => None,
    }
}

/// The `error.message` of an OpenAI-style error document.
pub open spec fn error_message_of_json(j: Json) -> Option<Seq<char>> {
    match j {
        Json::Object(o) => match member(o@, "error"@) {
            Some(Json::Object(e)) => match member(e@, "message"@) {
                Some(Json::Text(m)) => Some(m@),
                _ => None,
            },
            _ => None,
        },
        _ => None,
    }
}

pub fn error_message_in(j: &Json) -> (r: Option<String>)
    ensures
        match error_message_of_json(*j) {
            Some(m) => r matches Some(x) && x@ == m,
            None => r is None,
        },
{
    match j {
        Json::Object(o) => match member_of(o, "error") {
            Some(Json::Object(e)) => match member_of(e, "message") {
                Some(Json::Text(m)) => Some(m.clone()),
                _ => None,
            },
            _ => None,
        },
        _ => None,
    }
}

fn count_from(m: Option<&Json>) -> (r: Option<usize>)
    ensures
        r == count_of(
            match m {
                Some(j) => Some(*j),
                None => None,
            },
        ),
{
    match m {
        None => Some(0),
        Some(Json::Null) => Some(0),
        Some(Json::Number(Some(n))) => {
            if *n <= usize::MAX as u64 {
                Some(*n as usize)
            } else {
                None
            }
        },
        _ => None,
    }
}

fn usage_from(m: Option<&Json>) -> (r: Option<Option<Usage>>)
    ensures
        r == usage_of(
            match m {
                Some(j) => Some(*j),
                None => None,
            },
        ),
{
    match m {
        None => Some(None),
        Some(Json::Null) => Some(None),
        Some(Json::Object(u)) => {
            let cached = match member_of(u, "prompt_tokens_details") {
                None => Some(0usize),
                Some(Json::Null) => Some(0usize),
                Some(Json::Object(d)) => count_from(member_of(d, "cached_tokens")),
                _ => None,
            };
            let p = count_from(member_of(u, "prompt_tokens"));
            let c = count_from(member_of(u, "completion_tokens"));
            match (p, c, cached) {
                (Some(p), Some(c), Some(k)) => Some(
                    Some(Usage { prompt_tokens: p, completion_tokens: c, cached_tokens: k }),
                ),
                _ => None,
            }
        },
        _ => None,
    }
}

fn choice_text_from(chat: bool, c: &Vec<(String, Json)>) -> (r: Option<Option<String>>)
    ensures
        match choice_text(chat, c@) {
            Some(Some(t)) => r matches Some(Some(x)) && x@ == t,
            Some(None) => r matches Some(None),
            None => r is None,
        },
{
    if chat {
        match member_of(c, "delta") {
            None => Some(None),
            Some(Json::Null) => Some(None),
            Some(Json::Object(d)) => text_member_of(member_of(d, "content")),
            _ => None,
        }
    } else {
        text_member_of(member_of(c, "text"))
    }
}

/// A frame as plain values: model, text, finish, usage.
pub open spec fn frame_parts_view(f: (String, Option<String>, Option<String>, Option<Usage>)) -> Frame {
    Frame {
        model: f.0@,
        text: match f.1 {
            Some(t) => Some(t@),
            None => None,
        },
        finish: match f.2 {
            Some(t) => Some(t@),
            None => None,
        },
        usage: f.3,
    }
}

/// A chunk document as a frame's parts: model, text, finish, usage.
pub fn frame_from(chat: bool, j: &Json) -> (r: Option<(String, Option<String>, Option<String>, Option<Usage>)>)
    ensures
        match frame_of(chat, *j) {
            Some(f) => r matches Some(x) && frame_parts_view(x) == f,
            None => r is None,
        },
{
    let o = match j {
        Json::Object(o) => o,
        _ => return None,
    };
    let model = match member_of(o, "model") {
        None => String::new(),
        Some(Json::Text(s)) => s.clone(),
        _ => return None,
    };
    let (text, finish) = match member_of(o, "choices") {
        None => (None, None),
        Some(Json::Array(cs)) => {
            if cs.len() == 0 {
                (None, None)
            } else {
                match &cs[0] {
                    Json::Object(c) => {
                        let t = match choice_text_from(chat, c) {
                            Some(t) => t,
                            None => return None,
                        };
                        let f = match text_member_of(member_of(c, "finish_reason")) {
                            Some(f) => f,
                            None => return None,
                        };
                        (t, f)
                    },
                    _ => return None,
                }
            }
        },
        _ => return None,
    };
    let usage = match usage_from(member_of(o, "usage")) {
        Some(u) => u,
        None => return None,
    };
    Some((model, text, finish, usage))
}

} // verus!
