//! Chat request options and the JSON request bodies built from them.

use vstd::prelude::*;
use vstd::string::*;
use crate::message::{Message, role_name};
use crate::options::Thinking;
use crate::json_text::{JsonValue, quoted, decimal};

verus! {

/// The messages of a request: borrowed messages, or JSON text the caller
/// has already serialised (the caller answers for its validity).
#[derive(Debug, Clone)]
pub enum Messages<'a> {
    Raw(&'a [Message]),
    Serialized(String),
}

/// What to ask a backend for.
#[derive(Debug, Clone)]
pub struct ChatOptions<'a> {
    pub model: &'a str,
    pub messages: Messages<'a>,
    pub stream: bool,
    pub max_tokens: usize,
    pub thinking: Option<Thinking>,
}

/// The JSON object of one message.
pub open spec fn message_json(m: Message) -> Seq<char> {
    "{\"content\":"@ + quoted(m.content@) + ",\"role\":"@ + quoted(role_name(m.role)) + "}"@
}

/// The JSON objects of `msgs`, separated by commas.
pub open spec fn message_items(msgs: Seq<Message>) -> Seq<char>
    decreases msgs.len(),
{
    if msgs.len() == 0 {
        Seq::empty()
    } else if msgs.len() == 1 {
        message_json(msgs[0])
    } else {
        message_items(msgs.drop_last()) + ","@ + message_json(msgs.last())
    }
}

/// The JSON array of `msgs`.
pub open spec fn messages_json(msgs: Seq<Message>) -> Seq<char> {
    "["@ + message_items(msgs) + "]"@
}

pub open spec fn bool_json(b: bool) -> Seq<char> {
    if b {
        seq!['t', 'r', 'u', 'e']
    } else {
        seq!['f', 'a', 'l', 's', 'e']
    }
}

/// The fields that every request body begins with.
pub open spec fn common_fields(model: Seq<char>, messages: Seq<char>, stream: bool) -> Seq<char> {
    "{\"model\":"@ + quoted(model) + ",\"messages\":"@ + messages + ",\"stream\":"@ + bool_json(stream)
}

/// The request body of the SSE-event backend: an effort level selects
/// adaptive thinking, any other thinking option a token budget (10000 unless
/// a budget is given).
pub open spec fn anthropic_body(
    model: Seq<char>,
    messages: Seq<char>,
    stream: bool,
    max_tokens: usize,
    thinking: Option<Thinking>,
) -> Seq<char> {
    let head = common_fields(model, messages, stream) + ",\"max_tokens\":"@ + decimal(
        max_tokens as int,
    );
    match thinking {
        Some(Thinking::Effort(e)) => head + ",\"thinking\":{\"type\":\"adaptive\",\"effort\":"@
            + quoted(e@) + "}}"@,
        Some(Thinking::BudgetTokens(b)) => head
            + ",\"thinking\":{\"type\":\"enabled\",\"budget_tokens\":"@ + decimal(b as int) + "}}"@,
        Some(Thinking::Enabled) => head + ",\"thinking\":{\"type\":\"enabled\",\"budget_tokens\":"@
            + decimal(10000) + "}}"@,
        None => head + "}"@,
    }
}

/// The request body of the line-delimited JSON backend: any thinking option
/// switches thinking on.
pub open spec fn ollama_body(
    model: Seq<char>,
    messages: Seq<char>,
    stream: bool,
    thinking: Option<Thinking>,
) -> Seq<char> {
    match thinking {
        Some(_) => common_fields(model, messages, stream) + ",\"think\":true}"@,
        None => common_fields(model, messages, stream) + "}"@,
    }
}

/// The request body of the SSE-batch backend: with thinking, the token limit
/// is a completion-token limit and an effort level is sent ("medium" unless
/// one is given).
pub open spec fn openai_body(
    model: Seq<char>,
    messages: Seq<char>,
    stream: bool,
    max_tokens: usize,
    thinking: Option<Thinking>,
) -> Seq<char> {
    let head = common_fields(model, messages, stream);
    match thinking {
        Some(Thinking::Effort(e)) => head + ",\"max_completion_tokens\":"@ + decimal(
            max_tokens as int,
        ) + ",\"reasoning_effort\":"@ + quoted(e@) + "}"@,
        Some(_) => head + ",\"max_completion_tokens\":"@ + decimal(max_tokens as int)
            + ",\"reasoning_effort\":"@ + quoted("medium"@) + "}"@,
        None => head + ",\"max_tokens\":"@ + decimal(max_tokens as int) + "}"@,
    }
}

/// The JSON text of the messages of a request.
pub open spec fn messages_text(m: Messages) -> Seq<char> {
    match m {
        Messages::Raw(msgs) => messages_json(msgs@),
        Messages::Serialized(s) => s@,
    }
}

fn write_message(m: &Message, buf: &mut String)
    ensures
        final(buf)@ == old(buf)@ + message_json(*m),
{
    let ghost start = buf@;
    buf.append("{\"content\":");
    m.content.write_json(buf);
    buf.append(",\"role\":");
    m.role.as_str().write_json(buf);
    buf.append("}");
    assert(buf@ =~= start + message_json(*m));
}

impl<'a> Messages<'a> {
    /// The messages as JSON text, for embedding in a request body.
    pub fn to_json(&self) -> (r: String)
        ensures
            r@ == messages_text(*self),
    {
        match self {
            Messages::Raw(msgs) => {
                let mut buf = String::new();
                buf.append("[");
                let mut i: usize = 0;
                while i < msgs.len()
                    invariant
                        i <= msgs@.len(),
                        buf@ == "["@ + message_items(msgs@.take(i as int)),
                    decreases msgs@.len() - i,
                {
                    let ghost before = buf@;
                    if i > 0 {
                        buf.append(",");
                    }
                    write_message(&msgs[i], &mut buf);
                    assert(msgs@.take(i + 1).drop_last() =~= msgs@.take(i as int));
                    proof {
                        if i == 0 {
                            assert(msgs@.take(0) =~= Seq::<Message>::empty());
                            assert(Seq::<char>::empty() + message_json(msgs@[0]) =~= message_json(msgs@[0]));
                        }
                    }
                    assert(buf@ =~= "["@ + message_items(msgs@.take(i + 1)));
                    i += 1;
                }
                buf.append("]");
                assert(msgs@.take(msgs@.len() as int) =~= msgs@);
                buf
            },
            Messages::Serialized(s) => s.clone(),
        }
    }
}

fn write_common(options: &ChatOptions, messages: &String, buf: &mut String)
    ensures
        final(buf)@ == old(buf)@ + common_fields(options.model@, messages@, options.stream),
{
    let ghost start = buf@;
    buf.append("{\"model\":");
    options.model.write_json(buf);
    buf.append(",\"messages\":");
    buf.append(messages.as_str());
    buf.append(",\"stream\":");
    options.stream.write_json(buf);
    assert(bool_json(options.stream) == options.stream.json_text());
    assert(buf@ =~= start + common_fields(options.model@, messages@, options.stream));
}

impl<'a> ChatOptions<'a> {
    /// Options for `model`: no messages, streaming on, 4096 tokens at most,
    /// no thinking.
    pub fn new(model: &'a str) -> (r: ChatOptions<'a>)
        ensures
            r.model == model,
            messages_text(r.messages) == "[]"@,
            r.stream,
            r.max_tokens == 4096,
            r.thinking is None,
    {
        let none: &'a [Message] = &[];
        let r = ChatOptions {
            model,
            messages: Messages::Raw(none),
            stream: true,
            max_tokens: 4096,
            thinking: None,
        };
        proof {
            reveal_strlit("[]");
            reveal_strlit("[");
            reveal_strlit("]");
            assert(none@ =~= Seq::<Message>::empty());
            assert("[]"@ =~= "["@ + Seq::<char>::empty() + "]"@);
        }
        r
    }

    /// Sets the model to be used.
    pub fn model(self, model: &'a str) -> (r: ChatOptions<'a>)
        ensures
            r == (ChatOptions { model, ..self }),
    {
        ChatOptions { model, ..self }
    }

    /// Sets the messages of the conversation.
    pub fn messages(self, messages: &'a [Message]) -> (r: ChatOptions<'a>)
        ensures
            r == (ChatOptions { messages: Messages::Raw(messages), ..self }),
    {
        ChatOptions { messages: Messages::Raw(messages), ..self }
    }

    /// Sets the messages as JSON text that the caller has already serialised.
    pub fn messages_serialized(self, messages: String) -> (r: ChatOptions<'a>)
        ensures
            r == (ChatOptions { messages: Messages::Serialized(messages), ..self }),
    {
        ChatOptions { messages: Messages::Serialized(messages), ..self }
    }

    /// Turns streaming on or off; without it the whole reply comes in one piece.
    pub fn stream(self, stream: bool) -> (r: ChatOptions<'a>)
        ensures
            r == (ChatOptions { stream, ..self }),
    {
        ChatOptions { stream, ..self }
    }

    /// Sets the token limit, at least 1.
    pub fn max_tokens(self, max_tokens: usize) -> (r: ChatOptions<'a>)
        ensures
            r == (ChatOptions { max_tokens: if max_tokens < 1 { 1 } else { max_tokens }, ..self }),
    {
        let m = if max_tokens < 1 {
            1
        } else {
            max_tokens
        };
        ChatOptions { max_tokens: m, ..self }
    }

    /// Turns thinking on with the given configuration.
    pub fn thinking(self, thinking: Thinking) -> (r: ChatOptions<'a>)
        ensures
            r == (ChatOptions { thinking: Some(thinking), ..self }),
    {
        ChatOptions { thinking: Some(thinking), ..self }
    }

    /// The request body for the SSE-event backend.
    pub fn anthropic_body(&self) -> (r: String)
        ensures
            r@ == anthropic_body(
                self.model@,
                messages_text(self.messages),
                self.stream,
                self.max_tokens,
                self.thinking,
            ),
    {
        let messages = self.messages.to_json();
        let mut buf = String::new();
        write_common(self, &messages, &mut buf);
        buf.append(",\"max_tokens\":");
        self.max_tokens.write_json(&mut buf);
        match &self.thinking {
            Some(Thinking::Effort(e)) => {
                buf.append(",\"thinking\":{\"type\":\"adaptive\",\"effort\":");
                e.write_json(&mut buf);
                buf.append("}}");
            },
            Some(t) => {
                let budget: usize = match t {
                    Thinking::BudgetTokens(b) => *b,
                    _ => 10000,
                };
                buf.append(",\"thinking\":{\"type\":\"enabled\",\"budget_tokens\":");
                budget.write_json(&mut buf);
                buf.append("}}");
            },
            None => {
                buf.append("}");
            },
        }
        let ghost head = common_fields(self.model@, messages@, self.stream)
            + ",\"max_tokens\":"@ + decimal(self.max_tokens as int);
        assert(buf@ =~= anthropic_body(
            self.model@,
            messages_text(self.messages),
            self.stream,
            self.max_tokens,
            self.thinking,
        ));
        buf
    }

    /// The request body for the line-delimited JSON backend.
    pub fn ollama_body(&self) -> (r: String)
        ensures
            r@ == ollama_body(self.model@, messages_text(self.messages), self.stream, self.thinking),
    {
        let messages = self.messages.to_json();
        let mut buf = String::new();
        write_common(self, &messages, &mut buf);
        if self.thinking.is_some() {
            buf.append(",\"think\":true}");
        } else {
            buf.append("}");
        }
        assert(buf@ =~= ollama_body(
            self.model@,
            messages_text(self.messages),
            self.stream,
            self.thinking,
        ));
        buf
    }

    /// The request body for the SSE-batch backend.
    pub fn openai_body(&self) -> (r: String)
        ensures
            r@ == openai_body(
                self.model@,
                messages_text(self.messages),
                self.stream,
                self.max_tokens,
                self.thinking,
            ),
    {
        let messages = self.messages.to_json();
        let mut buf = String::new();
        write_common(self, &messages, &mut buf);
        match &self.thinking {
            Some(t) => {
                buf.append(",\"max_completion_tokens\":");
                self.max_tokens.write_json(&mut buf);
                buf.append(",\"reasoning_effort\":");
                match t {
                    Thinking::Effort(e) => e.write_json(&mut buf),
                    _ => "medium".write_json(&mut buf),
                }
                buf.append("}");
            },
            None => {
                buf.append(",\"max_tokens\":");
                self.max_tokens.write_json(&mut buf);
                buf.append("}");
            },
        }
        assert(buf@ =~= openai_body(
            self.model@,
            messages_text(self.messages),
            self.stream,
            self.max_tokens,
            self.thinking,
        ));
        buf
    }
}

} // verus!
