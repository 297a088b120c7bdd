//! Decoder for the newline-delimited JSON wire format: one message object per
//! line. A non-empty structured `thinking` field is the reasoning text;
//! otherwise reasoning is carried inline in `<think>` spans of the content.

use vstd::prelude::*;
use crate::frames::slice_to_vec;
use crate::wire::{trim_spec, trim_range};
use crate::json::{JsonField, JsonSlot, json_field, json_slot_at, text_or_default, optional_text, take_text_or_default, take_optional_text};
use crate::chunk::{ChatChunk, ChatStreamError, Event, events_of, content_events, thinking_events, push_content, push_thinking, parse_failure};
use crate::think::{split_spec, split_thinking};

use crate::stream::FrameDecoder;

verus! {

pub open spec fn message_pointer() -> Seq<char> {
    seq!['/', 'm', 'e', 's', 's', 'a', 'g', 'e']
}

pub open spec fn content_pointer() -> Seq<char> {
    message_pointer() + seq!['/', 'c', 'o', 'n', 't', 'e', 'n', 't']
}

pub open spec fn thinking_pointer() -> Seq<char> {
    message_pointer() + seq!['/', 't', 'h', 'i', 'n', 'k', 'i', 'n', 'g']
}

/// The events of one message object, given what it holds at `/message`,
/// `/message/content` and `/message/thinking`, scanned from the span state
/// `inside`; with the span state after it. A message that does not conform
/// gives one parse error. A non-empty structured reasoning field gives a
/// reasoning event and the content unchanged; otherwise the content is split
/// at its `<think>` markers.
pub open spec fn message_spec(msg: JsonSlot, content: JsonSlot, thinking: JsonSlot, inside: bool) -> (
    Seq<Event>,
    bool,
) {
    if !(msg is Object) || text_or_default(content) is None || optional_text(thinking) is None {
        (seq![Event::ParseFailed], inside)
    } else {
        let c = text_or_default(content)->Some_0;
        match optional_text(thinking)->Some_0 {
            Some(t) if t.len() > 0 => (thinking_events(t) + content_events(c), inside),
            _ => {
                let s = split_spec(c, inside);
                (thinking_events(s.1) + content_events(s.0), s.2)
            },
        }
    }
}

/// Structured-field priority: when a message carries a non-empty structured
/// reasoning field, its reasoning event is that field's text and its content
/// event is the raw content, inline markers included; the span state is left
/// as it was.
pub proof fn lemma_structured_field_priority(
    content: Seq<char>,
    thinking: Seq<char>,
    inside: bool,
)
    requires
        thinking.len() > 0,
    ensures
        message_spec(JsonSlot::Object, JsonSlot::Text(content), JsonSlot::Text(thinking), inside)
            == (seq![Event::Thinking(thinking)] + content_events(content), inside),
{
}

/// The events of one line, and the span state after it. A line of whitespace
/// alone gives nothing.
pub open spec fn frame_spec(frame: Seq<u8>, inside: bool) -> (Seq<Event>, bool) {
    if trim_spec(frame).len() == 0 {
        (Seq::empty(), inside)
    } else {
        message_spec(
            json_slot_at(frame, message_pointer()),
            json_slot_at(frame, content_pointer()),
            json_slot_at(frame, thinking_pointer()),
            inside,
        )
    }
}

/// The events of one message object, from what it holds at `/message`,
/// `/message/content` and `/message/thinking`; `in_thinking` is the span state.
pub fn process_message(
    msg: JsonField,
    content: JsonField,
    thinking: JsonField,
    in_thinking: &mut bool,
) -> (r: Vec<Result<ChatChunk, ChatStreamError>>)
    ensures
        (events_of(r@), *final(in_thinking)) == message_spec(
            msg@,
            content@,
            thinking@,
            *old(in_thinking),
        ),
{
    let is_object = match msg {
        JsonField::Object => true,
        _ => false,
    };
    let content = take_text_or_default(content);
    let thinking = take_optional_text(thinking);
    if !is_object || content.is_none() || thinking.is_none() {
        return parse_failure("the message does not have the expected shape");
    }
    let content = content.unwrap();
    let thinking = thinking.unwrap();
    let mut out: Vec<Result<ChatChunk, ChatStreamError>> = Vec::new();
    assert(events_of(out@) =~= Seq::<Event>::empty());
    let structured = match &thinking {
        Some(t) => t.as_str().unicode_len() > 0,
        None => false,
    };
    if structured {
        let t = thinking.unwrap();
        push_thinking(&mut out, t);
        push_content(&mut out, content);
        assert(Seq::<Event>::empty() + thinking_events(t@) =~= thinking_events(t@));
    } else {
        let (visible, reasoning) = split_thinking(content.as_str(), in_thinking);
        match reasoning {
            Some(t) => {
                push_thinking(&mut out, t);
                assert(Seq::<Event>::empty() + thinking_events(t@) =~= thinking_events(t@));
            },
            None => {
                assert(thinking_events(Seq::<char>::empty()) =~= Seq::<Event>::empty());
            },
        }
        push_content(&mut out, visible);
    }
    out
}

/// Decodes one line of the stream; `in_thinking` is the span state.
pub fn parse_chunk(frame: &[u8], in_thinking: &mut bool) -> (r: Vec<
    Result<ChatChunk, ChatStreamError>,
>)
    ensures
        (events_of(r@), *final(in_thinking)) == frame_spec(frame@, *old(in_thinking)),
{
    let f = slice_to_vec(frame);
    let n = f.len();
    let trimmed = trim_range(&f, 0, n);
    assert(f@.subrange(0, n as int) =~= frame@);
    if trimmed.len() == 0 {
        let r: Vec<Result<ChatChunk, ChatStreamError>> = Vec::new();
        assert(events_of(r@) =~= Seq::<Event>::empty());
        return r;
    }
    let msg = json_field(frame, "/message");
    let content = json_field(frame, "/message/content");
    let thinking = json_field(frame, "/message/thinking");
    proof {
        reveal_strlit("/message");
        reveal_strlit("/message/content");
        reveal_strlit("/message/thinking");
        assert("/message"@ =~= message_pointer());
        assert("/message/content"@ =~= content_pointer());
        assert("/message/thinking"@ =~= thinking_pointer());
    }
    process_message(msg, content, thinking, in_thinking)
}

/// The decoder of the line-delimited JSON format; it carries whether the
/// text seen so far ends inside a `<think>` span.
#[derive(Debug, Clone, Copy, PartialEq, Eq)]
pub struct OllamaDecoder {
    pub in_thinking: bool,
}

impl OllamaDecoder {
    /// A decoder outside any reasoning span.
    pub fn new() -> (r: OllamaDecoder)
        ensures
            !r.in_thinking,
    {
        OllamaDecoder { in_thinking: false }
    }
}

impl FrameDecoder for OllamaDecoder {
    open spec fn delimiter_spec() -> Seq<u8> {
        seq![10u8]
    }

    open spec fn decode_spec(self, frame: Seq<u8>) -> (Seq<Event>, Self) {
        let r = frame_spec(frame, self.in_thinking);
        (r.0, OllamaDecoder { in_thinking: r.1 })
    }

    proof fn lemma_delimiter_nonempty() {
    }

    proof fn lemma_empty_frame(self) {
    }

    fn delimiter(&self) -> (r: Vec<u8>) {
        let r = vec![10u8];
        assert(r@ =~= Self::delimiter_spec());
        r
    }

    fn decode(&mut self, frame: &[u8]) -> (r: Vec<Result<ChatChunk, ChatStreamError>>) {
        let r = parse_chunk(frame, &mut self.in_thinking);
        proof {
            if frame@.len() == 0 {
                assert(frame@ =~= Seq::<u8>::empty());
                old(self).lemma_empty_frame();
                assert(events_of(r@).len() == r@.len());
            }
        }
        r
    }
}

} // verus!
