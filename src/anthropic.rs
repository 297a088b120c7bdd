//! Decoder for the SSE-event wire format: frames of an `event: <name>` line
//! and `data: <json>` lines, separated by a blank line. Only content-delta
//! events are modelled; every other event is dropped without error.

use vstd::prelude::*;
use crate::frames::{first_match, lemma_first_match_bounds, find_from, copy_range, occurs_at, slice_to_vec};
use crate::wire::{trim_spec, trim_range, after_first, after_first_exec, bytes_eq, starts_with, newline};
use crate::json::{JsonField, JsonSlot, json_field, json_slot_at, text_or_default, optional_text, take_text_or_default, take_optional_text};
use crate::chunk::{ChatChunk, ChatStreamError, Event, events_of, content_events, thinking_events, push_content, push_thinking, parse_failure};

use crate::stream::FrameDecoder;

verus! {

pub open spec fn event_tag() -> Seq<u8> {
    seq![101u8, 118, 101, 110, 116, 58]
}

pub open spec fn data_tag() -> Seq<u8> {
    seq![100u8, 97, 116, 97, 58]
}

/// The name of the event that carries content and reasoning deltas.
pub open spec fn content_delta_name() -> Seq<u8> {
    seq![99u8, 111, 110, 116, 101, 110, 116, 95, 98, 108, 111, 99, 107, 95, 100, 101, 108, 116, 97]
}

/// The delta discriminant that marks reasoning text.
pub open spec fn thinking_delta_type() -> Seq<char> {
    seq!['t', 'h', 'i', 'n', 'k', 'i', 'n', 'g', '_', 'd', 'e', 'l', 't', 'a']
}

/// The payload of the first line of `s` that, trimmed, starts with `data:`.
pub open spec fn data_field(s: Seq<u8>) -> Option<Seq<u8>>
    decreases s.len(),
{
    let line = match first_match(s, newline(), 0) {
        Some(k) => s.take(k),
        None => s,
    };
    let t = trim_spec(line);
    if t.len() >= 5 && t.take(5) == data_tag() {
        Some(t.skip(5))
    } else {
        match first_match(s, newline(), 0) {
            Some(k) => if 0 <= k && k < s.len() {
                data_field(s.skip(k + 1))
            } else {
                None
            },
            None => None,
        }
    }
}

/// The events of a content-delta payload, given what it holds at `/delta`,
/// `/delta/type`, `/delta/text` and `/delta/thinking`. A payload whose delta
/// does not conform gives one parse error; a reasoning delta gives its
/// reasoning text, any other delta its content text; empty text gives nothing.
pub open spec fn delta_spec(delta: JsonSlot, ty: JsonSlot, text: JsonSlot, thinking: JsonSlot) -> Seq<
    Event,
> {
    if !(delta is Object) || text_or_default(ty) is None || text_or_default(text) is None
        || optional_text(thinking) is None {
        seq![Event::ParseFailed]
    } else if text_or_default(ty)->Some_0 == thinking_delta_type() {
        match optional_text(thinking)->Some_0 {
            Some(t) => thinking_events(t),
            None => Seq::empty(),
        }
    } else {
        content_events(text_or_default(text)->Some_0)
    }
}

pub open spec fn delta_pointer() -> Seq<char> {
    seq!['/', 'd', 'e', 'l', 't', 'a']
}

pub open spec fn type_pointer() -> Seq<char> {
    delta_pointer() + seq!['/', 't', 'y', 'p', 'e']
}

pub open spec fn text_pointer() -> Seq<char> {
    delta_pointer() + seq!['/', 't', 'e', 'x', 't']
}

pub open spec fn thinking_pointer() -> Seq<char> {
    delta_pointer() + seq!['/', 't', 'h', 'i', 'n', 'k', 'i', 'n', 'g']
}

/// The payload of a frame that is a content-delta event: `None` for a frame
/// without an `event:` field, without a line break after the event name, or
/// naming another event; `Some(None)` for a content-delta event without a
/// data line.
pub open spec fn event_payload(frame: Seq<u8>) -> Option<Option<Seq<u8>>> {
    match after_first(frame, event_tag()) {
        None => None,
        Some(body) => match first_match(body, newline(), 0) {
            None => None,
            Some(k) => if trim_spec(body.take(k)) != content_delta_name() {
                None
            } else {
                Some(data_field(body.skip(k + 1)))
            },
        },
    }
}

/// The events of one frame: nothing for a frame that is not a content-delta
/// event, one parse error for one without a data line, else those of its
/// payload.
pub open spec fn frame_spec(frame: Seq<u8>) -> Seq<Event> {
    match event_payload(frame) {
        None => Seq::empty(),
        Some(None) => seq![Event::ParseFailed],
        Some(Some(p)) => delta_spec(
            json_slot_at(p, delta_pointer()),
            json_slot_at(p, type_pointer()),
            json_slot_at(p, text_pointer()),
            json_slot_at(p, thinking_pointer()),
        ),
    }
}

fn event_tag_exec() -> (r: Vec<u8>)
    ensures
        r@ == event_tag(),
{
    let r = vec![101u8, 118, 101, 110, 116, 58];
    assert(r@ =~= event_tag());
    r
}

fn data_tag_exec() -> (r: Vec<u8>)
    ensures
        r@ == data_tag(),
{
    let r = vec![100u8, 97, 116, 97, 58];
    assert(r@ =~= data_tag());
    r
}

fn newline_exec() -> (r: Vec<u8>)
    ensures
        r@ == newline(),
{
    let r = vec![10u8];
    assert(r@ =~= newline());
    r
}

fn content_delta_name_exec() -> (r: Vec<u8>)
    ensures
        r@ == content_delta_name(),
{
    let r = vec![99u8, 111, 110, 116, 101, 110, 116, 95, 98, 108, 111, 99, 107, 95, 100, 101, 108, 116, 97];
    assert(r@ =~= content_delta_name());
    r
}

/// Finds the payload of the first `data:` line of an event body.
pub fn parse_content_block_delta_event(body: &Vec<u8>) -> (r: Option<Vec<u8>>)
    ensures
        match data_field(body@) {
            Some(p) => r is Some && r->Some_0@ == p,
            None => r is None,
        },
{
    let nl = newline_exec();
    let tag = data_tag_exec();
    let n = body.len();
    let mut pos: usize = 0;
    assert(body@.skip(0) =~= body@);
    loop
        invariant
            nl@ == newline(),
            tag@ == data_tag(),
            n == body@.len(),
            pos <= n,
            data_field(body@.skip(pos as int)) == data_field(body@),
        decreases n - pos,
    {
        let ghost rest = body@.skip(pos as int);
        let found = find_from(body, &nl, pos);
        proof {
            crate::frames::lemma_first_match_skip(body@, newline(), pos as int, 0);
            lemma_first_match_bounds(body@, newline(), pos as int);
        }
        let end = match found {
            Some(k) => k,
            None => n,
        };
        proof {
            if found is Some {
                assert(occurs_at(body@, newline(), end as int));
                assert(rest.take(end - pos) =~= body@.subrange(pos as int, end as int));
            } else {
                assert(rest =~= body@.subrange(pos as int, end as int));
            }
        }
        let line = trim_range(body, pos, end);
        if starts_with(&line, &tag) {
            let m = line.len();
            let p = copy_range(&line, 5, m);
            assert(p@ =~= line@.skip(5));
            return Some(p);
        }
        match found {
            Some(k) => {
                assert(rest.skip(k - pos + 1) =~= body@.skip(k + 1));
                pos = k + 1;
            },
            None => {
                return None;
            },
        }
    }
}

/// The events of a content-delta payload, from what it holds at `/delta`,
/// `/delta/type`, `/delta/text` and `/delta/thinking`.
pub fn process_delta(delta: JsonField, ty: JsonField, text: JsonField, thinking: JsonField) -> (r: Vec<
    Result<ChatChunk, ChatStreamError>,
>)
    ensures
        events_of(r@) == delta_spec(delta@, ty@, text@, thinking@),
{
    let is_object = match delta {
        JsonField::Object => true,
        _ => false,
    };
    let ty = take_text_or_default(ty);
    let text = take_text_or_default(text);
    let thinking = take_optional_text(thinking);
    if !is_object || ty.is_none() || text.is_none() || thinking.is_none() {
        return parse_failure("the content delta does not have the expected shape");
    }
    let ty = ty.unwrap();
    let text = text.unwrap();
    let thinking = thinking.unwrap();
    let mut out: Vec<Result<ChatChunk, ChatStreamError>> = Vec::new();
    assert(events_of(out@) =~= Seq::<Event>::empty());
    let marker = "thinking_delta".to_string();
    proof {
        reveal_strlit("thinking_delta");
        assert(marker@ =~= thinking_delta_type());
    }
    if ty == marker {
        match thinking {
            Some(t) => {
                push_thinking(&mut out, t);
                assert(Seq::<Event>::empty() + thinking_events(t@) =~= thinking_events(t@));
            },
            None => {},
        }
    } else {
        push_content(&mut out, text);
        assert(Seq::<Event>::empty() + content_events(text@) =~= content_events(text@));
    }
    out
}

/// Reads the event name of a frame and, for a content-delta event, the
/// payload of its data line.
pub fn parse_event(frame: &[u8]) -> (r: Option<Option<Vec<u8>>>)
    ensures
        match event_payload(frame@) {
            None => r is None,
            Some(None) => r == Some(None::<Vec<u8>>),
            Some(Some(p)) => r is Some && r->Some_0 is Some && r->Some_0->Some_0@ == p,
        },
{
    let f = slice_to_vec(frame);
    let tag = event_tag_exec();
    let body = match after_first_exec(&f, &tag) {
        Some(b) => b,
        None => {
            return None;
        },
    };
    let nl = newline_exec();
    let k = match find_from(&body, &nl, 0) {
        Some(k) => k,
        None => {
            return None;
        },
    };
    proof {
        lemma_first_match_bounds(body@, newline(), 0);
        assert(occurs_at(body@, newline(), k as int));
    }
    let name = trim_range(&body, 0, k);
    assert(body@.subrange(0, k as int) =~= body@.take(k as int));
    if !bytes_eq(&name, &content_delta_name_exec()) {
        return None;
    }
    let n = body.len();
    let data_part = copy_range(&body, k + 1, n);
    assert(data_part@ =~= body@.skip(k + 1));
    Some(parse_content_block_delta_event(&data_part))
}

/// Decodes one complete frame.
pub fn process_event(frame: &[u8]) -> (r: Vec<Result<ChatChunk, ChatStreamError>>)
    ensures
        events_of(r@) == frame_spec(frame@),
{
    let payload = match parse_event(frame) {
        None => {
            let r: Vec<Result<ChatChunk, ChatStreamError>> = Vec::new();
            assert(events_of(r@) =~= Seq::<Event>::empty());
            return r;
        },
        Some(None) => {
            return parse_failure("the event has no data field");
        },
        Some(Some(p)) => p,
    };
    let delta = json_field(payload.as_slice(), "/delta");
    let ty = json_field(payload.as_slice(), "/delta/type");
    let text = json_field(payload.as_slice(), "/delta/text");
    let thinking = json_field(payload.as_slice(), "/delta/thinking");
    proof {
        reveal_strlit("/delta");
        reveal_strlit("/delta/type");
        reveal_strlit("/delta/text");
        reveal_strlit("/delta/thinking");
        assert("/delta"@ =~= delta_pointer());
        assert("/delta/type"@ =~= type_pointer());
        assert("/delta/text"@ =~= text_pointer());
        assert("/delta/thinking"@ =~= thinking_pointer());
    }
    process_delta(delta, ty, text, thinking)
}

/// The decoder of the SSE-event format; it keeps no state between frames.
#[derive(Debug, Clone, Copy, PartialEq, Eq)]
pub struct AnthropicDecoder;

impl FrameDecoder for AnthropicDecoder {
    open spec fn delimiter_spec() -> Seq<u8> {
        seq![10u8, 10]
    }

    open spec fn decode_spec(self, frame: Seq<u8>) -> (Seq<Event>, Self) {
        (frame_spec(frame), self)
    }

    proof fn lemma_delimiter_nonempty() {
    }

    proof fn lemma_empty_frame(self) {
    }

    fn delimiter(&self) -> (r: Vec<u8>) {
        let r = vec![10u8, 10];
        assert(r@ =~= Self::delimiter_spec());
        r
    }

    fn decode(&mut self, frame: &[u8]) -> (r: Vec<Result<ChatChunk, ChatStreamError>>) {
        let r = process_event(frame);
        proof {
            if frame@.len() == 0 {
                assert(frame@ =~= Seq::<u8>::empty());
                self.lemma_empty_frame();
                assert(events_of(r@).len() == r@.len());
            }
        }
        r
    }
}

} // verus!
