//! Decoder for the SSE-batch wire format: each `data: <json>` line of a frame
//! is one completion chunk; `event:` framing and other lines are ignored. A
//! line that does not decode gives a parse error, and the other lines of the
//! frame are still decoded.

use vstd::prelude::*;
use crate::frames::{first_match, lemma_first_match_bounds, lemma_first_match_skip, find_from, copy_range, occurs_at, slice_to_vec};
use crate::wire::{starts_with, newline};
use crate::json::{JsonField, JsonSlot, json_field, json_slot_at, text_or_default, optional_text, take_text_or_default, take_optional_text};
use crate::chunk::{ChatChunk, ChatStreamError, Event, events_of, content_events, thinking_events, push_content, push_thinking, parse_failure};
use crate::anthropic::data_tag;

use crate::stream::FrameDecoder;

verus! {

pub open spec fn choices_pointer() -> Seq<char> {
    seq!['/', 'c', 'h', 'o', 'i', 'c', 'e', 's']
}

pub open spec fn first_choice_pointer() -> Seq<char> {
    choices_pointer() + seq!['/', '0']
}

pub open spec fn delta_pointer() -> Seq<char> {
    first_choice_pointer() + seq!['/', 'd', 'e', 'l', 't', 'a']
}

pub open spec fn content_pointer() -> Seq<char> {
    delta_pointer() + seq!['/', 'c', 'o', 'n', 't', 'e', 'n', 't']
}

pub open spec fn reasoning_pointer() -> Seq<char> {
    delta_pointer() + seq![
        '/',
        'r',
        'e',
        'a',
        's',
        'o',
        'n',
        'i',
        'n',
        'g',
        '_',
        'c',
        'o',
        'n',
        't',
        'e',
        'n',
        't',
    ]
}

/// The events of one completion chunk, given what it holds at `/choices`,
/// `/choices/0`, `/choices/0/delta`, `/choices/0/delta/content` and
/// `/choices/0/delta/reasoning_content`. Without a choices array it gives one
/// parse error; with an empty one, nothing; otherwise the first choice's
/// reasoning text, then its content text, each only when non-empty.
pub open spec fn choice_spec(
    choices: JsonSlot,
    first: JsonSlot,
    delta: JsonSlot,
    content: JsonSlot,
    reasoning: JsonSlot,
) -> Seq<Event> {
    if !(choices is Array) {
        seq![Event::ParseFailed]
    } else if first is Absent {
        Seq::empty()
    } else if !(delta is Object) || text_or_default(content) is None || optional_text(reasoning) is None {
        seq![Event::ParseFailed]
    } else {
        let r = match optional_text(reasoning)->Some_0 {
            Some(t) => thinking_events(t),
            None => Seq::empty(),
        };
        r + content_events(text_or_default(content)->Some_0)
    }
}

/// The events of one line: a `data:` line is decoded, any other gives nothing.
pub open spec fn line_spec(line: Seq<u8>) -> Seq<Event> {
    if line.len() >= 5 && line.take(5) == data_tag() {
        let p = line.skip(5);
        choice_spec(
            json_slot_at(p, choices_pointer()),
            json_slot_at(p, first_choice_pointer()),
            json_slot_at(p, delta_pointer()),
            json_slot_at(p, content_pointer()),
            json_slot_at(p, reasoning_pointer()),
        )
    } else {
        Seq::empty()
    }
}

/// The events of one frame: those of its lines, in order.
pub open spec fn frame_spec(frame: Seq<u8>) -> Seq<Event>
    decreases frame.len(),
{
    match first_match(frame, newline(), 0) {
        Some(k) => if 0 <= k && k < frame.len() {
            line_spec(frame.take(k)) + frame_spec(frame.skip(k + 1))
        } else {
            line_spec(frame)
        },
        None => line_spec(frame),
    }
}

/// The events of one completion chunk, from what it holds at the pointers
/// that [`choice_spec`] names.
pub fn process_choice(
    choices: JsonField,
    first: JsonField,
    delta: JsonField,
    content: JsonField,
    reasoning: JsonField,
) -> (r: Vec<Result<ChatChunk, ChatStreamError>>)
    ensures
        events_of(r@) == choice_spec(choices@, first@, delta@, content@, reasoning@),
{
    let is_array = match choices {
        JsonField::Array => true,
        _ => false,
    };
    if !is_array {
        return parse_failure("the chunk has no choices array");
    }
    let mut out: Vec<Result<ChatChunk, ChatStreamError>> = Vec::new();
    assert(events_of(out@) =~= Seq::<Event>::empty());
    let none = match first {
        JsonField::Absent => true,
        _ => false,
    };
    if none {
        return out;
    }
    let is_object = match delta {
        JsonField::Object => true,
        _ => false,
    };
    let content = take_text_or_default(content);
    let reasoning = take_optional_text(reasoning);
    if !is_object || content.is_none() || reasoning.is_none() {
        return parse_failure("the choice does not have the expected shape");
    }
    let content = content.unwrap();
    match reasoning.unwrap() {
        Some(t) => {
            push_thinking(&mut out, t);
            assert(Seq::<Event>::empty() + thinking_events(t@) =~= thinking_events(t@));
        },
        None => {},
    }
    push_content(&mut out, content);
    out
}

fn data_tag_exec() -> (r: Vec<u8>)
    ensures
        r@ == data_tag(),
{
    let r = vec![100u8, 97, 116, 97, 58];
    assert(r@ =~= data_tag());
    r
}

/// Decodes one line of a frame.
fn parse_sse_line(line: &Vec<u8>) -> (r: Vec<Result<ChatChunk, ChatStreamError>>)
    ensures
        events_of(r@) == line_spec(line@),
{
    let tag = data_tag_exec();
    if !starts_with(line, &tag) {
        let r: Vec<Result<ChatChunk, ChatStreamError>> = Vec::new();
        assert(events_of(r@) =~= Seq::<Event>::empty());
        return r;
    }
    let n = line.len();
    let p = copy_range(line, 5, n);
    assert(p@ =~= line@.skip(5));
    let choices = json_field(p.as_slice(), "/choices");
    let first = json_field(p.as_slice(), "/choices/0");
    let delta = json_field(p.as_slice(), "/choices/0/delta");
    let content = json_field(p.as_slice(), "/choices/0/delta/content");
    let reasoning = json_field(p.as_slice(), "/choices/0/delta/reasoning_content");
    proof {
        reveal_strlit("/choices");
        reveal_strlit("/choices/0");
        reveal_strlit("/choices/0/delta");
        reveal_strlit("/choices/0/delta/content");
        reveal_strlit("/choices/0/delta/reasoning_content");
        assert("/choices"@ =~= choices_pointer());
        assert("/choices/0"@ =~= first_choice_pointer());
        assert("/choices/0/delta"@ =~= delta_pointer());
        assert("/choices/0/delta/content"@ =~= content_pointer());
        assert("/choices/0/delta/reasoning_content"@ =~= reasoning_pointer());
    }
    process_choice(choices, first, delta, content, reasoning)
}

/// Decodes one frame, line by line.
pub fn parse_sse_chunk(frame: &[u8]) -> (r: Vec<Result<ChatChunk, ChatStreamError>>)
    ensures
        events_of(r@) == frame_spec(frame@),
{
    let f = slice_to_vec(frame);
    let nl = vec![10u8];
    assert(nl@ =~= newline());
    let n = f.len();
    let mut out: Vec<Result<ChatChunk, ChatStreamError>> = Vec::new();
    let mut pos: usize = 0;
    assert(f@.skip(0) =~= f@);
    assert(events_of(out@) + frame_spec(f@) =~= frame_spec(f@));
    loop
        invariant
            nl@ == newline(),
            n == f@.len(),
            f@ == frame@,
            pos <= n,
            events_of(out@) + frame_spec(f@.skip(pos as int)) == frame_spec(f@),
        decreases n - pos,
    {
        let ghost rest = f@.skip(pos as int);
        let ghost before = events_of(out@);
        let found = find_from(&f, &nl, pos);
        proof {
            lemma_first_match_skip(f@, newline(), pos as int, 0);
            lemma_first_match_bounds(f@, newline(), pos as int);
        }
        match found {
            Some(k) => {
                assert(occurs_at(f@, newline(), k as int));
                assert(rest.take(k - pos) =~= f@.subrange(pos as int, k as int));
                assert(rest.skip(k - pos + 1) =~= f@.skip(k + 1));
                let line = copy_range(&f, pos, k);
                let mut evs = parse_sse_line(&line);
                let ghost le = events_of(evs@);
                out.append(&mut evs);
                assert(events_of(out@) =~= before + le);
                assert(before + (le + frame_spec(f@.skip(k + 1))) =~= (before + le) + frame_spec(
                    f@.skip(k + 1),
                ));
                pos = k + 1;
            },
            None => {
                let line = copy_range(&f, pos, n);
                assert(line@ =~= rest);
                let mut evs = parse_sse_line(&line);
                let ghost le = events_of(evs@);
                out.append(&mut evs);
                assert(events_of(out@) =~= before + le);
                return out;
            },
        }
    }
}

/// The decoder of the SSE-batch format; it keeps no state between frames.
#[derive(Debug, Clone, Copy, PartialEq, Eq)]
pub struct OpenAiDecoder;

impl FrameDecoder for OpenAiDecoder {
    open spec fn delimiter_spec() -> Seq<u8> {
        seq![10u8, 10]
    }

    open spec fn decode_spec(self, frame: Seq<u8>) -> (Seq<Event>, Self) {
        (frame_spec(frame), self)
    }

    proof fn lemma_delimiter_nonempty() {
    }

    proof fn lemma_empty_frame(self) {
    }

    fn delimiter(&self) -> (r: Vec<u8>) {
        let r = vec![10u8, 10];
        assert(r@ =~= Self::delimiter_spec());
        r
    }

    fn decode(&mut self, frame: &[u8]) -> (r: Vec<Result<ChatChunk, ChatStreamError>>) {
        let r = parse_sse_chunk(frame);
        proof {
            if frame@.len() == 0 {
                assert(frame@ =~= Seq::<u8>::empty());
                self.lemma_empty_frame();
                assert(events_of(r@).len() == r@.len());
            }
        }
        r
    }
}

} // verus!
