//! Stream events, stream errors and their aggregation.

use vstd::prelude::*;
use vstd::string::*;

verus! {

/// One semantic event of a reply: visible content or reasoning text.
#[derive(Debug, Clone, PartialEq, Eq)]
pub enum ChatChunk {
    Content(String),
    Thinking(String),
}

/// A failure while reading a reply stream.
#[derive(Debug, Clone, PartialEq, Eq)]
pub enum ChatStreamError {
    /// The stream ended with a frame that was never completed.
    IncompleteChunk,
    /// Bytes were obtained but did not follow the expected frame or event grammar.
    ParseError(String),
    /// The bytes themselves could not be obtained; the stream ends here.
    TransportError(String),
}

/// A failure while issuing a chat request.
#[derive(Debug, Clone, PartialEq, Eq)]
pub enum ChatError {
    RequestBuildFailed(String),
    ResponseFetchFailed(String),
    RequestError(String),
}

/// A failure while listing the models of a backend.
#[derive(Debug, Clone, PartialEq, Eq)]
pub enum ListModelsError {
    RequestBuildFailed(String),
    ResponseFetchFailed(String),
    ParseError(String),
}

impl ChatStreamError {
    /// A copy of this error.
    pub fn duplicate(&self) -> (r: ChatStreamError)
        ensures
            r == *self,
    {
        match self {
            ChatStreamError::IncompleteChunk => ChatStreamError::IncompleteChunk,
            ChatStreamError::ParseError(m) => ChatStreamError::ParseError(m.clone()),
            ChatStreamError::TransportError(m) => ChatStreamError::TransportError(m.clone()),
        }
    }
}

/// Content and reasoning text folded from the events of a reply, in order.
#[derive(Debug, Clone, PartialEq, Eq)]
pub struct AggregatedChat {
    pub content: String,
    pub thinking: Option<String>,
}

/// The text that an aggregation holds: content, and reasoning once any arrived.
pub open spec fn agg_view(a: AggregatedChat) -> (Seq<char>, Option<Seq<char>>) {
    (
        a.content@,
        match a.thinking {
            Some(t) => Some(t@),
            None => None,
        },
    )
}

/// Folds one event into an aggregation.
pub open spec fn push_spec(acc: (Seq<char>, Option<Seq<char>>), c: ChatChunk) -> (
    Seq<char>,
    Option<Seq<char>>,
) {
    match c {
        ChatChunk::Content(t) => (acc.0 + t@, acc.1),
        ChatChunk::Thinking(t) => (
            acc.0,
            Some(
                match acc.1 {
                    Some(s) => s,
                    None => Seq::empty(),
                } + t@,
            ),
        ),
    }
}

/// Folds a sequence of events, in order, into an empty aggregation.
pub open spec fn aggregate_spec(chunks: Seq<ChatChunk>) -> (Seq<char>, Option<Seq<char>>)
    decreases chunks.len(),
{
    if chunks.len() == 0 {
        (Seq::empty(), None)
    } else {
        push_spec(aggregate_spec(chunks.drop_last()), chunks.last())
    }
}

/// The events among stream items, in order, with the errors left out.
pub open spec fn ok_chunks(items: Seq<Result<ChatChunk, ChatStreamError>>) -> Seq<ChatChunk>
    decreases items.len(),
{
    if items.len() == 0 {
        Seq::empty()
    } else {
        let rest = ok_chunks(items.drop_last());
        match items.last() {
            Ok(c) => rest.push(c),
            Err(_) => rest,
        }
    }
}

/// The index of the first error among stream items, if any.
pub open spec fn first_error(items: Seq<Result<ChatChunk, ChatStreamError>>) -> Option<int>
    decreases items.len(),
{
    if items.len() == 0 {
        None
    } else {
        match first_error(items.drop_last()) {
            Some(i) => Some(i),
            None => if items.last() is Err {
                Some(items.len() - 1)
            } else {
                None
            },
        }
    }
}

impl AggregatedChat {
    /// An aggregation with no content and no reasoning.
    pub fn new() -> (r: AggregatedChat)
        ensures
            agg_view(r) == (Seq::<char>::empty(), None::<Seq<char>>),
    {
        AggregatedChat { content: String::new(), thinking: None }
    }

    /// Appends the text of `chunk` to the content or to the reasoning; the
    /// reasoning comes into being with the first reasoning event.
    pub fn push(&mut self, chunk: &ChatChunk)
        ensures
            agg_view(*final(self)) == push_spec(agg_view(*old(self)), *chunk),
    {
        match chunk {
            ChatChunk::Content(text) => {
                self.content.append(text.as_str());
            },
            ChatChunk::Thinking(text) => {
                let mut acc = match self.thinking.take() {
                    Some(s) => s,
                    None => String::new(),
                };
                acc.append(text.as_str());
                self.thinking = Some(acc);
            },
        }
    }
}

impl Default for AggregatedChat {
    fn default() -> (r: AggregatedChat)
        ensures
            agg_view(r) == (Seq::<char>::empty(), None::<Seq<char>>),
    {
        AggregatedChat::new()
    }
}

/// Strict aggregation: folds the events in order, but the first error, if
/// any, is returned instead and the text folded so far is discarded.
pub fn aggregate(items: &Vec<Result<ChatChunk, ChatStreamError>>) -> (r: Result<
    AggregatedChat,
    ChatStreamError,
>)
    ensures
        match first_error(items@) {
            Some(i) => r == Err::<AggregatedChat, ChatStreamError>(items@[i]->Err_0),
            None => r is Ok && agg_view(r->Ok_0) == aggregate_spec(ok_chunks(items@)),
        },
{
    let mut result = AggregatedChat::new();
    let mut i: usize = 0;
    while i < items.len()
        invariant
            i <= items@.len(),
            first_error(items@.take(i as int)) is None,
            agg_view(result) == aggregate_spec(ok_chunks(items@.take(i as int))),
        decreases items@.len() - i,
    {
        let ghost prefix = items@.take(i as int);
        assert(items@.take(i + 1).drop_last() =~= prefix);
        match &items[i] {
            Ok(chunk) => {
                result.push(chunk);
                assert(ok_chunks(items@.take(i + 1)).drop_last() =~= ok_chunks(prefix));
            },
            Err(e) => {
                proof {
                    lemma_first_error_prefix(items@, i as int + 1);
                }
                return Err(e.duplicate());
            },
        }
        i += 1;
    }
    assert(items@.take(items@.len() as int) =~= items@);
    Ok(result)
}

/// Lossy aggregation: folds the events in order and skips the errors.
pub fn aggregate_lossy(items: &Vec<Result<ChatChunk, ChatStreamError>>) -> (r: AggregatedChat)
    ensures
        agg_view(r) == aggregate_spec(ok_chunks(items@)),
{
    let mut result = AggregatedChat::new();
    let mut i: usize = 0;
    while i < items.len()
        invariant
            i <= items@.len(),
            agg_view(result) == aggregate_spec(ok_chunks(items@.take(i as int))),
        decreases items@.len() - i,
    {
        let ghost prefix = items@.take(i as int);
        assert(items@.take(i + 1).drop_last() =~= prefix);
        match &items[i] {
            Ok(chunk) => {
                result.push(chunk);
                assert(ok_chunks(items@.take(i + 1)).drop_last() =~= ok_chunks(prefix));
            },
            Err(_) => {},
        }
        i += 1;
    }
    assert(items@.take(items@.len() as int) =~= items@);
    result
}

/// A first error found in a prefix is the first error of the whole sequence.
pub proof fn lemma_first_error_prefix(items: Seq<Result<ChatChunk, ChatStreamError>>, n: int)
    requires
        0 <= n <= items.len(),
        first_error(items.take(n)) is Some,
    ensures
        first_error(items) == first_error(items.take(n)),
    decreases items.len() - n,
{
    if n < items.len() {
        assert(items.take(n + 1).drop_last() =~= items.take(n));
        lemma_first_error_prefix(items, n + 1);
    } else {
        assert(items.take(n) =~= items);
    }
}

/// What a stream item says, with the text of an error's message left out.
pub enum Event {
    Content(Seq<char>),
    Thinking(Seq<char>),
    ParseFailed,
    Incomplete,
    TransportFailed,
}

pub open spec fn event_of(r: Result<ChatChunk, ChatStreamError>) -> Event {
    match r {
        Ok(ChatChunk::Content(t)) => Event::Content(t@),
        Ok(ChatChunk::Thinking(t)) => Event::Thinking(t@),
        Err(ChatStreamError::ParseError(_)) => Event::ParseFailed,
        Err(ChatStreamError::IncompleteChunk) => Event::Incomplete,
        Err(ChatStreamError::TransportError(_)) => Event::TransportFailed,
    }
}

pub open spec fn events_of(v: Seq<Result<ChatChunk, ChatStreamError>>) -> Seq<Event> {
    v.map_values(|r: Result<ChatChunk, ChatStreamError>| event_of(r))
}

/// One content event for non-empty text, none for empty text.
pub open spec fn content_events(t: Seq<char>) -> Seq<Event> {
    if t.len() > 0 {
        seq![Event::Content(t)]
    } else {
        Seq::empty()
    }
}

/// One reasoning event for non-empty text, none for empty text.
pub open spec fn thinking_events(t: Seq<char>) -> Seq<Event> {
    if t.len() > 0 {
        seq![Event::Thinking(t)]
    } else {
        Seq::empty()
    }
}

/// Appends a content event to `out` when `t` is non-empty.
pub fn push_content(out: &mut Vec<Result<ChatChunk, ChatStreamError>>, t: String)
    ensures
        events_of(final(out)@) == events_of(old(out)@) + content_events(t@),
{
    let ghost before = events_of(out@);
    if t.as_str().unicode_len() > 0 {
        out.push(Ok(ChatChunk::Content(t)));
    }
    assert(events_of(out@) =~= before + content_events(t@));
}

/// Appends a reasoning event to `out` when `t` is non-empty.
pub fn push_thinking(out: &mut Vec<Result<ChatChunk, ChatStreamError>>, t: String)
    ensures
        events_of(final(out)@) == events_of(old(out)@) + thinking_events(t@),
{
    let ghost before = events_of(out@);
    if t.as_str().unicode_len() > 0 {
        out.push(Ok(ChatChunk::Thinking(t)));
    }
    assert(events_of(out@) =~= before + thinking_events(t@));
}

/// A single parse error with the given message.
pub fn parse_failure(message: &str) -> (r: Vec<Result<ChatChunk, ChatStreamError>>)
    ensures
        events_of(r@) == seq![Event::ParseFailed],
{
    let mut r: Vec<Result<ChatChunk, ChatStreamError>> = Vec::new();
    r.push(Err(ChatStreamError::ParseError(message.to_string())));
    assert(events_of(r@) =~= seq![Event::ParseFailed]);
    r
}

} // verus!
