//! The per-stream engine: a frame reconstructor and a backend decoder behind
//! one interface. Deliveries go in, events come out in the order received.

use vstd::prelude::*;
use crate::frames::{FrameBuffer, split_frames, feed_all, frames_view, lemma_delivery_chunking_transparency};
use crate::chunk::{ChatChunk, ChatStreamError, Event, events_of};

verus! {

/// A decoder for one backend's wire format.
pub trait FrameDecoder: Sized {
    /// The byte sequence that ends a frame of this format.
    spec fn delimiter_spec() -> Seq<u8>;

    /// The events of one complete frame, and the decoder after it.
    spec fn decode_spec(self, frame: Seq<u8>) -> (Seq<Event>, Self);

    proof fn lemma_delimiter_nonempty()
        ensures
            Self::delimiter_spec().len() > 0,
    ;

    /// An empty frame gives no event and leaves the decoder as it was.
    proof fn lemma_empty_frame(self)
        ensures
            self.decode_spec(Seq::empty()) == (Seq::<Event>::empty(), self),
    ;

    fn delimiter(&self) -> (r: Vec<u8>)
        ensures
            r@ == Self::delimiter_spec(),
    ;

    /// Decodes one complete frame. An empty frame gives nothing.
    fn decode(&mut self, frame: &[u8]) -> (r: Vec<Result<ChatChunk, ChatStreamError>>)
        ensures
            (events_of(r@), *final(self)) == old(self).decode_spec(frame@),
            frame@.len() == 0 ==> r@.len() == 0 && *final(self) == *old(self),
    ;
}

/// Decodes `frames` in order, starting from `dec`.
pub open spec fn decode_all<D: FrameDecoder>(dec: D, frames: Seq<Seq<u8>>) -> (Seq<Event>, D)
    decreases frames.len(),
{
    if frames.len() == 0 {
        (Seq::empty(), dec)
    } else {
        let first = dec.decode_spec(frames[0]);
        let rest = decode_all(first.1, frames.drop_first());
        (first.0 + rest.0, rest.1)
    }
}

/// Feeds the deliveries `bufs` one after the other into a stream whose decoder
/// is `dec` and whose carry-over is `carry`: the events, the decoder after
/// them, and the carry-over after them.
pub open spec fn stream_feed_all<D: FrameDecoder>(dec: D, carry: Seq<u8>, bufs: Seq<Seq<u8>>) -> (
    Seq<Event>,
    D,
    Seq<u8>,
)
    decreases bufs.len(),
{
    if bufs.len() == 0 {
        (Seq::empty(), dec, carry)
    } else {
        let step = split_frames(carry + bufs[0], D::delimiter_spec());
        let decoded = decode_all(dec, step.0);
        let rest = stream_feed_all(decoded.1, step.1, bufs.drop_first());
        (decoded.0 + rest.0, rest.1, rest.2)
    }
}

/// Decoding two runs of frames one after the other is decoding their concatenation.
pub proof fn lemma_decode_all_append<D: FrameDecoder>(dec: D, f1: Seq<Seq<u8>>, f2: Seq<Seq<u8>>)
    ensures
        decode_all(dec, f1 + f2) == (
            decode_all(dec, f1).0 + decode_all(decode_all(dec, f1).1, f2).0,
            decode_all(decode_all(dec, f1).1, f2).1,
        ),
    decreases f1.len(),
{
    if f1.len() == 0 {
        assert(f1 + f2 =~= f2);
        assert(Seq::<Event>::empty() + decode_all(dec, f2).0 =~= decode_all(dec, f2).0);
    } else {
        let first = dec.decode_spec(f1[0]);
        assert((f1 + f2)[0] == f1[0]);
        assert((f1 + f2).drop_first() =~= f1.drop_first() + f2);
        lemma_decode_all_append(first.1, f1.drop_first(), f2);
        let a = decode_all(first.1, f1.drop_first());
        let b = decode_all(a.1, f2);
        assert(first.0 + (a.0 + b.0) =~= (first.0 + a.0) + b.0);
    }
}

/// Feeding a stream delivery by delivery decodes exactly the frames that the
/// reconstructor emits for those deliveries.
pub proof fn lemma_stream_feed_all_decodes<D: FrameDecoder>(
    dec: D,
    carry: Seq<u8>,
    bufs: Seq<Seq<u8>>,
)
    ensures
        stream_feed_all(dec, carry, bufs) == (
            decode_all(dec, feed_all(carry, bufs, D::delimiter_spec()).0).0,
            decode_all(dec, feed_all(carry, bufs, D::delimiter_spec()).0).1,
            feed_all(carry, bufs, D::delimiter_spec()).1,
        ),
    decreases bufs.len(),
{
    if bufs.len() > 0 {
        let d = D::delimiter_spec();
        let step = split_frames(carry + bufs[0], d);
        let decoded = decode_all(dec, step.0);
        lemma_stream_feed_all_decodes(decoded.1, step.1, bufs.drop_first());
        lemma_decode_all_append(dec, step.0, feed_all(step.1, bufs.drop_first(), d).0);
    }
}

/// Re-chunking transparency: feeding a fresh stream the deliveries `bufs` one
/// after the other gives the same events, decoder state and carry-over as
/// feeding it all of their bytes in a single delivery.
pub proof fn lemma_rechunking_transparency<D: FrameDecoder>(dec: D, bufs: Seq<Seq<u8>>)
    ensures
        stream_feed_all(dec, Seq::empty(), bufs) == stream_feed_all(
            dec,
            Seq::empty(),
            seq![bufs.flatten()],
        ),
{
    let d = D::delimiter_spec();
    D::lemma_delimiter_nonempty();
    lemma_stream_feed_all_decodes(dec, Seq::empty(), bufs);
    lemma_stream_feed_all_decodes(dec, Seq::empty(), seq![bufs.flatten()]);
    lemma_delivery_chunking_transparency(bufs, d);
    lemma_delivery_chunking_transparency(seq![bufs.flatten()], d);
    let one = seq![bufs.flatten()];
    assert(one.drop_first() =~= Seq::<Seq<u8>>::empty());
    assert(one.flatten() =~= bufs.flatten()) by {
        assert(one.drop_first().flatten() =~= Seq::<u8>::empty());
        assert(bufs.flatten() + Seq::<u8>::empty() =~= bufs.flatten());
    }
}

/// One reply stream: its carry-over, its decoder, and whether it has ended.
pub struct ChatStream<D: FrameDecoder> {
    frames: FrameBuffer,
    decoder: D,
    closed: bool,
}

impl<D: FrameDecoder> ChatStream<D> {
    /// The bytes received that do not yet form a complete frame.
    pub closed spec fn carry(&self) -> Seq<u8> {
        self.frames.carry()
    }

    /// The decoder, with whatever state it carries between frames.
    pub closed spec fn decoder(&self) -> D {
        self.decoder
    }

    /// The stream has ended, by exhaustion or by a transport failure.
    pub closed spec fn is_closed(&self) -> bool {
        self.closed
    }

    pub closed spec fn wf(&self) -> bool {
        self.frames.wf() && self.frames.delimiter() == D::delimiter_spec()
    }

    /// A stream that has received nothing yet.
    pub fn new(decoder: D) -> (r: ChatStream<D>)
        ensures
            r.wf(),
            r.carry() == Seq::<u8>::empty(),
            r.decoder() == decoder,
            !r.is_closed(),
    {
        let d = decoder.delimiter();
        proof {
            D::lemma_delimiter_nonempty();
        }
        ChatStream { frames: FrameBuffer::new(d.as_slice()), decoder, closed: false }
    }

    /// Takes one delivery: emits, in order, the events of every frame it
    /// completes. A stream that has ended takes nothing more.
    pub fn feed(&mut self, bytes: &[u8]) -> (r: Vec<Result<ChatChunk, ChatStreamError>>)
        requires
            old(self).wf(),
        ensures
            final(self).wf(),
            final(self).is_closed() == old(self).is_closed(),
            old(self).is_closed() ==> r@.len() == 0 && *final(self) == *old(self),
            !old(self).is_closed() ==> ({
                let step = split_frames(old(self).carry() + bytes@, D::delimiter_spec());
                let decoded = decode_all(old(self).decoder(), step.0);
                events_of(r@) == decoded.0 && final(self).decoder() == decoded.1
                    && final(self).carry() == step.1
            }),
    {
        if self.closed {
            return Vec::new();
        }
        let frames = self.frames.feed(bytes);
        let ghost fs = frames_view(frames@);
        let ghost dec0 = self.decoder;
        let mut out: Vec<Result<ChatChunk, ChatStreamError>> = Vec::new();
        let mut i: usize = 0;
        assert(fs.skip(0) =~= fs);
        assert(events_of(out@) + decode_all(dec0, fs).0 =~= decode_all(dec0, fs).0);
        while i < frames.len()
            invariant
                i <= frames@.len(),
                fs == frames_view(frames@),
                events_of(out@) + decode_all(self.decoder, fs.skip(i as int)).0 == decode_all(
                    dec0,
                    fs,
                ).0,
                decode_all(self.decoder, fs.skip(i as int)).1 == decode_all(dec0, fs).1,
                self.frames.wf(),
                self.frames.delimiter() == D::delimiter_spec(),
                self.frames.carry() == split_frames(
                    old(self).carry() + bytes@,
                    D::delimiter_spec(),
                ).1,
                !self.closed,
            decreases frames@.len() - i,
        {
            let ghost rest = fs.skip(i as int);
            let ghost before = events_of(out@);
            let ghost d = self.decoder;
            assert(rest[0] == frames@[i as int]@);
            assert(rest.drop_first() =~= fs.skip(i + 1));
            let mut evs = self.decoder.decode(frames[i].as_slice());
            let ghost le = events_of(evs@);
            out.append(&mut evs);
            assert(events_of(out@) =~= before + le);
            assert(before + (le + decode_all(self.decoder, fs.skip(i + 1)).0) =~= (before + le)
                + decode_all(self.decoder, fs.skip(i + 1)).0);
            i += 1;
        }
        assert(fs.skip(frames@.len() as int) =~= Seq::<Seq<u8>>::empty());
        assert(events_of(out@) + Seq::<Event>::empty() =~= events_of(out@));
        out
    }

    /// A transport failure: emits it as an error and ends the stream. A stream
    /// that has ended emits nothing.
    pub fn fail(&mut self, message: String) -> (r: Vec<Result<ChatChunk, ChatStreamError>>)
        requires
            old(self).wf(),
        ensures
            final(self).wf(),
            final(self).is_closed(),
            final(self).carry() == old(self).carry(),
            final(self).decoder() == old(self).decoder(),
            old(self).is_closed() ==> r@.len() == 0,
            !old(self).is_closed() ==> events_of(r@) == seq![Event::TransportFailed],
    {
        let mut r: Vec<Result<ChatChunk, ChatStreamError>> = Vec::new();
        if !self.closed {
            r.push(Err(ChatStreamError::TransportError(message)));
            self.closed = true;
            assert(events_of(r@) =~= seq![Event::TransportFailed]);
        }
        r
    }

    /// The end of the byte source: the carry-over, if any, is decoded as the
    /// last frame, and the stream ends. A stream that has ended emits nothing.
    pub fn finish(&mut self) -> (r: Vec<Result<ChatChunk, ChatStreamError>>)
        requires
            old(self).wf(),
        ensures
            final(self).wf(),
            final(self).is_closed(),
            final(self).carry() == Seq::<u8>::empty(),
            old(self).is_closed() ==> r@.len() == 0,
            !old(self).is_closed() ==> (events_of(r@), final(self).decoder())
                == old(self).decoder().decode_spec(old(self).carry()),
    {
        let rest = self.frames.take_rest();
        if self.closed {
            return Vec::new();
        }
        self.closed = true;
        self.decoder.decode(rest.as_slice())
    }
}

} // verus!
