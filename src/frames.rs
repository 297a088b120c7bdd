//! Byte-to-frame reconstruction: a carry-over buffer that turns arbitrarily
//! chunked deliveries into the delimiter-terminated frames of a wire format.

use vstd::prelude::*;

verus! {

/// `d` occurs in `s` starting at index `i`.
pub open spec fn occurs_at<A>(s: Seq<A>, d: Seq<A>, i: int) -> bool {
    0 <= i && i + d.len() <= s.len() && s.subrange(i, i + d.len()) == d
}

/// The first index `k >= i` at which `d` occurs in `s`.
pub open spec fn first_match<A>(s: Seq<A>, d: Seq<A>, i: int) -> Option<int>
    decreases s.len() + 1 - i,
{
    if i < 0 || i + d.len() > s.len() {
        None
    } else if occurs_at(s, d, i) {
        Some(i)
    } else {
        first_match(s, d, i + 1)
    }
}

/// Splits `s` greedily at each occurrence of the delimiter `d`: every piece
/// that is followed by `d` is a complete frame; what follows the last
/// delimiter is the carry-over.
pub open spec fn split_frames(s: Seq<u8>, d: Seq<u8>) -> (Seq<Seq<u8>>, Seq<u8>)
    decreases s.len(),
{
    if d.len() == 0 {
        (Seq::empty(), s)
    } else {
        match first_match(s, d, 0) {
            Some(k) => if 0 <= k && k + d.len() <= s.len() {
                let rest = split_frames(s.skip(k + d.len()), d);
                (seq![s.take(k)] + rest.0, rest.1)
            } else {
                (Seq::empty(), s)
            },
            None => (Seq::empty(), s),
        }
    }
}

/// Feeds the deliveries `bufs` one after the other into a reconstructor whose
/// carry-over is `carry`: the frames emitted in order, and the final carry-over.
pub open spec fn feed_all(carry: Seq<u8>, bufs: Seq<Seq<u8>>, d: Seq<u8>) -> (
    Seq<Seq<u8>>,
    Seq<u8>,
)
    decreases bufs.len(),
{
    if bufs.len() == 0 {
        (Seq::empty(), carry)
    } else {
        let step = split_frames(carry + bufs[0], d);
        let rest = feed_all(step.1, bufs.drop_first(), d);
        (step.0 + rest.0, rest.1)
    }
}

pub proof fn lemma_first_match_bounds<A>(s: Seq<A>, d: Seq<A>, i: int)
    requires
        0 <= i,
    ensures
        match first_match(s, d, i) {
            Some(k) => i <= k && occurs_at(s, d, k) && forall|j: int|
                i <= j < k ==> !occurs_at(s, d, j),
            None => forall|j: int| i <= j ==> !occurs_at(s, d, j),
        },
    decreases s.len() + 1 - i,
{
    if i + d.len() > s.len() {
    } else if occurs_at(s, d, i) {
    } else {
        lemma_first_match_bounds(s, d, i + 1);
    }
}

/// A first match found in `s` is still the first match once more text follows `s`.
pub proof fn lemma_first_match_extend<A>(s: Seq<A>, t: Seq<A>, d: Seq<A>, i: int)
    requires
        0 <= i,
        first_match(s, d, i) is Some,
    ensures
        first_match(s + t, d, i) == first_match(s, d, i),
    decreases s.len() + 1 - i,
{
    lemma_first_match_bounds(s, d, i);
    let k = first_match(s, d, i)->Some_0;
    assert((s + t).subrange(i, i + d.len()) =~= s.subrange(i, i + d.len()));
    if i < k {
        lemma_first_match_extend(s, t, d, i + 1);
    }
}

/// What `split_frames` leaves over holds no delimiter.
pub proof fn lemma_split_rest_clean(s: Seq<u8>, d: Seq<u8>)
    requires
        d.len() > 0,
    ensures
        first_match(split_frames(s, d).1, d, 0) is None,
    decreases s.len(),
{
    lemma_first_match_bounds(s, d, 0);
    match first_match(s, d, 0) {
        Some(k) => {
            lemma_split_rest_clean(s.skip(k + d.len()), d);
        },
        None => {},
    }
}

/// Splitting `s + t` emits the frames of `s`, then the frames of the carry-over
/// of `s` followed by `t`.
pub proof fn lemma_split_append(s: Seq<u8>, t: Seq<u8>, d: Seq<u8>)
    requires
        d.len() > 0,
    ensures
        split_frames(s + t, d) == (
            split_frames(s, d).0 + split_frames(split_frames(s, d).1 + t, d).0,
            split_frames(split_frames(s, d).1 + t, d).1,
        ),
    decreases s.len(),
{
    lemma_first_match_bounds(s, d, 0);
    match first_match(s, d, 0) {
        Some(k) => {
            lemma_first_match_extend(s, t, d, 0);
            let n = k + d.len();
            assert((s + t).take(k) =~= s.take(k));
            assert((s + t).skip(n) =~= s.skip(n) + t);
            lemma_split_append(s.skip(n), t, d);
            let inner = split_frames(s.skip(n), d);
            let tail = split_frames(inner.1 + t, d);
            assert(seq![s.take(k)] + (inner.0 + tail.0) =~= (seq![s.take(k)] + inner.0) + tail.0);
        },
        None => {
            assert(Seq::<Seq<u8>>::empty() + split_frames(s + t, d).0 =~= split_frames(s + t, d).0);
        },
    }
}

/// Feeding deliveries one after the other from a carry-over that holds no
/// delimiter gives what splitting the carry-over and all deliveries at once gives.
pub proof fn lemma_feed_all_is_split(carry: Seq<u8>, bufs: Seq<Seq<u8>>, d: Seq<u8>)
    requires
        d.len() > 0,
        first_match(carry, d, 0) is None,
    ensures
        feed_all(carry, bufs, d) == split_frames(carry + bufs.flatten(), d),
    decreases bufs.len(),
{
    if bufs.len() == 0 {
        assert(carry + bufs.flatten() =~= carry);
    } else {
        let c = carry + bufs[0];
        let rest = bufs.drop_first();
        lemma_split_rest_clean(c, d);
        lemma_feed_all_is_split(split_frames(c, d).1, rest, d);
        lemma_split_append(c, rest.flatten(), d);
        assert(carry + bufs.flatten() =~= c + rest.flatten());
    }
}

/// Delivery-chunking transparency: however a byte sequence is partitioned into
/// deliveries, a fresh reconstructor emits exactly the frames (and keeps exactly
/// the carry-over) of that sequence delivered at once.
pub proof fn lemma_delivery_chunking_transparency(bufs: Seq<Seq<u8>>, d: Seq<u8>)
    requires
        d.len() > 0,
    ensures
        feed_all(Seq::empty(), bufs, d) == split_frames(bufs.flatten(), d),
{
    lemma_feed_all_is_split(Seq::empty(), bufs, d);
    assert(Seq::<u8>::empty() + bufs.flatten() =~= bufs.flatten());
}

pub proof fn lemma_first_match_skip<A>(s: Seq<A>, d: Seq<A>, p: int, j: int)
    requires
        0 <= p <= s.len(),
        0 <= j,
    ensures
        first_match(s.skip(p), d, j) == match first_match(s, d, p + j) {
            Some(k) => Some(k - p),
            None => None::<int>,
        },
    decreases s.len() + 1 - p - j,
{
    if j + d.len() <= s.len() - p {
        assert(s.skip(p).subrange(j, j + d.len()) =~= s.subrange(p + j, p + j + d.len()));
        if !occurs_at(s.skip(p), d, j) {
            lemma_first_match_skip(s, d, p, j + 1);
        }
    }
}

/// The frames of a sequence of complete frames, as byte sequences.
pub open spec fn frames_view(v: Seq<Vec<u8>>) -> Seq<Seq<u8>> {
    v.map_values(|f: Vec<u8>| f@)
}

/// Tests whether `needle` occurs in `hay` at index `i`.
fn occurs_at_exec(hay: &Vec<u8>, needle: &Vec<u8>, i: usize) -> (r: bool)
    requires
        i + needle@.len() <= hay@.len(),
    ensures
        r == occurs_at(hay@, needle@, i as int),
{
    let n = needle.len();
    let hl = hay.len();
    let mut j: usize = 0;
    while j < n
        invariant
            j <= n,
            n == needle@.len(),
            hl == hay@.len(),
            i + n <= hl,
            forall|m: int| 0 <= m < j ==> hay@[i + m] == needle@[m],
        decreases n - j,
    {
        if hay[i + j] != needle[j] {
            assert(hay@.subrange(i as int, i + n)[j as int] == hay@[i + j]);
            return false;
        }
        j += 1;
    }
    assert(hay@.subrange(i as int, i + n) =~= needle@);
    true
}

/// The first index at or after `start` at which `needle` occurs in `hay`.
pub fn find_from(hay: &Vec<u8>, needle: &Vec<u8>, start: usize) -> (r: Option<usize>)
    ensures
        match r {
            Some(k) => first_match(hay@, needle@, start as int) == Some(k as int),
            None => first_match(hay@, needle@, start as int) is None,
        },
{
    if needle.len() > hay.len() {
        return None;
    }
    let last = hay.len() - needle.len();
    let mut i = start;
    while i <= last
        invariant
            start <= i,
            last == hay@.len() - needle@.len(),
            first_match(hay@, needle@, start as int) == first_match(hay@, needle@, i as int),
        decreases last + 1 - i,
    {
        if occurs_at_exec(hay, needle, i) {
            return Some(i);
        }
        if i == last {
            return None;
        }
        i += 1;
    }
    None
}

/// A copy of `v[from..to]`.
pub fn copy_range(v: &Vec<u8>, from: usize, to: usize) -> (r: Vec<u8>)
    requires
        from <= to <= v@.len(),
    ensures
        r@ == v@.subrange(from as int, to as int),
{
    let mut r: Vec<u8> = Vec::new();
    let mut i = from;
    while i < to
        invariant
            from <= i <= to,
            to <= v@.len(),
            r@ == v@.subrange(from as int, i as int),
        decreases to - i,
    {
        r.push(v[i]);
        i += 1;
        assert(r@ =~= v@.subrange(from as int, i as int));
    }
    r
}

/// A copy of `s` as a vector.
pub fn slice_to_vec(s: &[u8]) -> (r: Vec<u8>)
    ensures
        r@ == s@,
{
    let mut r: Vec<u8> = Vec::new();
    let mut i: usize = 0;
    while i < s.len()
        invariant
            i <= s@.len(),
            r@ == s@.take(i as int),
        decreases s@.len() - i,
    {
        r.push(s[i]);
        i += 1;
        assert(r@ =~= s@.take(i as int));
    }
    assert(r@ =~= s@);
    r
}

/// The carry-over buffer of one stream, with the delimiter that ends a frame.
pub struct FrameBuffer {
    carry: Vec<u8>,
    delimiter: Vec<u8>,
}

impl FrameBuffer {
    /// The bytes received that do not yet form a complete frame.
    pub closed spec fn carry(&self) -> Seq<u8> {
        self.carry@
    }

    /// The byte sequence that terminates a frame.
    pub closed spec fn delimiter(&self) -> Seq<u8> {
        self.delimiter@
    }

    /// The delimiter is non-empty and the carry-over holds no complete frame.
    pub closed spec fn wf(&self) -> bool {
        self.delimiter@.len() > 0 && first_match(self.carry@, self.delimiter@, 0) is None
    }

    /// A reconstructor with an empty carry-over.
    pub fn new(delimiter: &[u8]) -> (r: FrameBuffer)
        requires
            delimiter@.len() > 0,
        ensures
            r.wf(),
            r.carry() == Seq::<u8>::empty(),
            r.delimiter() == delimiter@,
    {
        let mut d: Vec<u8> = Vec::new();
        let mut i: usize = 0;
        while i < delimiter.len()
            invariant
                i <= delimiter@.len(),
                d@ == delimiter@.subrange(0, i as int),
            decreases delimiter@.len() - i,
        {
            d.push(delimiter[i]);
            i += 1;
            assert(d@ =~= delimiter@.subrange(0, i as int));
        }
        assert(d@ =~= delimiter@);
        FrameBuffer { carry: Vec::new(), delimiter: d }
    }

    /// Appends a delivery to the carry-over and returns, in order, every frame
    /// whose delimiter has now been seen; the rest stays as the new carry-over.
    pub fn feed(&mut self, bytes: &[u8]) -> (frames: Vec<Vec<u8>>)
        requires
            old(self).wf(),
        ensures
            final(self).wf(),
            final(self).delimiter() == old(self).delimiter(),
            (frames_view(frames@), final(self).carry()) == split_frames(
                old(self).carry() + bytes@,
                old(self).delimiter(),
            ),
    {
        let ghost d = self.delimiter@;
        let mut all: Vec<u8> = Vec::new();
        std::mem::swap(&mut all, &mut self.carry);
        let ghost start = all@;
        let mut i: usize = 0;
        while i < bytes.len()
            invariant
                i <= bytes@.len(),
                all@ == start + bytes@.subrange(0, i as int),
            decreases bytes@.len() - i,
        {
            all.push(bytes[i]);
            i += 1;
            assert(all@ =~= start + bytes@.subrange(0, i as int));
        }
        assert(bytes@.subrange(0, bytes@.len() as int) =~= bytes@);
        let ghost whole = all@;
        assert(whole.skip(0) =~= whole);
        let dlen = self.delimiter.len();
        let mut frames: Vec<Vec<u8>> = Vec::new();
        let mut pos: usize = 0;
        let total = all.len();
        loop
            invariant
                all@ == whole,
                total == whole.len(),
                d == self.delimiter@,
                dlen == d.len(),
                d.len() > 0,
                pos <= whole.len(),
                frames_view(frames@) + split_frames(whole.skip(pos as int), d).0 == split_frames(
                    whole,
                    d,
                ).0,
                split_frames(whole.skip(pos as int), d).1 == split_frames(whole, d).1,
            ensures
                first_match(whole.skip(pos as int), d, 0) is None,
            decreases whole.len() - pos,
        {
            let found = find_from(&all, &self.delimiter, pos);
            proof {
                lemma_first_match_skip(whole, d, pos as int, 0);
                lemma_first_match_bounds(whole, d, pos as int);
            }
            match found {
                Some(k) => {
                    assert(occurs_at(whole, d, k as int));
                    let ghost rest = whole.skip(pos as int);
                    assert(rest.take(k - pos) =~= whole.subrange(pos as int, k as int));
                    assert(rest.skip(k - pos + dlen) =~= whole.skip(k + dlen));
                    let frame = copy_range(&all, pos, k);
                    let ghost before = frames_view(frames@);
                    frames.push(frame);
                    assert(frames_view(frames@) =~= before.push(frame@));
                    assert(before.push(frame@) + split_frames(whole.skip(k + dlen), d).0 =~= before
                        + (seq![frame@] + split_frames(whole.skip(k + dlen), d).0));
                    pos = k + dlen;
                },
                None => {
                    break ;
                },
            }
        }
        proof {
            lemma_split_rest_clean(whole, d);
        }
        let ghost rest = whole.skip(pos as int);
        assert(frames_view(frames@) + Seq::empty() =~= frames_view(frames@));
        self.carry = copy_range(&all, pos, all.len());
        assert(self.carry@ =~= rest);
        frames
    }

    /// True when no partial frame is waiting for more bytes.
    pub fn is_empty(&self) -> (r: bool)
        ensures
            r == (self.carry().len() == 0),
    {
        self.carry.len() == 0
    }

    /// Takes the carry-over out, leaving it empty.
    pub fn take_rest(&mut self) -> (r: Vec<u8>)
        requires
            old(self).wf(),
        ensures
            final(self).wf(),
            final(self).delimiter() == old(self).delimiter(),
            final(self).carry() == Seq::<u8>::empty(),
            r@ == old(self).carry(),
    {
        let mut r: Vec<u8> = Vec::new();
        std::mem::swap(&mut r, &mut self.carry);
        r
    }
}

} // verus!
