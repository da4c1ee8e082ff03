//! Incremental splitting of a raw byte stream into event frames.
//!
//! A frame boundary is the two-byte separator `\n\n` (bytes 10, 10).  The
//! decoder keeps a carry-over buffer so that a separator or a frame that
//! straddles two network chunks is still recognised: feeding the same bytes
//! in any chunking yields the same frames (see `lemma_feed_all_chunking`).
use vstd::prelude::*;

verus! {

/// The line-feed byte; two in a row separate frames.
pub open spec fn lf() -> u8 {
    10
}

/// The least index `i` such that bytes `i` and `i + 1` are both line feeds,
/// if any pair of adjacent line feeds occurs in `b`.
pub open spec fn first_sep(b: Seq<u8>) -> Option<int>
    decreases b.len(),
{
    if b.len() < 2 {
        None
    } else if b[0] == lf() && b[1] == lf() {
        Some(0)
    } else {
        match first_sep(b.drop_first()) {
            Some(i) => Some(i + 1),
            None => None,
        }
    }
}

/// The complete frames of `b`: the segments before each separator, in order.
/// Bytes after the last separator are not a frame yet (see `rest_of`).
pub open spec fn frames_of(b: Seq<u8>) -> Seq<Seq<u8>>
    decreases b.len(),
{
    match first_sep(b) {
        None => seq![],
        Some(i) => if 0 <= i && i + 2 <= b.len() {
            seq![b.take(i)] + frames_of(b.skip(i + 2))
        } else {
            seq![]
        },
    }
}

/// The bytes of `b` after its last separator: the partial frame that must be
/// carried over until more bytes arrive.
pub open spec fn rest_of(b: Seq<u8>) -> Seq<u8>
    decreases b.len(),
{
    match first_sep(b) {
        None => b,
        Some(i) => if 0 <= i && i + 2 <= b.len() {
            rest_of(b.skip(i + 2))
        } else {
            b
        },
    }
}

/// Whether bytes `i` and `i + 1` of `b` form a frame separator.
pub open spec fn sep_at(b: Seq<u8>, i: int) -> bool {
    b[i] == lf() && b[i + 1] == lf()
}

/// `first_sep` finds a separator position in range, and no earlier one;
/// when it finds none, there is none.
pub proof fn lemma_first_sep_props(b: Seq<u8>)
    ensures
        match first_sep(b) {
            Some(i) => 0 <= i && i + 1 < b.len() && sep_at(b, i) && (forall|j: int|
                0 <= j < i ==> !sep_at(b, j)),
            None => forall|j: int| 0 <= j && j + 1 < b.len() ==> !sep_at(b, j),
        },
    decreases b.len(),
{
    if b.len() < 2 {
    } else if b[0] == lf() && b[1] == lf() {
    } else {
        let t = b.drop_first();
        lemma_first_sep_props(t);
        assert(forall|j: int| 0 <= j && j + 1 < t.len() ==> #[trigger] sep_at(t, j) == sep_at(
            b,
            j + 1,
        ));
        match first_sep(t) {
            Some(i) => {
                assert(sep_at(b, i + 1));
                assert forall|j: int| 0 <= j < i + 1 implies !sep_at(b, j) by {
                    if j == 0 {
                    } else {
                        assert(!sep_at(t, j - 1));
                    }
                }
            },
            None => {
                assert forall|j: int| 0 <= j && j + 1 < b.len() implies !sep_at(b, j) by {
                    if j == 0 {
                    } else {
                        assert(!sep_at(t, j - 1));
                    }
                }
            },
        }
    }
}

/// A separator position with no earlier separator is exactly what
/// `first_sep` returns.
pub proof fn lemma_first_sep_exact(b: Seq<u8>, i: int)
    requires
        0 <= i,
        i + 1 < b.len(),
        sep_at(b, i),
        forall|j: int| 0 <= j < i ==> !sep_at(b, j),
    ensures
        first_sep(b) == Some(i),
{
    lemma_first_sep_props(b);
    match first_sep(b) {
        Some(k) => {
            if k < i {
                assert(!sep_at(b, k));
            }
            if i < k {
                assert(!sep_at(b, i));
            }
        },
        None => {
            assert(!sep_at(b, i));
        },
    }
}

/// Appending bytes cannot change an already-found first separator.
pub proof fn lemma_first_sep_prefix(a: Seq<u8>, b: Seq<u8>)
    requires
        first_sep(a) matches Some(i),
    ensures
        first_sep(a + b) == first_sep(a),
{
    lemma_first_sep_props(a);
    let i = first_sep(a)->Some_0;
    assert(sep_at(a + b, i));
    assert forall|j: int| 0 <= j < i implies !sep_at(a + b, j) by {
        assert(!sep_at(a, j));
    }
    lemma_first_sep_exact(a + b, i);
}

/// Splitting is compatible with concatenation: the frames of `a + b` are the
/// frames of `a` followed by the frames of `a`'s carried-over tail joined
/// with `b`, and likewise for the tail itself.  This is why the carry-over
/// decoder is insensitive to where chunk boundaries fall.
pub proof fn lemma_split_concat(a: Seq<u8>, b: Seq<u8>)
    ensures
        frames_of(a + b) == frames_of(a) + frames_of(rest_of(a) + b),
        rest_of(a + b) == rest_of(rest_of(a) + b),
    decreases a.len(),
{
    lemma_first_sep_props(a);
    match first_sep(a) {
        None => {
            assert(rest_of(a) == a);
            assert(frames_of(a) =~= seq![]);
            assert(frames_of(a + b) =~= frames_of(a) + frames_of(rest_of(a) + b));
        },
        Some(i) => {
            lemma_first_sep_prefix(a, b);
            let ab = a + b;
            assert(ab.take(i) =~= a.take(i));
            assert(ab.skip(i + 2) =~= a.skip(i + 2) + b);
            lemma_split_concat(a.skip(i + 2), b);
            assert(rest_of(a) == rest_of(a.skip(i + 2)));
            assert(frames_of(ab) =~= seq![a.take(i)] + frames_of(a.skip(i + 2) + b));
            assert(frames_of(a) + frames_of(rest_of(a) + b) =~= seq![a.take(i)] + (frames_of(
                a.skip(i + 2),
            ) + frames_of(rest_of(a.skip(i + 2)) + b)));
        },
    }
}

/// The frames and the carried-over tail that result from feeding `chunks`
/// one by one into a fresh decoder.
pub open spec fn feed_all(chunks: Seq<Seq<u8>>) -> (Seq<Seq<u8>>, Seq<u8>)
    decreases chunks.len(),
{
    if chunks.len() == 0 {
        (seq![], seq![])
    } else {
        let (fs, pend) = feed_all(chunks.drop_last());
        (fs + frames_of(pend + chunks.last()), rest_of(pend + chunks.last()))
    }
}

/// Feeding a stream chunk by chunk recovers exactly the frames of the whole
/// stream: chunk boundaries never affect which frames come out.
pub proof fn lemma_feed_all_chunking(chunks: Seq<Seq<u8>>)
    ensures
        feed_all(chunks).0 == frames_of(chunks.flatten()),
        feed_all(chunks).1 == rest_of(chunks.flatten()),
    decreases chunks.len(),
{
    if chunks.len() == 0 {
        assert(chunks.flatten() =~= Seq::<u8>::empty());
        assert(frames_of(Seq::<u8>::empty()) =~= seq![]);
    } else {
        let head = chunks.drop_last();
        lemma_feed_all_chunking(head);
        broadcast use vstd::prelude::Seq::lemma_flatten_push;

        assert(head.push(chunks.last()) =~= chunks);
        lemma_split_concat(head.flatten(), chunks.last());
    }
}

/// An incremental frame splitter with a carry-over buffer: bytes arrive in
/// chunks of arbitrary size, and a frame is handed out exactly when its
/// closing separator has arrived.
pub struct FrameDecoder {
    buf: Vec<u8>,
}

/// The views of a sequence of byte vectors.
pub open spec fn frame_views(s: Seq<Vec<u8>>) -> Seq<Seq<u8>> {
    Seq::new(s.len(), |i: int| s[i]@)
}

/// The first separator position in a byte slice, if any.
fn find_sep(buf: &Vec<u8>) -> (r: Option<usize>)
    ensures
        match r {
            Some(i) => first_sep(buf@) == Some(i as int),
            None => first_sep(buf@) is None,
        },
{
    let n = buf.len();
    if n < 2 {
        proof {
            lemma_first_sep_props(buf@);
        }
        return None;
    }
    let mut i: usize = 0;
    while i < n - 1
        invariant
            n == buf@.len(),
            2 <= n,
            i <= n - 1,
            forall|j: int| 0 <= j < i ==> !sep_at(buf@, j),
        decreases n - i,
    {
        if buf[i] == 10u8 && buf[i + 1] == 10u8 {
            proof {
                lemma_first_sep_exact(buf@, i as int);
            }
            return Some(i);
        }
        i = i + 1;
    }
    proof {
        lemma_first_sep_props(buf@);
        match first_sep(buf@) {
            Some(k) => {
                assert(!sep_at(buf@, k));
            },
            None => {},
        }
    }
    None
}

impl FrameDecoder {
    /// The bytes received so far that belong to a frame whose separator has
    /// not arrived yet.
    pub closed spec fn pending(&self) -> Seq<u8> {
        self.buf@
    }

    /// A fresh decoder with nothing carried over.
    pub fn new() -> (d: FrameDecoder)
        ensures
            d.pending() == Seq::<u8>::empty(),
    {
        FrameDecoder { buf: Vec::new() }
    }

    /// Feed one network chunk; returns every frame completed by it, in
    /// order, and carries the remainder over to the next call.
    pub fn feed(&mut self, chunk: &[u8]) -> (frames: Vec<Vec<u8>>)
        ensures
            frame_views(frames@) == frames_of(old(self).pending() + chunk@),
            final(self).pending() == rest_of(old(self).pending() + chunk@),
    {
        let ghost whole = old(self).pending() + chunk@;
        self.buf.extend_from_slice(chunk);
        assert(self.buf@ =~= whole);
        let mut frames: Vec<Vec<u8>> = Vec::new();
        assert(frame_views(frames@) =~= seq![]);
        loop
            invariant
                frames_of(whole) == frame_views(frames@) + frames_of(self.buf@),
                rest_of(whole) == rest_of(self.buf@),
            ensures
                frame_views(frames@) == frames_of(whole),
                self.pending() == rest_of(whole),
            decreases self.buf@.len(),
        {
            match find_sep(&self.buf) {
                None => {
                    assert(frames_of(self.buf@) =~= seq![]);
                    assert(frame_views(frames@) =~= frame_views(frames@) + frames_of(self.buf@));
                    break ;
                },
                Some(i) => {
                    proof {
                        lemma_first_sep_props(self.buf@);
                    }
                    let n = self.buf.len();
                    let mut frame: Vec<u8> = Vec::new();
                    let mut j: usize = 0;
                    while j < i
                        invariant
                            i + 1 < n,
                            n == self.buf@.len(),
                            j <= i,
                            frame@ =~= self.buf@.take(i as int).take(j as int),
                        decreases i - j,
                    {
                        frame.push(self.buf[j]);
                        j = j + 1;
                    }
                    assert(frame@ =~= self.buf@.take(i as int));
                    let mut tail: Vec<u8> = Vec::new();
                    let mut k: usize = i + 2;
                    while k < n
                        invariant
                            i + 2 <= k <= n,
                            n == self.buf@.len(),
                            tail@ =~= self.buf@.skip(i + 2).take(k - i - 2),
                        decreases n - k,
                    {
                        tail.push(self.buf[k]);
                        k = k + 1;
                    }
                    assert(tail@ =~= self.buf@.skip(i + 2));
                    let ghost before = self.buf@;
                    let ghost emitted = frames@;
                    self.buf = tail;
                    frames.push(frame);
                    proof {
                        assert(frames_of(before) =~= seq![before.take(i as int)] + frames_of(
                            before.skip(i + 2),
                        ));
                        assert(frame_views(frames@) =~= frame_views(emitted).push(frame@));
                        assert(frame_views(emitted).push(frame@) + frames_of(self.buf@)
                            =~= frame_views(emitted) + frames_of(before));
                    }
                },
            }
        }
        frames
    }

    /// Hand out the carried-over tail at end of stream, leaving the decoder
    /// empty.  The tail is the final, separator-less segment of the stream.
    pub fn finish(&mut self) -> (tail: Vec<u8>)
        ensures
            tail@ == old(self).pending(),
            final(self).pending() == Seq::<u8>::empty(),
    {
        let mut out: Vec<u8> = Vec::new();
        std::mem::swap(&mut out, &mut self.buf);
        assert(self.buf@ =~= Seq::<u8>::empty());
        out
    }
}

} // verus!
