//! Wire framing for the device byte transport.
//!
//! The device speaks a length-unframed text protocol: a stream of JSON
//! objects, each terminated by the first closing brace that follows it.
//! Bytes arrive in arbitrary read-sized pieces, so the assembler keeps the
//! tail of the stream that follows the last complete message and extracts
//! one complete message at a time from the front.

use vstd::prelude::*;

verus! {

/// The byte that terminates one message on the wire.
pub const CLOSE_BRACE: u8 = 0x7d;

/// The complete messages extracted when the bytes `s` arrive while `cur`
/// holds the residue of everything seen before (the bytes after the last
/// message boundary). Walks `s` front to back, cutting a message at every
/// closing brace.
pub open spec fn chunks_from(s: Seq<u8>, cur: Seq<u8>) -> Seq<Seq<u8>>
    decreases s.len(),
{
    if s.len() == 0 {
        Seq::empty()
    } else if s[0] == CLOSE_BRACE {
        seq![cur.push(CLOSE_BRACE)] + chunks_from(s.skip(1), Seq::empty())
    } else {
        chunks_from(s.skip(1), cur.push(s[0]))
    }
}

/// The residue left in the assembler after the bytes `s` arrive while `cur`
/// holds the residue of everything seen before.
pub open spec fn residue_from(s: Seq<u8>, cur: Seq<u8>) -> Seq<u8>
    decreases s.len(),
{
    if s.len() == 0 {
        cur
    } else if s[0] == CLOSE_BRACE {
        residue_from(s.skip(1), Seq::empty())
    } else {
        residue_from(s.skip(1), cur.push(s[0]))
    }
}

/// Reassembles self-delimited messages from a split byte stream.
pub struct FrameAssembler {
    buffer: Vec<u8>,
}

impl View for FrameAssembler {
    type V = Seq<u8>;

    closed spec fn view(&self) -> Seq<u8> {
        self.buffer@
    }
}

impl FrameAssembler {
    /// An assembler that has seen no bytes yet.
    pub fn new() -> (r: FrameAssembler)
        ensures
            r@ == Seq::<u8>::empty(),
    {
        FrameAssembler { buffer: Vec::new() }
    }

    /// Feeds one read's worth of bytes and returns every message completed
    /// by them, in stream order; the incomplete tail stays buffered.
    pub fn push(&mut self, data: &[u8]) -> (out: Vec<Vec<u8>>)
        ensures
            out@.map_values(|c: Vec<u8>| c@) == chunks_from(data@, old(self)@),
            final(self)@ == residue_from(data@, old(self)@),
    {
        let mut out: Vec<Vec<u8>> = Vec::new();
        let ghost all: Seq<u8> = data@;
        let ghost start: Seq<u8> = self.buffer@;
        let mut i: usize = 0;
        proof {
            assert(all.skip(0) =~= all);
            assert(out@.map_values(|c: Vec<u8>| c@) + chunks_from(all, start)
                =~= chunks_from(all, start));
        }
        while i < data.len()
            invariant
                0 <= i <= data.len(),
                all == data@,
                out@.map_values(|c: Vec<u8>| c@) + chunks_from(all.skip(i as int), self.buffer@)
                    == chunks_from(all, start),
                residue_from(all.skip(i as int), self.buffer@) == residue_from(all, start),
            decreases data.len() - i,
        {
            let b = data[i];
            proof {
                assert(all.skip(i as int)[0] == b);
                assert(all.skip(i as int).skip(1) =~= all.skip(i + 1));
            }
            self.buffer.push(b);
            if b == CLOSE_BRACE {
                let mut done: Vec<u8> = Vec::new();
                core::mem::swap(&mut done, &mut self.buffer);
                proof {
                    let f = |c: Vec<u8>| c@;
                    assert(out@.push(done).map_values(f) =~= out@.map_values(f).push(done@));
                    assert(out@.map_values(f).push(done@)
                        + chunks_from(all.skip(i + 1), self.buffer@)
                        =~= out@.map_values(f)
                        + (seq![done@] + chunks_from(all.skip(i + 1), Seq::empty())));
                }
                out.push(done);
            }
            i = i + 1;
        }
        proof {
            assert(all.skip(data@.len() as int) =~= Seq::<u8>::empty());
            assert(out@.map_values(|c: Vec<u8>| c@) + Seq::<Seq<u8>>::empty()
                =~= out@.map_values(|c: Vec<u8>| c@));
        }
        out
    }
}

/// Splitting one byte stream into two reads extracts the same messages, in
/// the same order, and leaves the same residue as one unsplit read. Applied
/// inductively this covers a stream split into arbitrarily many reads.
pub proof fn lemma_split_reads_equivalent(a: Seq<u8>, b: Seq<u8>, r: Seq<u8>)
    ensures
        chunks_from(a, r) + chunks_from(b, residue_from(a, r)) == chunks_from(a + b, r),
        residue_from(b, residue_from(a, r)) == residue_from(a + b, r),
    decreases a.len(),
{
    if a.len() == 0 {
        assert(a + b =~= b);
        assert(chunks_from(a, r) + chunks_from(b, residue_from(a, r)) =~= chunks_from(b, r));
    } else {
        let t = a.skip(1);
        assert((a + b).skip(1) =~= t + b);
        assert((a + b)[0] == a[0]);
        if a[0] == CLOSE_BRACE {
            lemma_split_reads_equivalent(t, b, Seq::empty());
            assert(chunks_from(a, r) + chunks_from(b, residue_from(a, r))
                =~= seq![r.push(CLOSE_BRACE)]
                + (chunks_from(t, Seq::empty()) + chunks_from(b, residue_from(t, Seq::empty()))));
        } else {
            lemma_split_reads_equivalent(t, b, r.push(a[0]));
        }
    }
}

/// The residue never holds a message boundary: every complete message is
/// extracted the moment its closing brace arrives.
pub proof fn lemma_residue_open(s: Seq<u8>, cur: Seq<u8>)
    requires
        forall|i: int| 0 <= i < cur.len() ==> cur[i] != CLOSE_BRACE,
    ensures
        forall|i: int|
            0 <= i < residue_from(s, cur).len() ==> residue_from(s, cur)[i] != CLOSE_BRACE,
    decreases s.len(),
{
    if s.len() == 0 {
        assert(residue_from(s, cur) == cur);
    } else if s[0] == CLOSE_BRACE {
        lemma_residue_open(s.skip(1), Seq::empty());
        assert(residue_from(s, cur) == residue_from(s.skip(1), Seq::<u8>::empty()));
    } else {
        let pushed = cur.push(s[0]);
        assert(forall|i: int| 0 <= i < pushed.len() ==> pushed[i] != CLOSE_BRACE);
        lemma_residue_open(s.skip(1), pushed);
        assert(residue_from(s, cur) == residue_from(s.skip(1), pushed));
    }
}

} // verus!
