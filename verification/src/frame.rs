use vstd::prelude::*;

verus! {

/// The frame delimiter: a newline byte.
pub const NL: u8 = 10;

/// The complete frames contained in a byte sequence: every maximal run of
/// bytes up to (and excluding) a newline whose newline has been observed.
pub open spec fn frames_of(s: Seq<u8>) -> Seq<Seq<u8>>
    decreases s.len(),
{
    if s.len() == 0 {
        Seq::empty()
    } else if s.last() == NL {
        frames_of(s.drop_last()).push(residue_of(s.drop_last()))
    } else {
        frames_of(s.drop_last())
    }
}

/// The trailing bytes of a byte sequence that no newline has closed yet.
pub open spec fn residue_of(s: Seq<u8>) -> Seq<u8>
    decreases s.len(),
{
    if s.len() == 0 {
        Seq::empty()
    } else if s.last() == NL {
        Seq::empty()
    } else {
        residue_of(s.drop_last()).push(s.last())
    }
}

pub proof fn lemma_residue_no_nl(s: Seq<u8>)
    ensures
        forall|i: int| 0 <= i < residue_of(s).len() ==> residue_of(s)[i] != NL,
    decreases s.len(),
{
    if s.len() > 0 && s.last() != NL {
        lemma_residue_no_nl(s.drop_last());
        let r0 = residue_of(s.drop_last());
        assert forall|i: int| 0 <= i < residue_of(s).len() implies residue_of(s)[i] != NL by {
            if i < r0.len() {
                assert(residue_of(s)[i] == r0[i]);
            } else {
                assert(residue_of(s)[i] == s.last());
            }
        }
    }
}

/// A byte sequence without a delimiter is all residue and holds no frame.
pub proof fn lemma_no_nl_identity(s: Seq<u8>)
    requires
        forall|i: int| 0 <= i < s.len() ==> s[i] != NL,
    ensures
        residue_of(s) == s,
        frames_of(s) == Seq::<Seq<u8>>::empty(),
    decreases s.len(),
{
    if s.len() > 0 {
        assert(s.last() == s[s.len() - 1]);
        lemma_no_nl_identity(s.drop_last());
        assert(residue_of(s.drop_last()).push(s.last()) =~= s);
    }
}

/// How one more byte extends the frames and the residue.
pub proof fn lemma_push_byte(s: Seq<u8>, b: u8)
    ensures
        frames_of(s.push(b)) == if b == NL {
            frames_of(s).push(residue_of(s))
        } else {
            frames_of(s)
        },
        residue_of(s.push(b)) == if b == NL {
            Seq::<u8>::empty()
        } else {
            residue_of(s).push(b)
        },
{
    assert(s.push(b).drop_last() =~= s);
    assert(s.push(b).last() == b);
}

/// Reassembly is compositional: the frames of `a + b` are the frames of
/// `a` followed by the frames that `b` completes on top of `a`'s residue.
pub proof fn lemma_frames_compose(a: Seq<u8>, b: Seq<u8>)
    ensures
        frames_of(a + b) == frames_of(a) + frames_of(residue_of(a) + b),
        residue_of(a + b) == residue_of(residue_of(a) + b),
    decreases b.len(),
{
    if b.len() == 0 {
        assert(a + b =~= a);
        assert(residue_of(a) + b =~= residue_of(a));
        lemma_residue_no_nl(a);
        lemma_no_nl_identity(residue_of(a));
        assert(frames_of(a) + frames_of(residue_of(a)) =~= frames_of(a));
    } else {
        let b0 = b.drop_last();
        let x = b.last();
        lemma_frames_compose(a, b0);
        assert(a + b =~= (a + b0).push(x));
        assert(residue_of(a) + b =~= (residue_of(a) + b0).push(x));
        lemma_push_byte(a + b0, x);
        lemma_push_byte(residue_of(a) + b0, x);
        if x == NL {
            assert(frames_of(a) + frames_of(residue_of(a) + b0).push(residue_of(residue_of(a) + b0))
                =~= (frames_of(a) + frames_of(residue_of(a) + b0)).push(residue_of(a + b0)));
        }
    }
}

/// The bytes of a sequence of chunks, in arrival order.
pub open spec fn concat_chunks(chunks: Seq<Seq<u8>>) -> Seq<u8>
    decreases chunks.len(),
{
    if chunks.len() == 0 {
        Seq::empty()
    } else {
        chunks[0] + concat_chunks(chunks.skip(1))
    }
}

/// All frames a reassembler starting from buffer `buf` emits over a run of
/// chunks, in emission order.
pub open spec fn emitted_frames(buf: Seq<u8>, chunks: Seq<Seq<u8>>) -> Seq<Seq<u8>>
    decreases chunks.len(),
{
    if chunks.len() == 0 {
        Seq::empty()
    } else {
        frames_of(buf + chunks[0]) + emitted_frames(residue_of(buf + chunks[0]), chunks.skip(1))
    }
}

/// A run over chunks emits exactly the frames of the concatenated bytes.
pub proof fn lemma_run_emits_concat(buf: Seq<u8>, chunks: Seq<Seq<u8>>)
    requires
        forall|i: int| 0 <= i < buf.len() ==> buf[i] != NL,
    ensures
        emitted_frames(buf, chunks) == frames_of(buf + concat_chunks(chunks)),
    decreases chunks.len(),
{
    lemma_no_nl_identity(buf);
    if chunks.len() == 0 {
        assert(buf + concat_chunks(chunks) =~= buf);
    } else {
        let first = buf + chunks[0];
        lemma_residue_no_nl(first);
        lemma_run_emits_concat(residue_of(first), chunks.skip(1));
        lemma_frames_compose(first, concat_chunks(chunks.skip(1)));
        assert(buf + concat_chunks(chunks) =~= first + concat_chunks(chunks.skip(1)));
        assert(frames_of(first) =~= frames_of(buf) + frames_of(first));
    }
}

/// Law: the frames a reassembler emits depend only on the bytes that
/// arrived, never on how those bytes were cut into chunks. Two runs over
/// chunkings of the same byte sequence emit the same frames.
pub proof fn lemma_reassembly_chunking_invariant(chunks1: Seq<Seq<u8>>, chunks2: Seq<Seq<u8>>)
    requires
        concat_chunks(chunks1) == concat_chunks(chunks2),
    ensures
        emitted_frames(Seq::empty(), chunks1) == emitted_frames(Seq::empty(), chunks2),
{
    lemma_run_emits_concat(Seq::empty(), chunks1);
    lemma_run_emits_concat(Seq::empty(), chunks2);
    assert(Seq::empty() + concat_chunks(chunks1) =~= concat_chunks(chunks1));
    assert(Seq::empty() + concat_chunks(chunks2) =~= concat_chunks(chunks2));
}

/// Turns an in-order byte stream into newline-delimited frames, keeping
/// any trailing partial frame buffered for the next chunk.
#[derive(Debug)]
pub struct FrameReassembler {
    buf: Vec<u8>,
}

impl View for FrameReassembler {
    type V = Seq<u8>;

    closed spec fn view(&self) -> Seq<u8> {
        self.buf@
    }
}

pub open spec fn frame_views(frames: Seq<Vec<u8>>) -> Seq<Seq<u8>> {
    frames.map_values(|f: Vec<u8>| f@)
}

impl FrameReassembler {
    /// The buffer only ever holds a partial frame: no delimiter inside.
    pub open spec fn wf(&self) -> bool {
        forall|i: int| 0 <= i < self@.len() ==> self@[i] != NL
    }

    pub fn new() -> (r: Self)
        ensures
            r.wf(),
            r@ == Seq::<u8>::empty(),
    {
        FrameReassembler { buf: Vec::new() }
    }

    /// Appends one chunk and returns every frame it completes, in order.
    pub fn push_chunk(&mut self, chunk: &[u8]) -> (frames: Vec<Vec<u8>>)
        requires
            old(self).wf(),
        ensures
            final(self).wf(),
            frame_views(frames@) == frames_of(old(self)@ + chunk@),
            final(self)@ == residue_of(old(self)@ + chunk@),
    {
        let ghost start = old(self)@;
        let mut cur: Vec<u8> = Vec::new();
        core::mem::swap(&mut cur, &mut self.buf);
        let mut frames: Vec<Vec<u8>> = Vec::new();
        let mut i: usize = 0;
        proof {
            assert(forall|j: int| 0 <= j < start.len() ==> start[j] != NL) by {
                assert(old(self).wf());
            }
            assert(start + chunk@.take(0) =~= start);
            lemma_no_nl_identity(start);
            assert(frame_views(frames@) =~= frames_of(start));
        }
        while i < chunk.len()
            invariant
                i <= chunk@.len(),
                frame_views(frames@) == frames_of(start + chunk@.take(i as int)),
                cur@ == residue_of(start + chunk@.take(i as int)),
            decreases chunk@.len() - i,
        {
            let b = chunk[i];
            proof {
                assert(start + chunk@.take(i as int + 1)
                    =~= (start + chunk@.take(i as int)).push(chunk@[i as int]));
                lemma_push_byte(start + chunk@.take(i as int), chunk@[i as int]);
            }
            if b == NL {
                frames.push(cur);
                cur = Vec::new();
                proof {
                    assert(frame_views(frames@)
                        =~= frames_of(start + chunk@.take(i as int + 1)));
                }
            } else {
                cur.push(b);
            }
            i = i + 1;
        }
        self.buf = cur;
        proof {
            assert(start + chunk@.take(chunk@.len() as int) =~= start + chunk@);
            lemma_residue_no_nl(start + chunk@);
        }
        frames
    }
}

} // verus!
