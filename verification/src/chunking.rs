//! Fixed-size chunking of volume payloads, buffered and streamed.
use crate::hash::{blake3_digest, hash_bytes, ContentId};
use vstd::prelude::*;

verus! {

/// The size of every chunk but the last one of a payload.
pub const DEFAULT_CHUNK_SIZE: usize = 1_048_576;

/// A piece of a payload and the id it is stored under.
pub struct Chunk {
    pub id: ContentId,
    pub data: Vec<u8>,
}

/// `data` cut into pieces of `size` bytes, the last of which may be shorter; no piece is empty.
pub open spec fn chunks(data: Seq<u8>, size: nat) -> Seq<Seq<u8>>
    decreases data.len(),
{
    if data.len() == 0 || size == 0 {
        seq![]
    } else if data.len() <= size {
        seq![data]
    } else {
        seq![data.take(size as int)] + chunks(data.skip(size as int), size)
    }
}

/// The pieces in order, one after the other.
pub open spec fn flatten(pieces: Seq<Seq<u8>>) -> Seq<u8>
    decreases pieces.len(),
{
    if pieces.len() == 0 {
        seq![]
    } else {
        pieces[0] + flatten(pieces.skip(1))
    }
}

/// A payload is its chunks one after the other.
pub proof fn law_chunks_flatten_to_data(data: Seq<u8>, size: nat)
    requires
        size > 0,
    ensures
        flatten(chunks(data, size)) == data,
    decreases data.len(),
{
    if data.len() == 0 {
        assert(flatten(chunks(data, size)) =~= data);
    } else if data.len() <= size {
        let c = chunks(data, size);
        assert(c.skip(1) =~= seq![]);
        assert(flatten(c.skip(1)) =~= seq![]);
        assert(flatten(c) =~= data);
    } else {
        let c = chunks(data, size);
        let rest = data.skip(size as int);
        law_chunks_flatten_to_data(rest, size);
        assert(c.skip(1) =~= chunks(rest, size));
        assert(data.take(size as int) + rest =~= data);
    }
}

/// No chunk is empty or larger than the chunk size, and every chunk but the last has that size.
pub proof fn law_chunk_sizes(data: Seq<u8>, size: nat)
    requires
        size > 0,
    ensures
        forall|i: int|
            0 <= i < chunks(data, size).len() ==> 0 < (#[trigger] chunks(data, size)[i]).len()
                <= size,
        forall|i: int|
            0 <= i < chunks(data, size).len() - 1 ==> (#[trigger] chunks(data, size)[i]).len()
                == size,
    decreases data.len(),
{
    if data.len() > size {
        let c = chunks(data, size);
        let r = chunks(data.skip(size as int), size);
        law_chunk_sizes(data.skip(size as int), size);
        assert forall|i: int| 0 <= i < c.len() implies 0 < (#[trigger] c[i]).len() <= size by {
            if i > 0 {
                assert(c[i] == r[i - 1]);
            }
        }
        assert forall|i: int| 0 <= i < c.len() - 1 implies (#[trigger] c[i]).len() == size by {
            if i > 0 {
                assert(c[i] == r[i - 1]);
            }
        }
    }
}

/// The bytes `data[from..to]`.
pub fn copy_range(data: &[u8], from: usize, to: usize) -> (res: Vec<u8>)
    requires
        from <= to <= data@.len(),
    ensures
        res@ == data@.subrange(from as int, to as int),
{
    vstd::slice::slice_to_vec(vstd::slice::slice_subrange(data, from, to))
}

/// Cuts payloads into chunks of one size.
pub struct Chunker {
    pub chunk_size: usize,
}

impl Default for Chunker {
    fn default() -> (res: Self)
        ensures
            res.chunk_size == DEFAULT_CHUNK_SIZE,
    {
        Chunker { chunk_size: DEFAULT_CHUNK_SIZE }
    }
}

impl Chunker {
    /// The chunks of `data`, in order, each with the id of its content.
    pub fn chunk(&self, data: &[u8]) -> (res: Vec<Chunk>)
        requires
            self.chunk_size > 0,
        ensures
            res@.len() == chunks(data@, self.chunk_size as nat).len(),
            forall|i: int|
                0 <= i < res@.len() ==> (#[trigger] res@[i]).data@ == chunks(
                    data@,
                    self.chunk_size as nat,
                )[i] && res@[i].id@ == blake3_digest(res@[i].data@),
    {
        let size: usize = self.chunk_size;
        let mut out: Vec<Chunk> = Vec::new();
        let mut off: usize = 0;
        let ghost all = chunks(data@, size as nat);
        assert(data@.skip(0) =~= data@);
        while off < data.len()
            invariant
                size > 0,
                off <= data@.len(),
                out@.len() + chunks(data@.skip(off as int), size as nat).len() == all.len(),
                forall|i: int|
                    0 <= i < out@.len() ==> (#[trigger] out@[i]).data@ == all[i] && out@[i].id@
                        == blake3_digest(all[i]),
                forall|i: int|
                    out@.len() <= i < all.len() ==> #[trigger] all[i] == chunks(
                        data@.skip(off as int),
                        size as nat,
                    )[i - out@.len()],
            decreases data@.len() - off,
        {
            let ghost rest = data@.skip(off as int);
            let ghost tail = chunks(rest, size as nat);
            let end: usize = if data.len() - off <= size {
                data.len()
            } else {
                off + size
            };
            let piece = copy_range(data, off, end);
            let id = hash_bytes(piece.as_slice());
            proof {
                if rest.len() <= size {
                    assert(piece@ =~= rest);
                    assert(data@.skip(end as int).len() == 0);
                } else {
                    assert(piece@ =~= rest.take(size as int));
                    assert(rest.skip(size as int) =~= data@.skip(end as int));
                }
                assert(tail[0] == piece@);
                assert(tail =~= seq![piece@] + chunks(data@.skip(end as int), size as nat));
                assert(all[out@.len() as int] == tail[0]);
            }
            let ghost before = out@.len();
            out.push(Chunk { id, data: piece });
            off = end;
            proof {
                let next = chunks(data@.skip(off as int), size as nat);
                assert forall|i: int| out@.len() <= i < all.len() implies #[trigger] all[i]
                    == next[i - out@.len()] by {
                    assert(all[i] == tail[i - before]);
                    assert(tail[i - before] == next[i - before - 1]);
                }
            }
        }
        assert(data@.skip(off as int).len() == 0);
        out
    }
}

/// What a chunk reader does with one more piece of the stream.
pub open spec fn stream_step(buf: Seq<u8>, piece: Seq<u8>) -> (Seq<u8>, Option<Seq<u8>>) {
    let all = buf + piece;
    if piece.len() == 0 || all.len() >= DEFAULT_CHUNK_SIZE {
        (seq![], Some(all))
    } else {
        (all, None)
    }
}

/// The outcome of handing a piece of the stream to a [`StreamChunker`].
pub enum ReadStep {
    /// The chunk is not full yet: read on.
    More,
    /// The next chunk. An empty one means that the stream has ended.
    Ready(Vec<u8>),
}

/// Collects the pieces that a reader delivers into chunks.
pub struct StreamChunker {
    pub buf: Vec<u8>,
}

impl StreamChunker {
    /// Room is left in the chunk under collection.
    pub open spec fn wf(&self) -> bool {
        self.buf@.len() < DEFAULT_CHUNK_SIZE
    }

    /// A reader at the start of a stream.
    pub fn new() -> (res: Self)
        ensures
            res.wf(),
            res.buf@ == Seq::<u8>::empty(),
    {
        StreamChunker { buf: Vec::new() }
    }

    /// How many bytes the next read may deliver.
    pub fn wanted(&self) -> (res: usize)
        requires
            self.wf(),
        ensures
            res == DEFAULT_CHUNK_SIZE - self.buf@.len(),
            res > 0,
    {
        DEFAULT_CHUNK_SIZE - self.buf.len()
    }

    /// Takes what a read delivered; an empty piece is the end of the stream.
    pub fn read(&mut self, piece: Vec<u8>) -> (res: ReadStep)
        requires
            old(self).wf(),
            old(self).buf@.len() + piece@.len() <= DEFAULT_CHUNK_SIZE,
        ensures
            final(self).wf(),
            final(self).buf@ == stream_step(old(self).buf@, piece@).0,
            match res {
                ReadStep::More => stream_step(old(self).buf@, piece@).1 is None,
                ReadStep::Ready(c) => stream_step(old(self).buf@, piece@).1 == Some(c@),
            },
    {
        let mut piece = piece;
        let ended = piece.len() == 0;
        let ghost taken = piece@;
        self.buf.append(&mut piece);
        assert(self.buf@ =~= old(self).buf@ + taken);
        if ended || self.buf.len() >= DEFAULT_CHUNK_SIZE {
            let mut out: Vec<u8> = Vec::new();
            std::mem::swap(&mut out, &mut self.buf);
            assert(self.buf@ =~= seq![]);
            ReadStep::Ready(out)
        } else {
            ReadStep::More
        }
    }
}

/// Whether each of `reads` delivers something and no more than there is room for.
pub open spec fn reads_fit(buf: Seq<u8>, reads: Seq<Seq<u8>>) -> bool
    decreases reads.len(),
{
    reads.len() > 0 ==> {
        &&& reads[0].len() > 0
        &&& buf.len() + reads[0].len() <= DEFAULT_CHUNK_SIZE
        &&& reads_fit(stream_step(buf, reads[0]).0, reads.skip(1))
    }
}

/// The chunks that a reader emits for `reads` followed by the end of the stream.
pub open spec fn stream_chunks(buf: Seq<u8>, reads: Seq<Seq<u8>>) -> Seq<Seq<u8>>
    decreases reads.len(),
{
    if reads.len() == 0 {
        if buf.len() == 0 {
            seq![]
        } else {
            seq![buf]
        }
    } else {
        let step = stream_step(buf, reads[0]);
        match step.1 {
            Some(c) => seq![c] + stream_chunks(step.0, reads.skip(1)),
            None => stream_chunks(step.0, reads.skip(1)),
        }
    }
}

/// However a stream is cut into reads, its chunks are those of the whole payload.
pub proof fn law_stream_matches_buffered(buf: Seq<u8>, reads: Seq<Seq<u8>>)
    requires
        buf.len() < DEFAULT_CHUNK_SIZE,
        reads_fit(buf, reads),
    ensures
        stream_chunks(buf, reads) == chunks(buf + flatten(reads), DEFAULT_CHUNK_SIZE as nat),
    decreases reads.len(),
{
    let size = DEFAULT_CHUNK_SIZE as nat;
    if reads.len() == 0 {
        assert(buf + flatten(reads) =~= buf);
        assert(stream_chunks(buf, reads) =~= chunks(buf, size));
    } else {
        let step = stream_step(buf, reads[0]);
        let rest = reads.skip(1);
        law_stream_matches_buffered(step.0, rest);
        let all = buf + reads[0];
        let whole = buf + flatten(reads);
        assert(whole =~= all + flatten(rest));
        match step.1 {
            Some(c) => {
                assert(c.len() == size);
                assert(step.0 + flatten(rest) =~= flatten(rest));
                if flatten(rest).len() == 0 {
                    assert(whole =~= c);
                    assert(chunks(flatten(rest), size) =~= seq![]);
                    assert(stream_chunks(buf, reads) =~= chunks(whole, size));
                } else {
                    assert(whole.take(size as int) =~= c);
                    assert(whole.skip(size as int) =~= flatten(rest));
                    assert(stream_chunks(buf, reads) =~= chunks(whole, size));
                }
            },
            None => {},
        }
    }
}

/// Putting pieces one after the other loses nothing and adds nothing: a single piece is itself, and
/// what two lists of pieces make up follows one on the other.
pub proof fn law_flatten_is_concatenation(a: Seq<Seq<u8>>, piece: Seq<u8>, b: Seq<Seq<u8>>)
    ensures
        flatten(seq![piece]) == piece,
        flatten(a + b) == flatten(a) + flatten(b),
        flatten(Seq::<Seq<u8>>::empty()) == Seq::<u8>::empty(),
    decreases a.len(),
{
    assert(seq![piece].skip(1) =~= seq![]);
    assert(flatten(seq![piece].skip(1)) =~= seq![]);
    assert(flatten(seq![piece]) =~= piece);
    if a.len() == 0 {
        assert(a + b =~= b);
        assert(flatten(a) + flatten(b) =~= flatten(b));
    } else {
        law_flatten_is_concatenation(a.skip(1), piece, b);
        assert((a + b).skip(1) =~= a.skip(1) + b);
        assert(a[0] + (flatten(a.skip(1)) + flatten(b)) =~= (a[0] + flatten(a.skip(1))) + flatten(
            b,
        ));
    }
}

/// Nothing of a stream is lost between reads: what was held and what was read is either held or
/// handed out, a chunk only where it is full or the stream has ended.
pub proof fn law_reads_are_held_or_handed_out(buf: Seq<u8>, piece: Seq<u8>)
    requires
        buf.len() < DEFAULT_CHUNK_SIZE,
        buf.len() + piece.len() <= DEFAULT_CHUNK_SIZE,
    ensures
        match stream_step(buf, piece).1 {
            Some(chunk) => {
                &&& chunk == buf + piece
                &&& stream_step(buf, piece).0.len() == 0
                &&& chunk.len() == DEFAULT_CHUNK_SIZE || piece.len() == 0
            },
            None => {
                &&& stream_step(buf, piece).0 == buf + piece
                &&& (buf + piece).len() < DEFAULT_CHUNK_SIZE
                &&& piece.len() > 0
            },
        },
{
}

} // verus!
