//! HTTP chunked transfer encoding of a byte stream.
//!
//! [`ChunkedEncodeTransferInternal`] is the encoder's state machine: it
//! frames each buffer the reader yields as one chunk, deferring a
//! chunk's trailing CRLF into the next frame header, and emits the
//! terminating zero-size chunk when the reader is exhausted.  The
//! asynchronous copy loop around it only moves bytes: every byte it
//! writes is dictated here, so the encoding itself is verified against
//! [`spec_chunked`], the mathematical form of the framing.

use vstd::prelude::*;

verus! {

/// The byte encoding a single hexadecimal digit, lowercase.
pub open spec fn spec_hex_digit(d: nat) -> u8 {
    if d < 10 {
        (48 + d) as u8
    } else {
        (87 + d) as u8
    }
}

/// The shortest lowercase hexadecimal rendering of `n`.
pub open spec fn spec_hex(n: nat) -> Seq<u8>
    decreases n,
{
    if n < 16 {
        seq![spec_hex_digit(n)]
    } else {
        spec_hex(n / 16).push(spec_hex_digit(n % 16))
    }
}

/// A carriage return followed by a line feed.
pub open spec fn spec_crlf() -> Seq<u8> {
    seq![13u8, 10u8]
}

/// The frame header emitted before one chunk: the previous chunk's
/// trailing CRLF (absent for the very first bytes written), then, for
/// data, the hexadecimal size line, or, at end of stream, the final
/// zero-size line, closed at once when no trailer will follow.
pub open spec fn spec_chunk_header(chunk_size: nat, first: bool, no_trailer: bool) -> Seq<u8> {
    let lead = if first {
        Seq::<u8>::empty()
    } else {
        spec_crlf()
    };
    if chunk_size == 0 {
        lead + seq![48u8] + spec_crlf() + if no_trailer {
            spec_crlf()
        } else {
            Seq::<u8>::empty()
        }
    } else {
        lead + spec_hex(chunk_size) + spec_crlf()
    }
}

/// One complete data chunk: size line, data, closing CRLF.
pub open spec fn spec_chunk_of(data: Seq<u8>) -> Seq<u8> {
    spec_hex(data.len()) + spec_crlf() + data + spec_crlf()
}

/// All data chunks, in order.
pub open spec fn spec_chunks_body(bufs: Seq<Seq<u8>>) -> Seq<u8>
    decreases bufs.len(),
{
    if bufs.len() == 0 {
        Seq::empty()
    } else {
        spec_chunk_of(bufs.first()) + spec_chunks_body(bufs.drop_first())
    }
}

/// The terminating zero-size chunk, closed at once when no trailer
/// section will follow.
pub open spec fn spec_terminator(no_trailer: bool) -> Seq<u8> {
    seq![48u8] + spec_crlf() + if no_trailer {
        spec_crlf()
    } else {
        Seq::<u8>::empty()
    }
}

/// The chunked transfer encoding of a stream read as `bufs`.
pub open spec fn spec_chunked(bufs: Seq<Seq<u8>>, no_trailer: bool) -> Seq<u8> {
    spec_chunks_body(bufs) + spec_terminator(no_trailer)
}

/// The views of a sequence of byte buffers.
pub open spec fn buf_views(s: Seq<Vec<u8>>) -> Seq<Seq<u8>> {
    s.map_values(|v: Vec<u8>| v@)
}

/// Splitting the data chunks at any point splits their encoding.
pub proof fn lemma_body_split(bufs: Seq<Seq<u8>>, i: int)
    requires
        0 <= i <= bufs.len(),
    ensures
        spec_chunks_body(bufs) == spec_chunks_body(bufs.take(i)) + spec_chunks_body(bufs.skip(i)),
    decreases i,
{
    if i == 0 {
        assert(bufs.take(0) =~= Seq::<Seq<u8>>::empty());
        assert(bufs.skip(0) =~= bufs);
        assert(spec_chunks_body(bufs) =~= spec_chunks_body(bufs.take(0)) + spec_chunks_body(bufs));
    } else {
        lemma_body_split(bufs.drop_first(), i - 1);
        assert(bufs.take(i).drop_first() =~= bufs.drop_first().take(i - 1));
        assert(bufs.take(i).first() == bufs.first());
        assert(bufs.skip(i) =~= bufs.drop_first().skip(i - 1));
        assert(spec_chunks_body(bufs) =~= spec_chunks_body(bufs.take(i)) + spec_chunks_body(
            bufs.skip(i),
        ));
    }
}

/// Mathematical model of [`ChunkedEncodeTransferInternal`].
pub ghost struct ChunkedEncoderModel {
    pub yield_size: usize,
    pub no_trailer: bool,
    pub this_chunk_size: usize,
    pub left_chunk_size: usize,
    pub static_header: Seq<u8>,
    pub static_offset: usize,
    pub total_write: u64,
    pub read_finished: bool,
    pub active: bool,
}

/// The chunked-encoding state machine.
///
/// One cycle per chunk: `begin_chunk` with the size of the buffer the
/// reader yielded (zero at end of stream) computes the frame header;
/// `note_header_write` records header bytes accepted by the writer;
/// `note_data_write` records chunk data accepted; `end_chunk` closes the
/// cycle once the chunk's data is fully written.
pub struct ChunkedEncodeTransferInternal {
    yield_size: usize,
    no_trailer: bool,
    this_chunk_size: usize,
    left_chunk_size: usize,
    static_header: Vec<u8>,
    static_offset: usize,
    total_write: u64,
    read_finished: bool,
    active: bool,
}

impl View for ChunkedEncodeTransferInternal {
    type V = ChunkedEncoderModel;

    closed spec fn view(&self) -> ChunkedEncoderModel {
        ChunkedEncoderModel {
            yield_size: self.yield_size,
            no_trailer: self.no_trailer,
            this_chunk_size: self.this_chunk_size,
            left_chunk_size: self.left_chunk_size,
            static_header: self.static_header@,
            static_offset: self.static_offset,
            total_write: self.total_write,
            read_finished: self.read_finished,
            active: self.active,
        }
    }
}

/// Append the shortest lowercase hexadecimal rendering of `n`.
fn push_hex(out: &mut Vec<u8>, n: usize)
    ensures
        final(out)@ == old(out)@ + spec_hex(n as nat),
    decreases n,
{
    if n >= 16 {
        push_hex(out, n / 16);
    }
    let d: usize = n % 16;
    let b: u8 = if d < 10 {
        48 + (d as u8)
    } else {
        87 + (d as u8)
    };
    out.push(b);
    proof {
        if n < 16 {
            assert(final(out)@ =~= old(out)@ + spec_hex(n as nat));
        } else {
            assert(final(out)@ =~= old(out)@ + spec_hex(n as nat));
        }
    }
}

impl ChunkedEncodeTransferInternal {
    pub fn new(yield_size: usize, no_trailer: bool) -> (r: Self)
        ensures
            r@ == (ChunkedEncoderModel {
                yield_size,
                no_trailer,
                this_chunk_size: 0,
                left_chunk_size: 0,
                static_header: Seq::<u8>::empty(),
                static_offset: 0,
                total_write: 0,
                read_finished: false,
                active: false,
            }),
    {
        let r = ChunkedEncodeTransferInternal {
            yield_size,
            no_trailer,
            this_chunk_size: 0,
            left_chunk_size: 0,
            static_header: Vec::with_capacity(16),
            static_offset: 0,
            total_write: 0,
            read_finished: false,
            active: false,
        };
        proof {
            assert(r@.static_header =~= Seq::<u8>::empty());
        }
        r
    }

    /// Start framing the next chunk from a buffer of `chunk_size` bytes
    /// just yielded by the reader; zero means the stream is exhausted
    /// and this frame is the terminator.
    pub fn begin_chunk(&mut self, chunk_size: usize)
        requires
            old(self)@.this_chunk_size == 0,
            !old(self)@.read_finished,
        ensures
            final(self)@ == (ChunkedEncoderModel {
                static_header: spec_chunk_header(
                    chunk_size as nat,
                    old(self)@.total_write == 0,
                    old(self)@.no_trailer,
                ),
                static_offset: 0,
                this_chunk_size: chunk_size,
                left_chunk_size: chunk_size,
                read_finished: chunk_size == 0,
                active: true,
                ..old(self)@
            }),
    {
        self.active = true;
        self.static_header.clear();
        let first = self.total_write == 0;
        if chunk_size == 0 {
            self.read_finished = true;
            if !first {
                self.static_header.push(13);
                self.static_header.push(10);
            }
            self.static_header.push(48);
            self.static_header.push(13);
            self.static_header.push(10);
            if self.no_trailer {
                self.static_header.push(13);
                self.static_header.push(10);
            }
        } else {
            if !first {
                self.static_header.push(13);
                self.static_header.push(10);
            }
            push_hex(&mut self.static_header, chunk_size);
            self.static_header.push(13);
            self.static_header.push(10);
        }
        self.static_offset = 0;
        self.this_chunk_size = chunk_size;
        self.left_chunk_size = chunk_size;
        proof {
            assert(self@.static_header =~= spec_chunk_header(
                chunk_size as nat,
                old(self)@.total_write == 0,
                old(self)@.no_trailer,
            ));
        }
    }

    /// The writer accepted `nw` bytes of the frame header.
    pub fn note_header_write(&mut self, nw: usize)
        requires
            old(self)@.static_offset + nw <= old(self)@.static_header.len(),
            old(self)@.total_write + nw <= u64::MAX,
        ensures
            final(self)@ == (ChunkedEncoderModel {
                static_offset: (old(self)@.static_offset + nw) as usize,
                total_write: (old(self)@.total_write + nw) as u64,
                active: true,
                ..old(self)@
            }),
    {
        self.active = true;
        let header_len = self.static_header.len();
        proof {
            assert(self.static_offset + nw <= header_len);
        }
        self.static_offset = self.static_offset + nw;
        self.total_write = self.total_write + (nw as u64);
    }

    /// The writer accepted `nw` bytes of the current chunk's data.
    pub fn note_data_write(&mut self, nw: usize)
        requires
            nw <= old(self)@.left_chunk_size,
            old(self)@.total_write + nw <= u64::MAX,
        ensures
            final(self)@ == (ChunkedEncoderModel {
                left_chunk_size: (old(self)@.left_chunk_size - nw) as usize,
                total_write: (old(self)@.total_write + nw) as u64,
                active: true,
                ..old(self)@
            }),
    {
        self.active = true;
        self.left_chunk_size = self.left_chunk_size - nw;
        self.total_write = self.total_write + (nw as u64);
    }

    /// Close the cycle for a chunk whose data is fully written.
    pub fn end_chunk(&mut self)
        requires
            old(self)@.left_chunk_size == 0,
        ensures
            final(self)@ == (ChunkedEncoderModel { this_chunk_size: 0, ..old(self)@ }),
    {
        self.this_chunk_size = 0;
    }

    /// The terminator frame has been read and fully written out.
    pub fn finished(&self) -> (r: bool)
        ensures
            r == (self@.read_finished && self@.static_offset >= self@.static_header.len()),
    {
        self.read_finished && self.static_offset >= self.static_header.len()
    }

    /// No read or write has been recorded since the last reset.
    pub fn is_idle(&self) -> (r: bool)
        ensures
            r == !self@.active,
    {
        !self.active
    }

    /// Some read or write has been recorded since the last reset.
    pub fn is_active(&self) -> (r: bool)
        ensures
            r == self@.active,
    {
        self.active
    }

    /// Begin a new activity-observation window.
    pub fn reset_active(&mut self)
        ensures
            final(self)@ == (ChunkedEncoderModel { active: false, ..old(self)@ }),
    {
        self.active = false;
    }

    /// Nothing framed is waiting to be written: the header is out and
    /// the current chunk's data is fully copied.
    pub fn no_cached_data(&self) -> (r: bool)
        ensures
            r == (self@.static_offset >= self@.static_header.len() && self@.left_chunk_size == 0),
    {
        self.static_offset >= self.static_header.len() && self.left_chunk_size == 0
    }

    /// The copy loop's cooperative-yield threshold.
    pub fn yield_size(&self) -> (r: usize)
        ensures
            r == self@.yield_size,
    {
        self.yield_size
    }

    /// The current frame header.
    pub fn header_bytes(&self) -> (r: &Vec<u8>)
        ensures
            r@ == self@.static_header,
    {
        &self.static_header
    }

    /// How much of the current frame header is already written.
    pub fn header_offset(&self) -> (r: usize)
        ensures
            r == self@.static_offset,
    {
        self.static_offset
    }

    /// The size of the chunk currently being framed.
    pub fn this_chunk_size(&self) -> (r: usize)
        ensures
            r == self@.this_chunk_size,
    {
        self.this_chunk_size
    }

    /// How much of the current chunk's data is still to be written.
    pub fn left_chunk_size(&self) -> (r: usize)
        ensures
            r == self@.left_chunk_size,
    {
        self.left_chunk_size
    }

    /// The reader has reported end of stream.
    pub fn read_finished(&self) -> (r: bool)
        ensures
            r == self@.read_finished,
    {
        self.read_finished
    }

    /// The number of encoded bytes written so far.
    pub fn total_write(&self) -> (r: u64)
        ensures
            r == self@.total_write,
    {
        self.total_write
    }

    /// Encode a whole stream in one call, the writer accepting every
    /// byte at once: drives the same per-chunk cycle the asynchronous
    /// copy loop performs and returns all bytes written.  `reads` holds
    /// the successive non-empty buffers the reader yields before end of
    /// stream.
    #[verifier::rlimit(60)]
    pub fn encode_all(&mut self, reads: &Vec<Vec<u8>>) -> (out: Vec<u8>)
        requires
            old(self)@.this_chunk_size == 0,
            old(self)@.total_write == 0,
            !old(self)@.read_finished,
            forall|i: int| 0 <= i < reads@.len() ==> (#[trigger] reads@[i])@.len() > 0,
            spec_chunked(buf_views(reads@), old(self)@.no_trailer).len() <= u64::MAX,
        ensures
            out@ == spec_chunked(buf_views(reads@), old(self)@.no_trailer),
            final(self)@.total_write == out@.len(),
            final(self)@.read_finished,
            final(self)@.static_offset >= final(self)@.static_header.len(),
            final(self)@.left_chunk_size == 0,
            final(self)@.this_chunk_size == 0,
    {
        let ghost bufs = buf_views(reads@);
        let ghost no_trailer = self@.no_trailer;
        let mut out: Vec<u8> = Vec::new();
        let n = reads.len();
        let mut i: usize = 0;
        proof {
            assert(out@ =~= Seq::<u8>::empty());
            assert(spec_chunks_body(bufs.take(0)) =~= Seq::<u8>::empty());
        }
        while i < n
            invariant
                n == reads@.len(),
                bufs == buf_views(reads@),
                i <= n,
                forall|j: int| 0 <= j < n ==> (#[trigger] reads@[j])@.len() > 0,
                spec_chunked(bufs, no_trailer).len() <= u64::MAX,
                self@.no_trailer == no_trailer,
                self@.this_chunk_size == 0,
                !self@.read_finished,
                self@.total_write == out@.len(),
                i == 0 ==> out@ == Seq::<u8>::empty(),
                i > 0 ==> out@ + spec_crlf() == spec_chunks_body(bufs.take(i as int)),
            decreases n - i,
        {
            let data = &reads[i];
            let chunk_size = data.len();
            proof {
                assert(bufs.len() == reads@.len());
                assert(bufs[i as int] == reads@[i as int]@);
                lemma_body_split(bufs, i as int);
                lemma_body_split(bufs, i + 1 as int);
                assert(bufs.skip(i as int).first() == bufs[i as int]);
                assert(bufs.skip(i as int).drop_first() =~= bufs.skip(i + 1 as int));
                assert(spec_chunks_body(bufs.skip(i as int)) == spec_chunk_of(bufs[i as int])
                    + spec_chunks_body(bufs.skip(i + 1 as int)));
                lemma_body_split(bufs.take(i + 1 as int), i as int);
                assert(bufs.take(i + 1 as int).take(i as int) =~= bufs.take(i as int));
                let single = bufs.take(i + 1 as int).skip(i as int);
                assert(single =~= seq![bufs[i as int]]);
                assert(single.drop_first() =~= Seq::<Seq<u8>>::empty());
                assert(spec_chunks_body(single) =~= spec_chunk_of(bufs[i as int]));
                assert(spec_chunks_body(bufs.take(i + 1 as int)) == spec_chunks_body(
                    bufs.take(i as int),
                ) + spec_chunk_of(bufs[i as int]));
            }
            self.begin_chunk(chunk_size);
            let header_len = self.static_header.len();
            out.extend_from_slice(self.static_header.as_slice());
            proof {
                assert(spec_chunks_body(bufs.take(i + 1 as int)).len() <= spec_chunks_body(
                    bufs,
                ).len()) by {
                    lemma_body_split(bufs, i + 1 as int);
                }
            }
            self.note_header_write(header_len);
            out.extend_from_slice(data.as_slice());
            self.note_data_write(chunk_size);
            self.end_chunk();
            i += 1;
            proof {
                assert(out@ + spec_crlf() =~= spec_chunks_body(bufs.take(i as int)));
            }
        }
        proof {
            assert(bufs.take(n as int) =~= bufs);
        }
        self.begin_chunk(0);
        let header_len = self.static_header.len();
        out.extend_from_slice(self.static_header.as_slice());
        self.note_header_write(header_len);
        proof {
            assert(out@ =~= spec_chunked(bufs, no_trailer));
        }
        out
    }
}

/// Chunked-encode everything a buffered reader yields into a writer,
/// driven to completion by an asynchronous copy loop around it.
pub struct StreamToChunkedTransfer<R, W> {
    pub reader: R,
    pub writer: W,
    pub internal: ChunkedEncodeTransferInternal,
}

impl<R, W> StreamToChunkedTransfer<R, W> {
    fn new(reader: R, writer: W, yield_size: usize, no_trailer: bool) -> (r: Self)
        ensures
            r.internal@ == ChunkedEncodeTransferInternal::new_model(yield_size, no_trailer),
    {
        StreamToChunkedTransfer {
            reader,
            writer,
            internal: ChunkedEncodeTransferInternal::new(yield_size, no_trailer),
        }
    }

    /// An encoder whose terminating zero-size chunk closes the body,
    /// no trailer section following.
    pub fn new_with_no_trailer(reader: R, writer: W, yield_size: usize) -> (r: Self)
        ensures
            r.internal@ == ChunkedEncodeTransferInternal::new_model(yield_size, true),
    {
        Self::new(reader, writer, yield_size, true)
    }

    /// An encoder that leaves the body open after the zero-size chunk
    /// for a trailer section still to be written.
    pub fn new_with_pending_trailer(reader: R, writer: W, yield_size: usize) -> (r: Self)
        ensures
            r.internal@ == ChunkedEncodeTransferInternal::new_model(yield_size, false),
    {
        Self::new(reader, writer, yield_size, false)
    }

    /// The terminator frame has been read and fully written out.
    pub fn finished(&self) -> (r: bool)
        ensures
            r == (self.internal@.read_finished && self.internal@.static_offset
                >= self.internal@.static_header.len()),
    {
        self.internal.finished()
    }

    /// No read or write has been recorded since the last reset.
    pub fn is_idle(&self) -> (r: bool)
        ensures
            r == !self.internal@.active,
    {
        self.internal.is_idle()
    }

    /// Some read or write has been recorded since the last reset.
    pub fn is_active(&self) -> (r: bool)
        ensures
            r == self.internal@.active,
    {
        self.internal.is_active()
    }

    /// Begin a new activity-observation window.
    pub fn reset_active(&mut self)
        ensures
            final(self).internal@ == (ChunkedEncoderModel { active: false, ..old(self).internal@ }),
            final(self).reader == old(self).reader,
            final(self).writer == old(self).writer,
    {
        self.internal.reset_active()
    }

    /// Nothing framed is waiting to be written.
    pub fn no_cached_data(&self) -> (r: bool)
        ensures
            r == (self.internal@.static_offset >= self.internal@.static_header.len()
                && self.internal@.left_chunk_size == 0),
    {
        self.internal.no_cached_data()
    }
}

impl ChunkedEncodeTransferInternal {
    /// The model of a freshly constructed encoder.
    pub open spec fn new_model(yield_size: usize, no_trailer: bool) -> ChunkedEncoderModel {
        ChunkedEncoderModel {
            yield_size,
            no_trailer,
            this_chunk_size: 0,
            left_chunk_size: 0,
            static_header: Seq::<u8>::empty(),
            static_offset: 0,
            total_write: 0,
            read_finished: false,
            active: false,
        }
    }
}

} // verus!
