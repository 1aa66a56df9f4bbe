//! Byte chunking between a blocking codec and an asynchronous transport.
//!
//! On the broadcaster, a [`ChunkBuffer`] collects what the encoder writes and
//! hands out chunks of at least [`FLUSH_THRESHOLD`] bytes for the network
//! queue. On the listener, a [`ChunkReader`] serves the decoder's reads out of
//! the chunks that arrive from the network.
use vstd::prelude::*;

verus! {

/// Size at which the encoder's output is handed to the network queue.
pub const FLUSH_THRESHOLD: usize = 8192;

/// Size of the reads from the listener's receive stream.
pub const READ_CHUNK: usize = 8192;

/// Chunk that a write of `bytes` hands out, if the pending bytes reach the threshold.
pub open spec fn chunk_after_write(pending: Seq<u8>, bytes: Seq<u8>) -> Option<Seq<u8>> {
    if pending.len() + bytes.len() >= FLUSH_THRESHOLD {
        Some(pending + bytes)
    } else {
        None
    }
}

/// Bytes still held after a write of `bytes`.
pub open spec fn pending_after_write(pending: Seq<u8>, bytes: Seq<u8>) -> Seq<u8> {
    if pending.len() + bytes.len() >= FLUSH_THRESHOLD {
        Seq::empty()
    } else {
        pending + bytes
    }
}

/// Chunks handed out by a run of writes, in order, from `pending` held bytes.
pub open spec fn chunks_of_writes(pending: Seq<u8>, writes: Seq<Seq<u8>>) -> Seq<Seq<u8>>
    decreases writes.len(),
{
    if writes.len() == 0 {
        Seq::empty()
    } else {
        let rest = chunks_of_writes(pending_after_write(pending, writes[0]), writes.drop_first());
        match chunk_after_write(pending, writes[0]) {
            Some(c) => seq![c] + rest,
            None => rest,
        }
    }
}

/// Bytes held after a run of writes from `pending` held bytes.
pub open spec fn held_after_writes(pending: Seq<u8>, writes: Seq<Seq<u8>>) -> Seq<u8>
    decreases writes.len(),
{
    if writes.len() == 0 {
        pending
    } else {
        held_after_writes(pending_after_write(pending, writes[0]), writes.drop_first())
    }
}

/// Chunking keeps every byte and its order: the chunks handed out by a run of
/// writes, followed by what is still held, are exactly the bytes held before
/// followed by the bytes written; and every chunk handed out during the run
/// holds at least the threshold.
pub proof fn lemma_chunking_keeps_byte_order(pending: Seq<u8>, writes: Seq<Seq<u8>>)
    ensures
        chunks_of_writes(pending, writes).flatten() + held_after_writes(pending, writes) == pending
            + writes.flatten(),
        forall|i: int|
            0 <= i < chunks_of_writes(pending, writes).len() ==> #[trigger] chunks_of_writes(
                pending,
                writes,
            )[i].len() >= FLUSH_THRESHOLD,
    decreases writes.len(),
{
    if writes.len() == 0 {
        assert(pending + Seq::<u8>::empty() =~= pending);
        assert(Seq::<u8>::empty() + pending =~= pending);
    } else {
        let w = writes[0];
        let next = pending_after_write(pending, w);
        let tail = writes.drop_first();
        lemma_chunking_keeps_byte_order(next, tail);
        let rest = chunks_of_writes(next, tail);
        assert(writes.flatten() == w + tail.flatten());
        match chunk_after_write(pending, w) {
            Some(c) => {
                assert(c == pending + w);
                let all = seq![c] + rest;
                assert(all.drop_first() =~= rest);
                assert(all.first() == c);
                assert(all.flatten() == c + rest.flatten());
                assert(next + tail.flatten() =~= tail.flatten());
                assert(all.flatten() + held_after_writes(pending, writes) =~= pending + writes.flatten());
                assert forall|i: int| 0 <= i < all.len() implies #[trigger] all[i].len()
                    >= FLUSH_THRESHOLD by {
                    if i > 0 {
                        assert(all[i] == rest[i - 1]);
                    }
                }
            },
            None => {
                assert(next == pending + w);
                assert(rest.flatten() + held_after_writes(pending, writes) =~= pending
                    + writes.flatten());
            },
        }
    }
}

/// Output of an encoder, held until it is worth a send.
pub struct ChunkBuffer {
    pending: Vec<u8>,
}

impl View for ChunkBuffer {
    type V = Seq<u8>;

    /// Bytes written and not yet handed out.
    closed spec fn view(&self) -> Seq<u8> {
        self.pending@
    }
}

impl ChunkBuffer {
    pub fn new() -> (r: Self)
        ensures
            r@ == Seq::<u8>::empty(),
    {
        ChunkBuffer { pending: Vec::new() }
    }

    /// Number of bytes held.
    pub fn pending_len(&self) -> (r: usize)
        ensures
            r == self@.len(),
    {
        self.pending.len()
    }

    /// Takes `bytes` in. Once the bytes held reach [`FLUSH_THRESHOLD`] they are
    /// all handed out as one chunk, and none is held any more.
    pub fn write(&mut self, bytes: &[u8]) -> (r: Option<Vec<u8>>)
        requires
            old(self)@.len() + bytes@.len() <= usize::MAX,
        ensures
            r matches Some(c) ==> chunk_after_write(old(self)@, bytes@) == Some(c@),
            r is None ==> chunk_after_write(old(self)@, bytes@) is None,
            final(self)@ == pending_after_write(old(self)@, bytes@),
    {
        let ghost start = self.pending@;
        let mut k: usize = 0;
        while k < bytes.len()
            invariant
                k <= bytes@.len(),
                self.pending@ == start + bytes@.subrange(0, k as int),
            decreases bytes@.len() - k,
        {
            self.pending.push(bytes[k]);
            k = k + 1;
            assert(self.pending@ =~= start + bytes@.subrange(0, k as int));
        }
        assert(bytes@.subrange(0, bytes@.len() as int) =~= bytes@);
        if self.pending.len() >= FLUSH_THRESHOLD {
            let mut chunk: Vec<u8> = Vec::new();
            std::mem::swap(&mut self.pending, &mut chunk);
            Some(chunk)
        } else {
            None
        }
    }

    /// Hands out every byte held, if there is any.
    pub fn flush(&mut self) -> (r: Option<Vec<u8>>)
        ensures
            old(self)@.len() == 0 ==> r is None,
            old(self)@.len() > 0 ==> (r matches Some(c) && c@ == old(self)@),
            final(self)@ == Seq::<u8>::empty(),
    {
        if self.pending.len() == 0 {
            None
        } else {
            let mut chunk: Vec<u8> = Vec::new();
            std::mem::swap(&mut self.pending, &mut chunk);
            Some(chunk)
        }
    }
}

/// Bytes received from the network and not yet read by the decoder.
pub struct ChunkReader {
    buffer: Vec<u8>,
    position: usize,
}

impl View for ChunkReader {
    type V = Seq<u8>;

    /// Bytes received and not yet read.
    closed spec fn view(&self) -> Seq<u8> {
        self.buffer@.subrange(self.position as int, self.buffer@.len() as int)
    }
}

impl ChunkReader {
    pub closed spec fn wf(&self) -> bool {
        self.position <= self.buffer@.len()
    }

    pub fn new() -> (r: Self)
        ensures
            r.wf(),
            r@ == Seq::<u8>::empty(),
    {
        ChunkReader { buffer: Vec::new(), position: 0 }
    }

    /// Whether every byte received has been read.
    pub fn is_drained(&self) -> (r: bool)
        requires
            self.wf(),
        ensures
            r == (self@.len() == 0),
    {
        self.position == self.buffer.len()
    }

    /// Appends a chunk received from the network.
    pub fn refill(&mut self, chunk: Vec<u8>)
        requires
            old(self).wf(),
            old(self)@.len() + chunk@.len() <= usize::MAX,
        ensures
            final(self).wf(),
            final(self)@ == old(self)@ + chunk@,
    {
        if self.position == self.buffer.len() {
            self.buffer = chunk;
            self.position = 0;
            assert(self.buffer@.subrange(0, self.buffer@.len() as int) =~= chunk@);
            assert(old(self)@ =~= Seq::<u8>::empty());
            assert(old(self)@ + chunk@ =~= chunk@);
        } else {
            let mut rest: Vec<u8> = Vec::with_capacity(self.buffer.len() - self.position + chunk.len());
            let mut k: usize = self.position;
            while k < self.buffer.len()
                invariant
                    self == old(self),
                    self.wf(),
                    self.position <= k <= self.buffer@.len(),
                    rest@ == self.buffer@.subrange(self.position as int, k as int),
                decreases self.buffer@.len() - k,
            {
                rest.push(self.buffer[k]);
                k = k + 1;
                assert(rest@ =~= self.buffer@.subrange(self.position as int, k as int));
            }
            let ghost kept = rest@;
            let mut j: usize = 0;
            while j < chunk.len()
                invariant
                    j <= chunk@.len(),
                    rest@ == kept + chunk@.subrange(0, j as int),
                decreases chunk@.len() - j,
            {
                rest.push(chunk[j]);
                j = j + 1;
                assert(rest@ =~= kept + chunk@.subrange(0, j as int));
            }
            assert(chunk@.subrange(0, chunk@.len() as int) =~= chunk@);
            self.buffer = rest;
            self.position = 0;
            assert(self.buffer@.subrange(0, self.buffer@.len() as int) =~= self.buffer@);
        }
    }

    /// Reads up to `max` bytes, oldest first.
    pub fn take(&mut self, max: usize) -> (r: Vec<u8>)
        requires
            old(self).wf(),
        ensures
            final(self).wf(),
            r@.len() == if max <= old(self)@.len() {
                max as nat
            } else {
                old(self)@.len()
            },
            r@ == old(self)@.take(r@.len() as int),
            final(self)@ == old(self)@.skip(r@.len() as int),
    {
        let len = self.buffer.len();
        let available = len - self.position;
        let n: usize = if max <= available {
            max
        } else {
            available
        };
        let mut out: Vec<u8> = Vec::with_capacity(n);
        let mut k: usize = 0;
        while k < n
            invariant
                self == old(self),
                self.wf(),
                len == self.buffer@.len(),
                n <= self.buffer@.len() - self.position,
                k <= n,
                out@ == self@.take(k as int),
            decreases n - k,
        {
            out.push(self.buffer[self.position + k]);
            k = k + 1;
            assert(out@ =~= self@.take(k as int));
        }
        self.position = self.position + n;
        assert(self@ =~= old(self)@.skip(n as int));
        out
    }
}

} // verus!
