//! The chunked STREAM construction.
//!
//! Plaintext is cut into `CHUNK_SIZE` pieces; piece `i` is sealed with the
//! nonce `prefix || be32(i) || last`, where `last` is 1 only on the final
//! piece, which is shorter than `CHUNK_SIZE` (possibly empty). The whole
//! serialized header is the associated data of every chunk.

use vstd::prelude::*;

use crate::aead::{
    decrypt, encrypt, sealable_len, seal_round_trips, xchacha20poly1305_open, xchacha20poly1305_seal,
    NONCE_LEN, TAG_LEN,
};
use crate::error::{Error, Result};
use crate::header::{be32, lemma_be32_round_trip, CHUNK_SIZE, HEADER_LEN, NONCE_PREFIX_LEN};
use crate::key::Key;

verus! {

pub const COUNTER_LEN: usize = 4;

pub const LAST_FLAG_OFFSET: usize = 23;

/// The nonce of the chunk at position `counter`; `last` marks the final one.
pub open spec fn nonce_for(prefix: Seq<u8>, counter: u32, last: bool) -> Seq<u8> {
    prefix + be32(counter) + seq![if last { 1u8 } else { 0u8 }]
}

fn stream_nonce(prefix: &[u8; NONCE_PREFIX_LEN], counter: u32, last: bool) -> (nonce: [u8; NONCE_LEN])
    ensures
        nonce@ == nonce_for(prefix@, counter, last),
{
    let mut nonce = [0u8; NONCE_LEN];
    let mut i: usize = 0;
    while i < NONCE_PREFIX_LEN
        invariant
            i <= NONCE_PREFIX_LEN,
            forall|k: int| 0 <= k < i ==> nonce@[k] == prefix@[k],
            forall|k: int| i <= k < NONCE_LEN ==> nonce@[k] == 0,
        decreases NONCE_PREFIX_LEN - i,
    {
        nonce[i] = prefix[i];
        i = i + 1;
    }
    nonce[NONCE_PREFIX_LEN] = (counter / 0x100_0000) as u8;
    nonce[NONCE_PREFIX_LEN + 1] = ((counter / 0x1_0000) % 0x100) as u8;
    nonce[NONCE_PREFIX_LEN + 2] = ((counter / 0x100) % 0x100) as u8;
    nonce[NONCE_PREFIX_LEN + 3] = (counter % 0x100) as u8;
    nonce[LAST_FLAG_OFFSET] = if last { 1 } else { 0 };
    assert(nonce@ =~= nonce_for(prefix@, counter, last));
    nonce
}

/// The `CHUNK_SIZE` pieces at the front of `data` (a shorter tail is left out).
pub open spec fn full_pieces(data: Seq<u8>) -> Seq<Seq<u8>> {
    Seq::new(
        data.len() / (CHUNK_SIZE as nat),
        |i: int| data.subrange(i * CHUNK_SIZE, (i + 1) * CHUNK_SIZE),
    )
}

/// The non-final chunks that seal `pieces` at positions `start`, `start + 1`, ...
pub open spec fn seal_pieces(key: Seq<u8>, prefix: Seq<u8>, aad: Seq<u8>, start: nat, pieces: Seq<Seq<u8>>) -> Seq<Seq<u8>> {
    Seq::new(
        pieces.len(),
        |i: int| xchacha20poly1305_seal(key, nonce_for(prefix, (start + i) as u32, false), aad, pieces[i]),
    )
}

/// Each of those seals opens back to its piece.
pub open spec fn pieces_round_trip(key: Seq<u8>, prefix: Seq<u8>, aad: Seq<u8>, start: nat, pieces: Seq<Seq<u8>>) -> bool {
    forall|i: int| 0 <= i < pieces.len() ==> seal_round_trips(key, nonce_for(prefix, (start + i) as u32, false), aad, #[trigger] pieces[i])
}

/// What an encoder holds: its key, nonce prefix and associated data, the
/// position of the next chunk, and the plaintext not yet sealed.
pub struct EncoderView {
    pub key: Seq<u8>,
    pub nonce_prefix: Seq<u8>,
    pub header_aad: Seq<u8>,
    pub counter: nat,
    pub pending: Seq<u8>,
}

/// How many chunks absorbing `data` completes.
pub open spec fn absorb_count(s: EncoderView, data: Seq<u8>) -> nat {
    (s.pending + data).len() / (CHUNK_SIZE as nat)
}

/// The chunks that absorbing `data` emits.
pub open spec fn absorb_chunks(s: EncoderView, data: Seq<u8>) -> Seq<Seq<u8>> {
    seal_pieces(s.key, s.nonce_prefix, s.header_aad, s.counter, full_pieces(s.pending + data))
}

/// Those chunks open back to their pieces.
pub open spec fn absorb_round_trips(s: EncoderView, data: Seq<u8>) -> bool {
    pieces_round_trip(s.key, s.nonce_prefix, s.header_aad, s.counter, full_pieces(s.pending + data))
}

/// The encoder after absorbing `data`.
pub open spec fn absorb_state(s: EncoderView, data: Seq<u8>) -> EncoderView {
    let total = s.pending + data;
    let n = absorb_count(s, data);
    EncoderView {
        counter: s.counter + n,
        pending: total.subrange(n * CHUNK_SIZE, total.len() as int),
        ..s
    }
}

/// The last-flagged chunk that `finish` emits.
pub open spec fn final_chunk(s: EncoderView) -> Seq<u8> {
    xchacha20poly1305_seal(s.key, nonce_for(s.nonce_prefix, s.counter as u32, true), s.header_aad, s.pending)
}

proof fn lemma_div_chunk(k: int, r: int, len: int)
    requires
        0 <= k,
        0 <= r < CHUNK_SIZE,
        k * CHUNK_SIZE + r == len,
    ensures
        len / (CHUNK_SIZE as int) == k,
{
    assert(len / 65536 == k) by (nonlinear_arith)
        requires
            0 <= k,
            0 <= r < 65536,
            k * 65536 + r == len,
    ;
}

/// Push-style encryptor. Buffers up to `CHUNK_SIZE` bytes of plaintext,
/// emits a non-last chunk on every full buffer, and the final last-flagged
/// chunk only on `finish`.
pub struct StreamEncoder {
    key: Key,
    nonce_prefix: [u8; NONCE_PREFIX_LEN],
    header_aad: [u8; HEADER_LEN],
    counter: u32,
    buf: Vec<u8>,
}

impl View for StreamEncoder {
    type V = EncoderView;

    closed spec fn view(&self) -> EncoderView {
        EncoderView {
            key: self.key@,
            nonce_prefix: self.nonce_prefix@,
            header_aad: self.header_aad@,
            counter: self.counter as nat,
            pending: self.buf@,
        }
    }
}

impl StreamEncoder {
    /// The pending plaintext never fills a whole chunk and the position fits
    /// the 32-bit counter.
    pub open spec fn wf(&self) -> bool {
        &&& self@.pending.len() < CHUNK_SIZE
        &&& self@.counter <= u32::MAX
        &&& self@.nonce_prefix.len() == NONCE_PREFIX_LEN
        &&& self@.header_aad.len() == HEADER_LEN
    }

    pub fn new(key: Key, nonce_prefix: [u8; NONCE_PREFIX_LEN], header_aad: [u8; HEADER_LEN]) -> (e: Self)
        ensures
            e.wf(),
            e@.key == key@,
            e@.nonce_prefix == nonce_prefix@,
            e@.header_aad == header_aad@,
            e@.counter == 0,
            e@.pending == Seq::<u8>::empty(),
    {
        Self { key, nonce_prefix, header_aad, counter: 0, buf: Vec::with_capacity(CHUNK_SIZE) }
    }

    /// Absorb `data`, returning the chunks completed on the way, in order.
    /// Fails, leaving the encoder as it was, when a chunk position would
    /// pass the 32-bit counter.
    pub fn write(&mut self, data: &[u8]) -> (r: Result<Vec<Vec<u8>>>)
        requires
            old(self).wf(),
        ensures
            final(self).wf(),
            match r {
                Ok(out) => {
                    &&& old(self)@.counter + absorb_count(old(self)@, data@) <= u32::MAX
                    &&& out@.map_values(|c: Vec<u8>| c@) == absorb_chunks(old(self)@, data@)
                    &&& absorb_round_trips(old(self)@, data@)
                    &&& final(self)@ == absorb_state(old(self)@, data@)
                },
                Err(e) => {
                    &&& e is ChunkCounterOverflow
                    &&& old(self)@.counter + absorb_count(old(self)@, data@) > u32::MAX
                    &&& final(self)@ == old(self)@
                },
            },
    {
        let ghost s0 = self@;
        let ghost total = s0.pending + data@;
        let ghost n = absorb_count(s0, data@);
        let data_len = data.len();
        let buf_len = self.buf.len();
        let full = data_len / CHUNK_SIZE + if data_len % CHUNK_SIZE + buf_len >= CHUNK_SIZE { 1 } else { 0 };
        proof {
            let q = data_len / CHUNK_SIZE;
            let r = data_len % CHUNK_SIZE;
            assert(data_len == q * CHUNK_SIZE + r) by (nonlinear_arith)
                requires
                    q == data_len / 65536,
                    r == data_len % 65536,
            ;
            if r + buf_len >= CHUNK_SIZE {
                lemma_div_chunk(q + 1, r + buf_len - CHUNK_SIZE, total.len() as int);
            } else {
                lemma_div_chunk(q as int, r + buf_len, total.len() as int);
            }
        }
        assert(full == n);
        if full > (u32::MAX - self.counter) as usize {
            return Err(Error::ChunkCounterOverflow);
        }
        let mut out: Vec<Vec<u8>> = Vec::new();
        let mut offset: usize = 0;
        while offset < data_len
            invariant
                data_len == data@.len(),
                offset <= data_len,
                self@.key == s0.key,
                self@.nonce_prefix == s0.nonce_prefix,
                self@.header_aad == s0.header_aad,
                s0.nonce_prefix.len() == NONCE_PREFIX_LEN,
                s0.header_aad.len() == HEADER_LEN,
                total == s0.pending + data@,
                n == total.len() / (CHUNK_SIZE as nat),
                s0.counter + n <= u32::MAX,
                self@.pending.len() < CHUNK_SIZE,
                out.len() * CHUNK_SIZE + self@.pending.len() == s0.pending.len() + offset,
                self@.pending == total.subrange(out.len() * CHUNK_SIZE, s0.pending.len() + offset),
                self@.counter == s0.counter + out.len(),
                forall|i: int|
                    0 <= i < out.len() ==> (#[trigger] out@[i])@ == xchacha20poly1305_seal(
                        s0.key,
                        nonce_for(s0.nonce_prefix, (s0.counter + i) as u32, false),
                        s0.header_aad,
                        total.subrange(i * CHUNK_SIZE, (i + 1) * CHUNK_SIZE),
                    ),
                forall|i: int|
                    0 <= i < out.len() ==> seal_round_trips(
                        s0.key,
                        nonce_for(s0.nonce_prefix, (s0.counter + i) as u32, false),
                        s0.header_aad,
                        #[trigger] total.subrange(i * CHUNK_SIZE, (i + 1) * CHUNK_SIZE),
                    ),
            decreases data_len - offset,
        {
            let want = CHUNK_SIZE - self.buf.len();
            let rest = data_len - offset;
            let take = if want < rest { want } else { rest };
            let mut t: usize = 0;
            while t < take
                invariant
                    data_len == data@.len(),
                    take <= rest,
                    rest == data_len - offset,
                    take <= want,
                    want == CHUNK_SIZE - (self@.pending.len() - t),
                    t <= take,
                    self@.key == s0.key,
                    self@.nonce_prefix == s0.nonce_prefix,
                    self@.header_aad == s0.header_aad,
                    self@.counter == s0.counter + out.len(),
                    total == s0.pending + data@,
                    out.len() * CHUNK_SIZE + self@.pending.len() == s0.pending.len() + offset + t,
                    self@.pending == total.subrange(out.len() * CHUNK_SIZE, s0.pending.len() + offset + t),
                decreases take - t,
            {
                self.buf.push(data[offset + t]);
                t = t + 1;
                assert(self@.pending =~= total.subrange(out.len() * CHUNK_SIZE, s0.pending.len() + offset + t));
            }
            offset = offset + take;
            if self.buf.len() == CHUNK_SIZE {
                assert(out.len() + 1 <= n) by {
                    assert((out.len() + 1) * CHUNK_SIZE <= total.len());
                    assert((out.len() + 1) <= total.len() / (CHUNK_SIZE as nat)) by (nonlinear_arith)
                        requires
                            (out.len() + 1) * 65536 <= total.len(),
                    ;
                }
                let nonce = stream_nonce(&self.nonce_prefix, self.counter, false);
                let sealed = encrypt(&self.key, &nonce, &self.header_aad, self.buf.as_slice());
                match sealed {
                    Ok(ct) => {
                        out.push(ct);
                    },
                    Err(e) => {
                        assert(sealable_len(CHUNK_SIZE as nat));
                        return Err(e);
                    },
                }
                self.buf.clear();
                self.counter = self.counter + 1;
            }
        }
        proof {
            lemma_div_chunk(out.len() as int, self@.pending.len() as int, total.len() as int);
            assert(out.len() == n);
        }
        assert(out@.map_values(|c: Vec<u8>| c@) =~= absorb_chunks(s0, data@));
        assert(self@.pending =~= absorb_state(s0, data@).pending);
        assert forall|i: int| 0 <= i < full_pieces(total).len() implies seal_round_trips(
            s0.key,
            nonce_for(s0.nonce_prefix, (s0.counter + i) as u32, false),
            s0.header_aad,
            #[trigger] full_pieces(total)[i],
        ) by {
            assert(full_pieces(total)[i] == total.subrange(i * CHUNK_SIZE, (i + 1) * CHUNK_SIZE));
        }
        Ok(out)
    }

    /// Seal the pending plaintext as the last-flagged chunk.
    pub fn finish(self) -> (r: Result<Vec<u8>>)
        requires
            self.wf(),
        ensures
            r matches Ok(ct) && ct@ == final_chunk(self@),
            seal_round_trips(
                self@.key,
                nonce_for(self@.nonce_prefix, self@.counter as u32, true),
                self@.header_aad,
                self@.pending,
            ),
    {
        let nonce = stream_nonce(&self.nonce_prefix, self.counter, true);
        encrypt(&self.key, &nonce, &self.header_aad, self.buf.as_slice())
    }
}

/// A chunk shorter than a full one (plaintext plus tag) is the last one.
pub open spec fn chunk_is_last(chunk: Seq<u8>) -> bool {
    chunk.len() < CHUNK_SIZE + TAG_LEN
}

/// The nonce under which the decoder opens `chunk` at position `counter`.
pub open spec fn chunk_nonce(prefix: Seq<u8>, counter: nat, chunk: Seq<u8>) -> Seq<u8> {
    nonce_for(prefix, counter as u32, chunk_is_last(chunk))
}

/// What opening one chunk at position `counter` comes to.
pub enum ChunkOutcome {
    /// Shorter than a tag: the input ended early.
    TooShort,
    /// The chunk does not authenticate under its nonce.
    Rejected,
    /// The last chunk, with its plaintext.
    Last(Seq<u8>),
    /// A full chunk, with its plaintext; the next one follows.
    Next(Seq<u8>),
    /// A full chunk at the last position the 32-bit counter has.
    CounterExhausted(Seq<u8>),
}

pub open spec fn chunk_outcome(key: Seq<u8>, prefix: Seq<u8>, aad: Seq<u8>, counter: nat, chunk: Seq<u8>) -> ChunkOutcome {
    if chunk.len() < TAG_LEN {
        ChunkOutcome::TooShort
    } else {
        match xchacha20poly1305_open(key, chunk_nonce(prefix, counter, chunk), aad, chunk) {
            None => ChunkOutcome::Rejected,
            Some(p) => if chunk_is_last(chunk) {
                ChunkOutcome::Last(p)
            } else if counter >= u32::MAX {
                ChunkOutcome::CounterExhausted(p)
            } else {
                ChunkOutcome::Next(p)
            },
        }
    }
}

/// What a decoder holds: its key, nonce prefix and associated data, the
/// position of the next chunk, the plaintext of the current chunk, how much
/// of it was served, and whether the last chunk was opened.
pub struct DecoderView {
    pub key: Seq<u8>,
    pub nonce_prefix: Seq<u8>,
    pub header_aad: Seq<u8>,
    pub counter: nat,
    pub plaintext: Seq<u8>,
    pub pos: nat,
    pub done: bool,
}

/// One step of reading from a decoder.
pub enum ReadStep {
    /// Plaintext bytes served from the current chunk.
    Data(Vec<u8>),
    /// The last chunk was opened and fully served.
    End,
    /// The current chunk is used up: the next ciphertext chunk is needed.
    NeedChunk,
}

/// Pull-style decryptor. Chunks are handed to `fetch_next_chunk` as the
/// reader yields them (each `CHUNK_SIZE + TAG_LEN` bytes, or fewer at the end
/// of the input), and their plaintext is served by `read_step`. A failure
/// can be recorded and taken back later as the typed error.
pub struct StreamDecoder {
    key: Key,
    nonce_prefix: [u8; NONCE_PREFIX_LEN],
    header_aad: [u8; HEADER_LEN],
    counter: u32,
    plaintext: Vec<u8>,
    pos: usize,
    done: bool,
    stashed: Option<Error>,
}

impl View for StreamDecoder {
    type V = DecoderView;

    closed spec fn view(&self) -> DecoderView {
        DecoderView {
            key: self.key@,
            nonce_prefix: self.nonce_prefix@,
            header_aad: self.header_aad@,
            counter: self.counter as nat,
            plaintext: self.plaintext@,
            pos: self.pos as nat,
            done: self.done,
        }
    }
}

impl StreamDecoder {
    pub open spec fn wf(&self) -> bool {
        &&& self@.pos <= self@.plaintext.len()
        &&& self@.counter <= u32::MAX
        &&& self@.nonce_prefix.len() == NONCE_PREFIX_LEN
        &&& self@.header_aad.len() == HEADER_LEN
    }

    /// The error recorded and not yet taken.
    pub closed spec fn stashed(&self) -> Option<Error> {
        self.stashed
    }

    pub fn new(key: Key, nonce_prefix: [u8; NONCE_PREFIX_LEN], header_aad: [u8; HEADER_LEN]) -> (d: Self)
        ensures
            d.wf(),
            d@.key == key@,
            d@.nonce_prefix == nonce_prefix@,
            d@.header_aad == header_aad@,
            d@.counter == 0,
            d@.plaintext == Seq::<u8>::empty(),
            d@.pos == 0,
            !d@.done,
            d.stashed() is None,
    {
        Self {
            key,
            nonce_prefix,
            header_aad,
            counter: 0,
            plaintext: Vec::new(),
            pos: 0,
            done: false,
            stashed: None,
        }
    }

    /// Hand back the recorded error, if any, and forget it.
    pub fn take_error(&mut self) -> (r: Option<Error>)
        ensures
            r == old(self).stashed(),
            final(self).stashed() is None,
            final(self)@ == old(self)@,
    {
        self.stashed.take()
    }

    /// Record the error that stopped reading, for `take_error`.
    pub fn record_error(&mut self, e: Error)
        ensures
            final(self).stashed() == Some(e),
            final(self)@ == old(self)@,
    {
        self.stashed = Some(e);
    }

    /// Open the next ciphertext chunk. A chunk shorter than a tag means the
    /// input ended early; one shorter than a full chunk is opened as the
    /// last one.
    pub fn fetch_next_chunk(&mut self, chunk: &[u8]) -> (r: Result<()>)
        requires
            old(self).wf(),
            !old(self)@.done,
            chunk@.len() <= CHUNK_SIZE + TAG_LEN,
        ensures
            final(self).wf(),
            final(self).stashed() == old(self).stashed(),
            final(self)@.key == old(self)@.key,
            final(self)@.nonce_prefix == old(self)@.nonce_prefix,
            final(self)@.header_aad == old(self)@.header_aad,
            match chunk_outcome(old(self)@.key, old(self)@.nonce_prefix, old(self)@.header_aad, old(self)@.counter, chunk@) {
                ChunkOutcome::TooShort => r matches Err(Error::Truncated) && final(self)@ == old(self)@,
                ChunkOutcome::Rejected => r matches Err(Error::Aead) && final(self)@ == old(self)@,
                ChunkOutcome::Last(p) => r is Ok && final(self)@ == DecoderView {
                    plaintext: p,
                    pos: 0,
                    done: true,
                    ..old(self)@
                },
                ChunkOutcome::Next(p) => r is Ok && final(self)@ == DecoderView {
                    plaintext: p,
                    pos: 0,
                    counter: old(self)@.counter + 1,
                    ..old(self)@
                },
                ChunkOutcome::CounterExhausted(p) => r matches Err(Error::ChunkCounterOverflow) && final(self)@
                    == DecoderView { plaintext: p, pos: 0, ..old(self)@ },
            },
            r is Ok ==> xchacha20poly1305_seal(
                old(self)@.key,
                chunk_nonce(old(self)@.nonce_prefix, old(self)@.counter, chunk@),
                old(self)@.header_aad,
                final(self)@.plaintext,
            ) == chunk@,
    {
        if chunk.len() < TAG_LEN {
            return Err(Error::Truncated);
        }
        let is_last = chunk.len() < CHUNK_SIZE + TAG_LEN;
        let nonce = stream_nonce(&self.nonce_prefix, self.counter, is_last);
        let pt = match decrypt(&self.key, &nonce, &self.header_aad, chunk) {
            Ok(pt) => pt,
            Err(e) => return Err(e),
        };
        self.plaintext = pt;
        self.pos = 0;
        if is_last {
            self.done = true;
        } else {
            if self.counter == u32::MAX {
                return Err(Error::ChunkCounterOverflow);
            }
            self.counter = self.counter + 1;
        }
        Ok(())
    }

    /// Serve up to `max` bytes of the current chunk's plaintext, or say that
    /// the stream ended or that the next chunk is needed.
    pub fn read_step(&mut self, max: usize) -> (r: ReadStep)
        requires
            old(self).wf(),
        ensures
            final(self).wf(),
            final(self).stashed() == old(self).stashed(),
            max == 0 ==> (r matches ReadStep::Data(d) && d@.len() == 0 && final(self)@ == old(self)@),
            max > 0 && old(self)@.pos < old(self)@.plaintext.len() ==> {
                let n = if old(self)@.plaintext.len() - old(self)@.pos < max {
                    (old(self)@.plaintext.len() - old(self)@.pos) as nat
                } else {
                    max as nat
                };
                &&& r matches ReadStep::Data(d) && d@ == old(self)@.plaintext.subrange(
                    old(self)@.pos as int,
                    (old(self)@.pos + n) as int,
                )
                &&& final(self)@ == DecoderView { pos: old(self)@.pos + n, ..old(self)@ }
            },
            max > 0 && old(self)@.pos >= old(self)@.plaintext.len() ==> final(self)@ == old(self)@ && (
            if old(self)@.done {
                r is End
            } else {
                r is NeedChunk
            }),
    {
        if max == 0 {
            return ReadStep::Data(Vec::new());
        }
        if self.pos < self.plaintext.len() {
            let avail = self.plaintext.len() - self.pos;
            let n = if avail < max { avail } else { max };
            let mut out: Vec<u8> = Vec::with_capacity(n);
            let mut i: usize = 0;
            while i < n
                invariant
                    i <= n,
                    n <= avail,
                    avail == self.plaintext@.len() - self.pos,
                    self.pos < self.plaintext@.len(),
                    self.plaintext@.len() <= usize::MAX,
                    out@ == self.plaintext@.subrange(self.pos as int, self.pos + i),
                decreases n - i,
            {
                out.push(self.plaintext[self.pos + i]);
                i = i + 1;
                assert(out@ =~= self.plaintext@.subrange(self.pos as int, self.pos + i));
            }
            self.pos = self.pos + n;
            return ReadStep::Data(out);
        }
        if self.done {
            ReadStep::End
        } else {
            ReadStep::NeedChunk
        }
    }
}

/// The plaintext pieces of a whole stream: its full chunks, then the rest
/// (shorter than a chunk, possibly empty) as the last piece.
pub open spec fn stream_pieces(pt: Seq<u8>) -> Seq<Seq<u8>> {
    full_pieces(pt).push(pt.subrange((pt.len() / (CHUNK_SIZE as nat)) * CHUNK_SIZE, pt.len() as int))
}

/// The chunks of a whole stream holding `pt`: piece `i` sealed at position
/// `i`, the last one flagged as last.
pub open spec fn stream_chunks(key: Seq<u8>, prefix: Seq<u8>, aad: Seq<u8>, pt: Seq<u8>) -> Seq<Seq<u8>> {
    let pieces = stream_pieces(pt);
    Seq::new(
        pieces.len(),
        |i: int| xchacha20poly1305_seal(key, nonce_for(prefix, i as u32, i == pieces.len() - 1), aad, pieces[i]),
    )
}

/// Every chunk of that stream opens back to its piece.
pub open spec fn stream_round_trips(key: Seq<u8>, prefix: Seq<u8>, aad: Seq<u8>, pt: Seq<u8>) -> bool {
    let pieces = stream_pieces(pt);
    forall|i: int|
        0 <= i < pieces.len() ==> seal_round_trips(key, nonce_for(prefix, i as u32, i == pieces.len() - 1), aad, #[trigger] pieces[i])
}

/// A new encoder's state.
pub open spec fn fresh_encoder(key: Seq<u8>, prefix: Seq<u8>, aad: Seq<u8>) -> EncoderView {
    EncoderView { key, nonce_prefix: prefix, header_aad: aad, counter: 0, pending: Seq::empty() }
}

/// The plaintext that a decoder starting at position `counter` serves from
/// `chunks`, the ciphertext chunks in the order the reader yields them, or
/// `None` where it stops with an error. Decoding stops at the first chunk
/// shorter than a full one; input that ends before such a chunk is
/// truncated.
pub open spec fn open_stream(key: Seq<u8>, prefix: Seq<u8>, aad: Seq<u8>, counter: nat, chunks: Seq<Seq<u8>>) -> Option<Seq<u8>>
    decreases chunks.len(),
{
    if chunks.len() == 0 || chunks[0].len() > CHUNK_SIZE + TAG_LEN {
        None
    } else {
        match chunk_outcome(key, prefix, aad, counter, chunks[0]) {
            ChunkOutcome::Last(p) => Some(p),
            ChunkOutcome::Next(p) => match open_stream(key, prefix, aad, counter + 1, chunks.drop_first()) {
                Some(rest) => Some(p + rest),
                None => None,
            },
            _ => None,
        }
    }
}

/// Distinct chunk positions, or a last and a non-last chunk, never share a
/// nonce.
pub proof fn lemma_nonce_injective(prefix: Seq<u8>, c1: u32, last1: bool, c2: u32, last2: bool)
    requires
        nonce_for(prefix, c1, last1) == nonce_for(prefix, c2, last2),
    ensures
        c1 == c2,
        last1 == last2,
{
    let n1 = nonce_for(prefix, c1, last1);
    let n2 = nonce_for(prefix, c2, last2);
    let l = prefix.len() as int;
    assert(be32(c1) =~= n1.subrange(l, l + 4));
    assert(be32(c2) =~= n2.subrange(l, l + 4));
    lemma_be32_round_trip(c1);
    lemma_be32_round_trip(c2);
    assert(be32(c1).len() == 4);
    assert(n1[l + 4] == (if last1 { 1u8 } else { 0u8 }));
    assert(n2[l + 4] == (if last2 { 1u8 } else { 0u8 }));
}

proof fn lemma_full_pieces_shift(t: Seq<u8>, n1: nat)
    requires
        n1 * CHUNK_SIZE <= t.len(),
    ensures
        t.len() / (CHUNK_SIZE as nat) == n1 + t.subrange(n1 * CHUNK_SIZE, t.len() as int).len() / (CHUNK_SIZE as nat),
{
    let x = t.len() - n1 * CHUNK_SIZE;
    assert(t.len() / 65536 == n1 + x / 65536) by (nonlinear_arith)
        requires
            x == t.len() - n1 * 65536,
            x >= 0,
    ;
}

/// Absorbing `d1` and then `d2` emits the same chunks, in the same order,
/// and leaves the same state as absorbing `d1 + d2` at once; the round-trip
/// facts of the two steps give those of the single one.
pub proof fn lemma_absorb_compose(s: EncoderView, d1: Seq<u8>, d2: Seq<u8>)
    ensures
        absorb_chunks(s, d1) + absorb_chunks(absorb_state(s, d1), d2) == absorb_chunks(s, d1 + d2),
        absorb_state(absorb_state(s, d1), d2) == absorb_state(s, d1 + d2),
        absorb_round_trips(s, d1) && absorb_round_trips(absorb_state(s, d1), d2) ==> absorb_round_trips(s, d1 + d2),
{
    let t1 = s.pending + d1;
    let n1 = absorb_count(s, d1);
    let s1 = absorb_state(s, d1);
    let t2 = s1.pending + d2;
    let big = s.pending + (d1 + d2);
    assert(big =~= t1 + d2);
    assert(n1 * CHUNK_SIZE <= t1.len()) by (nonlinear_arith)
        requires
            n1 == t1.len() / 65536,
    ;
    assert(t2 =~= big.subrange(n1 * CHUNK_SIZE, big.len() as int));
    lemma_full_pieces_shift(big, n1);
    let n2 = absorb_count(s1, d2);
    let n = absorb_count(s, d1 + d2);
    assert(n == n1 + n2);
    let c1 = absorb_chunks(s, d1);
    let c2 = absorb_chunks(s1, d2);
    let c = absorb_chunks(s, d1 + d2);
    assert forall|i: int| 0 <= i < n1 implies #[trigger] full_pieces(t1)[i] == full_pieces(big)[i] by {
        assert((i + 1) * CHUNK_SIZE <= t1.len()) by (nonlinear_arith)
            requires
                0 <= i < n1,
                n1 == t1.len() / 65536,
        ;
        assert(t1.subrange(i * CHUNK_SIZE, (i + 1) * CHUNK_SIZE) =~= big.subrange(i * CHUNK_SIZE, (i + 1) * CHUNK_SIZE));
    }
    assert forall|j: int| 0 <= j < n2 implies #[trigger] full_pieces(t2)[j] == full_pieces(big)[n1 + j] by {
        assert((n1 + j) * CHUNK_SIZE == n1 * CHUNK_SIZE + j * CHUNK_SIZE) by (nonlinear_arith);
        assert((n1 + j + 1) * CHUNK_SIZE == n1 * CHUNK_SIZE + (j + 1) * CHUNK_SIZE) by (nonlinear_arith);
        assert((j + 1) * CHUNK_SIZE <= t2.len()) by (nonlinear_arith)
            requires
                0 <= j < n2,
                n2 == t2.len() / 65536,
        ;
        assert(t2.subrange(j * CHUNK_SIZE, (j + 1) * CHUNK_SIZE) =~= big.subrange(
            (n1 + j) * CHUNK_SIZE,
            (n1 + j + 1) * CHUNK_SIZE,
        ));
    }
    assert(c1 + c2 =~= c) by {
        assert forall|i: int| 0 <= i < c.len() implies (c1 + c2)[i] == c[i] by {
            if i < n1 {
                assert(full_pieces(t1)[i] == full_pieces(big)[i]);
            } else {
                assert(full_pieces(t2)[i - n1] == full_pieces(big)[n1 + (i - n1)]);
                assert(s.counter + i == s1.counter + (i - n1));
            }
        }
    }
    assert((n1 + n2) * CHUNK_SIZE == n1 * CHUNK_SIZE + n2 * CHUNK_SIZE) by (nonlinear_arith);
    assert(absorb_state(s1, d2).pending =~= absorb_state(s, d1 + d2).pending);
    if absorb_round_trips(s, d1) && absorb_round_trips(s1, d2) {
        let pieces = full_pieces(big);
        assert forall|i: int| 0 <= i < pieces.len() implies seal_round_trips(
            s.key,
            nonce_for(s.nonce_prefix, (s.counter + i) as u32, false),
            s.header_aad,
            #[trigger] pieces[i],
        ) by {
            if i < n1 {
                assert(full_pieces(t1)[i] == pieces[i]);
            } else {
                assert(full_pieces(t2)[i - n1] == pieces[n1 + (i - n1)]);
                assert(s.counter + i == s1.counter + (i - n1));
            }
        }
    }
}

/// The bytes of several writes, one after the other.
pub open spec fn concat_writes(writes: Seq<Seq<u8>>) -> Seq<u8>
    decreases writes.len(),
{
    if writes.len() == 0 {
        Seq::empty()
    } else {
        concat_writes(writes.drop_last()) + writes.last()
    }
}

/// The encoder after absorbing each of `writes` in turn.
pub open spec fn absorb_all_state(s: EncoderView, writes: Seq<Seq<u8>>) -> EncoderView
    decreases writes.len(),
{
    if writes.len() == 0 {
        s
    } else {
        absorb_state(absorb_all_state(s, writes.drop_last()), writes.last())
    }
}

/// The chunks emitted by absorbing each of `writes` in turn, in order.
pub open spec fn absorb_all_chunks(s: EncoderView, writes: Seq<Seq<u8>>) -> Seq<Seq<u8>>
    decreases writes.len(),
{
    if writes.len() == 0 {
        Seq::empty()
    } else {
        absorb_all_chunks(s, writes.drop_last()) + absorb_chunks(absorb_all_state(s, writes.drop_last()), writes.last())
    }
}

/// The chunks of every one of those writes open back to their pieces.
pub open spec fn absorb_all_round_trips(s: EncoderView, writes: Seq<Seq<u8>>) -> bool
    decreases writes.len(),
{
    if writes.len() == 0 {
        true
    } else {
        absorb_all_round_trips(s, writes.drop_last()) && absorb_round_trips(
            absorb_all_state(s, writes.drop_last()),
            writes.last(),
        )
    }
}

/// However the plaintext is split into writes, an encoder emits the same
/// chunks, in the same order, and ends in the same state as when it absorbs
/// the whole plaintext at once; the round-trip facts of the writes give
/// those of the single write.
pub proof fn lemma_absorb_all(s: EncoderView, writes: Seq<Seq<u8>>)
    requires
        s.pending.len() < CHUNK_SIZE,
    ensures
        absorb_all_chunks(s, writes) == absorb_chunks(s, concat_writes(writes)),
        absorb_all_state(s, writes) == absorb_state(s, concat_writes(writes)),
        absorb_all_round_trips(s, writes) ==> absorb_round_trips(s, concat_writes(writes)),
    decreases writes.len(),
{
    if writes.len() == 0 {
        assert(s.pending + Seq::<u8>::empty() =~= s.pending);
        assert(s.pending.len() / (CHUNK_SIZE as nat) == 0);
        assert(absorb_chunks(s, Seq::empty()) =~= Seq::<Seq<u8>>::empty());
        assert(absorb_state(s, Seq::empty()) =~= s) by {
            assert(absorb_state(s, Seq::empty()).pending =~= s.pending);
        }
    } else {
        let init = writes.drop_last();
        let w = writes.last();
        lemma_absorb_all(s, init);
        lemma_absorb_compose(s, concat_writes(init), w);
    }
}

/// A new encoder that is written `writes`, in any number of pieces, and then
/// finished emits exactly the chunks of the stream holding their
/// concatenation: one last-flagged chunk, at the very end. When the seals
/// of the writes and of the finish round-trip, so does that stream.
pub proof fn lemma_writes_emit_stream(key: Seq<u8>, prefix: Seq<u8>, aad: Seq<u8>, writes: Seq<Seq<u8>>)
    ensures
        ({
            let s = fresh_encoder(key, prefix, aad);
            absorb_all_chunks(s, writes).push(final_chunk(absorb_all_state(s, writes))) == stream_chunks(
                key,
                prefix,
                aad,
                concat_writes(writes),
            )
        }),
        ({
            let s = fresh_encoder(key, prefix, aad);
            let f = absorb_all_state(s, writes);
            absorb_all_round_trips(s, writes) && seal_round_trips(key, nonce_for(prefix, f.counter as u32, true), aad, f.pending)
                ==> stream_round_trips(key, prefix, aad, concat_writes(writes))
        }),
{
    let s = fresh_encoder(key, prefix, aad);
    lemma_absorb_all(s, writes);
    lemma_encoder_emits_stream(key, prefix, aad, concat_writes(writes));
}

/// A new encoder that absorbs `pt` and finishes emits exactly the chunks of
/// the stream holding `pt`; when its seals round-trip, so does the stream.
pub proof fn lemma_encoder_emits_stream(key: Seq<u8>, prefix: Seq<u8>, aad: Seq<u8>, pt: Seq<u8>)
    ensures
        ({
            let s = fresh_encoder(key, prefix, aad);
            absorb_chunks(s, pt).push(final_chunk(absorb_state(s, pt))) == stream_chunks(key, prefix, aad, pt)
        }),
        ({
            let s = fresh_encoder(key, prefix, aad);
            let f = absorb_state(s, pt);
            absorb_round_trips(s, pt) && seal_round_trips(key, nonce_for(prefix, f.counter as u32, true), aad, f.pending)
                ==> stream_round_trips(key, prefix, aad, pt)
        }),
{
    let s = fresh_encoder(key, prefix, aad);
    assert(s.pending + pt =~= pt);
    let lhs = absorb_chunks(s, pt).push(final_chunk(absorb_state(s, pt)));
    let rhs = stream_chunks(key, prefix, aad, pt);
    assert(lhs =~= rhs);
    let f = absorb_state(s, pt);
    if absorb_round_trips(s, pt) && seal_round_trips(key, nonce_for(prefix, f.counter as u32, true), aad, f.pending) {
        let pieces = stream_pieces(pt);
        assert forall|i: int| 0 <= i < pieces.len() implies seal_round_trips(
            key,
            nonce_for(prefix, i as u32, i == pieces.len() - 1),
            aad,
            #[trigger] pieces[i],
        ) by {
            if i < pieces.len() - 1 {
                assert(pieces[i] == full_pieces(s.pending + pt)[i]);
            }
        }
    }
}

proof fn lemma_open_suffix(key: Seq<u8>, prefix: Seq<u8>, aad: Seq<u8>, pt: Seq<u8>, i: nat)
    requires
        stream_round_trips(key, prefix, aad, pt),
        pt.len() / (CHUNK_SIZE as nat) <= u32::MAX,
        i <= pt.len() / (CHUNK_SIZE as nat),
    ensures
        ({
            let chunks = stream_chunks(key, prefix, aad, pt);
            open_stream(key, prefix, aad, i, chunks.subrange(i as int, chunks.len() as int)) == Some(
                pt.subrange(i * CHUNK_SIZE, pt.len() as int),
            )
        }),
    decreases pt.len() / (CHUNK_SIZE as nat) - i,
{
    let n = pt.len() / (CHUNK_SIZE as nat);
    let pieces = stream_pieces(pt);
    let chunks = stream_chunks(key, prefix, aad, pt);
    let tail = chunks.subrange(i as int, chunks.len() as int);
    assert(n * CHUNK_SIZE <= pt.len()) by (nonlinear_arith)
        requires
            n == pt.len() / 65536,
    ;
    assert(pt.len() < (n + 1) * CHUNK_SIZE) by (nonlinear_arith)
        requires
            n == pt.len() / 65536,
    ;
    let c = tail[0];
    assert(c == chunks[i as int]);
    assert(seal_round_trips(key, nonce_for(prefix, i as u32, i == pieces.len() - 1), aad, pieces[i as int]));
    if i < n {
        assert((i + 1) * CHUNK_SIZE <= n * CHUNK_SIZE) by (nonlinear_arith)
            requires
                i < n,
        ;
        assert(pieces[i as int] == pt.subrange(i * CHUNK_SIZE, (i + 1) * CHUNK_SIZE));
        assert(c.len() == CHUNK_SIZE + TAG_LEN);
        assert(chunk_nonce(prefix, i, c) == nonce_for(prefix, i as u32, false));
        lemma_open_suffix(key, prefix, aad, pt, i + 1);
        assert(tail.drop_first() =~= chunks.subrange((i + 1) as int, chunks.len() as int));
        assert(pt.subrange(i * CHUNK_SIZE, pt.len() as int) =~= pt.subrange(i * CHUNK_SIZE, (i + 1) * CHUNK_SIZE)
            + pt.subrange((i + 1) * CHUNK_SIZE, pt.len() as int));
    } else {
        assert(pieces[i as int] == pt.subrange(i * CHUNK_SIZE, pt.len() as int));
        assert(c.len() < CHUNK_SIZE + TAG_LEN);
        assert(chunk_nonce(prefix, i, c) == nonce_for(prefix, i as u32, true));
    }
}

/// What a new decoder serves from the chunks of a stream is exactly the
/// plaintext that the stream was sealed from.
pub proof fn lemma_stream_round_trip(key: Seq<u8>, prefix: Seq<u8>, aad: Seq<u8>, pt: Seq<u8>)
    requires
        stream_round_trips(key, prefix, aad, pt),
        pt.len() / (CHUNK_SIZE as nat) <= u32::MAX,
    ensures
        open_stream(key, prefix, aad, 0, stream_chunks(key, prefix, aad, pt)) == Some(pt),
{
    lemma_open_suffix(key, prefix, aad, pt, 0);
    let chunks = stream_chunks(key, prefix, aad, pt);
    assert(chunks.subrange(0, chunks.len() as int) =~= chunks);
    assert(pt.subrange(0, pt.len() as int) =~= pt);
}

/// Whatever the split of the plaintext into writes, a new decoder serves
/// from the chunks that the encoder emitted (those of the writes, then the
/// finishing one) exactly the concatenation of the writes.
pub proof fn lemma_written_stream_round_trip(key: Seq<u8>, prefix: Seq<u8>, aad: Seq<u8>, writes: Seq<Seq<u8>>)
    requires
        ({
            let s = fresh_encoder(key, prefix, aad);
            let f = absorb_all_state(s, writes);
            &&& absorb_all_round_trips(s, writes)
            &&& seal_round_trips(key, nonce_for(prefix, f.counter as u32, true), aad, f.pending)
        }),
        concat_writes(writes).len() / (CHUNK_SIZE as nat) <= u32::MAX,
    ensures
        ({
            let s = fresh_encoder(key, prefix, aad);
            open_stream(
                key,
                prefix,
                aad,
                0,
                absorb_all_chunks(s, writes).push(final_chunk(absorb_all_state(s, writes))),
            ) == Some(concat_writes(writes))
        }),
{
    lemma_writes_emit_stream(key, prefix, aad, writes);
    lemma_stream_round_trip(key, prefix, aad, concat_writes(writes));
}

proof fn lemma_full_chunks_truncated(key: Seq<u8>, prefix: Seq<u8>, aad: Seq<u8>, counter: nat, chunks: Seq<Seq<u8>>)
    requires
        forall|j: int| 0 <= j < chunks.len() ==> (#[trigger] chunks[j]).len() == CHUNK_SIZE + TAG_LEN,
    ensures
        open_stream(key, prefix, aad, counter, chunks) is None,
    decreases chunks.len(),
{
    if chunks.len() > 0 {
        let c = chunks[0];
        assert(c.len() == CHUNK_SIZE + TAG_LEN);
        let rest = chunks.drop_first();
        assert forall|j: int| 0 <= j < rest.len() implies (#[trigger] rest[j]).len() == CHUNK_SIZE + TAG_LEN by {
            assert(rest[j] == chunks[j + 1]);
        }
        lemma_full_chunks_truncated(key, prefix, aad, counter + 1, rest);
    }
}

/// Dropping the last chunk of a stream, with or without more, makes decoding
/// fail: no chunk that is left carries the last flag.
pub proof fn lemma_truncated_stream_fails(key: Seq<u8>, prefix: Seq<u8>, aad: Seq<u8>, pt: Seq<u8>, keep: nat)
    requires
        stream_round_trips(key, prefix, aad, pt),
        keep < stream_chunks(key, prefix, aad, pt).len(),
    ensures
        open_stream(key, prefix, aad, 0, stream_chunks(key, prefix, aad, pt).take(keep as int)) is None,
{
    let chunks = stream_chunks(key, prefix, aad, pt);
    let pieces = stream_pieces(pt);
    let kept = chunks.take(keep as int);
    assert forall|j: int| 0 <= j < kept.len() implies (#[trigger] kept[j]).len() == CHUNK_SIZE + TAG_LEN by {
        assert(kept[j] == chunks[j]);
        assert(seal_round_trips(key, nonce_for(prefix, j as u32, j == pieces.len() - 1), aad, pieces[j]));
        assert(pieces[j] == full_pieces(pt)[j]);
    }
    lemma_full_chunks_truncated(key, prefix, aad, 0, kept);
}

} // verus!
