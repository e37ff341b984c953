//! The decrypting side: pulls ciphertext from a transport (driven by the
//! caller), decrypts it incrementally, and serves plaintext in
//! caller-sized chunks.
//!
//! The caller owns the transport.  While `needs_fill` is true it reads a
//! chunk of ciphertext and hands it to `feed` (a zero-length chunk meaning
//! transport EOF); once `needs_fill` is false it drains decrypted bytes
//! with `read_buffered`.  No reader state changes before a transport read
//! completes, so a not-ready transport suspends the cycle cleanly.

use vstd::prelude::*;

use crate::byte_buffer::{buf_as_slice, buf_clear, buf_len, buf_reserve, buf_view, buf_with_capacity};
use crate::cipher::StreamCipher;
use crate::StreamError;

verus! {

/// Reader wrapper that decrypts a transport's byte stream.
pub struct DecryptedReader<C: StreamCipher> {
    buffer: bytes::BytesMut,
    cipher: C,
    pos: usize,
    got_final: bool,
    handed: Ghost<Seq<u8>>,
}

impl<C: StreamCipher> DecryptedReader<C> {
    /// The key the reader's cipher was constructed with.
    pub closed spec fn key(&self) -> Seq<u8> {
        self.cipher.key()
    }

    /// The IV the reader's cipher was constructed with.
    pub closed spec fn iv(&self) -> Seq<u8> {
        self.cipher.iv()
    }

    /// All ciphertext bytes fed so far, in arrival order.
    pub closed spec fn consumed_ciphertext(&self) -> Seq<u8> {
        self.cipher.consumed()
    }

    /// Whether the reader saw transport EOF and finalized the cipher.
    pub closed spec fn finished(&self) -> bool {
        self.got_final
    }

    /// All plaintext bytes handed to the caller so far, in order.
    pub closed spec fn delivered(&self) -> Seq<u8> {
        self.handed@
    }

    /// Decrypted bytes buffered but not yet handed to the caller.
    pub closed spec fn buffered(&self) -> Seq<u8> {
        buf_view(self.buffer).skip(self.pos as int)
    }

    /// Everything this reader produces for the ciphertext consumed so
    /// far: the transform of that ciphertext, plus the cipher's trailing
    /// bytes once the transport reached EOF.  Note it depends only on the
    /// concatenation of the fed chunks, never on their boundaries.
    pub open spec fn plaintext_model(&self) -> Seq<u8> {
        C::out_of(self.key(), self.iv(), Seq::<u8>::empty(), self.consumed_ciphertext()) + (
        if self.finished() {
            C::fin_of(self.key(), self.iv(), self.consumed_ciphertext())
        } else {
            Seq::<u8>::empty()
        })
    }

    /// The cursor stays inside the plaintext buffer.  This structural
    /// part of the invariant holds on every exit of every method, the
    /// error exits included.
    pub closed spec fn cursor_ok(&self) -> bool {
        self.pos <= buf_view(self.buffer).len()
    }

    /// The reader's invariant: the cursor stays inside the buffer, the
    /// cipher is finalized exactly when EOF was seen, and what was handed
    /// out plus what is still buffered is exactly the plaintext model.
    pub closed spec fn wf(&self) -> bool {
        &&& self.cipher.inv()
        &&& self.cursor_ok()
        &&& self.got_final == self.cipher.finalized()
        &&& self.delivered() + self.buffered() == self.plaintext_model()
    }

    /// Build a reader around a freshly keyed decrypt-mode cipher.  The
    /// initial sizing call pre-reserves the steady-state buffer capacity.
    pub fn new(cipher: C) -> (r: Self)
        requires
            cipher.inv(),
            !cipher.finalized(),
            cipher.consumed() == Seq::<u8>::empty(),
        ensures
            r.wf(),
            r.key() == cipher.key(),
            r.iv() == cipher.iv(),
            !r.finished(),
            r.delivered() == Seq::<u8>::empty(),
            r.buffered() == Seq::<u8>::empty(),
            r.consumed_ciphertext() == Seq::<u8>::empty(),
    {
        let mut dummy: Vec<u8> = Vec::new();
        let mut i: usize = 0;
        while i < crate::BUFFER_SIZE
            invariant
                i <= crate::BUFFER_SIZE,
            decreases crate::BUFFER_SIZE - i,
        {
            dummy.push(0u8);
            i = i + 1;
        }
        let sz = cipher.buffer_size(dummy.as_slice());
        let buffer = buf_with_capacity(sz);
        let r = DecryptedReader { buffer, cipher, pos: 0, got_final: false, handed: Ghost(Seq::empty()) };
        proof {
            C::lemma_out_nil(r.cipher.key(), r.cipher.iv(), Seq::<u8>::empty());
            assert(r.buffered() =~= Seq::<u8>::empty());
            assert(r.delivered() + r.buffered() =~= r.plaintext_model());
        }
        r
    }

    /// True while the decrypted buffer is exhausted and another transport
    /// read is needed.  Once the reader is finished this is false forever:
    /// no further transport reads occur.
    pub fn needs_fill(&self) -> (b: bool)
        requires
            self.wf(),
        ensures
            b == (self.buffered().len() == 0 && !self.finished()),
    {
        self.pos >= buf_len(&self.buffer) && !self.got_final
    }

    /// Hand the reader the bytes of one completed transport read; an
    /// empty slice means the transport reached EOF, upon which the cipher
    /// is finalized (delivering any trailing plaintext) and the reader
    /// becomes permanently finished.  A cipher failure is terminal.
    pub fn feed(&mut self, data: &[u8]) -> (r: Result<(), StreamError>)
        requires
            old(self).wf(),
            old(self).buffered().len() == 0,
            !old(self).finished(),
        ensures
            // Whatever the cipher returned: nothing already delivered is
            // touched, the cursor stays in bounds, and the reader is
            // finished exactly when a zero-length read was accepted.
            final(self).delivered() == old(self).delivered(),
            final(self).cursor_ok(),
            final(self).finished() == (r is Ok && data@.len() == 0),
            match r {
                Ok(()) => {
                    &&& final(self).wf()
                    &&& final(self).key() == old(self).key()
                    &&& final(self).iv() == old(self).iv()
                    &&& if data@.len() == 0 {
                        &&& final(self).consumed_ciphertext() == old(self).consumed_ciphertext()
                        &&& final(self).buffered() == C::fin_of(
                            old(self).key(),
                            old(self).iv(),
                            old(self).consumed_ciphertext(),
                        )
                    } else {
                        &&& final(self).consumed_ciphertext() == old(self).consumed_ciphertext()
                            + data@
                        &&& final(self).buffered() == C::out_of(
                            old(self).key(),
                            old(self).iv(),
                            old(self).consumed_ciphertext(),
                            data@,
                        )
                    }
                },
                Err(e) => e == StreamError::Cipher,
            },
    {
        buf_clear(&mut self.buffer);
        self.pos = 0;
        if data.len() == 0 {
            let empty_in: Vec<u8> = Vec::new();
            let sz = self.cipher.buffer_size(empty_in.as_slice());
            buf_reserve(&mut self.buffer, sz);
            match self.cipher.finalize(&mut self.buffer) {
                Ok(()) => {},
                Err(_) => {
                    return Err(StreamError::Cipher);
                },
            }
            self.got_final = true;
            proof {
                assert(self.buffered() =~= C::fin_of(self.key(), self.iv(), self.consumed_ciphertext()));
                assert(self.delivered() + self.buffered() =~= self.plaintext_model());
            }
            Ok(())
        } else {
            let sz = self.cipher.buffer_size(data);
            buf_reserve(&mut self.buffer, sz);
            match self.cipher.update(data, &mut self.buffer) {
                Ok(()) => {},
                Err(_) => {
                    return Err(StreamError::Cipher);
                },
            }
            proof {
                let k = old(self).key();
                let v = old(self).iv();
                let h = old(self).consumed_ciphertext();
                C::lemma_out_chunk(k, v, Seq::<u8>::empty(), h, data@);
                assert(Seq::<u8>::empty() + h =~= h);
                assert(self.buffered() =~= C::out_of(k, v, h, data@));
                assert(self.delivered() + self.buffered() =~= self.plaintext_model());
            }
            Ok(())
        }
    }

    /// Copy out up to `want` buffered plaintext bytes and advance the
    /// cursor.  A finished reader whose buffer is drained returns an empty
    /// result, permanently: its state does not change.
    pub fn read_buffered(&mut self, want: usize) -> (out: Vec<u8>)
        requires
            old(self).wf(),
            old(self).buffered().len() > 0 || old(self).finished(),
        ensures
            final(self).wf(),
            final(self).key() == old(self).key(),
            final(self).iv() == old(self).iv(),
            final(self).finished() == old(self).finished(),
            final(self).consumed_ciphertext() == old(self).consumed_ciphertext(),
            out@.len() == if (want as int) <= old(self).buffered().len() {
                want as int
            } else {
                old(self).buffered().len() as int
            },
            out@ == old(self).buffered().take(out@.len() as int),
            final(self).buffered() == old(self).buffered().skip(out@.len() as int),
            final(self).delivered() == old(self).delivered() + out@,
            // Exhaustion is permanent: a finished, drained reader returns
            // zero bytes and is left exactly as it was.
            old(self).finished() && old(self).buffered().len() == 0 ==> out@.len() == 0
                && *final(self) == *old(self),
    {
        let len = buf_len(&self.buffer);
        let rem = len - self.pos;
        let n = if want < rem {
            want
        } else {
            rem
        };
        let mut out: Vec<u8> = Vec::new();
        let s = buf_as_slice(&self.buffer);
        let mut i: usize = 0;
        while i < n
            invariant
                i <= n,
                self.pos + n <= s@.len(),
                s@.len() <= usize::MAX,
                out@ == s@.subrange(self.pos as int, self.pos + i),
            decreases n - i,
        {
            let b = *vstd::slice::slice_index_get(s, self.pos + i);
            out.push(b);
            proof {
                assert(out@ =~= s@.subrange(self.pos as int, self.pos + i + 1));
            }
            i = i + 1;
        }
        proof {
            assert(out@ =~= old(self).buffered().take(n as int));
        }
        self.pos = self.pos + n;
        self.handed = Ghost(self.handed@ + out@);
        proof {
            assert(self.buffered() =~= old(self).buffered().skip(n as int));
            assert(self.delivered() + self.buffered() =~= old(self).delivered() + old(self).buffered());
        }
        out
    }
}

/// Accounting: everything a well-formed reader has handed out, followed
/// by what it still buffers, is exactly the plaintext model of the
/// ciphertext it has consumed.
pub proof fn lemma_reader_accounting<C: StreamCipher>(r: &DecryptedReader<C>)
    requires
        r.wf(),
    ensures
        r.delivered() + r.buffered() == r.plaintext_model(),
{
}

/// Chunking independence: two readers with the same key and IV that have
/// consumed the same total ciphertext — however differently that
/// ciphertext was split across transport reads — agree on the total
/// plaintext they produce.
pub proof fn lemma_chunking_independent<C: StreamCipher>(a: &DecryptedReader<C>, b: &DecryptedReader<C>)
    requires
        a.wf(),
        b.wf(),
        a.key() == b.key(),
        a.iv() == b.iv(),
        a.consumed_ciphertext() == b.consumed_ciphertext(),
        a.finished() == b.finished(),
    ensures
        a.delivered() + a.buffered() == b.delivered() + b.buffered(),
{
}

} // verus!
