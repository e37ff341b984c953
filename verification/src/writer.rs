//! The encrypting side: accepts plaintext, encrypts it — prefixing the
//! one-time IV to the very first ciphertext — and tracks the flush of the
//! staged ciphertext to a transport driven by the caller.
//!
//! A submission is atomic from the caller's view: `start_submit` encrypts
//! a whole plaintext chunk while the writer is idle, and the caller then
//! repeatedly writes `pending_data` to the transport and acknowledges each
//! partial write with `ack_written` until the writer is idle again.  Only
//! the already-produced ciphertext is retried, never the plaintext, so
//! partial transport writes can never re-encrypt or reorder bytes.
//!
//! The cipher's `finalize` step is deliberately not invoked here: emitting
//! trailing cipher output on clean close is delegated to the
//! connection-closing collaborator, which owns the shutdown sequence.

use vstd::prelude::*;

use crate::byte_buffer::{
    buf_advance, buf_as_slice, buf_len, buf_put_bytes, buf_view, buf_with_capacity,
    bytes_copy_from_slice, bytes_len, bytes_view,
};
use crate::cipher::StreamCipher;
use crate::StreamError;

verus! {

/// The writer's two mutually exclusive phases, as an explicit tagged
/// state: accepting new input, or draining already-encrypted output.
enum EncryptWriteStep {
    /// No pending output; ready to accept a new plaintext chunk.
    Nothing,
    /// An already-encrypted buffer (possibly prefixed with the one-time
    /// IV) not yet fully written to the transport.
    Writing(bytes::BytesMut),
}

/// Writer wrapper that encrypts a byte stream for a transport.
pub struct EncryptedWriter<C: StreamCipher> {
    cipher: C,
    steps: EncryptWriteStep,
    iv: Option<bytes::Bytes>,
    sent: Ghost<Seq<u8>>,
}

impl<C: StreamCipher> EncryptedWriter<C> {
    /// The key the writer's cipher was constructed with.
    pub closed spec fn key(&self) -> Seq<u8> {
        self.cipher.key()
    }

    /// The IV handed at construction, to be transmitted exactly once.
    pub closed spec fn iv_init(&self) -> Seq<u8> {
        self.cipher.iv()
    }

    /// All plaintext bytes accepted through `start_submit` so far.
    pub closed spec fn submitted(&self) -> Seq<u8> {
        self.cipher.consumed()
    }

    /// All bytes the transport has acknowledged, in order.
    pub closed spec fn sent(&self) -> Seq<u8> {
        self.sent@
    }

    /// Whether the one-time IV still awaits its first submission.
    pub closed spec fn iv_pending(&self) -> bool {
        self.iv is Some
    }

    /// Whether the writer is ready for a new plaintext chunk.
    pub closed spec fn is_idle(&self) -> bool {
        self.steps is Nothing
    }

    /// Ciphertext staged for the transport but not yet acknowledged.
    pub closed spec fn pending(&self) -> Seq<u8> {
        match self.steps {
            EncryptWriteStep::Nothing => Seq::<u8>::empty(),
            EncryptWriteStep::Writing(b) => buf_view(b),
        }
    }

    /// The ciphertext of everything submitted so far.
    pub open spec fn ct(&self) -> Seq<u8> {
        C::out_of(self.key(), self.iv_init(), Seq::<u8>::empty(), self.submitted())
    }

    /// The byte stream this writer emits: the IV exactly once, at the
    /// very start, followed by the ciphertext.
    pub open spec fn wire_model(&self) -> Seq<u8> {
        self.iv_init() + self.ct()
    }

    /// The writer's invariant: before the first submission nothing has
    /// been sent; afterwards, acknowledged bytes plus staged bytes are
    /// exactly the wire model.
    pub closed spec fn wf(&self) -> bool {
        &&& self.cipher.inv()
        &&& !self.cipher.finalized()
        &&& (self.iv_pending() ==> {
            &&& self.is_idle()
            &&& self.submitted() == Seq::<u8>::empty()
            &&& self.sent() == Seq::<u8>::empty()
            &&& bytes_view(self.iv.unwrap()) == self.iv_init()
        })
        &&& (!self.iv_pending() ==> self.sent() + self.pending() == self.wire_model())
    }

    /// Build a writer around a freshly keyed encrypt-mode cipher and the
    /// IV it must transmit — the same IV the cipher was keyed with.
    pub fn new(cipher: C, iv: bytes::Bytes) -> (w: Self)
        requires
            cipher.inv(),
            !cipher.finalized(),
            cipher.consumed() == Seq::<u8>::empty(),
            bytes_view(iv) == cipher.iv(),
        ensures
            w.wf(),
            w.is_idle(),
            w.iv_pending(),
            w.key() == cipher.key(),
            w.iv_init() == cipher.iv(),
            w.submitted() == Seq::<u8>::empty(),
            w.sent() == Seq::<u8>::empty(),
    {
        EncryptedWriter {
            cipher,
            steps: EncryptWriteStep::Nothing,
            iv: Some(iv),
            sent: Ghost(Seq::empty()),
        }
    }

    /// Build a writer from the IV as a plain byte slice: the slice is
    /// copied into the one-time `Bytes` value that `new` stages for
    /// transmission.
    pub fn new_with_iv(cipher: C, iv: &[u8]) -> (w: Self)
        requires
            cipher.inv(),
            !cipher.finalized(),
            cipher.consumed() == Seq::<u8>::empty(),
            iv@ == cipher.iv(),
        ensures
            w.wf(),
            w.is_idle(),
            w.iv_pending(),
            w.key() == cipher.key(),
            w.iv_init() == cipher.iv(),
            w.submitted() == Seq::<u8>::empty(),
            w.sent() == Seq::<u8>::empty(),
    {
        let staged = bytes_copy_from_slice(iv);
        EncryptedWriter::new(cipher, staged)
    }

    /// True while the writer is ready for a new plaintext chunk.
    pub fn idle(&self) -> (b: bool)
        ensures
            b == self.is_idle(),
    {
        match &self.steps {
            EncryptWriteStep::Nothing => true,
            EncryptWriteStep::Writing(_) => false,
        }
    }

    /// How many staged ciphertext bytes still await the transport.
    pub fn pending_len(&self) -> (n: usize)
        ensures
            n == self.pending().len(),
    {
        match &self.steps {
            EncryptWriteStep::Nothing => 0,
            EncryptWriteStep::Writing(buf) => buf_len(buf),
        }
    }

    /// The staged ciphertext bytes still awaiting the transport.
    pub fn pending_data(&self) -> (s: &[u8])
        requires
            !self.is_idle(),
        ensures
            s@ == self.pending(),
    {
        match &self.steps {
            EncryptWriteStep::Writing(buf) => buf_as_slice(buf),
            EncryptWriteStep::Nothing => vstd::pervasive::unreached(),
        }
    }

    /// Accept a new plaintext chunk: stage the one-time IV if it has not
    /// been sent yet, encrypt the chunk after it, and enter the flushing
    /// phase.  The staged buffer must fit in memory, a machine limit.  A
    /// cipher failure is terminal.
    pub fn start_submit(&mut self, data: &[u8]) -> (r: Result<(), StreamError>)
        requires
            old(self).wf(),
            old(self).is_idle(),
            old(self).iv_init().len() + C::out_of(
                old(self).key(),
                old(self).iv_init(),
                old(self).submitted(),
                data@,
            ).len() <= usize::MAX,
        ensures
            // Whatever the cipher returned: nothing already acknowledged
            // is touched, and the one-time IV is consumed — as in the
            // two-phase design it is taken before the cipher runs.
            final(self).sent() == old(self).sent(),
            !final(self).iv_pending(),
            match r {
                Ok(()) => {
                    &&& final(self).wf()
                    &&& final(self).key() == old(self).key()
                    &&& final(self).iv_init() == old(self).iv_init()
                    &&& final(self).submitted() == old(self).submitted() + data@
                    &&& final(self).pending() == (if old(self).iv_pending() {
                        old(self).iv_init()
                    } else {
                        Seq::<u8>::empty()
                    }) + C::out_of(
                        old(self).key(),
                        old(self).iv_init(),
                        old(self).submitted(),
                        data@,
                    )
                    &&& (final(self).is_idle() <==> final(self).pending().len() == 0)
                },
                Err(e) => {
                    &&& e == StreamError::Cipher
                    &&& final(self).is_idle()
                },
            },
    {
        let iv_length = match &self.iv {
            Some(i) => bytes_len(i),
            None => 0,
        };
        let bsz = self.cipher.buffer_size(data);
        let cap = iv_length.saturating_add(bsz);
        let mut buf = buf_with_capacity(cap);
        let taken = self.iv.take();
        match taken {
            Some(i) => {
                buf_put_bytes(&mut buf, &i);
            },
            None => {},
        }
        let ghost staged_iv = buf_view(buf);
        match self.cipher.update(data, &mut buf) {
            Ok(()) => {},
            Err(_) => {
                return Err(StreamError::Cipher);
            },
        }
        proof {
            let k = old(self).key();
            let v = old(self).iv_init();
            let h = old(self).submitted();
            C::lemma_out_chunk(k, v, Seq::<u8>::empty(), h, data@);
            assert(Seq::<u8>::empty() + h =~= h);
            if old(self).iv_pending() {
                C::lemma_out_nil(k, v, Seq::<u8>::empty());
                assert(Seq::<u8>::empty() + Seq::<u8>::empty() =~= Seq::<u8>::empty());
            }
            assert(buf_view(buf) =~= (if old(self).iv_pending() {
                v
            } else {
                Seq::<u8>::empty()
            }) + C::out_of(k, v, h, data@));
        }
        let rem = buf_len(&buf);
        if rem == 0 {
            self.steps = EncryptWriteStep::Nothing;
        } else {
            self.steps = EncryptWriteStep::Writing(buf);
        }
        proof {
            assert(self.sent() + self.pending() =~= self.wire_model());
        }
        Ok(())
    }

    /// Acknowledge that the transport accepted `n` of the staged bytes.
    /// Zero bytes accepted while bytes are pending is a broken transport
    /// — an unexpected-end-of-stream error, never a retry — and changes
    /// nothing.  Otherwise the staged buffer shrinks by exactly `n`, and
    /// the writer returns to idle once it is drained.
    pub fn ack_written(&mut self, n: usize) -> (r: Result<(), StreamError>)
        requires
            old(self).wf(),
            !old(self).is_idle(),
            old(self).pending().len() > 0,
            n <= old(self).pending().len(),
        ensures
            match r {
                Ok(()) => {
                    &&& n > 0
                    &&& final(self).wf()
                    &&& final(self).key() == old(self).key()
                    &&& final(self).iv_init() == old(self).iv_init()
                    &&& final(self).iv_pending() == old(self).iv_pending()
                    &&& final(self).submitted() == old(self).submitted()
                    &&& final(self).sent() == old(self).sent() + old(self).pending().take(n as int)
                    &&& final(self).pending() == old(self).pending().skip(n as int)
                    &&& (final(self).is_idle() <==> final(self).pending().len() == 0)
                },
                Err(e) => {
                    &&& e == StreamError::UnexpectedEof
                    &&& *final(self) == *old(self)
                },
            },
            (r is Err) <==> n == 0,
    {
        if n == 0 {
            return Err(StreamError::UnexpectedEof);
        }
        let mut step = EncryptWriteStep::Nothing;
        core::mem::swap(&mut step, &mut self.steps);
        match step {
            EncryptWriteStep::Writing(mut buf) => {
                self.sent = Ghost(self.sent@ + buf_view(buf).take(n as int));
                buf_advance(&mut buf, n);
                let rem = buf_len(&buf);
                if rem > 0 {
                    self.steps = EncryptWriteStep::Writing(buf);
                }
                proof {
                    assert(old(self).pending().take(n as int) + old(self).pending().skip(n as int)
                        =~= old(self).pending());
                    assert(self.sent() + self.pending() =~= old(self).sent() + old(self).pending());
                }
                Ok(())
            },
            EncryptWriteStep::Nothing => {
                proof {
                    assert(false);
                }
                Err(StreamError::UnexpectedEof)
            },
        }
    }
}

/// IV-once: every byte the writer has handed to the transport stands in
/// IV-then-ciphertext order — the acknowledged stream is always a prefix
/// of the wire model, whose first `iv_init().len()` bytes are the IV,
/// exactly once; once idle, the acknowledged stream is exactly the IV
/// followed by the ciphertext of all submitted plaintext.
pub proof fn lemma_iv_once<C: StreamCipher>(w: &EncryptedWriter<C>)
    requires
        w.wf(),
        !w.iv_pending(),
    ensures
        w.sent() + w.pending() == w.wire_model(),
        w.sent() == w.wire_model().take(w.sent().len() as int),
        w.is_idle() ==> w.sent() == w.iv_init() + w.ct(),
{
    assert(w.sent() =~= w.wire_model().take(w.sent().len() as int));
}

} // verus!
