//! The streaming-cipher abstraction the reader and writer drive, and a
//! deterministic XOR-keystream cipher implementing it.
//!
//! A streaming cipher is keyed (and keyed-with-IV) at construction and is
//! advanced only through `update` and `finalize` calls made in arrival
//! order.  Its behaviour is modelled by two per-type transform functions:
//! `out_of` gives the bytes `update` emits for an input, given the bytes
//! already consumed, and `fin_of` gives the trailing bytes `finalize`
//! emits.  Chunking never changes the transform: consuming an input in two
//! updates emits the same bytes as consuming it in one (`lemma_out_chunk`),
//! which every implementation must prove.

use vstd::prelude::*;

use crate::byte_buffer::{buf_extend_from_slice, buf_view};

verus! {

/// A cryptographic failure inside a cipher (malformed state, bad tag).
/// Always terminal for the stream it occurs on.
#[derive(Clone, Copy, Debug, PartialEq, Eq, Structural)]
pub struct CipherError;

/// Incremental cipher state owned by exactly one reader or writer.
pub trait StreamCipher: Sized {
    /// The key material the cipher was constructed with.
    spec fn key(&self) -> Seq<u8>;

    /// The IV the cipher was constructed with.
    spec fn iv(&self) -> Seq<u8>;

    /// All input bytes consumed through `update` so far, in order.
    spec fn consumed(&self) -> Seq<u8>;

    /// Whether `finalize` has been called.
    spec fn finalized(&self) -> bool;

    /// The implementation's internal well-formedness condition.
    spec fn inv(&self) -> bool;

    /// The transform: the bytes one `update(input)` call emits when
    /// `history` has already been consumed under `key` and `iv`.
    spec fn out_of(key: Seq<u8>, iv: Seq<u8>, history: Seq<u8>, input: Seq<u8>) -> Seq<u8>;

    /// The trailing bytes `finalize` emits after `history` was consumed.
    spec fn fin_of(key: Seq<u8>, iv: Seq<u8>, history: Seq<u8>) -> Seq<u8>;

    /// The transform emits nothing for an empty input.
    proof fn lemma_out_nil(key: Seq<u8>, iv: Seq<u8>, history: Seq<u8>)
        ensures
            Self::out_of(key, iv, history, Seq::<u8>::empty()) == Seq::<u8>::empty(),
    ;

    /// Chunking independence of the transform: feeding `a` then `b`
    /// emits the same bytes as feeding `a + b` at once.
    proof fn lemma_out_chunk(key: Seq<u8>, iv: Seq<u8>, history: Seq<u8>, a: Seq<u8>, b: Seq<u8>)
        ensures
            Self::out_of(key, iv, history, a + b)
                == Self::out_of(key, iv, history, a) + Self::out_of(key, iv, history + a, b),
    ;

    /// Worst-case output sizing: an upper bound on the bytes the next
    /// `update(data)` would emit, and, for an empty input, also on the
    /// bytes `finalize` would emit.
    fn buffer_size(&self, data: &[u8]) -> (n: usize)
        requires
            self.inv(),
        ensures
            Self::out_of(self.key(), self.iv(), self.consumed(), data@).len() <= n,
            data@.len() == 0 ==> Self::fin_of(self.key(), self.iv(), self.consumed()).len() <= n,
    ;

    /// Consume `data`, appending the emitted bytes to `buf`.
    fn update(&mut self, data: &[u8], buf: &mut bytes::BytesMut) -> (r: Result<(), CipherError>)
        requires
            old(self).inv(),
            !old(self).finalized(),
            buf_view(*old(buf)).len()
                + Self::out_of(old(self).key(), old(self).iv(), old(self).consumed(), data@).len()
                <= usize::MAX,
        ensures
            match r {
                Ok(()) => {
                    &&& final(self).inv()
                    &&& final(self).key() == old(self).key()
                    &&& final(self).iv() == old(self).iv()
                    &&& !final(self).finalized()
                    &&& final(self).consumed() == old(self).consumed() + data@
                    &&& buf_view(*final(buf)) == buf_view(*old(buf))
                        + Self::out_of(old(self).key(), old(self).iv(), old(self).consumed(), data@)
                },
                Err(_) => true,
            },
    ;

    /// Emit any trailing bytes (padding, tag) into `buf` and become final.
    fn finalize(&mut self, buf: &mut bytes::BytesMut) -> (r: Result<(), CipherError>)
        requires
            old(self).inv(),
            !old(self).finalized(),
            buf_view(*old(buf)).len()
                + Self::fin_of(old(self).key(), old(self).iv(), old(self).consumed()).len()
                <= usize::MAX,
        ensures
            match r {
                Ok(()) => {
                    &&& final(self).inv()
                    &&& final(self).key() == old(self).key()
                    &&& final(self).iv() == old(self).iv()
                    &&& final(self).finalized()
                    &&& final(self).consumed() == old(self).consumed()
                    &&& buf_view(*final(buf)) == buf_view(*old(buf))
                        + Self::fin_of(old(self).key(), old(self).iv(), old(self).consumed())
                },
                Err(_) => true,
            },
    ;
}

/// One keystream byte at stream position `i`: the key byte and IV byte at
/// that position, each cycled, combined by XOR.  An empty key or IV
/// contributes nothing.
pub open spec fn xor_ks_byte(key: Seq<u8>, iv: Seq<u8>, i: int) -> u8 {
    (if key.len() > 0 {
        key[i % (key.len() as int)]
    } else {
        0u8
    }) ^ (if iv.len() > 0 {
        iv[i % (iv.len() as int)]
    } else {
        0u8
    })
}

/// The XOR cipher's transform: each input byte XORed with the keystream
/// byte at its stream position.
pub open spec fn xor_transform(key: Seq<u8>, iv: Seq<u8>, history: Seq<u8>, input: Seq<u8>) -> Seq<u8> {
    Seq::new(input.len(), |j: int| input[j] ^ xor_ks_byte(key, iv, history.len() + j))
}

proof fn lemma_xor_cancel(a: u8, b: u8)
    ensures
        (a ^ b) ^ b == a,
{
    assert((a ^ b) ^ b == a) by (bit_vector);
}

proof fn lemma_mod_step(n: int, k: int)
    requires
        k > 0,
        n >= 0,
    ensures
        (n + 1) % k == if n % k + 1 < k {
            n % k + 1
        } else {
            0
        },
{
    assert((n + 1) % k == if n % k + 1 < k {
        n % k + 1
    } else {
        0
    }) by (nonlinear_arith)
        requires
            k > 0,
            n >= 0,
    ;
}

/// Applying the XOR transform twice with the same key, IV and stream
/// position gives back the input: the keystream byte cancels itself.
pub proof fn lemma_xor_round_trip(key: Seq<u8>, iv: Seq<u8>, history: Seq<u8>, p: Seq<u8>)
    ensures
        xor_transform(key, iv, history, xor_transform(key, iv, history, p)) == p,
{
    let c = xor_transform(key, iv, history, p);
    assert forall|j: int| 0 <= j < p.len() implies xor_transform(key, iv, history, c)[j] == p[j] by {
        lemma_xor_cancel(p[j], xor_ks_byte(key, iv, history.len() + j));
    }
    assert(xor_transform(key, iv, history, c) =~= p);
}

/// A deterministic XOR-keystream cipher with explicit, inspectable
/// position.  Encrypting and decrypting are the same transform, so one
/// instance in each direction with matching key and IV round-trips.
pub struct XorStreamCipher {
    key: Vec<u8>,
    iv: Vec<u8>,
    key_pos: usize,
    iv_pos: usize,
    done: bool,
    eaten: Ghost<Seq<u8>>,
}

impl XorStreamCipher {
    pub fn new(key: &[u8], iv: &[u8]) -> (c: Self)
        ensures
            c.inv(),
            c.key() == key@,
            c.iv() == iv@,
            c.consumed() == Seq::<u8>::empty(),
            !c.finalized(),
    {
        proof {
            if key@.len() > 0 {
                vstd::arithmetic::div_mod::lemma_small_mod(0nat, key@.len());
            }
            if iv@.len() > 0 {
                vstd::arithmetic::div_mod::lemma_small_mod(0nat, iv@.len());
            }
        }
        XorStreamCipher {
            key: vstd::slice::slice_to_vec(key),
            iv: vstd::slice::slice_to_vec(iv),
            key_pos: 0,
            iv_pos: 0,
            done: false,
            eaten: Ghost(Seq::empty()),
        }
    }
}

impl StreamCipher for XorStreamCipher {
    closed spec fn key(&self) -> Seq<u8> {
        self.key@
    }

    closed spec fn iv(&self) -> Seq<u8> {
        self.iv@
    }

    closed spec fn consumed(&self) -> Seq<u8> {
        self.eaten@
    }

    closed spec fn finalized(&self) -> bool {
        self.done
    }

    closed spec fn inv(&self) -> bool {
        &&& if self.key@.len() > 0 {
            self.key_pos == self.eaten@.len() % self.key@.len()
        } else {
            self.key_pos == 0
        }
        &&& if self.iv@.len() > 0 {
            self.iv_pos == self.eaten@.len() % self.iv@.len()
        } else {
            self.iv_pos == 0
        }
    }

    open spec fn out_of(key: Seq<u8>, iv: Seq<u8>, history: Seq<u8>, input: Seq<u8>) -> Seq<u8> {
        xor_transform(key, iv, history, input)
    }

    open spec fn fin_of(key: Seq<u8>, iv: Seq<u8>, history: Seq<u8>) -> Seq<u8> {
        Seq::<u8>::empty()
    }

    proof fn lemma_out_nil(key: Seq<u8>, iv: Seq<u8>, history: Seq<u8>) {
        assert(xor_transform(key, iv, history, Seq::<u8>::empty()) =~= Seq::<u8>::empty());
    }

    proof fn lemma_out_chunk(key: Seq<u8>, iv: Seq<u8>, history: Seq<u8>, a: Seq<u8>, b: Seq<u8>) {
        let lhs = xor_transform(key, iv, history, a + b);
        let rhs = xor_transform(key, iv, history, a) + xor_transform(key, iv, history + a, b);
        assert forall|j: int| 0 <= j < lhs.len() implies lhs[j] == rhs[j] by {
            if j < a.len() {
                assert((a + b)[j] == a[j]);
            } else {
                assert((a + b)[j] == b[j - a.len()]);
                assert((history + a).len() == history.len() + a.len());
            }
        }
        assert(lhs =~= rhs);
    }

    fn buffer_size(&self, data: &[u8]) -> (n: usize)
        ensures
            n == data@.len(),
    {
        data.len()
    }

    fn update(&mut self, data: &[u8], buf: &mut bytes::BytesMut) -> (r: Result<(), CipherError>)
        ensures
            r is Ok,
    {
        let ghost history = self.eaten@;
        let klen = self.key.len();
        let ilen = self.iv.len();
        let mut kp = self.key_pos;
        let mut ip = self.iv_pos;
        let n = data.len();
        let mut out: Vec<u8> = Vec::new();
        let mut j: usize = 0;
        while j < n
            invariant
                j <= n,
                n == data@.len(),
                klen == self.key@.len(),
                ilen == self.iv@.len(),
                klen > 0 ==> kp == (history.len() + j) % (klen as int),
                klen == 0 ==> kp == 0,
                ilen > 0 ==> ip == (history.len() + j) % (ilen as int),
                ilen == 0 ==> ip == 0,
                out@ =~= xor_transform(self.key@, self.iv@, history, data@.take(j as int)),
            decreases n - j,
        {
            let b = *vstd::slice::slice_index_get(data, j);
            let kb = if klen > 0 {
                self.key[kp]
            } else {
                0u8
            };
            let ib = if ilen > 0 {
                self.iv[ip]
            } else {
                0u8
            };
            out.push(b ^ (kb ^ ib));
            proof {
                assert(b ^ (kb ^ ib) == data@[j as int] ^ xor_ks_byte(self.key@, self.iv@, history.len() + j));
                assert(out@ =~= xor_transform(self.key@, self.iv@, history, data@.take(j + 1)));
                if klen > 0 {
                    lemma_mod_step(history.len() + j, klen as int);
                }
                if ilen > 0 {
                    lemma_mod_step(history.len() + j, ilen as int);
                }
            }
            if klen > 0 {
                kp = kp + 1;
                if kp == klen {
                    kp = 0;
                }
            }
            if ilen > 0 {
                ip = ip + 1;
                if ip == ilen {
                    ip = 0;
                }
            }
            j = j + 1;
        }
        proof {
            assert(data@.take(n as int) =~= data@);
        }
        buf_extend_from_slice(buf, out.as_slice());
        self.key_pos = kp;
        self.iv_pos = ip;
        self.eaten = Ghost(self.eaten@ + data@);
        Ok(())
    }

    fn finalize(&mut self, buf: &mut bytes::BytesMut) -> (r: Result<(), CipherError>)
        ensures
            r is Ok,
    {
        self.done = true;
        proof {
            assert(buf_view(*buf) + Seq::<u8>::empty() =~= buf_view(*buf));
        }
        Ok(())
    }
}

} // verus!
