//! Cross-component laws: the encrypt/decrypt round trip.

use vstd::prelude::*;

use crate::cipher::{lemma_xor_round_trip, StreamCipher, XorStreamCipher};
use crate::reader::{lemma_reader_accounting, DecryptedReader};
use crate::writer::EncryptedWriter;

verus! {

/// Round-trip: whatever plaintext a writer has submitted — empty,
/// a single byte, or many chunks of any size — a reader with the same key
/// and IV that has consumed exactly the writer's ciphertext (the wire
/// stream after its IV prefix, in any chunking) has produced exactly that
/// plaintext.
pub proof fn lemma_round_trip(w: &EncryptedWriter<XorStreamCipher>, r: &DecryptedReader<XorStreamCipher>)
    requires
        w.wf(),
        r.wf(),
        r.key() == w.key(),
        r.iv() == w.iv_init(),
        r.consumed_ciphertext() == w.ct(),
    ensures
        r.delivered() + r.buffered() == w.submitted(),
{
    lemma_reader_accounting(r);
    lemma_xor_round_trip(r.key(), r.iv(), Seq::<u8>::empty(), w.submitted());
    assert(r.plaintext_model() =~= w.submitted());
}

} // verus!
