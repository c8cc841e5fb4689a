//! Payload codec: the first eight bytes of every payload hold the current
//! sequence number, little-endian; the remaining bytes are opaque filler that
//! only sets the message size and is echoed back unchanged by the peer.

use vstd::prelude::*;

verus! {

use vstd::bytes::{
    lemma_auto_spec_u64_to_from_le_bytes, spec_u64_from_le_bytes, spec_u64_to_le_bytes,
    u64_from_le_bytes, u64_to_le_bytes,
};
use vstd::slice::slice_subrange;

/// Number of leading payload bytes that carry the sequence number.
pub const SEQ_BYTES: usize = 8;

/// The sequence number carried in the first eight bytes of a payload.
pub open spec fn payload_seq(payload: Seq<u8>) -> u64
    recommends
        payload.len() >= 8,
{
    spec_u64_from_le_bytes(payload.subrange(0, 8))
}

/// Overwrite bytes [0, 8) of `payload` with the little-endian encoding of
/// `seq`; the filler bytes beyond the prefix are left exactly as they were.
pub fn encode(payload: &mut Vec<u8>, seq: u64)
    requires
        old(payload).len() >= SEQ_BYTES,
    ensures
        final(payload).len() == old(payload).len(),
        final(payload)@.subrange(0, 8) == spec_u64_to_le_bytes(seq),
        final(payload)@.skip(8) == old(payload)@.skip(8),
        payload_seq(final(payload)@) == seq,
{
    proof {
        lemma_auto_spec_u64_to_from_le_bytes();
    }
    let prefix = u64_to_le_bytes(seq);
    let mut i: usize = 0;
    while i < 8
        invariant
            i <= 8,
            prefix@ == spec_u64_to_le_bytes(seq),
            prefix@.len() == 8,
            payload@.len() == old(payload)@.len(),
            payload@.len() >= 8,
            forall|j: int| 0 <= j < i ==> payload@[j] == prefix@[j],
            forall|j: int| i <= j < payload@.len() ==> payload@[j] == old(payload)@[j],
        decreases 8 - i,
    {
        let b = prefix[i];
        payload.set(i, b);
        i = i + 1;
    }
    proof {
        assert(payload@.subrange(0, 8) =~= prefix@);
        assert(payload@.skip(8) =~= old(payload)@.skip(8));
    }
}

/// Read the little-endian sequence number from bytes [0, 8) of `payload`.
pub fn decode(payload: &Vec<u8>) -> (seq: u64)
    requires
        payload.len() >= SEQ_BYTES,
    ensures
        seq == payload_seq(payload@),
{
    let prefix = slice_subrange(payload.as_slice(), 0, 8);
    u64_from_le_bytes(prefix)
}

/// Round-trip identity: decoding a payload right after `encode` wrote `seq`
/// into its prefix yields `seq` again, whatever the filler bytes hold.
pub proof fn lemma_round_trip(payload: Seq<u8>, seq: u64)
    requires
        payload.len() >= 8,
        payload.subrange(0, 8) == spec_u64_to_le_bytes(seq),
    ensures
        payload_seq(payload) == seq,
{
    lemma_auto_spec_u64_to_from_le_bytes();
}

} // verus!
