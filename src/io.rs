use vstd::prelude::*;

verus! {

/// The byte every stored grid file is XOR-masked with.
pub const KEY: u8 = 0xAA;

/// `b` masked with the key.
pub open spec fn masked(b: u8) -> u8 {
    b ^ KEY
}

/// Masks every byte with the key, in place. Applying it again restores the
/// unmasked bytes.
pub fn obfuscate(data: &mut [u8])
    ensures
        final(data)@.len() == old(data)@.len(),
        forall|i: int| 0 <= i < old(data)@.len() ==> #[trigger] final(data)@[i] == masked(old(data)@[i]),
{
    let mut i: usize = 0;
    while i < data.len()
        invariant
            i <= data@.len(),
            data@.len() == old(data)@.len(),
            forall|k: int| 0 <= k < i ==> #[trigger] data@[k] == masked(old(data)@[k]),
            forall|k: int| i <= k < data@.len() ==> #[trigger] data@[k] == old(data)@[k],
        decreases data@.len() - i,
    {
        let b = data[i];
        data[i] = b ^ KEY;
        i = i + 1;
    }
}

/// Masking twice gives back the unmasked byte.
pub proof fn lemma_mask_involution(b: u8)
    ensures
        masked(masked(b)) == b,
{
    assert((b ^ 0xAAu8) ^ 0xAAu8 == b) by (bit_vector);
}

/// Masking a byte string twice gives back the unmasked bytes, so a stored grid
/// reads back as the encoding it was written from.
pub proof fn lemma_obfuscate_round_trip(plain: Seq<u8>, once: Seq<u8>, twice: Seq<u8>)
    requires
        once.len() == plain.len(),
        forall|i: int| 0 <= i < plain.len() ==> #[trigger] once[i] == masked(plain[i]),
        twice.len() == once.len(),
        forall|i: int| 0 <= i < once.len() ==> #[trigger] twice[i] == masked(once[i]),
    ensures
        twice == plain,
{
    assert forall|i: int| 0 <= i < plain.len() implies twice[i] == plain[i] by {
        lemma_mask_involution(plain[i]);
    }
    assert(twice =~= plain);
}

} // verus!
