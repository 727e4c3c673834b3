//! The whole transform: every byte XOR-ed with one key byte. XOR is its own
//! inverse, so the same call both scrambles and decodes.

use vstd::prelude::*;

verus! {

/// Key the UI starts on. Single-byte XOR, changeable in the app.
pub const DEFAULT_XOR_KEY: u8 = 0x77;

/// Every byte of `data` XOR-ed with `key`.
pub open spec fn xor_bytes(data: Seq<u8>, key: u8) -> Seq<u8> {
    data.map_values(|b: u8| b ^ key)
}

/// XOR every byte of `data` with `key`, in place.
///
/// This is the whole transform: it is symmetric, so the same call both
/// encodes and decodes.
pub fn xor_in_place(data: &mut [u8], key: u8)
    ensures
        final(data)@ == xor_bytes(old(data)@, key),
{
    let n = data.len();
    let mut i: usize = 0;
    while i < n
        invariant
            n == data@.len(),
            n == old(data)@.len(),
            0 <= i <= n,
            forall|j: int| 0 <= j < i ==> data@[j] == old(data)@[j] ^ key,
            forall|j: int| i <= j < n ==> data@[j] == old(data)@[j],
        decreases n - i,
    {
        let b = data[i];
        data[i] = b ^ key;
        i += 1;
    }
    assert(data@ =~= xor_bytes(old(data)@, key));
}

/// XOR is its own inverse: applying the same key twice gives back exactly the
/// bytes one started from.
pub proof fn lemma_xor_twice_restores(data: Seq<u8>, key: u8)
    ensures
        xor_bytes(xor_bytes(data, key), key) == data,
{
    assert forall|i: int| 0 <= i < data.len() implies #[trigger] xor_bytes(
        xor_bytes(data, key),
        key,
    )[i] == data[i] by {
        let b = data[i];
        assert((b ^ key) ^ key == b) by (bit_vector);
    }
    assert(xor_bytes(xor_bytes(data, key), key) =~= data);
}

/// With a key other than zero, XOR changes every single byte, so a scrambled
/// buffer differs from its original at each position; with the key zero it
/// changes nothing.
pub proof fn lemma_xor_changes_every_byte(data: Seq<u8>, key: u8)
    ensures
        xor_bytes(data, key).len() == data.len(),
        key != 0 ==> forall|i: int| 0 <= i < data.len() ==> #[trigger] xor_bytes(data, key)[i]
            != data[i],
        key == 0 ==> xor_bytes(data, key) == data,
{
    assert forall|i: int| 0 <= i < data.len() implies (#[trigger] xor_bytes(data, key)[i] != data[i]
        <==> key != 0) by {
        let b = data[i];
        assert((b ^ key != b) <==> key != 0) by (bit_vector);
    }
    if key == 0 {
        assert(xor_bytes(data, key) =~= data);
    }
}

} // verus!
