//! Fixed-width big-endian encoding of natural numbers, as used for public
//! keys on the wire and for the session key.

use vstd::prelude::*;

verus! {

/// Number of bytes of a key on the wire and of a session key.
pub const KEY_LEN: usize = 16;

/// A key on the wire, or a session key: exactly sixteen bytes.
pub type KeyBytes = [u8; 16];

/// 256 to the power `width`: the number of values that `width` bytes can hold.
pub open spec fn radix_power(width: nat) -> nat
    decreases width,
{
    if width == 0 {
        1
    } else {
        256 * radix_power((width - 1) as nat)
    }
}

/// The number that `bytes` spell, most significant byte first.
pub open spec fn be_value(bytes: Seq<u8>) -> nat
    decreases bytes.len(),
{
    if bytes.len() == 0 {
        0
    } else {
        be_value(bytes.drop_last()) * 256 + bytes.last() as nat
    }
}

/// The `width` lowest base-256 digits of `value`, most significant first.
pub open spec fn be_bytes(value: nat, width: nat) -> Seq<u8>
    decreases width,
{
    if width == 0 {
        Seq::empty()
    } else {
        be_bytes(value / 256, (width - 1) as nat).push((value % 256) as u8)
    }
}

/// `count` zero bytes.
pub open spec fn zero_bytes(count: nat) -> Seq<u8> {
    Seq::new(count, |i: int| 0u8)
}

/// A key of sixteen zero bytes.
pub fn zero_key() -> (key: KeyBytes)
    ensures
        key@ == zero_bytes(KEY_LEN as nat),
{
    let mut key: KeyBytes = [0u8; 16];
    let mut i: usize = 0;
    while i < KEY_LEN
        invariant
            i <= KEY_LEN,
            forall|j: int| 0 <= j < i ==> key@[j] == 0,
        decreases KEY_LEN - i,
    {
        key[i] = 0;
        i = i + 1;
    }
    assert(key@ =~= zero_bytes(KEY_LEN as nat));
    key
}

/// Sixteen bytes hold exactly the numbers below 2^128.
pub proof fn lemma_radix_power_16()
    ensures
        radix_power(16) == 0x1_0000_0000_0000_0000_0000_0000_0000_0000,
{
    reveal_with_fuel(radix_power, 17);
}

/// A wider field holds at least as many values.
pub proof fn lemma_radix_power_monotonic(narrow: nat, wide: nat)
    requires
        narrow <= wide,
    ensures
        radix_power(narrow) <= radix_power(wide),
    decreases wide,
{
    if narrow < wide {
        lemma_radix_power_monotonic(narrow, (wide - 1) as nat);
    }
}

/// An encoding has the width that was asked for.
pub proof fn lemma_be_bytes_len(value: nat, width: nat)
    ensures
        be_bytes(value, width).len() == width,
    decreases width,
{
    if width > 0 {
        lemma_be_bytes_len(value / 256, (width - 1) as nat);
    }
}

/// A byte string whose first byte is not zero spells a number that needs
/// all of its bytes.
pub proof fn lemma_be_value_lower_bound(bytes: Seq<u8>)
    requires
        bytes.len() >= 1,
        bytes[0] != 0,
    ensures
        be_value(bytes) >= radix_power((bytes.len() - 1) as nat),
    decreases bytes.len(),
{
    if bytes.len() == 1 {
        assert(bytes.drop_last().len() == 0);
    } else {
        assert(bytes.drop_last()[0] == bytes[0]);
        lemma_be_value_lower_bound(bytes.drop_last());
    }
}

/// The shortest byte string for a number below 2^128 has at most sixteen
/// bytes.
pub proof fn lemma_shortest_fits_key(bytes: Seq<u8>, value: u128)
    requires
        be_value(bytes) == value,
        bytes.len() > 1 ==> bytes[0] != 0,
    ensures
        bytes.len() <= KEY_LEN,
{
    if bytes.len() > KEY_LEN {
        lemma_be_value_lower_bound(bytes);
        lemma_radix_power_monotonic(16, (bytes.len() - 1) as nat);
        lemma_radix_power_16();
    }
}

/// Zero bytes in front do not change the value.
pub proof fn lemma_be_value_leading_zeros(count: nat, bytes: Seq<u8>)
    ensures
        be_value(zero_bytes(count) + bytes) == be_value(bytes),
    decreases bytes.len(), count,
{
    let padded = zero_bytes(count) + bytes;
    if bytes.len() > 0 {
        assert(padded.drop_last() =~= zero_bytes(count) + bytes.drop_last());
        lemma_be_value_leading_zeros(count, bytes.drop_last());
    } else if count > 0 {
        assert(padded.drop_last() =~= zero_bytes((count - 1) as nat) + bytes);
        lemma_be_value_leading_zeros((count - 1) as nat, bytes);
    } else {
        assert(padded =~= bytes);
    }
}

/// Decoding an encoding gives the number back, where the width suffices.
pub proof fn lemma_be_value_of_be_bytes(value: nat, width: nat)
    requires
        value < radix_power(width),
    ensures
        be_value(be_bytes(value, width)) == value,
    decreases width,
{
    if width > 0 {
        let head = be_bytes(value / 256, (width - 1) as nat);
        lemma_be_value_of_be_bytes(value / 256, (width - 1) as nat);
        assert(be_bytes(value, width).drop_last() =~= head);
    }
}

/// Encoding the value of a byte string at its own width gives the string back.
pub proof fn lemma_be_bytes_of_be_value(bytes: Seq<u8>)
    ensures
        be_bytes(be_value(bytes), bytes.len()) == bytes,
    decreases bytes.len(),
{
    if bytes.len() > 0 {
        lemma_be_bytes_of_be_value(bytes.drop_last());
        assert(be_value(bytes) / 256 == be_value(bytes.drop_last()));
        assert(be_value(bytes) % 256 == bytes.last() as nat);
        assert(bytes.drop_last().push(bytes.last()) =~= bytes);
    } else {
        assert(bytes =~= Seq::<u8>::empty());
    }
}

/// A byte string with zero bytes in front of it, as many as it takes to
/// fill a width, is the encoding of its value at that width.
pub proof fn lemma_be_bytes_of_padded(bytes: Seq<u8>, width: nat)
    requires
        bytes.len() <= width,
    ensures
        zero_bytes((width - bytes.len()) as nat) + bytes == be_bytes(be_value(bytes), width),
{
    let zeros = (width - bytes.len()) as nat;
    let padded = zero_bytes(zeros) + bytes;
    lemma_be_value_leading_zeros(zeros, bytes);
    lemma_be_bytes_of_be_value(padded);
}

} // verus!
