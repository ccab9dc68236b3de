use alloy::primitives::{Address, Bloom, Bytes, FixedBytes, U256};
use vstd::prelude::*;

verus! {

/// The lowercase hexadecimal digit for a value below sixteen.
pub open spec fn hex_digit(nibble: int) -> char {
    if nibble < 10 {
        (('0' as int) + nibble) as char
    } else {
        (('a' as int) + nibble - 10) as char
    }
}

/// The hexadecimal digits of `bytes`, two per byte, high nibble first.
pub open spec fn hex_digits(bytes: Seq<u8>) -> Seq<char> {
    Seq::new(
        2 * bytes.len(),
        |i: int|
            if i % 2 == 0 {
                hex_digit(bytes[i / 2] as int / 16)
            } else {
                hex_digit(bytes[i / 2] as int % 16)
            },
    )
}

/// The canonical textual form of a byte string: `0x` followed by its
/// lowercase hexadecimal digits.
pub open spec fn hex_text(bytes: Seq<u8>) -> Seq<char> {
    seq!['0', 'x'] + hex_digits(bytes)
}

/// The decimal digit for a value below ten.
pub open spec fn decimal_digit(d: nat) -> char {
    (('0' as nat) + d) as char
}

/// The decimal numeral of `n`, without leading zeros (`"0"` for zero).
pub open spec fn decimal_text(n: nat) -> Seq<char>
    decreases n,
{
    if n < 10 {
        seq![decimal_digit(n)]
    } else {
        decimal_text(n / 10).push(decimal_digit(n % 10))
    }
}

/// The number that a string of decimal digits denotes.
pub open spec fn decimal_value(text: Seq<char>) -> nat
    decreases text.len(),
{
    if text.len() == 0 {
        0
    } else {
        (10 * decimal_value(text.drop_last()) + (text.last() as nat - '0' as nat)) as nat
    }
}

/// The number whose big-endian base-256 digits are `bytes`.
pub open spec fn be_value(bytes: Seq<u8>) -> nat
    decreases bytes.len(),
{
    if bytes.len() == 0 {
        0
    } else {
        256 * be_value(bytes.drop_last()) + bytes.last() as nat
    }
}

/// A hexadecimal rendering has two characters per byte after its prefix.
pub proof fn lemma_hex_text_len(bytes: Seq<u8>)
    ensures
        hex_text(bytes).len() == 2 + 2 * bytes.len(),
        hex_text(bytes)[0] == '0',
        hex_text(bytes)[1] == 'x',
{
}

/// Reading a decimal numeral back yields the number it was written from.
pub proof fn lemma_decimal_round_trip(n: nat)
    ensures
        decimal_value(decimal_text(n)) == n,
    decreases n,
{
    if n < 10 {
        assert(decimal_text(n).drop_last() =~= Seq::<char>::empty());
        assert(decimal_value(decimal_text(n).drop_last()) == 0);
    } else {
        lemma_decimal_round_trip(n / 10);
        assert(decimal_text(n).drop_last() =~= decimal_text(n / 10));
    }
}

/// `Debug` of `alloy::primitives::FixedBytes<N>`: the bytes in lowercase
/// hexadecimal behind a `0x` prefix.
#[verifier::external_body]
pub(crate) fn fixed_bytes_hex<const N: usize>(bytes: &[u8; N]) -> (text: String)
    ensures
        text@ == hex_text(bytes@),
{
    format!("{:?}", FixedBytes::<N>::from(*bytes))
}

/// `Debug` of `alloy::primitives::Address`: the twenty bytes in lowercase
/// hexadecimal behind a `0x` prefix, without a checksum.
#[verifier::external_body]
pub(crate) fn address_hex(bytes: &[u8; 20]) -> (text: String)
    ensures
        text@ == hex_text(bytes@),
{
    format!("{:?}", Address::from(*bytes))
}

/// `Debug` of `alloy::primitives::Bloom`: the 256 bytes in lowercase
/// hexadecimal behind a `0x` prefix.
#[verifier::external_body]
pub(crate) fn bloom_hex(bytes: &[u8; 256]) -> (text: String)
    ensures
        text@ == hex_text(bytes@),
{
    format!("{:?}", Bloom::from(*bytes))
}

/// `Debug` of `alloy::primitives::Bytes`: the bytes in lowercase hexadecimal
/// behind a `0x` prefix (`0x` alone for an empty payload).
#[verifier::external_body]
pub(crate) fn bytes_hex(bytes: &Vec<u8>) -> (text: String)
    ensures
        text@ == hex_text(bytes@),
{
    format!("{:?}", Bytes::copy_from_slice(bytes))
}

/// `Display` of `alloy::primitives::U256`, built from its big-endian bytes:
/// the decimal numeral of the value, without leading zeros.
#[verifier::external_body]
pub(crate) fn u256_decimal(be_bytes: &[u8; 32]) -> (text: String)
    ensures
        text@ == decimal_text(be_value(be_bytes@)),
{
    format!("{}", U256::from_be_bytes(*be_bytes))
}

/// `Display` of `u128`: the decimal numeral of the value.
#[verifier::external_body]
pub(crate) fn u128_decimal(value: u128) -> (text: String)
    ensures
        text@ == decimal_text(value as nat),
{
    format!("{}", value)
}

} // verus!
