//! Base32 text (RFC 4648 alphabet, no padding) as a mathematical function on
//! octet strings, and the call that computes it.

use vstd::prelude::*;

verus! {

/// Bit `j` of an octet, counted from the most significant bit.
pub open spec fn octet_bit(octet: int, j: int) -> int {
    if j == 0 {
        octet / 128 % 2
    } else if j == 1 {
        octet / 64 % 2
    } else if j == 2 {
        octet / 32 % 2
    } else if j == 3 {
        octet / 16 % 2
    } else if j == 4 {
        octet / 8 % 2
    } else if j == 5 {
        octet / 4 % 2
    } else if j == 6 {
        octet / 2 % 2
    } else {
        octet % 2
    }
}

/// Bit `i` of the bit stream that `data` spells out, most significant bit of
/// each octet first. Past the end the stream continues with zero bits.
pub open spec fn stream_bit(data: Seq<u8>, i: int) -> int {
    if 0 <= i < 8 * data.len() {
        octet_bit(data[i / 8] as int, i % 8)
    } else {
        0
    }
}

/// The `k`-th group of five bits of the stream, read as a number below 32.
pub open spec fn quintet(data: Seq<u8>, k: int) -> int {
    16 * stream_bit(data, 5 * k) + 8 * stream_bit(data, 5 * k + 1) + 4 * stream_bit(
        data,
        5 * k + 2,
    ) + 2 * stream_bit(data, 5 * k + 3) + stream_bit(data, 5 * k + 4)
}

/// The alphabet: `A` to `Z` for the values 0 to 25, `2` to `7` for 26 to 31.
pub open spec fn alphabet() -> Seq<char> {
    "ABCDEFGHIJKLMNOPQRSTUVWXYZ234567"@
}

/// The character that stands for a five-bit value.
pub open spec fn symbol(value: int) -> char {
    alphabet()[value]
}

/// Number of symbols that encode `octets` octets without padding.
pub open spec fn encoded_len(octets: nat) -> nat {
    ((8 * octets + 4) / 5) as nat
}

/// Unpadded base32 text of `data`: one symbol per started group of five bits.
pub open spec fn base32_unpadded(data: Seq<u8>) -> Seq<char> {
    Seq::new(encoded_len(data.len()), |k: int| symbol(quintet(data, k)))
}

/// Encodes `data` with `base32::encode` under the RFC 4648 alphabet without
/// padding. The contract is taken on trust: the call returns one alphabet
/// symbol for each started five-bit group of the input's bit stream, the last
/// group filled up with zero bits, and no `=` after them.
#[verifier::external_body]
pub(crate) fn encode_unpadded(data: &[u8]) -> (text: String)
    ensures
        text@ == base32_unpadded(data@),
{
    base32::encode(base32::Alphabet::RFC4648 { padding: false }, data)
}

/// Whether `c` belongs to the alphabet.
pub open spec fn is_symbol(c: char) -> bool {
    ('A' <= c && c <= 'Z') || ('2' <= c && c <= '7')
}

/// The five-bit value that an alphabet character stands for.
pub open spec fn symbol_value(c: char) -> int {
    if 'A' <= c && c <= 'Z' {
        c as int - 65
    } else {
        c as int - 24
    }
}

/// Bit `j` of a five-bit value, counted from the most significant bit.
pub open spec fn quintet_bit(value: int, j: int) -> int {
    if j == 0 {
        value / 16 % 2
    } else if j == 1 {
        value / 8 % 2
    } else if j == 2 {
        value / 4 % 2
    } else if j == 3 {
        value / 2 % 2
    } else {
        value % 2
    }
}

/// Bit `i` of the bit stream that base32 `text` spells out, five bits per
/// symbol.
pub open spec fn text_bit(text: Seq<char>, i: int) -> int {
    if 0 <= i < 5 * text.len() {
        quintet_bit(symbol_value(text[i / 5]), i % 5)
    } else {
        0
    }
}

/// The `m`-th group of eight bits of the stream that `text` spells out.
pub open spec fn octet(text: Seq<char>, m: int) -> int {
    128 * text_bit(text, 8 * m) + 64 * text_bit(text, 8 * m + 1) + 32 * text_bit(
        text,
        8 * m + 2,
    ) + 16 * text_bit(text, 8 * m + 3) + 8 * text_bit(text, 8 * m + 4) + 4 * text_bit(
        text,
        8 * m + 5,
    ) + 2 * text_bit(text, 8 * m + 6) + text_bit(text, 8 * m + 7)
}

/// Number of whole octets that `symbols` symbols carry.
pub open spec fn decoded_len(symbols: nat) -> nat {
    (5 * symbols / 8) as nat
}

/// The octets that unpadded base32 `text` carries, or `None` where a
/// character lies outside the alphabet. Bits left over after the last whole
/// octet are dropped.
pub open spec fn base32_decoded(text: Seq<char>) -> Option<Seq<u8>> {
    if forall|k: int| 0 <= k < text.len() ==> is_symbol(#[trigger] text[k]) {
        Some(Seq::new(decoded_len(text.len()), |m: int| octet(text, m) as u8))
    } else {
        None
    }
}

/// Every five-bit value has a symbol of the alphabet, which stands for that
/// value again and is never the separator `+`.
pub proof fn lemma_symbol_value(value: int)
    requires
        0 <= value < 32,
    ensures
        is_symbol(symbol(value)),
        symbol_value(symbol(value)) == value,
        symbol(value) != '+',
{
    reveal_strlit("ABCDEFGHIJKLMNOPQRSTUVWXYZ234567");
}

/// A bit of the stream is 0 or 1.
pub proof fn lemma_stream_bit_range(data: Seq<u8>, i: int)
    ensures
        0 <= stream_bit(data, i) <= 1,
{
}

/// A quintet is a number below 32 whose bits are the stream's bits.
pub proof fn lemma_quintet_bits(data: Seq<u8>, k: int, j: int)
    requires
        0 <= j < 5,
    ensures
        0 <= quintet(data, k) < 32,
        quintet_bit(quintet(data, k), j) == stream_bit(data, 5 * k + j),
{
    lemma_stream_bit_range(data, 5 * k);
    lemma_stream_bit_range(data, 5 * k + 1);
    lemma_stream_bit_range(data, 5 * k + 2);
    lemma_stream_bit_range(data, 5 * k + 3);
    lemma_stream_bit_range(data, 5 * k + 4);
}

/// An octet is the sum of its bits, each at its weight.
pub proof fn lemma_octet_from_bits(value: int)
    requires
        0 <= value < 256,
    ensures
        128 * octet_bit(value, 0) + 64 * octet_bit(value, 1) + 32 * octet_bit(value, 2) + 16
            * octet_bit(value, 3) + 8 * octet_bit(value, 4) + 4 * octet_bit(value, 5) + 2
            * octet_bit(value, 6) + octet_bit(value, 7) == value,
{
    let v = value as u32;
    assert(128 * (v / 128 % 2) + 64 * (v / 64 % 2) + 32 * (v / 32 % 2) + 16 * (v / 16 % 2) + 8 * (v
        / 8 % 2) + 4 * (v / 4 % 2) + 2 * (v / 2 % 2) + v % 2 == v) by (bit_vector)
        requires
            v < 256,
    ;
}

/// The text of `data` spells out the bit stream of `data`.
pub proof fn lemma_text_bit_of_encoding(data: Seq<u8>, i: int)
    requires
        0 <= i < 8 * data.len(),
    ensures
        text_bit(base32_unpadded(data), i) == stream_bit(data, i),
{
    let text = base32_unpadded(data);
    let k = i / 5;
    assert(0 <= k < text.len());
    lemma_quintet_bits(data, k, i % 5);
    lemma_symbol_value(quintet(data, k));
    assert(text[k] == symbol(quintet(data, k)));
}

/// Bit `j` of octet `m` of `data` is bit `8 * m + j` of its stream, and the
/// text of `data` spells out the same bit there.
pub proof fn lemma_text_bit_of_octet(data: Seq<u8>, m: int, j: int)
    requires
        0 <= m < data.len(),
        0 <= j < 8,
    ensures
        text_bit(base32_unpadded(data), 8 * m + j) == octet_bit(data[m] as int, j),
{
    let i = 8 * m + j;
    assert(i / 8 == m && i % 8 == j);
    lemma_text_bit_of_encoding(data, i);
}

/// The text of `data` carries octet `m` of `data` at place `m`.
pub proof fn lemma_octet_of_encoding(data: Seq<u8>, m: int)
    requires
        0 <= m < data.len(),
    ensures
        octet(base32_unpadded(data), m) == data[m] as int,
{
    lemma_text_bit_of_octet(data, m, 0);
    lemma_text_bit_of_octet(data, m, 1);
    lemma_text_bit_of_octet(data, m, 2);
    lemma_text_bit_of_octet(data, m, 3);
    lemma_text_bit_of_octet(data, m, 4);
    lemma_text_bit_of_octet(data, m, 5);
    lemma_text_bit_of_octet(data, m, 6);
    lemma_text_bit_of_octet(data, m, 7);
    lemma_octet_from_bits(data[m] as int);
}

/// Decoding the unpadded base32 text of `data` gives `data` back.
pub proof fn lemma_base32_round_trip(data: Seq<u8>)
    ensures
        base32_decoded(base32_unpadded(data)) == Some(data),
{
    let text = base32_unpadded(data);
    assert forall|k: int| 0 <= k < text.len() implies is_symbol(#[trigger] text[k]) by {
        lemma_quintet_bits(data, k, 0);
        lemma_symbol_value(quintet(data, k));
    }
    assert(decoded_len(text.len()) == data.len());
    let back = Seq::new(decoded_len(text.len()), |m: int| octet(text, m) as u8);
    assert forall|m: int| 0 <= m < data.len() implies back[m] == data[m] by {
        lemma_octet_of_encoding(data, m);
    }
    assert(back =~= data);
}

/// No character of a base32 text is the separator `+`.
pub proof fn lemma_base32_has_no_separator(data: Seq<u8>)
    ensures
        forall|k: int|
            0 <= k < base32_unpadded(data).len() ==> #[trigger] base32_unpadded(data)[k] != '+',
{
    let text = base32_unpadded(data);
    assert forall|k: int| 0 <= k < text.len() implies #[trigger] text[k] != '+' by {
        lemma_quintet_bits(data, k, 0);
        lemma_symbol_value(quintet(data, k));
    }
}

} // verus!
