//! The typed-register codec: conversion between 16-bit register words
//! and typed scalar values.
//!
//! A 32-bit value occupies two consecutive register words.  Reading the
//! two words as four big-endian bytes, the four supported word orders
//! are the byte permutations ABCD (identity), BADC (bytes swapped within
//! each word), CDAB (the two words swapped) and DCBA (full reversal).
//! Floats travel as their IEEE-754 bit patterns; interpreting the bits
//! as a number is left to the display layer, so this module never
//! touches floating point itself.

use vstd::prelude::*;
use vstd::arithmetic::div_mod::{
    lemma_fundamental_div_mod,
    lemma_fundamental_div_mod_converse,
    lemma_mod_division_less_than_divisor,
};
use crate::format_spec::Formats;
use crate::format_spec::spec_is_32bit;
use crate::format_spec::is_32bit;
use crate::format_spec::is_register_format;

verus! {

/// The byte permutation used to reassemble a 32-bit value from two
/// consecutive big-endian register words.
#[derive(Clone, Copy, Debug, PartialEq, Eq, Structural)]
pub enum WordOrder {
    /// Identity: first word carries the two high bytes.
    Abcd,
    /// Bytes swapped within each word.
    Badc,
    /// The two words swapped.
    Cdab,
    /// Full reversal: bytes swapped within and across the words.
    Dcba,
}

/// A decoded scalar: the numeric reading of one or two register words.
/// The hex and binary formats share the unsigned variants and differ
/// only in how a display layer renders them.
#[derive(Clone, Copy, Debug, PartialEq, Eq, Structural)]
pub enum ScalarValue {
    U16(u16),
    I16(i16),
    U32(u32),
    I32(i32),
    /// The IEEE-754 bit pattern of a 32-bit float.
    F32Bits(u32),
}

/// The high byte of a register word.
pub open spec fn hi_byte(w: u16) -> u8 {
    (w / 0x100) as u8
}

/// The low byte of a register word.
pub open spec fn lo_byte(w: u16) -> u8 {
    (w % 0x100) as u8
}

/// The register word with high byte `h` and low byte `l`.
pub open spec fn word_of_bytes(h: u8, l: u8) -> u16 {
    (h * 0x100 + l) as u16
}

/// Byte 0 (most significant) of a 32-bit value.
pub open spec fn byte0(v: u32) -> u8 {
    ((v / 0x1000000) % 0x100) as u8
}

/// Byte 1 of a 32-bit value.
pub open spec fn byte1(v: u32) -> u8 {
    ((v / 0x10000) % 0x100) as u8
}

/// Byte 2 of a 32-bit value.
pub open spec fn byte2(v: u32) -> u8 {
    ((v / 0x100) % 0x100) as u8
}

/// Byte 3 (least significant) of a 32-bit value.
pub open spec fn byte3(v: u32) -> u8 {
    (v % 0x100) as u8
}

/// The 32-bit value with big-endian bytes `a`, `b`, `c`, `d`.
pub open spec fn u32_of_bytes(a: u8, b: u8, c: u8, d: u8) -> u32 {
    (a * 0x1000000 + b * 0x10000 + c * 0x100 + d) as u32
}

/// The two register words that carry `v` under `order`.
pub open spec fn spec_encode_u32(v: u32, order: WordOrder) -> (u16, u16) {
    match order {
        WordOrder::Abcd => (
            word_of_bytes(byte0(v), byte1(v)),
            word_of_bytes(byte2(v), byte3(v)),
        ),
        WordOrder::Badc => (
            word_of_bytes(byte1(v), byte0(v)),
            word_of_bytes(byte3(v), byte2(v)),
        ),
        WordOrder::Cdab => (
            word_of_bytes(byte2(v), byte3(v)),
            word_of_bytes(byte0(v), byte1(v)),
        ),
        WordOrder::Dcba => (
            word_of_bytes(byte3(v), byte2(v)),
            word_of_bytes(byte1(v), byte0(v)),
        ),
    }
}

/// The 32-bit value carried by the word pair (`w0`, `w1`) under `order`.
pub open spec fn spec_decode_u32(w0: u16, w1: u16, order: WordOrder) -> u32 {
    match order {
        WordOrder::Abcd => u32_of_bytes(hi_byte(w0), lo_byte(w0), hi_byte(w1), lo_byte(w1)),
        WordOrder::Badc => u32_of_bytes(lo_byte(w0), hi_byte(w0), lo_byte(w1), hi_byte(w1)),
        WordOrder::Cdab => u32_of_bytes(hi_byte(w1), lo_byte(w1), hi_byte(w0), lo_byte(w0)),
        WordOrder::Dcba => u32_of_bytes(lo_byte(w1), hi_byte(w1), lo_byte(w0), hi_byte(w0)),
    }
}

/// Splitting a word into bytes inverts assembling it.
proof fn lemma_bytes_of_word(h: u8, l: u8)
    ensures
        hi_byte(word_of_bytes(h, l)) == h,
        lo_byte(word_of_bytes(h, l)) == l,
{
    let x: int = h * 0x100 + l;
    lemma_fundamental_div_mod_converse(x, 0x100, h as int, l as int);
}

/// Assembling a word from its bytes gives the word back.
proof fn lemma_word_of_bytes_of_word(w: u16)
    ensures
        word_of_bytes(hi_byte(w), lo_byte(w)) == w,
{
    lemma_fundamental_div_mod(w as int, 0x100);
    lemma_mod_division_less_than_divisor(w as int, 0x100);
}

/// Assembling a 32-bit value from its own bytes gives the value back.
proof fn lemma_u32_of_bytes_of_u32(v: u32)
    ensures
        u32_of_bytes(byte0(v), byte1(v), byte2(v), byte3(v)) == v,
{
    let q1: int = v as int / 0x100;
    let q2: int = q1 / 0x100;
    let q3: int = q2 / 0x100;
    lemma_fundamental_div_mod(v as int, 0x100);
    lemma_mod_division_less_than_divisor(v as int, 0x100);
    lemma_fundamental_div_mod(q1, 0x100);
    lemma_mod_division_less_than_divisor(q1, 0x100);
    lemma_fundamental_div_mod(q2, 0x100);
    lemma_mod_division_less_than_divisor(q2, 0x100);
    let r3: int = v as int % 0x100;
    let r2: int = q1 % 0x100;
    let r1: int = q2 % 0x100;
    lemma_fundamental_div_mod_converse(v as int, 0x10000, q2, r2 * 0x100 + r3);
    lemma_fundamental_div_mod_converse(v as int, 0x1000000, q3, (r1 * 0x10000 + r2 * 0x100 + r3));
    lemma_fundamental_div_mod_converse(q3, 0x100, 0, q3);
}

/// Taking the bytes of an assembled 32-bit value gives the bytes back.
proof fn lemma_bytes_of_u32_of_bytes(a: u8, b: u8, c: u8, d: u8)
    ensures
        byte0(u32_of_bytes(a, b, c, d)) == a,
        byte1(u32_of_bytes(a, b, c, d)) == b,
        byte2(u32_of_bytes(a, b, c, d)) == c,
        byte3(u32_of_bytes(a, b, c, d)) == d,
{
    let x: int = a * 0x1000000 + b * 0x10000 + c * 0x100 + d;
    lemma_fundamental_div_mod_converse(x, 0x100, a * 0x10000 + b * 0x100 + c, d as int);
    lemma_fundamental_div_mod_converse(a * 0x10000 + b * 0x100 + c, 0x100, a * 0x100 + b, c as int);
    lemma_fundamental_div_mod_converse(x, 0x10000, a * 0x100 + b, c * 0x100 + d);
    lemma_fundamental_div_mod_converse(a * 0x100 + b, 0x100, a as int, b as int);
    lemma_fundamental_div_mod_converse(x, 0x1000000, a as int, b * 0x10000 + c * 0x100 + d);
    lemma_fundamental_div_mod_converse(a as int, 0x100, 0, a as int);
}

/// Decoding the two words that encode `v` yields `v` again, under every
/// word order.
pub proof fn lemma_u32_round_trip(v: u32, order: WordOrder)
    ensures
        spec_decode_u32(spec_encode_u32(v, order).0, spec_encode_u32(v, order).1, order) == v,
{
    lemma_bytes_of_word(byte0(v), byte1(v));
    lemma_bytes_of_word(byte1(v), byte0(v));
    lemma_bytes_of_word(byte2(v), byte3(v));
    lemma_bytes_of_word(byte3(v), byte2(v));
    lemma_u32_of_bytes_of_u32(v);
}

/// Encoding the value decoded from a word pair yields the same pair,
/// under every word order.
pub proof fn lemma_words_round_trip(w0: u16, w1: u16, order: WordOrder)
    ensures
        spec_encode_u32(spec_decode_u32(w0, w1, order), order) == (w0, w1),
{
    lemma_bytes_of_u32_of_bytes(hi_byte(w0), lo_byte(w0), hi_byte(w1), lo_byte(w1));
    lemma_bytes_of_u32_of_bytes(lo_byte(w0), hi_byte(w0), lo_byte(w1), hi_byte(w1));
    lemma_bytes_of_u32_of_bytes(hi_byte(w1), lo_byte(w1), hi_byte(w0), lo_byte(w0));
    lemma_bytes_of_u32_of_bytes(lo_byte(w1), hi_byte(w1), lo_byte(w0), hi_byte(w0));
    lemma_word_of_bytes_of_word(w0);
    lemma_word_of_bytes_of_word(w1);
}

/// The two register words that carry `v` under `order`.
pub fn encode_u32(v: u32, order: WordOrder) -> (r: (u16, u16))
    ensures
        r == spec_encode_u32(v, order),
{
    let b0: u8 = ((v / 0x1000000) % 0x100) as u8;
    let b1: u8 = ((v / 0x10000) % 0x100) as u8;
    let b2: u8 = ((v / 0x100) % 0x100) as u8;
    let b3: u8 = (v % 0x100) as u8;
    match order {
        WordOrder::Abcd => (word_exec(b0, b1), word_exec(b2, b3)),
        WordOrder::Badc => (word_exec(b1, b0), word_exec(b3, b2)),
        WordOrder::Cdab => (word_exec(b2, b3), word_exec(b0, b1)),
        WordOrder::Dcba => (word_exec(b3, b2), word_exec(b1, b0)),
    }
}

/// The 32-bit value carried by the word pair (`w0`, `w1`) under `order`.
pub fn decode_u32(w0: u16, w1: u16, order: WordOrder) -> (r: u32)
    ensures
        r == spec_decode_u32(w0, w1, order),
{
    let h0: u8 = (w0 / 0x100) as u8;
    let l0: u8 = (w0 % 0x100) as u8;
    let h1: u8 = (w1 / 0x100) as u8;
    let l1: u8 = (w1 % 0x100) as u8;
    match order {
        WordOrder::Abcd => u32_exec(h0, l0, h1, l1),
        WordOrder::Badc => u32_exec(l0, h0, l1, h1),
        WordOrder::Cdab => u32_exec(h1, l1, h0, l0),
        WordOrder::Dcba => u32_exec(l1, h1, l0, h0),
    }
}

/// The register word with high byte `h` and low byte `l`.
fn word_exec(h: u8, l: u8) -> (r: u16)
    ensures
        r == word_of_bytes(h, l),
{
    (h as u16) * 0x100 + (l as u16)
}

/// The 32-bit value with big-endian bytes `a`, `b`, `c`, `d`.
fn u32_exec(a: u8, b: u8, c: u8, d: u8) -> (r: u32)
    ensures
        r == u32_of_bytes(a, b, c, d),
{
    (a as u32) * 0x1000000 + (b as u32) * 0x10000 + (c as u32) * 0x100 + (d as u32)
}

/// The signed reading of a register word (two's complement).
pub open spec fn spec_u16_to_i16(w: u16) -> i16 {
    if w < 0x8000 {
        w as i16
    } else {
        (w - 0x10000) as i16
    }
}

/// The word that carries a signed 16-bit value (two's complement).
pub open spec fn spec_i16_to_u16(v: i16) -> u16 {
    if v >= 0 {
        v as u16
    } else {
        (v + 0x10000) as u16
    }
}

/// The signed reading of a 32-bit bit pattern (two's complement).
pub open spec fn spec_u32_to_i32(b: u32) -> i32 {
    if b < 0x80000000 {
        b as i32
    } else {
        (b - 0x100000000) as i32
    }
}

/// The bit pattern that carries a signed 32-bit value (two's complement).
pub open spec fn spec_i32_to_u32(v: i32) -> u32 {
    if v >= 0 {
        v as u32
    } else {
        (v + 0x100000000) as u32
    }
}

/// The two signed conversions invert each other.
pub proof fn lemma_i16_u16_inverse(v: i16, w: u16)
    ensures
        spec_u16_to_i16(spec_i16_to_u16(v)) == v,
        spec_i16_to_u16(spec_u16_to_i16(w)) == w,
{
}

/// The two signed 32-bit conversions invert each other.
pub proof fn lemma_i32_u32_inverse(v: i32, b: u32)
    ensures
        spec_u32_to_i32(spec_i32_to_u32(v)) == v,
        spec_i32_to_u32(spec_u32_to_i32(b)) == b,
{
}

/// The signed reading of a register word (two's complement).
pub fn u16_to_i16(w: u16) -> (r: i16)
    ensures
        r == spec_u16_to_i16(w),
{
    if w < 0x8000 {
        w as i16
    } else {
        ((w as i32) - 0x10000) as i16
    }
}

/// The word that carries a signed 16-bit value (two's complement).
pub fn i16_to_u16(v: i16) -> (r: u16)
    ensures
        r == spec_i16_to_u16(v),
{
    if v >= 0 {
        v as u16
    } else {
        ((v as i32) + 0x10000) as u16
    }
}

/// The signed reading of a 32-bit bit pattern (two's complement).
pub fn u32_to_i32(b: u32) -> (r: i32)
    ensures
        r == spec_u32_to_i32(b),
{
    if b < 0x80000000 {
        b as i32
    } else {
        ((b as i64) - 0x100000000) as i32
    }
}

/// The bit pattern that carries a signed 32-bit value (two's complement).
pub fn i32_to_u32(v: i32) -> (r: u32)
    ensures
        r == spec_i32_to_u32(v),
{
    if v >= 0 {
        v as u32
    } else {
        ((v as i64) + 0x100000000) as u32
    }
}

/// The word order a format decodes under.  The suffixed 32-bit formats
/// fix their own order; the unsuffixed ones follow the global
/// little-endian flag, which selects CDAB when set and ABCD when clear.
/// This one rule is applied at every call site.  16-bit formats occupy a
/// single word, for which the order is immaterial; they map to ABCD.
pub open spec fn spec_word_order_of(f: Formats, little_endian: bool) -> WordOrder {
    match f {
        Formats::I32abcd | Formats::U32abcd | Formats::F32abcd => WordOrder::Abcd,
        Formats::I32badc | Formats::U32badc | Formats::F32badc => WordOrder::Badc,
        Formats::I32cdab | Formats::U32cdab | Formats::F32cdab => WordOrder::Cdab,
        Formats::I32dcba | Formats::U32dcba | Formats::F32dcba => WordOrder::Dcba,
        _ => if little_endian {
            WordOrder::Cdab
        } else {
            WordOrder::Abcd
        },
    }
}

/// The word order a format decodes under (see `spec_word_order_of`).
pub fn word_order_of(f: Formats, little_endian: bool) -> (r: WordOrder)
    ensures
        r == spec_word_order_of(f, little_endian),
{
    match f {
        Formats::I32abcd | Formats::U32abcd | Formats::F32abcd => WordOrder::Abcd,
        Formats::I32badc | Formats::U32badc | Formats::F32badc => WordOrder::Badc,
        Formats::I32cdab | Formats::U32cdab | Formats::F32cdab => WordOrder::Cdab,
        Formats::I32dcba | Formats::U32dcba | Formats::F32dcba => WordOrder::Dcba,
        _ => if little_endian {
            WordOrder::Cdab
        } else {
            WordOrder::Abcd
        },
    }
}

/// Whether a scalar variant is the one format `f` decodes to: unsigned
/// for the unsigned, hex and binary formats, signed for the signed
/// ones, and a float bit pattern for the float formats.
pub open spec fn value_matches_format(v: ScalarValue, f: Formats) -> bool {
    match v {
        ScalarValue::U16(_) => f == Formats::U16 || f == Formats::Hex16 || f == Formats::Bin16,
        ScalarValue::I16(_) => f == Formats::I16,
        ScalarValue::U32(_) => f == Formats::U32 || f == Formats::U32abcd || f == Formats::U32badc
            || f == Formats::U32cdab || f == Formats::U32dcba || f == Formats::Hex32
            || f == Formats::Bin32,
        ScalarValue::I32(_) => f == Formats::I32 || f == Formats::I32abcd || f == Formats::I32badc
            || f == Formats::I32cdab || f == Formats::I32dcba,
        ScalarValue::F32Bits(_) => f == Formats::F32 || f == Formats::F32abcd || f
            == Formats::F32badc || f == Formats::F32cdab || f == Formats::F32dcba,
    }
}

/// The scalar read from `words` at `offset` under format `f` and word
/// order `order`: one word for the 16-bit formats, the two words
/// assembled under `order` for the 32-bit ones.
pub open spec fn spec_decode_value(
    words: Seq<u16>,
    offset: int,
    f: Formats,
    order: WordOrder,
) -> ScalarValue {
    if spec_is_32bit(f) {
        let bits = spec_decode_u32(words[offset], words[offset + 1], order);
        match f {
            Formats::I32 | Formats::I32abcd | Formats::I32badc | Formats::I32cdab
            | Formats::I32dcba => ScalarValue::I32(spec_u32_to_i32(bits)),
            Formats::F32 | Formats::F32abcd | Formats::F32badc | Formats::F32cdab
            | Formats::F32dcba => ScalarValue::F32Bits(bits),
            _ => ScalarValue::U32(bits),
        }
    } else {
        match f {
            Formats::I16 => ScalarValue::I16(spec_u16_to_i16(words[offset])),
            _ => ScalarValue::U16(words[offset]),
        }
    }
}

/// Decode one value of format `f` from `words`, starting at `offset`.
pub fn decode_value(words: &Vec<u16>, offset: usize, f: Formats, order: WordOrder) -> (r:
    ScalarValue)
    requires
        is_register_format(f),
        offset + crate::format_spec::spec_register_width(f) <= words@.len(),
    ensures
        r == spec_decode_value(words@, offset as int, f, order),
        value_matches_format(r, f),
{
    let n = words.len();
    if is_32bit(f) {
        proof {
            assert(crate::format_spec::spec_register_width(f) == 2);
            assert(offset + 1 < n);
        }
        let second = offset + 1;
        let bits = decode_u32(words[offset], words[second], order);
        match f {
            Formats::I32 | Formats::I32abcd | Formats::I32badc | Formats::I32cdab
            | Formats::I32dcba => ScalarValue::I32(u32_to_i32(bits)),
            Formats::F32 | Formats::F32abcd | Formats::F32badc | Formats::F32cdab
            | Formats::F32dcba => ScalarValue::F32Bits(bits),
            _ => ScalarValue::U32(bits),
        }
    } else {
        match f {
            Formats::I16 => ScalarValue::I16(u16_to_i16(words[offset])),
            _ => ScalarValue::U16(words[offset]),
        }
    }
}

/// The register words that carry scalar `v` under `order`: one word for
/// the 16-bit variants, the encoded pair for the 32-bit ones.
pub open spec fn spec_encode_value(v: ScalarValue, order: WordOrder) -> Seq<u16> {
    match v {
        ScalarValue::U16(w) => seq![w],
        ScalarValue::I16(x) => seq![spec_i16_to_u16(x)],
        ScalarValue::U32(b) => seq![
            spec_encode_u32(b, order).0,
            spec_encode_u32(b, order).1,
        ],
        ScalarValue::I32(x) => seq![
            spec_encode_u32(spec_i32_to_u32(x), order).0,
            spec_encode_u32(spec_i32_to_u32(x), order).1,
        ],
        ScalarValue::F32Bits(b) => seq![
            spec_encode_u32(b, order).0,
            spec_encode_u32(b, order).1,
        ],
    }
}

/// Encode scalar `v` into its register words under `order`.
pub fn encode_value(v: ScalarValue, order: WordOrder) -> (r: Vec<u16>)
    ensures
        r@ == spec_encode_value(v, order),
{
    let mut out: Vec<u16> = Vec::new();
    match v {
        ScalarValue::U16(w) => {
            out.push(w);
        },
        ScalarValue::I16(x) => {
            out.push(i16_to_u16(x));
        },
        ScalarValue::U32(b) => {
            let (w0, w1) = encode_u32(b, order);
            out.push(w0);
            out.push(w1);
        },
        ScalarValue::I32(x) => {
            let (w0, w1) = encode_u32(i32_to_u32(x), order);
            out.push(w0);
            out.push(w1);
        },
        ScalarValue::F32Bits(b) => {
            let (w0, w1) = encode_u32(b, order);
            out.push(w0);
            out.push(w1);
        },
    }
    proof {
        assert(out@ =~= spec_encode_value(v, order));
    }
    out
}

/// Round trip: decoding the words that encode a scalar yields the same
/// scalar, for every representable value, every applicable format and
/// every word order.
pub proof fn lemma_value_round_trip(v: ScalarValue, f: Formats, order: WordOrder)
    requires
        value_matches_format(v, f),
    ensures
        spec_decode_value(spec_encode_value(v, order), 0, f, order) == v,
{
    match v {
        ScalarValue::U16(_) | ScalarValue::I16(_) => {
            match v {
                ScalarValue::I16(x) => {
                    lemma_i16_u16_inverse(x, 0);
                },
                _ => {},
            }
        },
        ScalarValue::U32(b) => {
            lemma_u32_round_trip(b, order);
        },
        ScalarValue::I32(x) => {
            lemma_u32_round_trip(spec_i32_to_u32(x), order);
            lemma_i32_u32_inverse(x, 0);
        },
        ScalarValue::F32Bits(b) => {
            lemma_u32_round_trip(b, order);
        },
    }
}

} // verus!
