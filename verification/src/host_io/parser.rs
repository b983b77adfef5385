//! The fields of a command on the wire.
//!
//! A number is a variable-length quantity: seven bits to a byte, the most significant
//! first, with the top bit set on every byte but the last. The first byte is signed, its
//! 96 lowest values standing for themselves and the others lying below zero. A string is
//! its length in one byte and its bytes.

use crate::text::parse_signed;
use vstd::prelude::*;
use vstd::string::*;

verus! {

#[derive(Debug)]
pub enum ParseError {
    /// The number does not fit its field.
    OutOfRange { value: i64 },
    /// The text is too long for its field.
    TooLong { length: usize },
    /// The text is no number.
    BadNumber(String),
    /// The text is not made of pairs of hexadecimal digits.
    BadHex(String),
    /// The field does not take a number.
    NotNumeric,
    /// The quantity has no last byte.
    Truncated,
    /// The quantity has more than five bytes.
    Overlong,
}

#[derive(Debug, Clone, Copy, PartialEq, Eq, Structural)]
pub enum FieldType {
    Byte,
    String,
}

// ----- Variable-length quantities

/// How many bytes a number takes.
pub open spec fn vlq_len(v: int) -> int {
    if -0x20 <= v < 0x60 {
        1
    } else if -0x1000 <= v < 0x3000 {
        2
    } else if -0x8_0000 <= v < 0x18_0000 {
        3
    } else if -0x400_0000 <= v < 0xC00_0000 {
        4
    } else {
        5
    }
}

/// A number without its lowest `7 * place` bits.
pub open spec fn above(v: int, place: int) -> int
    decreases place,
{
    if place <= 0 {
        v
    } else {
        above(v, place - 1) / 0x80
    }
}

/// The byte of a number at a place: its seven bits there, and the top bit where more
/// bytes follow.
pub open spec fn vlq_byte(v: int, place: int) -> u8 {
    if place == 0 {
        (v % 0x80) as u8
    } else {
        (0x80 + above(v, place) % 0x80) as u8
    }
}

/// A number as a variable-length quantity.
pub open spec fn vlq(v: int) -> Seq<u8> {
    Seq::new(vlq_len(v) as nat, |i: int| vlq_byte(v, vlq_len(v) - 1 - i))
}

proof fn lemma_shift(v: int, k: int)
    ensures
        (v + 0x80 * k) / 0x80 == v / 0x80 + k,
        (v + 0x80 * k) % 0x80 == v % 0x80,
{
}

/// Appends a number as a variable-length quantity.
pub fn encode_vlq(buf: &mut Vec<u8>, value: i32)
    ensures
        final(buf)@ == old(buf)@ + vlq(value as int),
{
    let v: i64 = value as i64;
    let ghost before = buf@;
    // A multiple of every place value keeps all seven-bit groups as they are.
    let w0: u64 = (v + 0x8_0000_0000) as u64;
    let w1: u64 = w0 / 0x80;
    let w2: u64 = w1 / 0x80;
    let w3: u64 = w2 / 0x80;
    let w4: u64 = w3 / 0x80;
    proof {
        reveal_with_fuel(above, 5);
        lemma_shift(v as int, 0x1000_0000);
        assert(w1 == above(v as int, 1) + 0x1000_0000);
        lemma_shift(above(v as int, 1), 0x20_0000);
        assert(w2 == above(v as int, 2) + 0x20_0000);
        lemma_shift(above(v as int, 2), 0x4000);
        assert(w3 == above(v as int, 3) + 0x4000);
        lemma_shift(above(v as int, 3), 0x80);
        assert(w4 == above(v as int, 4) + 0x80);
        lemma_shift(above(v as int, 4), 1);
    }
    let b4: u8 = 0x80 + (w4 % 0x80) as u8;
    let b3: u8 = 0x80 + (w3 % 0x80) as u8;
    let b2: u8 = 0x80 + (w2 % 0x80) as u8;
    let b1: u8 = 0x80 + (w1 % 0x80) as u8;
    let b0: u8 = (w0 % 0x80) as u8;
    assert(b4 == vlq_byte(v as int, 4));
    assert(b3 == vlq_byte(v as int, 3));
    assert(b2 == vlq_byte(v as int, 2));
    assert(b1 == vlq_byte(v as int, 1));
    assert(b0 == vlq_byte(v as int, 0));
    if !(-0x400_0000 <= v && v < 0xC00_0000) {
        buf.push(b4);
    }
    if !(-0x8_0000 <= v && v < 0x18_0000) {
        buf.push(b3);
    }
    if !(-0x1000 <= v && v < 0x3000) {
        buf.push(b2);
    }
    if !(-0x20 <= v && v < 0x60) {
        buf.push(b1);
    }
    buf.push(b0);
    assert(buf@ =~= before + vlq(value as int));
}

/// What a first byte stands for.
pub open spec fn first_value(byte: u8) -> int {
    let low = byte as int % 0x80;
    if low < 0x60 {
        low
    } else {
        low - 0x80
    }
}

/// What the bytes after the first make of a value, starting at `at`, with room for
/// `room` more of them: the number and where it ends.
pub open spec fn vlq_rest(buf: Seq<u8>, value: int, at: int, room: int) -> Option<(int, int)>
    decreases room,
{
    if room <= 0 || at >= buf.len() {
        None
    } else {
        let next = value * 0x80 + buf[at] as int % 0x80;
        if buf[at] < 0x80 {
            Some((next, at + 1))
        } else {
            vlq_rest(buf, next, at + 1, room - 1)
        }
    }
}

/// The quantity that bytes start with, and how many of them it takes.
pub open spec fn vlq_value(buf: Seq<u8>) -> Option<(int, int)> {
    if buf.len() == 0 {
        None
    } else if buf[0] < 0x80 {
        Some((first_value(buf[0]), 1))
    } else {
        vlq_rest(buf, first_value(buf[0]), 1, 4)
    }
}

/// The quantity that bytes start with, and how many of them it takes.
pub fn decode_vlq(buf: &[u8]) -> (result: Result<(i64, usize), ParseError>)
    ensures
        match result {
            Ok((value, taken)) => vlq_value(buf@) == Some((value as int, taken as int)),
            Err(ParseError::Truncated) => vlq_value(buf@) is None && buf@.len() < 5,
            Err(ParseError::Overlong) => vlq_value(buf@) is None && buf@.len() >= 5,
            Err(_) => false,
        },
{
    let length: usize = buf.len();
    if length == 0 {
        return Err(ParseError::Truncated);
    }
    let low: i64 = (buf[0] % 0x80) as i64;
    let mut value: i64 = if low < 0x60 {
        low
    } else {
        low - 0x80
    };
    if buf[0] < 0x80 {
        return Ok((value, 1));
    }
    let ghost whole = vlq_value(buf@);
    let mut at: usize = 1;
    while at < 5
        invariant
            1 <= at <= 5,
            length == buf@.len(),
            at <= length,
            whole == vlq_value(buf@),
            whole == vlq_rest(buf@, value as int, at as int, 5 - at),
            at == 1 ==> -0x80 <= value < 0x80,
            at == 2 ==> -0x4000 <= value < 0x4000,
            at == 3 ==> -0x20_0000 <= value < 0x20_0000,
            at == 4 ==> -0x1000_0000 <= value < 0x1000_0000,
        decreases 5 - at,
    {
        if at == length {
            return Err(ParseError::Truncated);
        }
        value = value * 0x80 + (buf[at] % 0x80) as i64;
        if buf[at] < 0x80 {
            return Ok((value, at + 1));
        }
        at += 1;
    }
    Err(ParseError::Overlong)
}

/// The bytes of a number from `place` down are read on from what lies above them.
proof fn lemma_rest_is_read(v: int, bytes: Seq<u8>, n: int, place: int, room: int)
    requires
        0 <= place < n - 1,
        n <= bytes.len(),
        room > place,
        forall|i: int| 0 <= i < n ==> #[trigger] bytes[i] == vlq_byte(v, n - 1 - i),
    ensures
        vlq_rest(bytes, above(v, place + 1), n - 1 - place, room) == Some((v, n)),
    decreases place,
{
    let at = n - 1 - place;
    let digit = above(v, place) % 0x80;
    assert(above(v, place + 1) * 0x80 + digit == above(v, place));
    assert(bytes[at] == vlq_byte(v, place));
    assert(bytes[at] as int % 0x80 == digit);
    if place > 0 {
        lemma_rest_is_read(v, bytes, n, place - 1, room - 1);
    }
}

/// What lies above all bytes but the first stands in the first byte.
proof fn lemma_first_is_read(v: int)
    requires
        i32::MIN <= v <= i32::MAX,
    ensures
        -0x20 <= above(v, vlq_len(v) - 1) < 0x60,
{
    reveal_with_fuel(above, 5);
    let a1 = v / 0x80;
    let a2 = a1 / 0x80;
    let a3 = a2 / 0x80;
    let a4 = a3 / 0x80;
    assert(above(v, 1) == a1 && above(v, 2) == a2 && above(v, 3) == a3 && above(v, 4) == a4);
}

/// Every number that is written is read back, whatever follows it.
pub proof fn law_vlq_round_trips(value: i32, rest: Seq<u8>)
    ensures
        vlq_value(vlq(value as int) + rest) == Some((value as int, vlq_len(value as int))),
{
    let v = value as int;
    let bytes = vlq(v) + rest;
    let n = vlq_len(v);
    assert(forall|i: int| 0 <= i < n ==> #[trigger] bytes[i] == vlq_byte(v, n - 1 - i));
    lemma_first_is_read(v);
    assert(bytes[0] == vlq_byte(v, n - 1));
    assert(first_value(bytes[0]) == above(v, n - 1));
    if n > 1 {
        lemma_rest_is_read(v, bytes, n, n - 2, 4);
    }
}

// ----- Fields

/// A number that a byte field takes: one byte, signed or not.
pub open spec fn fits_byte(value: int) -> bool {
    -128 <= value <= 255
}

/// Appends a number in a field.
pub fn encode_field_num(buf: &mut Vec<u8>, field: FieldType, value: i64) -> (result: Result<
    (),
    ParseError,
>)
    ensures
        match result {
            Ok(()) => {
                &&& field is Byte
                &&& fits_byte(value as int)
                &&& final(buf)@ == old(buf)@ + vlq(value as int)
            },
            Err(error) => {
                &&& final(buf)@ == old(buf)@
                &&& error == if field is Byte {
                    ParseError::OutOfRange { value }
                } else {
                    ParseError::NotNumeric
                }
                &&& field is Byte ==> !fits_byte(value as int)
            },
        },
{
    match field {
        FieldType::Byte => {
            if value < -128 || value > 255 {
                return Err(ParseError::OutOfRange { value });
            }
            encode_vlq(buf, value as i32);
            Ok(())
        },
        FieldType::String => Err(ParseError::NotNumeric),
    }
}

/// Appends a text in a field: a string with its length before it, or the number that it
/// spells.
pub fn encode_field_str(buf: &mut Vec<u8>, field: FieldType, text: &str) -> (result: Result<
    (),
    ParseError,
>)
    ensures
        match result {
            Ok(()) => match field {
                FieldType::String => {
                    &&& text.spec_bytes().len() <= 255
                    &&& final(buf)@ == old(buf)@.push(text.spec_bytes().len() as u8)
                        + text.spec_bytes()
                },
                FieldType::Byte => {
                    &&& crate::text::signed_number(text@) matches Some(value) && fits_byte(
                        value as int,
                    ) && final(buf)@ == old(buf)@ + vlq(value as int)
                },
            },
            Err(error) => {
                &&& final(buf)@ == old(buf)@
                &&& match error {
                    ParseError::TooLong { length } => {
                        &&& field is String
                        &&& length == text.spec_bytes().len() > 255
                    },
                    ParseError::BadNumber(shown) => {
                        &&& field is Byte
                        &&& crate::text::signed_number(text@) is None
                        &&& shown@ == text@
                    },
                    ParseError::OutOfRange { value } => {
                        &&& field is Byte
                        &&& crate::text::signed_number(text@) == Some(value)
                        &&& !fits_byte(value as int)
                    },
                    _ => false,
                }
            },
        },
{
    match field {
        FieldType::String => {
            let bytes: &[u8] = text.as_bytes();
            let length: usize = bytes.len();
            if length > 255 {
                return Err(ParseError::TooLong { length });
            }
            let ghost before = buf@;
            buf.push(length as u8);
            let mut i: usize = 0;
            assert(buf@ =~= before.push(length as u8) + bytes@.take(0));
            while i < length
                invariant
                    i <= length == bytes@.len(),
                    buf@ == before.push(length as u8) + bytes@.take(i as int),
                decreases length - i,
            {
                buf.push(bytes[i]);
                i += 1;
                assert(buf@ =~= before.push(length as u8) + bytes@.take(i as int));
            }
            assert(bytes@.take(length as int) =~= bytes@);
            Ok(())
        },
        FieldType::Byte => match parse_signed(text) {
            Some(value) => encode_field_num(buf, FieldType::Byte, value),
            None => Err(ParseError::BadNumber(text.to_owned())),
        },
    }
}

// ----- Buffers written in hexadecimal

/// What a hexadecimal digit stands for.
pub open spec fn hex_value(c: char) -> Option<u8> {
    if '0' <= c <= '9' {
        Some((c as u8 - '0' as u8) as u8)
    } else if 'a' <= c <= 'f' {
        Some((c as u8 - 'a' as u8 + 10) as u8)
    } else if 'A' <= c <= 'F' {
        Some((c as u8 - 'A' as u8 + 10) as u8)
    } else {
        None
    }
}

/// The bytes that pairs of hexadecimal digits spell.
pub open spec fn hex_bytes(text: Seq<char>) -> Option<Seq<u8>>
    decreases text.len(),
{
    if text.len() == 0 {
        Some(Seq::empty())
    } else if text.len() == 1 {
        None
    } else {
        match (
            hex_bytes(text.take(text.len() - 2)),
            hex_value(text[text.len() - 2]),
            hex_value(text.last()),
        ) {
            (Some(bytes), Some(high), Some(low)) => Some(bytes.push((high * 16 + low) as u8)),
            _ => None,
        }
    }
}

/// Bytes as pairs of hexadecimal digits.
pub open spec fn hex_text(bytes: Seq<u8>) -> Seq<char>
    decreases bytes.len(),
{
    if bytes.len() == 0 {
        Seq::empty()
    } else {
        let last = bytes.last() as int;
        hex_text(bytes.drop_last()) + seq![
            crate::text::digit_char(last / 16),
            crate::text::digit_char(last % 16),
        ]
    }
}

fn hex_digit(c: char) -> (value: Option<u8>)
    ensures
        value == hex_value(c),
        value matches Some(digit) ==> digit < 16,
{
    if '0' <= c && c <= '9' {
        Some((c as u32 - '0' as u32) as u8)
    } else if 'a' <= c && c <= 'f' {
        Some((c as u32 - 'a' as u32 + 10) as u8)
    } else if 'A' <= c && c <= 'F' {
        Some((c as u32 - 'A' as u32 + 10) as u8)
    } else {
        None
    }
}

proof fn lemma_hex_prefix(text: Seq<char>, count: int)
    requires
        0 <= count <= text.len(),
        (text.len() - count) % 2 == 0,
        hex_bytes(text) is Some,
    ensures
        hex_bytes(text.take(count)) is Some,
    decreases text.len(),
{
    if count < text.len() {
        let shorter = text.take(text.len() - 2);
        lemma_hex_prefix(shorter, count);
        assert(shorter.take(count) =~= text.take(count));
    } else {
        assert(text.take(count) =~= text);
    }
}

/// The bytes that a text spells in pairs of hexadecimal digits.
pub fn parse_hex_buffer(text: &str) -> (result: Result<Vec<u8>, ParseError>)
    ensures
        match result {
            Ok(bytes) => hex_bytes(text@) == Some(bytes@),
            Err(error) => {
                &&& hex_bytes(text@) is None
                &&& error matches ParseError::BadHex(shown) && shown@ == text@
            },
        },
{
    let length: usize = text.unicode_len();
    if length % 2 == 1 {
        proof {
            if hex_bytes(text@) is Some {
                lemma_hex_prefix(text@, 1);
            }
        }
        return Err(ParseError::BadHex(text.to_owned()));
    }
    let mut bytes: Vec<u8> = Vec::new();
    let mut at: usize = 0;
    assert(text@.take(0) =~= Seq::empty());
    while at < length
        invariant
            at <= length == text@.len(),
            length % 2 == 0,
            at % 2 == 0,
            hex_bytes(text@.take(at as int)) == Some(bytes@),
        decreases length - at,
    {
        let high: Option<u8> = hex_digit(text.get_char(at));
        let low: Option<u8> = hex_digit(text.get_char(at + 1));
        let ghost upto = text@.take(at + 2);
        assert(upto.take(upto.len() - 2) =~= text@.take(at as int));
        match (high, low) {
            (Some(high), Some(low)) => {
                bytes.push(high * 16 + low);
            },
            _ => {
                proof {
                    if hex_bytes(text@) is Some {
                        lemma_hex_prefix(text@, at + 2);
                    }
                }
                return Err(ParseError::BadHex(text.to_owned()));
            },
        }
        at += 2;
    }
    assert(text@.take(at as int) =~= text@);
    Ok(bytes)
}

/// Bytes written in hexadecimal are read back.
pub proof fn law_hex_round_trips(bytes: Seq<u8>)
    ensures
        hex_bytes(hex_text(bytes)) == Some(bytes),
    decreases bytes.len(),
{
    if bytes.len() > 0 {
        law_hex_round_trips(bytes.drop_last());
        let text = hex_text(bytes);
        let last = bytes.last() as int;
        assert(text.take(text.len() - 2) =~= hex_text(bytes.drop_last()));
        assert(hex_value(crate::text::digit_char(last / 16)) == Some((last / 16) as u8));
        assert(hex_value(crate::text::digit_char(last % 16)) == Some((last % 16) as u8));
        assert(bytes.drop_last().push(bytes.last()) =~= bytes);
    } else {
        assert(bytes =~= Seq::empty());
    }
}

// ----- What quantities and fields mean

/// The number that the low seven bits of each byte spell, the first byte the most
/// significant.
pub open spec fn spelled(bytes: Seq<u8>) -> int
    decreases bytes.len(),
{
    if bytes.len() == 0 {
        0
    } else {
        spelled(bytes.drop_last()) * 0x80 + bytes.last() as int % 0x80
    }
}

/// How many numbers that many bytes can spell.
pub open spec fn spellings(count: int) -> int
    decreases count,
{
    if count <= 0 {
        1
    } else {
        0x80 * spellings(count - 1)
    }
}

proof fn lemma_spelled_pushes(bytes: Seq<u8>, byte: u8)
    ensures
        spelled(bytes.push(byte)) == spelled(bytes) * 0x80 + byte as int % 0x80,
{
    assert(bytes.push(byte).drop_last() =~= bytes);
}

proof fn lemma_spelled_upto(bytes: Seq<u8>, count: int)
    requires
        0 < count <= bytes.len(),
    ensures
        spelled(bytes.take(count)) == spelled(bytes.take(count - 1)) * 0x80 + bytes[count - 1]
            as int % 0x80,
{
    assert(bytes.take(count) =~= bytes.take(count - 1).push(bytes[count - 1]));
    lemma_spelled_pushes(bytes.take(count - 1), bytes[count - 1]);
}

proof fn lemma_spellings()
    ensures
        spellings(0) == 1,
        spellings(1) == 0x80,
        spellings(2) == 0x4000,
        spellings(3) == 0x20_0000,
        spellings(4) == 0x1000_0000,
        spellings(5) == 0x8_0000_0000,
{
    reveal_with_fuel(spellings, 7);
}

/// A number takes as few bytes as can hold it, when three quarters of what the bytes can
/// spell are numbers from zero up and a quarter lie below; five bytes hold any. Every byte
/// but the last has its top bit set. The bytes spell the number itself, or, where it is
/// below zero, the number on the next round.
pub proof fn law_quantity_is_the_shortest_that_holds_its_number(value: i32)
    ensures
        ({
            let v = value as int;
            let bytes = vlq(v);
            let n = bytes.len() as int;
            &&& 1 <= n <= 5
            &&& -0x20 * spellings(n - 1) <= v < 0x60 * spellings(n - 1)
            &&& n > 1 ==> !(-0x20 * spellings(n - 2) <= v < 0x60 * spellings(n - 2))
            &&& forall|i: int| 0 <= i < n - 1 ==> #[trigger] bytes[i] >= 0x80
            &&& bytes[n - 1] < 0x80
            &&& v >= 0 ==> spelled(bytes) == v
            &&& v < 0 ==> spelled(bytes) == v + spellings(n)
        }),
{
    let v = value as int;
    let bytes = vlq(v);
    let n = vlq_len(v);
    lemma_spellings();
    lemma_first_is_read(v);
    lemma_sign_stays(v, n);
    assert(above(v, n) == above(v, n - 1) / 0x80);
    assert(bytes.take(n) =~= bytes);
    lemma_bytes_spell(v, n);
    let top = above(v, n);
    let full = spellings(n);
    if v < 0 {
        assert(top * full == -full) by (nonlinear_arith)
            requires
                top == -1,
        ;
        assert(spelled(bytes) == v + full);
    } else {
        assert(top * full == 0) by (nonlinear_arith)
            requires
                top == 0,
        ;
        assert(spelled(bytes) == v);
    }
    assert(bytes.len() == n);
    assert(-0x20 * spellings(n - 1) <= v < 0x60 * spellings(n - 1));
    assert(bytes[n - 1] == vlq_byte(v, 0));
    assert forall|i: int| 0 <= i < n - 1 implies #[trigger] bytes[i] >= 0x80 by {
        assert(bytes[i] == vlq_byte(v, n - 1 - i));
    }
}

proof fn lemma_sign_stays(v: int, place: int)
    ensures
        above(v, place) < 0 <==> v < 0,
    decreases place,
{
    if place > 0 {
        lemma_sign_stays(v, place - 1);
    }
}

proof fn lemma_bytes_spell(v: int, count: int)
    requires
        0 <= count <= vlq_len(v),
    ensures
        spelled(vlq(v).take(count)) == above(v, vlq_len(v) - count) - above(v, vlq_len(v))
            * spellings(count),
    decreases count,
{
    let n = vlq_len(v);
    let bytes = vlq(v);
    let top = above(v, n);
    if count > 0 {
        lemma_bytes_spell(v, count - 1);
        lemma_spelled_upto(bytes, count);
        let place = n - count;
        assert(bytes[count - 1] == vlq_byte(v, place));
        assert(bytes[count - 1] as int % 0x80 == above(v, place) % 0x80);
        assert(above(v, place + 1) == above(v, place) / 0x80);
        let fewer = spellings(count - 1);
        assert(top * fewer * 0x80 == top * (0x80 * fewer)) by (nonlinear_arith);
    } else {
        assert(bytes.take(0) =~= Seq::empty());
        assert(top * spellings(0) == top) by (nonlinear_arith)
            requires
                spellings(0) == 1,
        ;
    }
}

/// The quantity ends at this byte: the first of at most five without its top bit.
pub open spec fn ends_at(buf: Seq<u8>, last: int) -> bool {
    &&& 0 <= last < 5
    &&& last < buf.len()
    &&& buf[last] < 0x80
    &&& forall|i: int| 0 <= i < last ==> #[trigger] buf[i] >= 0x80
}

/// A quantity is read exactly where one of the first five bytes ends it. It takes the bytes
/// up to there and is the number they spell, or, where the first byte is of the upper
/// quarter, that number one round below.
pub proof fn law_quantity_is_read_to_its_last_byte(
    buf: &[u8],
    result: Result<(i64, usize), ParseError>,
)
    requires
        call_ensures(decode_vlq, (buf,), result),
    ensures
        result is Ok <==> exists|last: int| ends_at(buf@, last),
        result matches Ok((value, taken)) ==> {
            &&& ends_at(buf@, taken - 1)
            &&& buf@[0] as int % 0x80 < 0x60 ==> value == spelled(buf@.take(taken as int))
            &&& buf@[0] as int % 0x80 >= 0x60 ==> value == spelled(buf@.take(taken as int))
                - spellings(taken as int)
        },
{
    let bytes = buf@;
    lemma_spellings();
    if bytes.len() > 0 {
        assert(bytes.take(0) =~= Seq::empty());
        lemma_spelled_upto(bytes, 1);
    }
    if bytes.len() > 1 {
        lemma_spelled_upto(bytes, 2);
    }
    if bytes.len() > 2 {
        lemma_spelled_upto(bytes, 3);
    }
    if bytes.len() > 3 {
        lemma_spelled_upto(bytes, 4);
    }
    if bytes.len() > 4 {
        lemma_spelled_upto(bytes, 5);
    }
    reveal_with_fuel(vlq_rest, 5);
    if exists|last: int| ends_at(bytes, last) {
        let last = choose|last: int| ends_at(bytes, last);
        assert(0 < last ==> bytes[0] >= 0x80);
        assert(1 < last ==> bytes[1] >= 0x80);
        assert(2 < last ==> bytes[2] >= 0x80);
        assert(3 < last ==> bytes[3] >= 0x80);
        assert(vlq_value(bytes) is Some);
    }
    if let Some((value, taken)) = vlq_value(bytes) {
        assert(ends_at(bytes, taken - 1));
    }
}

/// A byte field takes the numbers that a byte can hold, read with or without a sign.
pub proof fn law_byte_field_takes_what_a_byte_holds(value: int)
    ensures
        fits_byte(value) <==> u8::MIN <= value <= u8::MAX || i8::MIN <= value <= i8::MAX,
{
}

/// A character is a hexadecimal digit where it is a decimal one or among the first six
/// letters, large or small.
pub open spec fn is_hex_digit(c: char) -> bool {
    '0' <= c <= '9' || 'a' <= c <= 'f' || 'A' <= c <= 'F'
}

/// Decimal digits count from zero and letters from ten, whatever their case.
pub proof fn law_hex_digits_count_up(c: char)
    ensures
        hex_value(c) is Some <==> is_hex_digit(c),
        '0' <= c <= '9' ==> hex_value(c)->0 == c as int - 48,
        'a' <= c <= 'f' ==> hex_value(c)->0 == 10 + (c as int - 97),
        'A' <= c <= 'F' ==> hex_value(c)->0 == 10 + (c as int - 65),
{
}

proof fn lemma_hex_bytes(text: Seq<char>)
    ensures
        hex_bytes(text) is Some <==> text.len() % 2 == 0 && (forall|i: int|
            0 <= i < text.len() ==> is_hex_digit(#[trigger] text[i])),
        hex_bytes(text) matches Some(bytes) ==> {
            &&& text.len() == 2 * bytes.len()
            &&& forall|i: int|
                0 <= i < bytes.len() ==> #[trigger] bytes[i] == hex_value(text[2 * i])->0 * 16
                    + hex_value(text[2 * i + 1])->0
        },
    decreases text.len(),
{
    if text.len() >= 2 {
        let shorter = text.take(text.len() - 2);
        lemma_hex_bytes(shorter);
        let high = text[text.len() - 2];
        let low = text[text.len() - 1];
        law_hex_digits_count_up(high);
        law_hex_digits_count_up(low);
        assert forall|i: int| 0 <= i < shorter.len() implies shorter[i] == text[i] by {}
        if forall|i: int| 0 <= i < text.len() ==> is_hex_digit(#[trigger] text[i]) {
            assert(is_hex_digit(high) && is_hex_digit(low));
            assert forall|i: int| 0 <= i < shorter.len() implies is_hex_digit(
                #[trigger] shorter[i],
            ) by {
                assert(is_hex_digit(text[i]));
            }
        }
        if hex_bytes(text) is Some {
            assert forall|i: int| 0 <= i < text.len() implies is_hex_digit(#[trigger] text[i]) by {
                if i < shorter.len() {
                    assert(is_hex_digit(shorter[i]));
                }
            }
        }
    }
}

/// A text is read exactly where it is pairs of hexadecimal digits. Each pair gives one byte,
/// in order, the first digit for sixteen times the second.
pub proof fn law_hex_buffer_is_read_pair_by_pair(text: &str, result: Result<Vec<u8>, ParseError>)
    requires
        call_ensures(parse_hex_buffer, (text,), result),
    ensures
        result is Ok <==> text@.len() % 2 == 0 && (forall|i: int|
            0 <= i < text@.len() ==> is_hex_digit(#[trigger] text@[i])),
        result matches Ok(bytes) ==> {
            &&& text@.len() == 2 * bytes@.len()
            &&& forall|i: int|
                0 <= i < bytes@.len() ==> #[trigger] bytes@[i] == hex_value(text@[2 * i])->0 * 16
                    + hex_value(text@[2 * i + 1])->0
        },
{
    lemma_hex_bytes(text@);
}

/// A number is written behind what the buffer holds, so that it is read back as it was; a byte
/// field takes what fits a byte and leaves the buffer alone otherwise.
pub proof fn law_written_number_is_read_back(
    buf: &mut Vec<u8>,
    value: i32,
    field_buf: &mut Vec<u8>,
    field: FieldType,
    number: i64,
    result: Result<(), ParseError>,
)
    requires
        call_ensures(encode_vlq, (buf, value), ()),
        call_ensures(encode_field_num, (field_buf, field, number), result),
    ensures
        final(buf)@.take(old(buf)@.len() as int) == old(buf)@,
        1 <= final(buf)@.len() - old(buf)@.len() <= 5,
        final(buf)@.skip(old(buf)@.len() as int) == vlq(value as int),
        result is Ok <==> field is Byte && fits_byte(number as int),
        result is Ok ==> final(field_buf)@ == old(field_buf)@ + vlq(number as int),
        result is Err ==> final(field_buf)@ == old(field_buf)@,
        result is Err ==> (result->Err_0 is NotNumeric <==> !(field is Byte)),
{
    law_quantity_is_the_shortest_that_holds_its_number(value);
    assert(final(buf)@.take(old(buf)@.len() as int) =~= old(buf)@);
    assert(final(buf)@.skip(old(buf)@.len() as int) =~= vlq(value as int));
}

/// A text goes into a string field behind its length, and into a byte field as the number it
/// spells; what cannot be written leaves the buffer alone.
pub proof fn law_written_text_stands_behind_its_length(
    buf: &mut Vec<u8>,
    field: FieldType,
    text: &str,
    result: Result<(), ParseError>,
)
    requires
        call_ensures(encode_field_str, (buf, field, text), result),
    ensures
        result is Err ==> final(buf)@ == old(buf)@,
        field is String ==> (result is Ok <==> text.spec_bytes().len() <= 255),
        field is String && result is Ok ==> {
            &&& final(buf)@.len() == old(buf)@.len() + 1 + text.spec_bytes().len()
            &&& final(buf)@[old(buf)@.len() as int] == text.spec_bytes().len()
            &&& final(buf)@.skip(old(buf)@.len() as int + 1) == text.spec_bytes()
            &&& final(buf)@.take(old(buf)@.len() as int) == old(buf)@
        },
        field is Byte ==> (result is Ok <==> crate::text::signed_number(text@) is Some
            && fits_byte(crate::text::signed_number(text@)->0 as int)),
        field is Byte && result is Ok ==> final(buf)@ == old(buf)@ + vlq(
            crate::text::signed_number(text@)->0 as int,
        ),
{
    if field is String && result is Ok {
        assert(final(buf)@.skip(old(buf)@.len() as int + 1) =~= text.spec_bytes());
        assert(final(buf)@.take(old(buf)@.len() as int) =~= old(buf)@);
    }
}

} // verus!
