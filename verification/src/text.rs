//! Rendering of numbers and lists into the messages the other modules report.

use vstd::prelude::*;
use vstd::string::*;

verus! {

/// The character of one digit below sixteen.
pub open spec fn digit_char(digit: int) -> char {
    if digit == 0 {
        '0'
    } else if digit == 1 {
        '1'
    } else if digit == 2 {
        '2'
    } else if digit == 3 {
        '3'
    } else if digit == 4 {
        '4'
    } else if digit == 5 {
        '5'
    } else if digit == 6 {
        '6'
    } else if digit == 7 {
        '7'
    } else if digit == 8 {
        '8'
    } else if digit == 9 {
        '9'
    } else if digit == 10 {
        'a'
    } else if digit == 11 {
        'b'
    } else if digit == 12 {
        'c'
    } else if digit == 13 {
        'd'
    } else if digit == 14 {
        'e'
    } else {
        'f'
    }
}

/// The digits of `n` in base ten, without leading zeros.
pub open spec fn decimal(n: nat) -> Seq<char>
    decreases n,
{
    if n < 10 {
        seq![digit_char(n as int)]
    } else {
        decimal(n / 10).push(digit_char((n % 10) as int))
    }
}

/// The digits of `n` in base sixteen, lower case, without leading zeros.
pub open spec fn hexadecimal(n: nat) -> Seq<char>
    decreases n,
{
    if n < 16 {
        seq![digit_char(n as int)]
    } else {
        hexadecimal(n / 16).push(digit_char((n % 16) as int))
    }
}

/// `n` in base ten, with a leading minus sign below zero.
pub open spec fn signed_decimal(n: int) -> Seq<char> {
    if n < 0 {
        seq!['-'] + decimal((-n) as nat)
    } else {
        decimal(n as nat)
    }
}

/// The parts in order with `separator` between neighbours.
pub open spec fn joined(parts: Seq<Seq<char>>, separator: Seq<char>) -> Seq<char>
    decreases parts.len(),
{
    if parts.len() == 0 {
        Seq::empty()
    } else if parts.len() == 1 {
        parts[0]
    } else {
        joined(parts.drop_last(), separator) + separator + parts.last()
    }
}

/// The views of a sequence of strings.
pub open spec fn texts(parts: Seq<String>) -> Seq<Seq<char>> {
    parts.map_values(|part: String| part@)
}

fn append_digit(out: &mut String, digit: u8)
    requires
        digit < 16,
    ensures
        final(out)@ == old(out)@.push(digit_char(digit as int)),
{
    proof {
        reveal_strlit("0");
        reveal_strlit("1");
        reveal_strlit("2");
        reveal_strlit("3");
        reveal_strlit("4");
        reveal_strlit("5");
        reveal_strlit("6");
        reveal_strlit("7");
        reveal_strlit("8");
        reveal_strlit("9");
        reveal_strlit("a");
        reveal_strlit("b");
        reveal_strlit("c");
        reveal_strlit("d");
        reveal_strlit("e");
        reveal_strlit("f");
    }
    match digit {
        0 => out.append("0"),
        1 => out.append("1"),
        2 => out.append("2"),
        3 => out.append("3"),
        4 => out.append("4"),
        5 => out.append("5"),
        6 => out.append("6"),
        7 => out.append("7"),
        8 => out.append("8"),
        9 => out.append("9"),
        10 => out.append("a"),
        11 => out.append("b"),
        12 => out.append("c"),
        13 => out.append("d"),
        14 => out.append("e"),
        _ => out.append("f"),
    }
    assert(out@ =~= old(out)@.push(digit_char(digit as int)));
}

/// Appends `n` in base ten.
pub fn append_decimal(out: &mut String, n: u64)
    ensures
        final(out)@ == old(out)@ + decimal(n as nat),
    decreases n,
{
    if n >= 10 {
        append_decimal(out, n / 10);
    }
    append_digit(out, (n % 10) as u8);
    assert(out@ =~= old(out)@ + decimal(n as nat));
}

/// Appends `n` in base sixteen.
pub fn append_hexadecimal(out: &mut String, n: u64)
    ensures
        final(out)@ == old(out)@ + hexadecimal(n as nat),
    decreases n,
{
    if n >= 16 {
        append_hexadecimal(out, n / 16);
    }
    append_digit(out, (n % 16) as u8);
    assert(out@ =~= old(out)@ + hexadecimal(n as nat));
}

/// Appends `n` in base ten, with its sign below zero.
pub fn append_signed_decimal(out: &mut String, n: i64)
    ensures
        final(out)@ == old(out)@ + signed_decimal(n as int),
{
    if n < 0 {
        proof {
            reveal_strlit("-");
        }
        out.append("-");
        let magnitude: u64 = (-(n as i128)) as u64;
        append_decimal(out, magnitude);
        assert("-"@ =~= seq!['-']);
        assert(out@ =~= old(out)@ + signed_decimal(n as int));
    } else {
        append_decimal(out, n as u64);
    }
}

/// Joins the parts in order with `separator` between neighbours.
pub fn join(parts: &Vec<String>, separator: &str) -> (line: String)
    ensures
        line@ == joined(texts(parts@), separator@),
{
    let mut line = String::new();
    let mut index: usize = 0;
    assert(texts(parts@).take(0) =~= Seq::empty());
    while index < parts.len()
        invariant
            index <= parts@.len(),
            line@ == joined(texts(parts@).take(index as int), separator@),
        decreases parts@.len() - index,
    {
        assert(texts(parts@).take(index + 1).drop_last() =~= texts(parts@).take(index as int));
        if index > 0 {
            line.append(separator);
        }
        line.append(parts[index].as_str());
        assert(line@ =~= joined(texts(parts@).take(index + 1), separator@));
        index += 1;
    }
    assert(texts(parts@).take(index as int) =~= texts(parts@));
    line
}

/// A digit of base ten.
pub open spec fn is_digit(c: char) -> bool {
    '0' <= c <= '9'
}

/// The text is made of digits.
pub open spec fn all_digits(text: Seq<char>) -> bool {
    forall|i: int| 0 <= i < text.len() ==> is_digit(#[trigger] text[i])
}

/// The number that digits spell in base ten.
pub open spec fn digits_value(text: Seq<char>) -> nat
    decreases text.len(),
{
    if text.len() == 0 {
        0
    } else {
        digits_value(text.drop_last()) * 10 + (text.last() as nat - '0' as nat) as nat
    }
}

/// More digits never spell a smaller number.
pub proof fn lemma_value_grows(digits: Seq<char>, count: int)
    requires
        0 <= count <= digits.len(),
    ensures
        digits_value(digits.take(count)) <= digits_value(digits),
    decreases digits.len() - count,
{
    if count < digits.len() {
        let longer = digits.take(count + 1);
        assert(longer.drop_last() =~= digits.take(count));
        assert(digits_value(longer) >= digits_value(digits.take(count)));
        lemma_value_grows(digits, count + 1);
    } else {
        assert(digits.take(count) =~= digits);
    }
}

/// The digits of a signed number: what follows its sign.
pub open spec fn magnitude(text: Seq<char>) -> Seq<char> {
    if text.len() > 0 && (text[0] == '-' || text[0] == '+') {
        text.skip(1)
    } else {
        text
    }
}

/// The number a text spells: digits, after a sign if there is one, that fit.
pub open spec fn signed_number(text: Seq<char>) -> Option<i64> {
    let digits = magnitude(text);
    let value = if text.len() > 0 && text[0] == '-' {
        -(digits_value(digits) as int)
    } else {
        digits_value(digits) as int
    };
    if digits.len() > 0 && all_digits(digits) && i64::MIN <= value <= i64::MAX {
        Some(value as i64)
    } else {
        None
    }
}

/// The number a text spells, if it spells one that fits.
pub fn parse_signed(text: &str) -> (number: Option<i64>)
    ensures
        number == signed_number(text@),
{
    let length: usize = text.unicode_len();
    if length == 0 {
        return None;
    }
    let first: char = text.get_char(0);
    let negative: bool = first == '-';
    let start: usize = if first == '-' || first == '+' {
        1
    } else {
        0
    };
    let ghost digits = magnitude(text@);
    assert(digits =~= text@.skip(start as int));
    if start == length {
        return None;
    }
    let mut value: u64 = 0;
    let mut index: usize = start;
    assert(digits.take(0) =~= Seq::empty());
    while index < length
        invariant
            start <= index <= length == text@.len(),
            start < length,
            digits == text@.skip(start as int),
            digits == magnitude(text@),
            all_digits(digits.take(index - start)),
            value == digits_value(digits.take(index - start)),
        decreases length - index,
    {
        let c: char = text.get_char(index);
        let ghost sofar = digits.take(index - start);
        let ghost upto = digits.take(index - start + 1);
        assert(digits[index - start] == c);
        assert(upto.drop_last() =~= sofar);
        assert(upto.last() == c);
        if c < '0' || c > '9' {
            assert(!all_digits(digits));
            return None;
        }
        let digit: u64 = (c as u32 - '0' as u32) as u64;
        assert(digits_value(upto) == digits_value(sofar) * 10 + digit);
        let shifted: Option<u64> = value.checked_mul(10);
        let next: Option<u64> = match shifted {
            Some(tens) => tens.checked_add(digit),
            None => None,
        };
        match next {
            Some(sum) => {
                value = sum;
            },
            None => {
                proof {
                    lemma_value_grows(digits, index - start + 1);
                }
                return None;
            },
        }
        assert(all_digits(upto)) by {
            assert forall|i: int| 0 <= i < upto.len() implies is_digit(#[trigger] upto[i]) by {
                if i < index - start {
                    assert(upto[i] == sofar[i]);
                }
            }
        }
        index += 1;
    }
    assert(digits.take(index - start) =~= digits);
    if negative {
        if value > 0x8000_0000_0000_0000 {
            return None;
        }
        Some((-(value as i128)) as i64)
    } else {
        if value > 0x7fff_ffff_ffff_ffff {
            return None;
        }
        Some(value as i64)
    }
}

/// Digits below ten are the decimal ones, and those above are small letters from `a` on.
pub proof fn law_digits_follow_each_other(digit: int)
    requires
        0 <= digit < 16,
    ensures
        digit < 10 ==> digit_char(digit) as int == 48 + digit,
        digit >= 10 ==> digit_char(digit) as int == 97 + digit - 10,
{
}

/// A digit behind a number makes ten times that number and the digit of it.
pub proof fn law_decimal_grows_by_a_digit(n: nat, digit: nat)
    requires
        digit < 10,
    ensures
        decimal(digit) == seq![digit_char(digit as int)],
        n > 0 ==> decimal(n * 10 + digit) == decimal(n).push(digit_char(digit as int)),
{
    assert((n * 10 + digit) / 10 == n);
    assert((n * 10 + digit) % 10 == digit);
}

/// A digit behind a number makes sixteen times that number and the digit of it.
pub proof fn law_hexadecimal_grows_by_a_digit(n: nat, digit: nat)
    requires
        digit < 16,
    ensures
        hexadecimal(digit) == seq![digit_char(digit as int)],
        n > 0 ==> hexadecimal(n * 16 + digit) == hexadecimal(n).push(digit_char(digit as int)),
{
    assert((n * 16 + digit) / 16 == n);
    assert((n * 16 + digit) % 16 == digit);
}

/// A number below zero is a minus sign and the number on the other side.
pub proof fn law_sign_stands_before_the_digits(n: int)
    ensures
        n >= 0 ==> signed_decimal(n) == decimal(n as nat),
        n > 0 ==> signed_decimal(-n) == seq!['-'] + decimal(n as nat),
{
}

/// The parts follow each other in order, with the separator between neighbours alone.
pub proof fn law_parts_are_joined_in_order(
    parts: Seq<Seq<char>>,
    part: Seq<char>,
    separator: Seq<char>,
)
    ensures
        joined(Seq::empty(), separator) == Seq::<char>::empty(),
        parts.len() == 0 ==> joined(parts.push(part), separator) == part,
        parts.len() > 0 ==> joined(parts.push(part), separator) == joined(parts, separator)
            + separator + part,
{
    assert(parts.push(part).drop_last() =~= parts);
}

/// The digits of a number spell it.
pub proof fn lemma_decimal_is_digits(n: nat)
    ensures
        decimal(n).len() > 0,
        all_digits(decimal(n)),
        digits_value(decimal(n)) == n,
    decreases n,
{
    if n < 10 {
        let one = seq![digit_char(n as int)];
        assert(one.drop_last() =~= Seq::empty());
        assert(digits_value(Seq::<char>::empty()) == 0);
        assert(digits_value(one) == digits_value(one.drop_last()) * 10 + (one.last() as nat
            - '0' as nat) as nat);
    } else {
        lemma_decimal_is_digits(n / 10);
        let shorter = decimal(n / 10);
        let last = digit_char((n % 10) as int);
        assert(decimal(n).drop_last() =~= shorter);
        assert(decimal(n).last() == last);
        assert forall|i: int| 0 <= i < decimal(n).len() implies is_digit(#[trigger] decimal(n)[i]) by {
            if i < shorter.len() {
                assert(decimal(n)[i] == shorter[i]);
            }
        }
    }
}

/// A written number is read back, with a plus sign before it too.
pub proof fn law_number_is_read_back(n: i64)
    ensures
        signed_number(signed_decimal(n as int)) == Some(n),
        n >= 0 ==> signed_number(seq!['+'] + signed_decimal(n as int)) == Some(n),
{
    if n < 0 {
        let digits = decimal((-n) as nat);
        lemma_decimal_is_digits((-n) as nat);
        assert((seq!['-'] + digits).skip(1) =~= digits);
    } else {
        let digits = decimal(n as nat);
        lemma_decimal_is_digits(n as nat);
        assert(is_digit(digits[0]));
        assert((seq!['+'] + digits).skip(1) =~= digits);
    }
}

/// A text is a number exactly where digits alone follow its sign, at least one of them, and
/// the number fits. It counts down behind a minus sign.
pub proof fn law_number_is_sign_and_digits(text: &str, number: Option<i64>)
    requires
        call_ensures(parse_signed, (text,), number),
    ensures
        text@.len() == 0 ==> number is None,
        text@ == seq!['-'] || text@ == seq!['+'] ==> number is None,
        forall|i: int|
            number is Some && 0 < i < text@.len() ==> '0' <= #[trigger] text@[i] <= '9',
        number is Some ==> '0' <= text@[0] <= '9' || text@[0] == '-' || text@[0] == '+',
        number is Some && text@[0] == '-' ==> number->0 == -(digits_value(text@.skip(1)) as int),
        number is Some && text@[0] == '+' ==> number->0 == digits_value(text@.skip(1)),
        number is Some && text@[0] != '-' && text@[0] != '+' ==> number->0 == digits_value(text@),
{
    let digits = magnitude(text@);
    if number is Some {
        if text@[0] == '-' || text@[0] == '+' {
            assert forall|i: int| 0 < i < text@.len() implies '0' <= #[trigger] text@[i] <= '9' by {
                assert(is_digit(digits[i - 1]));
            }
        } else {
            assert(is_digit(digits[0]));
            assert forall|i: int| 0 < i < text@.len() implies '0' <= #[trigger] text@[i] <= '9' by {
                assert(is_digit(digits[i]));
            }
        }
    }
}

/// Digits spell ten times what they spell without the last one, and that one.
pub proof fn law_digits_spell_in_base_ten(digits: Seq<char>, digit: nat)
    requires
        digit < 10,
    ensures
        digits_value(Seq::empty()) == 0,
        digits_value(digits.push(digit_char(digit as int))) == 10 * digits_value(digits) + digit,
{
    assert(digits.push(digit_char(digit as int)).drop_last() =~= digits);
}

/// A number is written behind what the line holds, as the digits that spell it; a negative one
/// behind its sign.
pub proof fn law_numbers_are_written_behind_the_line(
    line: &mut String,
    n: u64,
    hex: &mut String,
    signed: &mut String,
    value: i64,
)
    requires
        call_ensures(append_decimal, (line, n), ()),
        call_ensures(append_hexadecimal, (hex, n), ()),
        call_ensures(append_signed_decimal, (signed, value), ()),
    ensures
        final(line)@.take(old(line)@.len() as int) == old(line)@,
        final(line)@.skip(old(line)@.len() as int) == decimal(n as nat),
        final(hex)@.take(old(hex)@.len() as int) == old(hex)@,
        final(hex)@.skip(old(hex)@.len() as int) == hexadecimal(n as nat),
        final(signed)@.take(old(signed)@.len() as int) == old(signed)@,
        value >= 0 ==> final(signed)@.skip(old(signed)@.len() as int) == decimal(value as nat),
        value < 0 ==> final(signed)@.skip(old(signed)@.len() as int) == seq!['-'] + decimal(
            -value as nat,
        ),
{
    reveal_strlit("-");
    assert("-"@ =~= seq!['-']);
    assert(final(line)@.take(old(line)@.len() as int) =~= old(line)@);
    assert(final(line)@.skip(old(line)@.len() as int) =~= decimal(n as nat));
    assert(final(hex)@.take(old(hex)@.len() as int) =~= old(hex)@);
    assert(final(hex)@.skip(old(hex)@.len() as int) =~= hexadecimal(n as nat));
    assert(final(signed)@.take(old(signed)@.len() as int) =~= old(signed)@);
    assert(final(signed)@.skip(old(signed)@.len() as int) =~= signed_decimal(value as int));
}

/// Parts are joined in order with the separator between each two and nowhere else.
pub proof fn law_joined_line_holds_its_parts(parts: &Vec<String>, separator: &str, line: String)
    requires
        call_ensures(join, (parts, separator), line),
    ensures
        parts@.len() == 0 ==> line@.len() == 0,
        parts@.len() == 1 ==> line@ == parts@[0]@,
        parts@.len() == 2 ==> line@ == parts@[0]@ + separator@ + parts@[1]@,
{
    reveal_with_fuel(joined, 3);
    let all = texts(parts@);
    assert(all.len() == parts@.len());
    if parts@.len() == 1 {
        assert(all[0] == parts@[0]@);
        assert(line@ =~= parts@[0]@);
    }
    if parts@.len() == 2 {
        assert(all[0] == parts@[0]@ && all[1] == parts@[1]@);
        assert(line@ =~= parts@[0]@ + separator@ + parts@[1]@);
    }
}

} // verus!
