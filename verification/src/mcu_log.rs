//! Log lines that the firmware sends as a message id and two numbers.
//!
//! The message's template names the numbers where they go: `{arg0}` and `{arg1}` in base
//! ten, or with a style as in `{arg0:hex}`.

use crate::text::{append_decimal, append_hexadecimal, append_signed_decimal};
use vstd::prelude::*;
use vstd::string::*;

verus! {

/// How a number is written.
#[derive(Debug, Clone, Copy, PartialEq, Eq, Structural)]
pub enum Style {
    /// In base ten.
    Plain,
    /// As a signed number in base ten.
    Signed,
    /// In base sixteen behind `0x`.
    Hex,
    /// The upper sixteen bits in base ten.
    High,
    /// The lower sixteen bits in base ten.
    Low,
}

/// The number that 32 bits are in two's complement.
pub open spec fn as_signed(arg: u32) -> int {
    if arg < 0x8000_0000 {
        arg as int
    } else {
        arg - 0x1_0000_0000
    }
}

/// A number in a style.
pub open spec fn styled(arg: u32, style: Style) -> Seq<char> {
    match style {
        Style::Plain => crate::text::decimal(arg as nat),
        Style::Signed => crate::text::signed_decimal(as_signed(arg)),
        Style::Hex => "0x"@ + crate::text::hexadecimal(arg as nat),
        Style::High => crate::text::decimal((arg / 0x1_0000) as nat),
        Style::Low => crate::text::decimal((arg % 0x1_0000) as nat),
    }
}

/// The text starts with `prefix`.
pub open spec fn starts_with(text: Seq<char>, prefix: Seq<char>) -> bool {
    prefix.len() <= text.len() && text.take(prefix.len() as int) == prefix
}

/// The style that a placeholder ends in, and how many characters that takes.
pub open spec fn style_of(text: Seq<char>) -> Option<(Style, int)> {
    if starts_with(text, "}"@) {
        Some((Style::Plain, 1))
    } else if starts_with(text, ":i32}"@) {
        Some((Style::Signed, 5))
    } else if starts_with(text, ":hex}"@) {
        Some((Style::Hex, 5))
    } else if starts_with(text, ":hi16}"@) {
        Some((Style::High, 6))
    } else if starts_with(text, ":lo16}"@) {
        Some((Style::Low, 6))
    } else {
        None
    }
}

/// The placeholder that a text starts with: whether it names the second number, its
/// style, and how many characters it takes.
pub open spec fn placeholder(text: Seq<char>) -> Option<(bool, Style, int)> {
    if starts_with(text, "{arg0"@) {
        match style_of(text.skip(5)) {
            Some((style, taken)) => Some((false, style, 5 + taken)),
            None => None,
        }
    } else if starts_with(text, "{arg1"@) {
        match style_of(text.skip(5)) {
            Some((style, taken)) => Some((true, style, 5 + taken)),
            None => None,
        }
    } else {
        None
    }
}

/// The template with its placeholders replaced by the numbers they name.
pub open spec fn composed(template: Seq<char>, arg0: u32, arg1: u32) -> Seq<char>
    decreases template.len(),
{
    if template.len() == 0 {
        Seq::empty()
    } else {
        match placeholder(template) {
            Some((second, style, taken)) if 0 < taken <= template.len() => styled(
                if second {
                    arg1
                } else {
                    arg0
                },
                style,
            ) + composed(template.skip(taken), arg0, arg1),
            _ => seq![template[0]] + composed(template.skip(1), arg0, arg1),
        }
    }
}

/// The text from `at` on starts with `prefix`.
fn starts_at(text: &str, length: usize, at: usize, prefix: &str) -> (answer: bool)
    requires
        at <= length == text@.len(),
    ensures
        answer == starts_with(text@.skip(at as int), prefix@),
{
    let count: usize = prefix.unicode_len();
    if count > length - at {
        return false;
    }
    let ghost rest = text@.skip(at as int);
    let mut i: usize = 0;
    while i < count
        invariant
            i <= count == prefix@.len(),
            at + count <= length == text@.len(),
            rest == text@.skip(at as int),
            forall|k: int| 0 <= k < i ==> #[trigger] rest[k] == prefix@[k],
        decreases count - i,
    {
        if text.get_char(at + i) != prefix.get_char(i) {
            assert(rest[i as int] != prefix@[i as int]);
            assert(rest.take(count as int)[i as int] == rest[i as int]);
            return false;
        }
        i += 1;
    }
    assert(rest.take(count as int) =~= prefix@);
    true
}

/// The style that ends the placeholder whose style starts at `at`.
fn find_style(text: &str, length: usize, at: usize) -> (found: Option<(Style, usize)>)
    requires
        at <= length == text@.len(),
    ensures
        match found {
            Some((style, taken)) => {
                &&& style_of(text@.skip(at as int)) == Some((style, taken as int))
                &&& 0 < taken
                &&& at + taken <= length
            },
            None => style_of(text@.skip(at as int)) is None,
        },
{
    proof {
        reveal_strlit("}");
        reveal_strlit(":i32}");
        reveal_strlit(":hex}");
        reveal_strlit(":hi16}");
        reveal_strlit(":lo16}");
    }
    if starts_at(text, length, at, "}") {
        Some((Style::Plain, 1))
    } else if starts_at(text, length, at, ":i32}") {
        Some((Style::Signed, 5))
    } else if starts_at(text, length, at, ":hex}") {
        Some((Style::Hex, 5))
    } else if starts_at(text, length, at, ":hi16}") {
        Some((Style::High, 6))
    } else if starts_at(text, length, at, ":lo16}") {
        Some((Style::Low, 6))
    } else {
        None
    }
}

/// The placeholder that starts at `at`.
fn find_placeholder(text: &str, length: usize, at: usize) -> (found: Option<(bool, Style, usize)>)
    requires
        at <= length == text@.len(),
    ensures
        match found {
            Some((second, style, taken)) => {
                &&& placeholder(text@.skip(at as int)) == Some((second, style, taken as int))
                &&& 0 < taken
                &&& at + taken <= length
            },
            None => placeholder(text@.skip(at as int)) is None,
        },
{
    proof {
        reveal_strlit("{arg0");
        reveal_strlit("{arg1");
    }
    let ghost rest = text@.skip(at as int);
    if starts_at(text, length, at, "{arg0") {
        assert(rest.skip(5) =~= text@.skip(at + 5));
        match find_style(text, length, at + 5) {
            Some((style, taken)) => Some((false, style, 5 + taken)),
            None => None,
        }
    } else if starts_at(text, length, at, "{arg1") {
        assert(rest.skip(5) =~= text@.skip(at + 5));
        match find_style(text, length, at + 5) {
            Some((style, taken)) => Some((true, style, 5 + taken)),
            None => None,
        }
    } else {
        None
    }
}

fn append_styled(out: &mut String, arg: u32, style: Style)
    ensures
        final(out)@ == old(out)@ + styled(arg, style),
{
    match style {
        Style::Plain => append_decimal(out, arg as u64),
        Style::Signed => {
            let signed: i64 = if arg < 0x8000_0000 {
                arg as i64
            } else {
                arg as i64 - 0x1_0000_0000
            };
            append_signed_decimal(out, signed);
        },
        Style::Hex => {
            out.append("0x");
            append_hexadecimal(out, arg as u64);
            assert(out@ =~= old(out)@ + styled(arg, style));
        },
        Style::High => append_decimal(out, (arg / 0x1_0000) as u64),
        Style::Low => append_decimal(out, (arg % 0x1_0000) as u64),
    }
}

/// The log line of a template and its two numbers.
pub fn compose_msg(template: &str, arg0: u32, arg1: u32) -> (msg: String)
    ensures
        msg@ == composed(template@, arg0, arg1),
{
    let length: usize = template.unicode_len();
    let mut msg = String::new();
    let mut at: usize = 0;
    assert(template@.skip(0) =~= template@);
    assert(msg@ + composed(template@, arg0, arg1) =~= composed(template@, arg0, arg1));
    while at < length
        invariant
            at <= length == template@.len(),
            msg@ + composed(template@.skip(at as int), arg0, arg1) == composed(
                template@,
                arg0,
                arg1,
            ),
        decreases length - at,
    {
        let ghost rest = template@.skip(at as int);
        let ghost before = msg@;
        match find_placeholder(template, length, at) {
            Some((second, style, taken)) => {
                let arg: u32 = if second {
                    arg1
                } else {
                    arg0
                };
                append_styled(&mut msg, arg, style);
                assert(rest.skip(taken as int) =~= template@.skip(at + taken));
                assert(before + (styled(arg, style) + composed(template@.skip(at + taken), arg0, arg1))
                    =~= msg@ + composed(template@.skip(at + taken), arg0, arg1));
                at += taken;
            },
            None => {
                let one: &str = template.substring_char(at, at + 1);
                msg.append(one);
                assert(one@ =~= seq![rest[0]]);
                assert(rest.skip(1) =~= template@.skip(at + 1));
                assert(before + (seq![rest[0]] + composed(template@.skip(at + 1), arg0, arg1))
                    =~= msg@ + composed(template@.skip(at + 1), arg0, arg1));
                at += 1;
            },
        }
    }
    assert(template@.skip(at as int) =~= Seq::empty());
    assert(msg@ =~= composed(template@, arg0, arg1));
    msg
}

/// A template without an opening brace is its own message.
pub proof fn law_plain_text_is_kept(template: Seq<char>, arg0: u32, arg1: u32)
    requires
        !template.contains('{'),
    ensures
        composed(template, arg0, arg1) == template,
    decreases template.len(),
{
    if template.len() > 0 {
        reveal_strlit("{arg0");
        reveal_strlit("{arg1");
        assert(template[0] != '{') by {
            assert(template.contains(template[0]));
        }
        assert(starts_with(template, "{arg0"@) ==> template[0] == template.take(5)[0]);
        assert(starts_with(template, "{arg1"@) ==> template[0] == template.take(5)[0]);
        assert forall|c: char| template.skip(1).contains(c) implies template.contains(c) by {
            let i = choose|i: int| 0 <= i < template.skip(1).len() && template.skip(1)[i] == c;
            assert(template[i + 1] == c);
        }
        law_plain_text_is_kept(template.skip(1), arg0, arg1);
        assert(composed(template, arg0, arg1) =~= template);
    }
}

/// The two halves of a number make it up, and its signed reading has the same 32 bits.
pub proof fn law_styles_tell_the_same_bits(arg: u32, high: nat, low: nat, signed: int)
    requires
        arg == high * 0x1_0000 + low,
        low < 0x1_0000,
        -0x8000_0000 <= signed < 0x8000_0000,
        (arg - signed) % 0x1_0000_0000 == 0,
    ensures
        styled(arg, Style::Plain) == crate::text::decimal(arg as nat),
        styled(arg, Style::High) == crate::text::decimal(high),
        styled(arg, Style::Low) == crate::text::decimal(low),
        styled(arg, Style::Signed) == crate::text::signed_decimal(signed),
        styled(arg, Style::Hex) == "0x"@ + crate::text::hexadecimal(arg as nat),
{
    assert(as_signed(arg) == signed);
    assert(arg / 0x1_0000 == high);
    assert(arg % 0x1_0000 == low);
}

proof fn lemma_starts_with(prefix: Seq<char>, rest: Seq<char>)
    ensures
        starts_with(prefix + rest, prefix),
        (prefix + rest).skip(prefix.len() as int) == rest,
{
    assert((prefix + rest).take(prefix.len() as int) =~= prefix);
    assert((prefix + rest).skip(prefix.len() as int) =~= rest);
}

proof fn lemma_differs(text: Seq<char>, prefix: Seq<char>, i: int)
    requires
        0 <= i < prefix.len(),
        i < text.len(),
        text[i] != prefix[i],
    ensures
        !starts_with(text, prefix),
{
    if starts_with(text, prefix) {
        assert(text.take(prefix.len() as int)[i] == text[i]);
    }
}

/// What each style is written as at the end of a placeholder.
pub open spec fn style_text(style: Style) -> Seq<char> {
    match style {
        Style::Plain => seq!['}'],
        Style::Signed => seq![':', 'i', '3', '2', '}'],
        Style::Hex => seq![':', 'h', 'e', 'x', '}'],
        Style::High => seq![':', 'h', 'i', '1', '6', '}'],
        Style::Low => seq![':', 'l', 'o', '1', '6', '}'],
    }
}

/// What names the first or the second number at the start of a placeholder.
pub open spec fn argument_text(second: bool) -> Seq<char> {
    seq![
        '{',
        'a',
        'r',
        'g',
        if second {
            '1'
        } else {
            '0'
        },
    ]
}

proof fn lemma_style_is_found(style: Style, rest: Seq<char>)
    ensures
        style_of(style_text(style) + rest) == Some((style, style_text(style).len() as int)),
{
    reveal_strlit("}");
    reveal_strlit(":i32}");
    reveal_strlit(":hex}");
    reveal_strlit(":hi16}");
    reveal_strlit(":lo16}");
    let text = style_text(style) + rest;
    lemma_starts_with(style_text(style), rest);
    assert("}"@ =~= style_text(Style::Plain));
    assert(":i32}"@ =~= style_text(Style::Signed));
    assert(":hex}"@ =~= style_text(Style::Hex));
    assert(":hi16}"@ =~= style_text(Style::High));
    assert(":lo16}"@ =~= style_text(Style::Low));
    match style {
        Style::Plain => {},
        Style::Signed => {
            lemma_differs(text, "}"@, 0);
        },
        Style::Hex => {
            lemma_differs(text, "}"@, 0);
            lemma_differs(text, ":i32}"@, 1);
        },
        Style::High => {
            lemma_differs(text, "}"@, 0);
            lemma_differs(text, ":i32}"@, 1);
            lemma_differs(text, ":hex}"@, 2);
        },
        Style::Low => {
            lemma_differs(text, "}"@, 0);
            lemma_differs(text, ":i32}"@, 1);
            lemma_differs(text, ":hex}"@, 1);
            lemma_differs(text, ":hi16}"@, 1);
        },
    }
}

/// A placeholder gives way to the number it names, in its style, and what follows is
/// composed on its own.
pub proof fn law_placeholder_gives_way_to_its_number(
    second: bool,
    style: Style,
    rest: Seq<char>,
    arg0: u32,
    arg1: u32,
)
    ensures
        composed(argument_text(second) + style_text(style) + rest, arg0, arg1) == styled(
            if second {
                arg1
            } else {
                arg0
            },
            style,
        ) + composed(rest, arg0, arg1),
{
    reveal_strlit("{arg0");
    reveal_strlit("{arg1");
    assert("{arg0"@ =~= argument_text(false));
    assert("{arg1"@ =~= argument_text(true));
    let template = argument_text(second) + style_text(style) + rest;
    let tail = style_text(style) + rest;
    assert(template =~= argument_text(second) + tail);
    lemma_starts_with(argument_text(second), tail);
    lemma_style_is_found(style, rest);
    if second {
        lemma_differs(template, "{arg0"@, 4);
    }
    let taken = 5 + style_text(style).len();
    assert(placeholder(template) == Some((second, style, taken as int)));
    assert(template.skip(taken as int) =~= rest);
}

/// Whatever starts no placeholder is kept, one character at a time.
pub proof fn law_other_text_is_kept(template: Seq<char>, arg0: u32, arg1: u32)
    requires
        template.len() > 0,
        forall|second: bool, style: Style|
            !starts_with(
                template,
                #[trigger] argument_text(second) + #[trigger] style_text(style),
            ),
    ensures
        composed(template, arg0, arg1) == seq![template[0]] + composed(
            template.skip(1),
            arg0,
            arg1,
        ),
{
    reveal_strlit("{arg0");
    reveal_strlit("{arg1");
    reveal_strlit("}");
    reveal_strlit(":i32}");
    reveal_strlit(":hex}");
    reveal_strlit(":hi16}");
    reveal_strlit(":lo16}");
    assert("{arg0"@ =~= argument_text(false));
    assert("{arg1"@ =~= argument_text(true));
    assert("}"@ =~= style_text(Style::Plain));
    assert(":i32}"@ =~= style_text(Style::Signed));
    assert(":hex}"@ =~= style_text(Style::Hex));
    assert(":hi16}"@ =~= style_text(Style::High));
    assert(":lo16}"@ =~= style_text(Style::Low));
    if let Some((second, style, taken)) = placeholder(template) {
        let whole = argument_text(second) + style_text(style);
        let tail = template.skip(5);
        assert(starts_with(tail, style_text(style)));
        assert(starts_with(template, argument_text(second)));
        assert(template.take(whole.len() as int) =~= whole) by {
            assert forall|i: int| 0 <= i < whole.len() implies template[i] == whole[i] by {
                if i < 5 {
                    assert(template.take(5)[i] == argument_text(second)[i]);
                } else {
                    assert(tail.take(style_text(style).len() as int)[i - 5] == style_text(
                        style,
                    )[i - 5]);
                }
            }
        }
        assert(starts_with(template, whole));
    }
}

} // verus!
