//! Which cpus the endpoint's helper threads run on.
//!
//! New threads inherit the creator's realtime policy and pin, so helpers that never
//! touch the EtherCAT master move to the housekeeping cpus: every cpu the kernel does
//! not list as isolated. The list reads like `1-3,6`.

use vstd::prelude::*;
use vstd::string::*;

verus! {

/// A character that is trimmed off the ends of a number.
pub open spec fn is_space(c: char) -> bool {
    ||| '\u{9}' <= c <= '\u{d}'
    ||| c == ' '
    ||| c == '\u{85}'
    ||| c == '\u{a0}'
    ||| c == '\u{1680}'
    ||| '\u{2000}' <= c <= '\u{200a}'
    ||| c == '\u{2028}'
    ||| c == '\u{2029}'
    ||| c == '\u{202f}'
    ||| c == '\u{205f}'
    ||| c == '\u{3000}'
}

fn space(c: char) -> (is: bool)
    ensures
        is == is_space(c),
{
    ('\u{9}' <= c && c <= '\u{d}') || c == ' ' || c == '\u{85}' || c == '\u{a0}' || c == '\u{1680}'
        || ('\u{2000}' <= c && c <= '\u{200a}') || c == '\u{2028}' || c == '\u{2029}' || c
        == '\u{202f}' || c == '\u{205f}' || c == '\u{3000}'
}

/// The text without the spaces at its end.
pub open spec fn trim_end(text: Seq<char>) -> Seq<char>
    decreases text.len(),
{
    if text.len() > 0 && is_space(text.last()) {
        trim_end(text.drop_last())
    } else {
        text
    }
}

/// The text without the spaces at its start.
pub open spec fn trim_start(text: Seq<char>) -> Seq<char>
    decreases text.len(),
{
    if text.len() > 0 && is_space(text[0]) {
        trim_start(text.skip(1))
    } else {
        text
    }
}

/// The text without a leading plus sign.
pub open spec fn unsigned_part(text: Seq<char>) -> Seq<char> {
    if text.len() > 0 && text[0] == '+' {
        text.skip(1)
    } else {
        text
    }
}

/// The number a text spells: digits, after a plus sign if there is one, that fit.
pub open spec fn number(text: Seq<char>) -> Option<usize> {
    let digits = unsigned_part(text);
    if digits.len() > 0 && crate::text::all_digits(digits) && crate::text::digits_value(digits) <= usize::MAX {
        Some(crate::text::digits_value(digits) as usize)
    } else {
        None
    }
}

/// The number a text spells between its spaces.
pub open spec fn trimmed_number(text: Seq<char>) -> Option<usize> {
    number(trim_start(trim_end(text)))
}

/// The first place of a character, or the length where it does not occur.
pub open spec fn first_place(text: Seq<char>, c: char) -> nat
    decreases text.len(),
{
    if text.len() == 0 || text[0] == c {
        0
    } else {
        1 + first_place(text.skip(1), c)
    }
}

/// The cpus from `lo` through `hi`.
pub open spec fn cpu_range(lo: int, hi: int) -> Seq<usize> {
    if lo <= hi {
        Seq::new((hi - lo + 1) as nat, |i: int| (lo + i) as usize)
    } else {
        Seq::empty()
    }
}

/// The cpus one part of a list names: a range, a single cpu, or none where it spells
/// neither.
pub open spec fn part_cpus(part: Seq<char>) -> Seq<usize> {
    let dash = first_place(part, '-') as int;
    if dash < part.len() {
        match (trimmed_number(part.take(dash)), trimmed_number(part.skip(dash + 1))) {
            (Some(lo), Some(hi)) => cpu_range(lo as int, hi as int),
            _ => Seq::empty(),
        }
    } else {
        match trimmed_number(part) {
            Some(cpu) => seq![cpu],
            None => Seq::empty(),
        }
    }
}

/// The cpus a list names, part by part.
pub open spec fn list_cpus(list: Seq<char>) -> Seq<usize>
    decreases list.len(),
{
    let comma = first_place(list, ',') as int;
    if comma < list.len() {
        part_cpus(list.take(comma)) + list_cpus(list.skip(comma + 1))
    } else {
        part_cpus(list)
    }
}

proof fn lemma_first_place(text: Seq<char>, c: char)
    ensures
        0 <= first_place(text, c) <= text.len(),
        first_place(text, c) < text.len() ==> text[first_place(text, c) as int] == c,
        forall|i: int| 0 <= i < first_place(text, c) ==> text[i] != c,
    decreases text.len(),
{
    if text.len() > 0 && text[0] != c {
        lemma_first_place(text.skip(1), c);
        assert forall|i: int| 0 <= i < first_place(text, c) implies text[i] != c by {
            if i > 0 {
                assert(text[i] == text.skip(1)[i - 1]);
            }
        }
    }
}

proof fn lemma_first_place_is(text: Seq<char>, c: char, place: int)
    requires
        0 <= place <= text.len(),
        place < text.len() ==> text[place] == c,
        forall|i: int| 0 <= i < place ==> text[i] != c,
    ensures
        first_place(text, c) == place,
{
    lemma_first_place(text, c);
}

fn find(text: &Vec<char>, from: usize, to: usize, c: char) -> (place: usize)
    requires
        from <= to <= text@.len(),
    ensures
        from <= place <= to,
        place - from == first_place(text@.subrange(from as int, to as int), c),
{
    let ghost part = text@.subrange(from as int, to as int);
    let mut place: usize = from;
    while place < to && text[place] != c
        invariant
            from <= place <= to <= text@.len(),
            part == text@.subrange(from as int, to as int),
            forall|i: int| 0 <= i < place - from ==> part[i] != c,
        decreases to - place,
    {
        assert(part[place - from] == text@[place as int]);
        place += 1;
    }
    proof {
        lemma_first_place_is(part, c, place - from);
    }
    place
}

fn parse_number(text: &Vec<char>, from: usize, to: usize) -> (value: Option<usize>)
    requires
        from <= to <= text@.len(),
    ensures
        value == trimmed_number(text@.subrange(from as int, to as int)),
{
    let ghost whole = trimmed_number(text@.subrange(from as int, to as int));
    let mut end: usize = to;
    while end > from && space(text[end - 1])
        invariant
            from <= end <= text@.len(),
            whole == trimmed_number(text@.subrange(from as int, end as int)),
        decreases end,
    {
        let ghost part = text@.subrange(from as int, end as int);
        assert(part.last() == text@[end - 1]);
        assert(part.drop_last() =~= text@.subrange(from as int, end - 1));
        end -= 1;
    }
    let ghost part = text@.subrange(from as int, end as int);
    assert(end > from ==> part.last() == text@[end - 1]);
    assert(trim_end(part) == part);
    let mut start: usize = from;
    while start < end && space(text[start])
        invariant
            from <= start <= end <= text@.len(),
            whole == number(trim_start(text@.subrange(start as int, end as int))),
        decreases end - start,
    {
        let ghost part = text@.subrange(start as int, end as int);
        assert(part[0] == text@[start as int]);
        assert(part.skip(1) =~= text@.subrange(start + 1, end as int));
        start += 1;
    }
    let ghost trimmed = text@.subrange(start as int, end as int);
    assert(start < end ==> trimmed[0] == text@[start as int]);
    assert(whole == number(trimmed));
    if start < end && text[start] == '+' {
        start += 1;
        assert(trimmed.skip(1) =~= text@.subrange(start as int, end as int));
    }
    let ghost digits = text@.subrange(start as int, end as int);
    assert(digits == unsigned_part(trimmed));
    if start == end {
        return None;
    }
    let mut value: usize = 0;
    let mut index: usize = start;
    while index < end
        invariant
            start <= index <= end <= text@.len(),
            digits == text@.subrange(start as int, end as int),
            digits.len() > 0,
            from <= to <= text@.len(),
            whole == trimmed_number(text@.subrange(from as int, to as int)),
            whole == number(trimmed),
            digits == unsigned_part(trimmed),
            crate::text::all_digits(digits.take(index - start)),
            value == crate::text::digits_value(digits.take(index - start)),
        decreases end - index,
    {
        let c: char = text[index];
        let ghost sofar = digits.take(index - start);
        let ghost upto = digits.take(index - start + 1);
        assert(digits[index - start] == c);
        assert(upto.drop_last() =~= sofar);
        assert(upto.last() == c);
        if c < '0' || c > '9' {
            assert(!crate::text::all_digits(digits));
            return None;
        }
        let digit: usize = (c as u32 - '0' as u32) as usize;
        assert(crate::text::digits_value(upto) == crate::text::digits_value(sofar) * 10 + digit);
        let shifted: Option<usize> = value.checked_mul(10);
        let next: Option<usize> = match shifted {
            Some(tens) => tens.checked_add(digit),
            None => None,
        };
        match next {
            Some(sum) => {
                value = sum;
            },
            None => {
                proof {
                    crate::text::lemma_value_grows(digits, index - start + 1);
                }
                return None;
            },
        }
        assert(crate::text::all_digits(upto)) by {
            assert forall|i: int| 0 <= i < upto.len() implies crate::text::is_digit(#[trigger] upto[i]) by {
                if i < index - start {
                    assert(upto[i] == sofar[i]);
                }
            }
        }
        index += 1;
    }
    assert(digits.take(index - start) =~= digits);
    Some(value)
}

fn append_range(cpus: &mut Vec<usize>, lo: usize, hi: usize)
    ensures
        final(cpus)@ == old(cpus)@ + cpu_range(lo as int, hi as int),
{
    if lo > hi {
        assert(cpus@ =~= old(cpus)@ + cpu_range(lo as int, hi as int));
        return;
    }
    let mut cpu: usize = lo;
    cpus.push(lo);
    assert(cpus@ =~= old(cpus)@ + cpu_range(lo as int, lo as int));
    while cpu < hi
        invariant
            lo <= cpu <= hi,
            cpus@ == old(cpus)@ + cpu_range(lo as int, cpu as int),
        decreases hi - cpu,
    {
        cpu += 1;
        cpus.push(cpu);
        assert(cpus@ =~= old(cpus)@ + cpu_range(lo as int, cpu as int));
    }
}

fn append_part(cpus: &mut Vec<usize>, text: &Vec<char>, from: usize, to: usize)
    requires
        from <= to <= text@.len(),
    ensures
        final(cpus)@ == old(cpus)@ + part_cpus(text@.subrange(from as int, to as int)),
{
    let ghost part = text@.subrange(from as int, to as int);
    let dash: usize = find(text, from, to, '-');
    if dash < to {
        let lo: Option<usize> = parse_number(text, from, dash);
        let hi: Option<usize> = parse_number(text, dash + 1, to);
        assert(part.take(dash - from) =~= text@.subrange(from as int, dash as int));
        assert(part.skip(dash - from + 1) =~= text@.subrange(dash + 1, to as int));
        if let Some(lo) = lo {
            if let Some(hi) = hi {
                append_range(cpus, lo, hi);
                return;
            }
        }
    } else {
        if let Some(cpu) = parse_number(text, from, to) {
            cpus.push(cpu);
        }
    }
    assert(cpus@ =~= old(cpus)@ + part_cpus(part));
}

fn chars_of(list: &str) -> (chars: Vec<char>)
    ensures
        chars@ == list@,
{
    let length: usize = list.unicode_len();
    let mut chars: Vec<char> = Vec::new();
    let mut index: usize = 0;
    while index < length
        invariant
            index <= length,
            length == list@.len(),
            chars@ == list@.take(index as int),
        decreases length - index,
    {
        chars.push(list.get_char(index));
        assert(chars@ =~= list@.take(index + 1));
        index += 1;
    }
    assert(list@.take(index as int) =~= list@);
    chars
}

/// The cpus a kernel cpu list names. Parts that spell no cpus name none.
pub fn parse_cpu_list(list: &str) -> (cpus: Vec<usize>)
    ensures
        cpus@ == list_cpus(list@),
{
    let text = chars_of(list);
    let mut cpus: Vec<usize> = Vec::new();
    let mut start: usize = 0;
    assert(text@.subrange(0, text@.len() as int) =~= text@);
    loop
        invariant
            start <= text@.len(),
            text@ == list@,
            list_cpus(list@) == cpus@ + list_cpus(
                text@.subrange(start as int, text@.len() as int),
            ),
        decreases text@.len() - start,
    {
        let length: usize = text.len();
        let comma: usize = find(&text, start, length, ',');
        let ghost rest = text@.subrange(start as int, text@.len() as int);
        let ghost before = cpus@;
        proof {
            lemma_first_place(rest, ',');
        }
        append_part(&mut cpus, &text, start, comma);
        if comma < length {
            assert(rest.take(comma - start) =~= text@.subrange(start as int, comma as int));
            assert(rest.skip(comma - start + 1) =~= text@.subrange(
                comma + 1,
                text@.len() as int,
            ));
            assert(list_cpus(list@) =~= cpus@ + list_cpus(
                text@.subrange(comma + 1, text@.len() as int),
            ));
            start = comma + 1;
        } else {
            assert(rest =~= text@.subrange(start as int, comma as int));
            assert(list_cpus(list@) =~= cpus@);
            return cpus;
        }
    }
}

/// The cpus below `count` that are not isolated, or all of them where every one is.
pub open spec fn housekeeping(isolated: Seq<usize>, count: nat) -> Seq<usize> {
    let all = Seq::new(count, |i: int| i as usize);
    let free = all.filter(|cpu: usize| !isolated.contains(cpu));
    if free.len() > 0 {
        free
    } else {
        all
    }
}

fn contains(cpus: &[usize], cpu: usize) -> (found: bool)
    ensures
        found == cpus@.contains(cpu),
{
    let mut index: usize = 0;
    while index < cpus.len()
        invariant
            index <= cpus@.len(),
            forall|i: int| 0 <= i < index ==> cpus@[i] != cpu,
        decreases cpus@.len() - index,
    {
        if cpus[index] == cpu {
            return true;
        }
        index += 1;
    }
    false
}

/// The cpus a helper thread may run on, of the `count` there can be.
pub fn housekeeping_cpus(isolated: &[usize], count: usize) -> (cpus: Vec<usize>)
    ensures
        cpus@ == housekeeping(isolated@, count as nat),
{
    let ghost all = Seq::new(count as nat, |i: int| i as usize);
    let ghost is_free = |cpu: usize| !isolated@.contains(cpu);
    let mut free: Vec<usize> = Vec::new();
    let mut every: Vec<usize> = Vec::new();
    let mut cpu: usize = 0;
    assert(all.take(0).filter(is_free) =~= Seq::empty());
    while cpu < count
        invariant
            cpu <= count,
            all == Seq::new(count as nat, |i: int| i as usize),
            is_free == (|cpu: usize| !isolated@.contains(cpu)),
            free@ == all.take(cpu as int).filter(is_free),
            every@ == all.take(cpu as int),
        decreases count - cpu,
    {
        assert(all.take(cpu + 1) =~= all.take(cpu as int).push(cpu));
        proof {
            all.take(cpu as int).lemma_filter_push(cpu, is_free);
        }
        if !contains(isolated, cpu) {
            free.push(cpu);
        }
        every.push(cpu);
        cpu += 1;
    }
    assert(all.take(cpu as int) =~= all);
    if free.len() > 0 {
        free
    } else {
        every
    }
}

/// A helper always has somewhere to run, and it stays off the isolated cpus wherever
/// there is another.
pub proof fn law_helpers_stay_off_isolated_cpus(isolated: Seq<usize>, count: nat, free: usize)
    requires
        free < count,
        count <= usize::MAX,
        !isolated.contains(free),
    ensures
        forall|i: int|
            0 <= i < housekeeping(isolated, count).len() ==> !isolated.contains(
                #[trigger] housekeeping(isolated, count)[i],
            ),
        housekeeping(isolated, count).contains(free),
{
    let all = Seq::new(count, |i: int| i as usize);
    let is_free = |cpu: usize| !isolated.contains(cpu);
    all.lemma_filter_contains(is_free, free as int);
    assert(all[free as int] == free);
    assert forall|i: int| 0 <= i < all.filter(is_free).len() implies !isolated.contains(
        #[trigger] all.filter(is_free)[i],
    ) by {
        all.lemma_filter_pred(is_free, i);
    }
}

/// Blanks, tabs and line ends are spaces, and no other character below 128 is.
pub proof fn law_blanks_and_line_ends_are_spaces(c: char)
    requires
        (c as int) < 128,
    ensures
        is_space(c) <==> c as int == 32 || 9 <= c as int <= 13,
{
}

/// Spaces before and after a number make no difference to it, and those inside it are not
/// part of a number.
pub proof fn law_spaces_around_a_number_are_trimmed(text: Seq<char>, c: char)
    ensures
        is_space(c) ==> trimmed_number(text.push(c)) == trimmed_number(text),
        is_space(c) ==> trimmed_number(seq![c] + text) == trimmed_number(text),
        text.len() > 0 && !is_space(text[0]) && !is_space(text.last()) ==> trimmed_number(text)
            == number(text),
        text.len() == 0 ==> trimmed_number(text) is None,
{
    assert(text.push(c).drop_last() =~= text);
    if is_space(c) {
        lemma_trim_end_past_a_space(text, c);
    }
}

proof fn lemma_trim_end_past_a_space(text: Seq<char>, c: char)
    requires
        is_space(c),
    ensures
        trim_start(trim_end(seq![c] + text)) == trim_start(trim_end(text)),
    decreases text.len(),
{
    let longer = seq![c] + text;
    if text.len() == 0 {
        assert(longer =~= seq![c]);
        assert(longer.drop_last() =~= text);
        assert(longer.last() == c);
    } else {
        assert(longer.last() == text.last());
        assert(longer.drop_last() =~= seq![c] + text.drop_last());
        if is_space(text.last()) {
            lemma_trim_end_past_a_space(text.drop_last(), c);
        } else {
            assert(longer.skip(1) =~= text);
            assert(longer[0] == c);
        }
    }
}

/// A written number is read back, with a plus sign before it too. A text with another
/// character than digits behind its sign is no number, nor is one without a digit.
pub proof fn law_written_number_is_read_back(n: usize, text: Seq<char>)
    ensures
        number(crate::text::decimal(n as nat)) == Some(n),
        number(seq!['+'] + crate::text::decimal(n as nat)) == Some(n),
        number(text) is Some ==> text.len() > 0 && (crate::text::is_digit(text[0]) || (text[0]
            == '+' && text.len() > 1)),
        number(text) is Some ==> forall|i: int|
            0 < i < text.len() ==> crate::text::is_digit(#[trigger] text[i]),
{
    let digits = crate::text::decimal(n as nat);
    crate::text::lemma_decimal_is_digits(n as nat);
    assert(crate::text::is_digit(digits[0]));
    assert((seq!['+'] + digits).skip(1) =~= digits);
    if number(text) is Some {
        let own = unsigned_part(text);
        assert(crate::text::is_digit(own[0]));
        assert forall|i: int| 0 < i < text.len() implies crate::text::is_digit(
            #[trigger] text[i],
        ) by {
            if text[0] == '+' {
                assert(own[i - 1] == text[i]);
            } else {
                assert(own[i] == text[i]);
            }
        }
    }
}

/// A range names every cpu from its first through its last, in order, and none where the
/// last lies before the first.
pub proof fn law_range_names_first_through_last(lo: usize, hi: usize, i: int)
    ensures
        lo > hi ==> cpu_range(lo as int, hi as int).len() == 0,
        lo <= hi ==> cpu_range(lo as int, hi as int).len() == hi - lo + 1,
        0 <= i <= hi - lo ==> cpu_range(lo as int, hi as int)[i] == lo + i,
{
}

/// A part with a dash is a range between the numbers on its two sides, and names nothing
/// where one of them is none. A part without is one cpu.
pub proof fn law_part_is_a_range_or_a_cpu(before: Seq<char>, after: Seq<char>)
    requires
        !before.contains('-'),
    ensures
        ({
            let cpus = part_cpus(before + seq!['-'] + after);
            match (trimmed_number(before), trimmed_number(after)) {
                (Some(lo), Some(hi)) => cpus == cpu_range(lo as int, hi as int),
                _ => cpus.len() == 0,
            }
        }),
        match trimmed_number(before) {
            Some(cpu) => part_cpus(before).len() == 1 && part_cpus(before)[0] == cpu,
            None => part_cpus(before).len() == 0,
        },
{
    let part = before + seq!['-'] + after;
    assert forall|i: int| 0 <= i < before.len() implies part[i] != '-' && before[i] != '-' by {
        assert(before.contains(before[i]));
    }
    lemma_first_place_is(part, '-', before.len() as int);
    lemma_first_place_is(before, '-', before.len() as int);
    assert(part.take(before.len() as int) =~= before);
    assert(part.skip(before.len() as int + 1) =~= after);
}

/// The parts of a list stand between its commas, and their cpus follow each other in
/// order.
pub proof fn law_parts_stand_between_commas(part: Seq<char>, rest: Seq<char>)
    requires
        !part.contains(','),
    ensures
        list_cpus(part) == part_cpus(part),
        list_cpus(part + seq![','] + rest) == part_cpus(part) + list_cpus(rest),
{
    let list = part + seq![','] + rest;
    assert forall|i: int| 0 <= i < part.len() implies list[i] != ',' && part[i] != ',' by {
        assert(part.contains(part[i]));
    }
    lemma_first_place_is(list, ',', part.len() as int);
    lemma_first_place_is(part, ',', part.len() as int);
    assert(list.take(part.len() as int) =~= part);
    assert(list.skip(part.len() as int + 1) =~= rest);
}

proof fn lemma_increasing_after_filter(cpus: Seq<usize>, keep: spec_fn(usize) -> bool)
    requires
        forall|i: int, j: int| 0 <= i < j < cpus.len() ==> cpus[i] < cpus[j],
    ensures
        forall|i: int, j: int|
            0 <= i < j < cpus.filter(keep).len() ==> cpus.filter(keep)[i] < cpus.filter(keep)[j],
    decreases cpus.len(),
{
    broadcast use {Seq::lemma_filter_len, Seq::lemma_filter_contains_rev};

    if cpus.len() > 0 {
        let earlier = cpus.drop_last();
        lemma_increasing_after_filter(earlier, keep);
        assert(cpus =~= earlier.push(cpus.last()));
        earlier.lemma_filter_push(cpus.last(), keep);
        assert forall|i: int| 0 <= i < earlier.filter(keep).len() implies earlier.filter(keep)[i]
            < cpus.last() by {
            assert(earlier.filter(keep).contains(earlier.filter(keep)[i]));
            assert(earlier.contains(earlier.filter(keep)[i]));
        }
    } else {
        assert(cpus.filter(keep).len() <= cpus.len());
    }
}

/// Helpers run on exactly the cpus that are not isolated, by increasing number; where all
/// are isolated they run on all.
pub proof fn law_housekeeping_is_what_is_not_isolated(
    isolated: &[usize],
    count: usize,
    cpus: Vec<usize>,
)
    requires
        call_ensures(housekeeping_cpus, (isolated, count), cpus),
    ensures
        forall|i: int, j: int| 0 <= i < j < cpus@.len() ==> cpus@[i] < cpus@[j],
        forall|i: int| 0 <= i < cpus@.len() ==> #[trigger] cpus@[i] < count,
        forall|free: usize, cpu: usize|
            free < count && !#[trigger] isolated@.contains(free) ==> (#[trigger] cpus@.contains(cpu)
                <==> cpu < count && !isolated@.contains(cpu)),
        (forall|cpu: usize| cpu < count ==> #[trigger] isolated@.contains(cpu)) ==> cpus@.len()
            == count,
{
    broadcast use {
        Seq::lemma_filter_len,
        Seq::lemma_filter_pred,
        Seq::lemma_filter_contains,
        Seq::lemma_filter_contains_rev,
    };

    let all = Seq::new(count as nat, |i: int| i as usize);
    let is_free = |cpu: usize| !isolated@.contains(cpu);
    let free_cpus = all.filter(is_free);
    lemma_increasing_after_filter(all, is_free);
    assert forall|i: int| 0 <= i < cpus@.len() implies #[trigger] cpus@[i] < count by {
        if free_cpus.len() > 0 {
            assert(free_cpus.contains(free_cpus[i]));
            assert(all.contains(free_cpus[i]));
        }
    }
    assert forall|free: usize, cpu: usize|
        free < count && !#[trigger] isolated@.contains(free) implies (#[trigger] cpus@.contains(
        cpu,
    ) <==> cpu < count && !isolated@.contains(cpu)) by {
        assert(all[free as int] == free);
        assert(is_free(all[free as int]));
        assert(free_cpus.contains(free));
        assert(cpus@ == free_cpus);
        if cpus@.contains(cpu) {
            assert(all.contains(cpu));
            let i = choose|i: int| 0 <= i < free_cpus.len() && free_cpus[i] == cpu;
            assert(is_free(free_cpus[i]));
        }
        if cpu < count && !isolated@.contains(cpu) {
            assert(all[cpu as int] == cpu);
            assert(is_free(all[cpu as int]));
        }
    }
    if forall|cpu: usize| cpu < count ==> #[trigger] isolated@.contains(cpu) {
        if free_cpus.len() > 0 {
            assert(free_cpus.contains(free_cpus[0]));
            assert(all.contains(free_cpus[0]));
            assert(is_free(free_cpus[0]));
        }
    }
}

/// The cpus of a list are those of its parts, from the first comma on part by part.
pub proof fn law_parsed_list_is_that_of_its_parts(
    list: &str,
    cpus: Vec<usize>,
    part: Seq<char>,
    rest: Seq<char>,
)
    requires
        call_ensures(parse_cpu_list, (list,), cpus),
        !part.contains(','),
    ensures
        list@ == part ==> cpus@ == list_cpus(part),
        list@ == part + seq![','] + rest ==> cpus@ == list_cpus(part) + list_cpus(rest),
{
    law_parts_stand_between_commas(part, rest);
    law_parts_stand_between_commas(part, Seq::empty());
}

} // verus!
