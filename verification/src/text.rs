//! Numbers written out as text, and the white space around a text.

use vstd::prelude::*;

verus! {

/// The character of a decimal or hexadecimal digit, in lower case.
pub open spec fn digit_char(digit: nat) -> char {
    if digit < 10 {
        ('0' as u32 + digit) as char
    } else {
        ('a' as u32 + (digit - 10)) as char
    }
}

/// A digit as a text of one character.
pub(crate) fn digit_text(digit: u8) -> (text: &'static str)
    requires
        digit < 16,
    ensures
        text@ == seq![digit_char(digit as nat)],
{
    proof {
        reveal_strlit("0");
        reveal_strlit("1");
        reveal_strlit("2");
        reveal_strlit("3");
        reveal_strlit("4");
        reveal_strlit("5");
        reveal_strlit("6");
        reveal_strlit("7");
        reveal_strlit("8");
        reveal_strlit("9");
        reveal_strlit("a");
        reveal_strlit("b");
        reveal_strlit("c");
        reveal_strlit("d");
        reveal_strlit("e");
        reveal_strlit("f");
    }
    match digit {
        0 => "0",
        1 => "1",
        2 => "2",
        3 => "3",
        4 => "4",
        5 => "5",
        6 => "6",
        7 => "7",
        8 => "8",
        9 => "9",
        10 => "a",
        11 => "b",
        12 => "c",
        13 => "d",
        14 => "e",
        _ => "f",
    }
}

/// A number in decimal digits, without leading zeros.
pub open spec fn decimal(n: nat) -> Seq<char>
    decreases n,
{
    if n < 10 {
        seq![digit_char(n)]
    } else {
        decimal(n / 10).push(digit_char(n % 10))
    }
}

/// Writes a number in decimal digits.
pub fn decimal_text(n: u128) -> (text: String)
    ensures
        text@ == decimal(n as nat),
    decreases n,
{
    let mut text = if n < 10 {
        String::new()
    } else {
        decimal_text(n / 10)
    };
    let ghost before = text@;
    text.append(digit_text((n % 10) as u8));
    assert(text@ =~= before.push(digit_char((n % 10) as nat)));
    assert(n < 10 ==> text@ =~= seq![digit_char(n as nat)]);
    text
}

/// A signed number in decimal digits.
pub open spec fn signed_decimal(n: int) -> Seq<char> {
    if n < 0 {
        "-"@ + decimal((-n) as nat)
    } else {
        decimal(n as nat)
    }
}

/// Writes a signed number in decimal digits.
pub fn signed_decimal_text(n: i64) -> (text: String)
    ensures
        text@ == signed_decimal(n as int),
{
    if n < 0 {
        let mut text = String::from_str("-");
        text.append(decimal_text((-(n as i128)) as u128).as_str());
        text
    } else {
        decimal_text(n as u128)
    }
}

/// The characters that Unicode counts as white space.
pub open spec fn is_white_space(c: char) -> bool {
    let code = c as u32;
    ||| 0x9 <= code <= 0xd
    ||| code == 0x20
    ||| code == 0x85
    ||| code == 0xa0
    ||| code == 0x1680
    ||| 0x2000 <= code <= 0x200a
    ||| code == 0x2028
    ||| code == 0x2029
    ||| code == 0x202f
    ||| code == 0x205f
    ||| code == 0x3000
}

fn white_space(c: char) -> (yes: bool)
    ensures
        yes == is_white_space(c),
{
    let code: u32 = c as u32;
    (0x9 <= code && code <= 0xd) || code == 0x20 || code == 0x85 || code == 0xa0 || code == 0x1680
        || (0x2000 <= code && code <= 0x200a) || code == 0x2028 || code == 0x2029 || code == 0x202f
        || code == 0x205f || code == 0x3000
}

/// A text without the white space before it and after it.
pub open spec fn trimmed(text: Seq<char>) -> Seq<char>
    decreases text.len(),
{
    if text.len() > 0 && is_white_space(text[0]) {
        trimmed(text.skip(1))
    } else if text.len() > 0 && is_white_space(text.last()) {
        trimmed(text.drop_last())
    } else {
        text
    }
}

/// Takes the white space before and after a text away.
pub fn trim(text: &str) -> (rest: &str)
    ensures
        rest@ == trimmed(text@),
{
    let len: usize = text.unicode_len();
    let mut start: usize = 0;
    assert(text@.subrange(0, len as int) =~= text@);
    while start < len && white_space(text.get_char(start))
        invariant
            start <= len == text@.len(),
            trimmed(text@) == trimmed(text@.subrange(start as int, len as int)),
        decreases len - start,
    {
        assert(text@.subrange(start as int, len as int).skip(1) =~= text@.subrange(
            start + 1,
            len as int,
        ));
        start = start + 1;
    }
    let mut end: usize = len;
    while start < end && white_space(text.get_char(end - 1))
        invariant
            start <= end <= len == text@.len(),
            start < len ==> !is_white_space(text@[start as int]),
            trimmed(text@) == trimmed(text@.subrange(start as int, end as int)),
        decreases end,
    {
        assert(text@.subrange(start as int, end as int).drop_last() =~= text@.subrange(
            start as int,
            end - 1,
        ));
        end = end - 1;
    }
    text.substring_char(start, end)
}

/// Whether a text holds a character.
pub fn has_char(text: &str, c: char) -> (found: bool)
    ensures
        found <==> text@.contains(c),
{
    let len: usize = text.unicode_len();
    let mut i: usize = 0;
    while i < len
        invariant
            i <= len == text@.len(),
            forall|j: int| 0 <= j < i ==> text@[j] != c,
        decreases len - i,
    {
        if text.get_char(i) == c {
            return true;
        }
        i = i + 1;
    }
    false
}

/// What is left after trimming neither starts nor ends with white space, and trimming it again
/// changes nothing.
pub proof fn law_trimmed(text: Seq<char>)
    ensures
        trimmed(trimmed(text)) == trimmed(text),
        trimmed(text).len() > 0 ==> !is_white_space(trimmed(text)[0]) && !is_white_space(
            trimmed(text).last(),
        ),
    decreases text.len(),
{
    if text.len() > 0 && is_white_space(text[0]) {
        law_trimmed(text.skip(1));
    } else if text.len() > 0 && is_white_space(text.last()) {
        law_trimmed(text.drop_last());
    }
}

/// Two texts, one behind the other.
pub fn join2(a: &str, b: &str) -> (text: String)
    ensures
        text@ == a@ + b@,
{
    let mut text = String::from_str(a);
    text.append(b);
    text
}

/// Three texts, one behind the other.
pub fn join3(a: &str, b: &str, c: &str) -> (text: String)
    ensures
        text@ == a@ + b@ + c@,
{
    let mut text = join2(a, b);
    text.append(c);
    text
}

/// Four texts, one behind the other.
pub fn join4(a: &str, b: &str, c: &str, d: &str) -> (text: String)
    ensures
        text@ == a@ + b@ + c@ + d@,
{
    let mut text = join3(a, b, c);
    text.append(d);
    text
}

/// Five texts, one behind the other.
pub fn join5(a: &str, b: &str, c: &str, d: &str, e: &str) -> (text: String)
    ensures
        text@ == a@ + b@ + c@ + d@ + e@,
{
    let mut text = join4(a, b, c, d);
    text.append(e);
    text
}

/// The number that decimal digits stand for.
pub open spec fn number_of(digits: Seq<char>) -> nat
    decreases digits.len(),
{
    if digits.len() == 0 {
        0
    } else {
        10 * number_of(digits.drop_last()) + (digits.last() as u32 - '0' as u32) as nat
    }
}

/// A number in decimal digits reads back as that number. It is written with digits only, and
/// does not start with a zero unless it is zero.
pub proof fn law_decimal_reads_back(n: nat)
    ensures
        number_of(decimal(n)) == n,
        forall|i: int| 0 <= i < decimal(n).len() ==> '0' <= #[trigger] decimal(n)[i] <= '9',
        decimal(n).len() > 0,
        n > 0 ==> decimal(n)[0] != '0',
    decreases n,
{
    reveal_with_fuel(number_of, 2);
    if n >= 10 {
        law_decimal_reads_back(n / 10);
        assert(decimal(n).drop_last() =~= decimal(n / 10));
    } else {
        assert(decimal(n).drop_last() =~= Seq::empty());
    }
}

/// A signed number in decimal digits has a minus sign just where it is negative, and reads back
/// behind it.
pub proof fn law_signed_decimal_reads_back(n: int)
    ensures
        n >= 0 ==> number_of(signed_decimal(n)) == n && signed_decimal(n)[0] != '-',
        n < 0 ==> signed_decimal(n)[0] == '-' && number_of(signed_decimal(n).skip(1)) == -n,
{
    reveal_strlit("-");
    if n < 0 {
        law_decimal_reads_back((-n) as nat);
        assert(signed_decimal(n).skip(1) =~= decimal((-n) as nat));
    } else {
        law_decimal_reads_back(n as nat);
    }
}

proof fn lemma_trim_bounds(text: Seq<char>) -> (bounds: (int, int))
    ensures
        0 <= bounds.0 <= bounds.1 <= text.len(),
        trimmed(text) =~= text.subrange(bounds.0, bounds.1),
        forall|i: int| 0 <= i < bounds.0 ==> is_white_space(#[trigger] text[i]),
        forall|i: int| bounds.1 <= i < text.len() ==> is_white_space(#[trigger] text[i]),
    decreases text.len(),
{
    if text.len() > 0 && is_white_space(text[0]) {
        let rest = text.skip(1);
        let (start, end) = lemma_trim_bounds(rest);
        assert(trimmed(text) =~= text.subrange(start + 1, end + 1));
        assert forall|i: int| 0 <= i < start + 1 implies is_white_space(#[trigger] text[i]) by {
            if i > 0 {
                assert(text[i] == rest[i - 1]);
            }
        }
        assert forall|i: int| end + 1 <= i < text.len() implies is_white_space(
            #[trigger] text[i],
        ) by {
            assert(text[i] == rest[i - 1]);
        }
        (start + 1, end + 1)
    } else if text.len() > 0 && is_white_space(text.last()) {
        let rest = text.drop_last();
        let (start, end) = lemma_trim_bounds(rest);
        assert(trimmed(text) =~= text.subrange(start, end));
        assert forall|i: int| 0 <= i < start implies is_white_space(#[trigger] text[i]) by {
            assert(text[i] == rest[i]);
        }
        assert forall|i: int| end <= i < text.len() implies is_white_space(#[trigger] text[i]) by {
            if i < rest.len() {
                assert(text[i] == rest[i]);
            }
        }
        (start, end)
    } else {
        (0, text.len() as int)
    }
}

/// Trimming takes nothing but white space, and only at the two ends.
pub proof fn law_trimming_takes_only_white_space(text: Seq<char>)
    ensures
        exists|start: int, end: int|
            {
                &&& 0 <= start <= end <= text.len()
                &&& trimmed(text) == #[trigger] text.subrange(start, end)
                &&& forall|i: int| 0 <= i < start ==> is_white_space(#[trigger] text[i])
                &&& forall|i: int| end <= i < text.len() ==> is_white_space(#[trigger] text[i])
            },
{
    let (start, end) = lemma_trim_bounds(text);
    assert(trimmed(text) == text.subrange(start, end));
}

} // verus!
