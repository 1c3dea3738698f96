//! Text rendering: decimal and hexadecimal numbers, lists and quoted strings.
use vstd::prelude::*;

verus! {

/// The character of a single decimal or hexadecimal digit.
pub open spec fn digit(d: nat) -> char {
    if d < 10 {
        (48 + d) as char
    } else {
        (87 + d) as char
    }
}

/// `n` written in base ten, without leading zeros.
pub open spec fn decimal(n: nat) -> Seq<char>
    decreases n,
{
    if n < 10 {
        seq![digit(n)]
    } else {
        decimal(n / 10).push(digit(n % 10))
    }
}

/// `n` written in base ten, with a leading minus sign when it is negative.
pub open spec fn signed_decimal(n: int) -> Seq<char> {
    if n < 0 {
        seq!['-'] + decimal((-n) as nat)
    } else {
        decimal(n as nat)
    }
}

/// `n` written in base sixteen with lower-case digits, without leading zeros.
pub open spec fn hexadecimal(n: nat) -> Seq<char>
    decreases n,
{
    if n < 16 {
        seq![digit(n)]
    } else {
        hexadecimal(n / 16).push(digit(n % 16))
    }
}

/// `s` preceded by as many spaces as it takes to be `width` characters long.
pub open spec fn right_aligned(s: Seq<char>, width: nat) -> Seq<char> {
    if s.len() >= width {
        s
    } else {
        Seq::new((width - s.len()) as nat, |i: int| ' ') + s
    }
}

/// The decimal numbers of `bytes`, separated by a comma and a space.
pub open spec fn byte_list(bytes: Seq<u8>) -> Seq<char>
    decreases bytes.len(),
{
    if bytes.len() == 0 {
        Seq::empty()
    } else if bytes.len() == 1 {
        decimal(bytes[0] as nat)
    } else {
        byte_list(bytes.drop_last()) + seq![',', ' '] + decimal(bytes.last() as nat)
    }
}

/// What the formatting of a string for debugging makes of `s`: the text in
/// double quotes with special characters escaped.
pub uninterp spec fn quoted(s: Seq<char>) -> Seq<char>;

/// Calls `str`'s `Debug` formatting (`{:?}`). Claimed: the text depends on
/// the characters of `s` alone. Which characters are escaped, and how, is left
/// to the standard library.
#[verifier::external_body]
pub(crate) fn debug_quoted(s: &str) -> (text: String)
    ensures
        text@ == quoted(s@),
{
    format!("{:?}", s)
}

fn digit_text(d: u64) -> (text: &'static str)
    requires
        d < 10,
    ensures
        text@ == seq![digit(d as nat)],
{
    proof {
        reveal_strlit("0");
        reveal_strlit("1");
        reveal_strlit("2");
        reveal_strlit("3");
        reveal_strlit("4");
        reveal_strlit("5");
        reveal_strlit("6");
        reveal_strlit("7");
        reveal_strlit("8");
        reveal_strlit("9");
    }
    let text = if d == 0 {
        "0"
    } else if d == 1 {
        "1"
    } else if d == 2 {
        "2"
    } else if d == 3 {
        "3"
    } else if d == 4 {
        "4"
    } else if d == 5 {
        "5"
    } else if d == 6 {
        "6"
    } else if d == 7 {
        "7"
    } else if d == 8 {
        "8"
    } else {
        "9"
    };
    assert(text@ =~= seq![digit(d as nat)]);
    text
}

/// `n` in base ten.
pub fn decimal_text(n: u64) -> (text: String)
    ensures
        text@ == decimal(n as nat),
    decreases n,
{
    let mut text = if n < 10 {
        String::new()
    } else {
        decimal_text(n / 10)
    };
    text.append(digit_text(n % 10));
    assert(text@ =~= decimal(n as nat));
    text
}

/// The three texts one after the other.
pub fn joined(first: &str, second: &str, third: &str) -> (text: String)
    ensures
        text@ == first@ + second@ + third@,
{
    let mut text = first.to_owned();
    text.append(second);
    text.append(third);
    text
}

/// A fresh copy of an optional text.
pub fn copied(text: &Option<String>) -> (copy: Option<String>)
    ensures
        copy == *text,
{
    match text {
        Some(t) => Some(t.clone()),
        None => None,
    }
}

/// The number that a digit stands for.
pub open spec fn digit_value(c: char) -> int {
    if '0' <= c <= '9' {
        c as int - '0' as int
    } else if 'a' <= c <= 'f' {
        c as int - 'a' as int + 10
    } else {
        -1
    }
}

/// The number that is written with these digits in a base.
pub open spec fn number_read(digits: Seq<char>, base: int) -> int
    decreases digits.len(),
{
    if digits.len() == 0 {
        0
    } else {
        number_read(digits.drop_last(), base) * base + digit_value(digits.last())
    }
}

/// The text is a number in that base: it has digits of the base only, at least
/// one, and no zero in front of others.
pub open spec fn is_number_text(text: Seq<char>, base: int) -> bool {
    &&& text.len() > 0
    &&& forall|i: int| 0 <= i < text.len() ==> 0 <= digit_value(#[trigger] text[i]) < base
    &&& text.len() > 1 ==> text[0] != '0'
}

/// A number in base ten reads as the number.
pub proof fn law_decimals_read_back(n: nat)
    ensures
        is_number_text(decimal(n), 10),
        number_read(decimal(n), 10) == n,
        n > 0 ==> decimal(n)[0] != '0',
    decreases n,
{
    if n < 10 {
        assert(decimal(n).drop_last() =~= Seq::empty());
        assert(number_read(decimal(n).drop_last(), 10) == 0);
        assert(digit_value(digit(n)) == n);
    } else {
        law_decimals_read_back(n / 10);
        let front = decimal(n / 10);
        assert(decimal(n).drop_last() =~= front);
        assert(digit_value(digit(n % 10)) == n % 10);
        assert forall|i: int| 0 <= i < decimal(n).len() implies 0 <= digit_value(
            #[trigger] decimal(n)[i],
        ) < 10 by {
            if i < front.len() {
                assert(decimal(n)[i] == front[i]);
            }
        }
        assert(decimal(n)[0] == front[0]);
    }
}

/// A number in base sixteen reads as the number.
pub proof fn law_hexadecimals_read_back(n: nat)
    ensures
        is_number_text(hexadecimal(n), 16),
        number_read(hexadecimal(n), 16) == n,
        n > 0 ==> hexadecimal(n)[0] != '0',
    decreases n,
{
    if n < 16 {
        assert(hexadecimal(n).drop_last() =~= Seq::empty());
        assert(number_read(hexadecimal(n).drop_last(), 16) == 0);
        assert(digit_value(digit(n)) == n);
    } else {
        law_hexadecimals_read_back(n / 16);
        let front = hexadecimal(n / 16);
        assert(hexadecimal(n).drop_last() =~= front);
        assert(digit_value(digit(n % 16)) == n % 16);
        assert forall|i: int| 0 <= i < hexadecimal(n).len() implies 0 <= digit_value(
            #[trigger] hexadecimal(n)[i],
        ) < 16 by {
            if i < front.len() {
                assert(hexadecimal(n)[i] == front[i]);
            }
        }
        assert(hexadecimal(n)[0] == front[0]);
    }
}

/// A signed number in base ten reads as the number: a minus sign stands in front
/// exactly where it is negative.
pub proof fn law_signed_decimals_read_back(n: int)
    ensures
        n >= 0 ==> is_number_text(signed_decimal(n), 10) && number_read(signed_decimal(n), 10) == n,
        n < 0 ==> {
            let digits = signed_decimal(n).drop_first();
            &&& signed_decimal(n).len() > 1
            &&& signed_decimal(n)[0] == '-'
            &&& is_number_text(digits, 10)
            &&& number_read(digits, 10) == -n
        },
{
    if n >= 0 {
        law_decimals_read_back(n as nat);
    } else {
        law_decimals_read_back((-n) as nat);
        assert(signed_decimal(n).drop_first() =~= decimal((-n) as nat));
    }
}

/// Aligning a text to the right makes it at least that wide, and puts nothing but
/// spaces in front of it.
pub proof fn law_alignment_adds_spaces(s: Seq<char>, width: nat)
    ensures
        right_aligned(s, width).len() == if s.len() < width {
            width
        } else {
            s.len()
        },
        s.is_suffix_of(right_aligned(s, width)),
        forall|i: int|
            0 <= i < right_aligned(s, width).len() - s.len() ==> #[trigger] right_aligned(
                s,
                width,
            )[i] == ' ',
{
    let aligned = right_aligned(s, width);
    assert(aligned.subrange(aligned.len() - s.len(), aligned.len() as int) =~= s);
}

/// A list of bytes with one more byte is the list, a comma, a space and the
/// number of that byte; with one byte it is its number, and without bytes it is
/// empty.
pub proof fn law_byte_lists_grow_at_the_end(bytes: Seq<u8>, byte: u8)
    ensures
        bytes.len() == 0 ==> byte_list(bytes) == Seq::<char>::empty(),
        bytes.len() == 0 ==> byte_list(bytes.push(byte)) == decimal(byte as nat),
        bytes.len() > 0 ==> byte_list(bytes.push(byte)) == byte_list(bytes).push(',').push(' ')
            + decimal(byte as nat),
{
    assert(bytes.push(byte).drop_last() =~= bytes);
    if bytes.len() > 0 {
        assert(byte_list(bytes) + seq![',', ' '] =~= byte_list(bytes).push(',').push(' '));
    }
}

} // verus!
