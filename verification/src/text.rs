//! Text primitives shared by the whole library.
//!
//! A text is modelled by the sequence of its characters, the view of `String` and `&str`.
use vstd::prelude::*;

use crate::views::{opt_view, views};

verus! {

/// `needle` occurs somewhere in `hay`.
pub open spec fn is_infix(needle: Seq<char>, hay: Seq<char>) -> bool {
    exists|i: int|
        0 <= i <= hay.len() - needle.len() && #[trigger] hay.subrange(i, i + needle.len())
            == needle
}

/// Every character of the text is ASCII.
pub open spec fn is_ascii_text(text: Seq<char>) -> bool {
    forall|i: int| 0 <= i < text.len() ==> (#[trigger] text[i]) as u32 <= 127
}

/// The upper-case form of an ASCII letter; any other character is its own.
pub open spec fn ascii_upper(c: char) -> char {
    if 'a' <= c <= 'z' {
        (c as u32 - 32) as char
    } else {
        c
    }
}

/// A text with its ASCII letters in upper case.
pub open spec fn ascii_uppercase(text: Seq<char>) -> Seq<char> {
    text.map_values(|c: char| ascii_upper(c))
}

/// The lower-case form of an ASCII letter; any other character is its own.
pub open spec fn ascii_lower(c: char) -> char {
    if 'A' <= c <= 'Z' {
        (c as u32 + 32) as char
    } else {
        c
    }
}

/// A text with its ASCII letters in lower case.
pub open spec fn ascii_lowercase(text: Seq<char>) -> Seq<char> {
    text.map_values(|c: char| ascii_lower(c))
}

/// What `str::to_lowercase` makes of a text.
pub uninterp spec fn lowercase_of(text: Seq<char>) -> Seq<char>;

/// What `str::to_uppercase` makes of a text.
pub uninterp spec fn uppercase_of(text: Seq<char>) -> Seq<char>;

/// The lines one after the other, with `sep` between each two of them.
pub open spec fn joined(lines: Seq<Seq<char>>, sep: Seq<char>) -> Seq<char>
    decreases lines.len(),
{
    if lines.len() == 0 {
        Seq::empty()
    } else if lines.len() == 1 {
        lines[0]
    } else {
        joined(lines.drop_last(), sep) + sep + lines.last()
    }
}

/// The parts one after the other.
pub open spec fn concatenated(parts: Seq<Seq<char>>) -> Seq<char>
    decreases parts.len(),
{
    if parts.len() == 0 {
        Seq::empty()
    } else {
        concatenated(parts.drop_last()) + parts.last()
    }
}

/// The character of a decimal digit.
pub open spec fn digit(d: nat) -> char {
    ('0' as nat + d) as char
}

/// The decimal digits of `n`, most significant first.
pub open spec fn decimal(n: nat) -> Seq<char>
    decreases n,
{
    if n < 10 {
        seq![digit(n)]
    } else {
        decimal(n / 10).push(digit(n % 10))
    }
}

/// Compares two texts with `str`'s `==`: it holds exactly when they have the same characters.
#[verifier::external_body]
pub(crate) fn text_eq(a: &str, b: &str) -> (r: bool)
    ensures
        r == (a@ == b@),
{
    a == b
}

/// Looks for a text within another with `str::contains`: it holds exactly when the characters of
/// `needle` occur in `hay`, next to each other and in order.
#[verifier::external_body]
pub(crate) fn contains_text(hay: &str, needle: &str) -> (r: bool)
    ensures
        r == is_infix(needle@, hay@),
{
    hay.contains(needle)
}

/// Compares two texts with `str::eq_ignore_ascii_case`: it holds exactly when they have the same
/// characters once their ASCII letters are in upper case.
#[verifier::external_body]
pub(crate) fn eq_ignore_ascii_case(a: &str, b: &str) -> (r: bool)
    ensures
        r == (ascii_uppercase(a@) == ascii_uppercase(b@)),
{
    a.eq_ignore_ascii_case(b)
}

/// Lower-cases a text with `str::to_lowercase`, by the Unicode tables of the standard library. On
/// ASCII text only the letters change.
#[verifier::external_body]
pub(crate) fn to_lowercase(text: &str) -> (r: String)
    ensures
        r@ == lowercase_of(text@),
        is_ascii_text(text@) ==> r@ == ascii_lowercase(text@),
{
    text.to_lowercase()
}

/// Upper-cases a text with `str::to_uppercase`, by the Unicode tables of the standard library. On
/// ASCII text only the letters change.
#[verifier::external_body]
pub(crate) fn to_uppercase(text: &str) -> (r: String)
    ensures
        r@ == uppercase_of(text@),
        is_ascii_text(text@) ==> r@ == ascii_uppercase(text@),
{
    text.to_uppercase()
}

/// The two optional strings are both absent, or hold the same text.
pub(crate) fn opt_eq(a: &Option<String>, b: &Option<String>) -> (r: bool)
    ensures
        r == (opt_view(*a) == opt_view(*b)),
{
    match (a, b) {
        (Some(x), Some(y)) => text_eq(x.as_str(), y.as_str()),
        (None, None) => true,
        _ => false,
    }
}

/// The one-character text of a decimal digit.
fn digit_text(d: usize) -> (r: &'static str)
    requires
        d < 10,
    ensures
        r@ == seq![digit(d as nat)],
{
    proof {
        reveal_strlit("0");
        reveal_strlit("1");
        reveal_strlit("2");
        reveal_strlit("3");
        reveal_strlit("4");
        reveal_strlit("5");
        reveal_strlit("6");
        reveal_strlit("7");
        reveal_strlit("8");
        reveal_strlit("9");
    }
    match d {
        0 => "0",
        1 => "1",
        2 => "2",
        3 => "3",
        4 => "4",
        5 => "5",
        6 => "6",
        7 => "7",
        8 => "8",
        _ => "9",
    }
}

/// Writes a number in decimal.
pub fn decimal_text(n: usize) -> (r: String)
    ensures
        r@ == decimal(n as nat),
    decreases n,
{
    if n < 10 {
        digit_text(n).to_owned()
    } else {
        let mut head = decimal_text(n / 10);
        head.append(digit_text(n % 10));
        proof {
            assert(decimal((n / 10) as nat) + seq![digit((n % 10) as nat)] =~= decimal(
                (n / 10) as nat,
            ).push(digit((n % 10) as nat)));
        }
        head
    }
}

/// One text after the other.
pub(crate) fn concat(a: &str, b: &str) -> (r: String)
    ensures
        r@ == a@ + b@,
{
    let mut r = a.to_owned();
    r.append(b);
    r
}

/// Joins lines with a separator between each two of them.
pub(crate) fn join_lines(lines: &Vec<String>, sep: &str) -> (r: String)
    ensures
        r@ == joined(views(lines@), sep@),
{
    let mut out = String::new();
    let mut i: usize = 0;
    while i < lines.len()
        invariant
            i <= lines.len(),
            out@ == joined(views(lines@).take(i as int), sep@),
        decreases lines.len() - i,
    {
        proof {
            let all = views(lines@);
            assert(all.take(i + 1).drop_last() =~= all.take(i as int));
            assert(all.take(i + 1).last() == lines@[i as int]@);
            assert(all.take(0) =~= Seq::empty());
        }
        if i > 0 {
            out.append(sep);
        }
        out.append(lines[i].as_str());
        proof {
            if i == 0 {
                assert(out@ =~= lines@[0]@);
            }
        }
        i += 1;
    }
    proof {
        assert(views(lines@).take(lines@.len() as int) =~= views(lines@));
    }
    out
}

/// Two numbers with the same decimal digits are the same number.
pub proof fn decimal_is_injective(m: nat, n: nat)
    requires
        decimal(m) == decimal(n),
    ensures
        m == n,
    decreases m,
{
    reveal_with_fuel(decimal, 2);
    if m < 10 && n < 10 {
        assert(decimal(m)[0] == digit(m));
        assert(decimal(n)[0] == digit(n));
    } else if m < 10 {
        assert(decimal(n).len() == decimal(n / 10).len() + 1);
        decimal_is_not_empty(n / 10);
    } else if n < 10 {
        decimal_is_not_empty(m / 10);
        assert(decimal(m).len() == decimal(m / 10).len() + 1);
    } else {
        assert(decimal(m).drop_last() =~= decimal(m / 10));
        assert(decimal(n).drop_last() =~= decimal(n / 10));
        assert(decimal(m).last() == digit(m % 10));
        assert(decimal(n).last() == digit(n % 10));
        decimal_is_injective(m / 10, n / 10);
    }
}

proof fn decimal_is_not_empty(n: nat)
    ensures
        decimal(n).len() > 0,
{
    reveal_with_fuel(decimal, 2);
}

/// What is in the middle of a text is in the text.
pub proof fn middles_are_infixes(before: Seq<char>, part: Seq<char>, after: Seq<char>)
    ensures
        is_infix(part, before + part + after),
{
    let i = before.len() as int;
    let whole = before + part + after;
    assert(whole.subrange(i, i + part.len()) =~= part);
}

/// What is in a text is in every text that this is in the middle of.
pub proof fn infixes_stay_infixes(
    part: Seq<char>,
    before: Seq<char>,
    middle: Seq<char>,
    after: Seq<char>,
)
    requires
        is_infix(part, middle),
    ensures
        is_infix(part, before + middle + after),
{
    let k = choose|k: int|
        0 <= k <= middle.len() - part.len() && #[trigger] middle.subrange(k, k + part.len())
            == part;
    let whole = before + middle + after;
    let i = before.len() + k;
    assert(whole.subrange(i, i + part.len()) =~= middle.subrange(k, k + part.len()));
}

/// Each of some parts is in the text that they make one after the other.
pub proof fn parts_are_infixes(parts: Seq<Seq<char>>, k: int)
    requires
        0 <= k < parts.len(),
    ensures
        is_infix(parts[k], concatenated(parts)),
    decreases parts.len(),
{
    let front = parts.drop_last();
    let none = Seq::<char>::empty();
    if k == parts.len() - 1 {
        middles_are_infixes(concatenated(front), parts[k], none);
        assert(concatenated(parts) =~= concatenated(front) + parts[k] + none);
    } else {
        parts_are_infixes(front, k);
        infixes_stay_infixes(parts[k], none, concatenated(front), parts.last());
        assert(concatenated(parts) =~= none + concatenated(front) + parts.last());
    }
}

/// Each of some lines is in the text that they make with something between each two of them.
pub proof fn lines_are_infixes(lines: Seq<Seq<char>>, sep: Seq<char>, k: int)
    requires
        0 <= k < lines.len(),
    ensures
        is_infix(lines[k], joined(lines, sep)),
    decreases lines.len(),
{
    let front = lines.drop_last();
    let none = Seq::<char>::empty();
    if lines.len() == 1 {
        middles_are_infixes(none, lines[0], none);
        assert(none + lines[0] + none =~= lines[0]);
    } else if k == lines.len() - 1 {
        middles_are_infixes(joined(front, sep) + sep, lines[k], none);
        assert(joined(lines, sep) =~= joined(front, sep) + sep + lines[k] + none);
    } else {
        lines_are_infixes(front, sep, k);
        infixes_stay_infixes(lines[k], none, joined(front, sep), sep + lines.last());
        assert(joined(lines, sep) =~= none + joined(front, sep) + (sep + lines.last()));
    }
}

/// What a text of decimal digits stands for.
pub open spec fn number_of(text: Seq<char>) -> nat
    decreases text.len(),
{
    if text.len() == 0 {
        0
    } else {
        10 * number_of(text.drop_last()) + (text.last() as nat - '0' as nat) as nat
    }
}

/// The decimal digits of a number stand for the number, and are digits.
pub proof fn decimals_stand_for_their_number(n: nat)
    ensures
        number_of(decimal(n)) == n,
        decimal(n).len() > 0,
        forall|i: int| 0 <= i < decimal(n).len() ==> '0' <= (#[trigger] decimal(n)[i]) <= '9',
    decreases n,
{
    let text = decimal(n);
    if n < 10 {
        assert(text.drop_last() =~= Seq::empty());
        reveal_with_fuel(number_of, 2);
    } else {
        decimals_stand_for_their_number(n / 10);
        assert(text.drop_last() =~= decimal(n / 10));
    }
}

} // verus!
