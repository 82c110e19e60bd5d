//! What the text helpers guarantee, whatever they are given.

use vstd::prelude::*;
use crate::text::{
    all_digits, before_first, decimal, digit_char, digits_value, first_chars, has_part, has_part_at,
    has_prefix, has_suffix, is_digit, is_space, lemma_decimal_digits, parsed_i32, parsed_u32,
    ten_to, trim_end, trim_start, trimmed, without_last,
};

verus! {

/// Whether a text is made of white space alone.
pub open spec fn blank(s: Seq<char>) -> bool {
    forall|i: int| 0 <= i < s.len() ==> is_space(#[trigger] s[i])
}

/// White space is what Unicode calls so: the blanks of ASCII, the next line, the
/// no-break space, the Ogham space, the typographic spaces, the line and paragraph
/// separators, the narrow no-break, the mathematical and the ideographic space.
pub proof fn white_space_is_that_of_unicode(c: char)
    ensures
        is_space(c) <==> [
            0x09u32,
            0x0A,
            0x0B,
            0x0C,
            0x0D,
            0x20,
            0x85,
            0xA0,
            0x1680,
            0x2000,
            0x2001,
            0x2002,
            0x2003,
            0x2004,
            0x2005,
            0x2006,
            0x2007,
            0x2008,
            0x2009,
            0x200A,
            0x2028,
            0x2029,
            0x202F,
            0x205F,
            0x3000,
        ]@.contains(c as u32),
{
    let v = [
        0x09u32,
        0x0A,
        0x0B,
        0x0C,
        0x0D,
        0x20,
        0x85,
        0xA0,
        0x1680,
        0x2000,
        0x2001,
        0x2002,
        0x2003,
        0x2004,
        0x2005,
        0x2006,
        0x2007,
        0x2008,
        0x2009,
        0x200A,
        0x2028,
        0x2029,
        0x202F,
        0x205F,
        0x3000,
    ]@;
    let u = c as u32;
    if is_space(c) {
        let i: int = if 9 <= u <= 13 {
            u - 9
        } else if u == 0x20 {
            5
        } else if u == 0x85 {
            6
        } else if u == 0xa0 {
            7
        } else if u == 0x1680 {
            8
        } else if 0x2000 <= u <= 0x200a {
            9 + (u - 0x2000)
        } else if u == 0x2028 {
            20
        } else if u == 0x2029 {
            21
        } else if u == 0x202f {
            22
        } else if u == 0x205f {
            23
        } else {
            24
        };
        assert(v[i] == u);
    }
}

/// Trimming takes white space off both ends and nothing else: the text is what was
/// taken off its start, what is left, and what was taken off its end.
pub proof fn trimming_takes_blanks_off_the_ends(s: Seq<char>)
    ensures
        exists|a: Seq<char>, b: Seq<char>|
            blank(a) && blank(b) && s == #[trigger] (a + trimmed(s) + b),
        trimmed(s).len() > 0 ==> !is_space(trimmed(s)[0]) && !is_space(trimmed(s).last()),
{
    lemma_trim_start(s);
    let a = choose|a: Seq<char>| blank(a) && s == #[trigger] (a + trim_start(s));
    let t = trim_start(s);
    lemma_trim_end(t);
    let b = choose|b: Seq<char>| blank(b) && t == #[trigger] (trim_end(t) + b);
    assert(s =~= a + trimmed(s) + b);
    if trimmed(s).len() > 0 {
        assert(trimmed(s)[0] == t[0]);
    }
}

proof fn lemma_trim_start(s: Seq<char>)
    ensures
        exists|a: Seq<char>| blank(a) && s == #[trigger] (a + trim_start(s)),
        trim_start(s).len() > 0 ==> !is_space(trim_start(s)[0]),
    decreases s.len(),
{
    if s.len() > 0 && is_space(s[0]) {
        let rest = s.drop_first();
        lemma_trim_start(rest);
        let a = choose|a: Seq<char>| blank(a) && rest == #[trigger] (a + trim_start(rest));
        let b = seq![s[0]] + a;
        assert forall|i: int| 0 <= i < b.len() implies is_space(#[trigger] b[i]) by {
            if i > 0 {
                assert(b[i] == a[i - 1]);
            }
        }
        assert(s =~= seq![s[0]] + rest);
        assert(seq![s[0]] + (a + trim_start(rest)) =~= b + trim_start(rest));
        assert(s == b + trim_start(s));
    } else {
        assert(s =~= Seq::<char>::empty() + trim_start(s));
    }
}

proof fn lemma_trim_end(s: Seq<char>)
    ensures
        exists|b: Seq<char>| blank(b) && s == #[trigger] (trim_end(s) + b),
        trim_end(s).len() > 0 ==> !is_space(trim_end(s).last()),
    decreases s.len(),
{
    if s.len() > 0 && is_space(s.last()) {
        let rest = s.drop_last();
        lemma_trim_end(rest);
        let a = choose|b: Seq<char>| blank(b) && rest == #[trigger] (trim_end(rest) + b);
        let b = a.push(s.last());
        assert forall|i: int| 0 <= i < b.len() implies is_space(#[trigger] b[i]) by {
            if i < a.len() {
                assert(b[i] == a[i]);
            }
        }
        assert(s =~= rest.push(s.last()));
        assert((trim_end(rest) + a).push(s.last()) =~= trim_end(rest) + b);
        assert(s == trim_end(s) + b);
    } else {
        assert(s =~= trim_end(s) + Seq::<char>::empty());
    }
}

/// A text without white space at its ends is kept by trimming.
pub proof fn trimmed_texts_are_kept(s: Seq<char>)
    requires
        s.len() > 0 ==> !is_space(s[0]) && !is_space(s.last()),
    ensures
        trimmed(s) == s,
{
}

/// A number below some power of ten has a length.
proof fn lemma_between_powers(n: nat) -> (k: nat)
    requires
        n > 0,
    ensures
        ten_to(k) <= n < ten_to(k + 1),
    decreases n,
{
    reveal_with_fuel(ten_to, 3);
    if n < 10 {
        0
    } else {
        let k = lemma_between_powers(n / 10);
        k + 1
    }
}

/// The decimal notation of a number is a run of digits that denotes it, starts with
/// no zero but for zero itself, and only one number has it.
pub proof fn decimal_notation_denotes_the_number(n: nat, m: nat)
    ensures
        decimal(n).len() > 0,
        all_digits(decimal(n)),
        digits_value(decimal(n)) == n,
        n > 0 ==> decimal(n)[0] != '0',
        n == 0 ==> decimal(n).len() == 1,
        decimal(n) == decimal(m) ==> n == m,
{
    lemma_decimal_value(n);
    lemma_decimal_value(m);
}

proof fn lemma_decimal_value(n: nat)
    ensures
        decimal(n).len() > 0,
        all_digits(decimal(n)),
        digits_value(decimal(n)) == n,
        n > 0 ==> decimal(n)[0] != '0',
        n == 0 ==> decimal(n).len() == 1,
{
    if n == 0 {
        reveal_with_fuel(digits_value, 2);
        assert(decimal(0).drop_last() =~= Seq::empty());
    } else {
        let k = lemma_between_powers(n);
        lemma_decimal_digits(n, k);
    }
}

/// The digits stand for zero to nine in their order, and a digit more at the end
/// makes ten times as much and the digit.
pub proof fn digits_count_in_tens(s: Seq<char>, d: int)
    requires
        0 <= d < 10,
    ensures
        digit_char(d) as u32 == 0x30 + d,
        is_digit(digit_char(d)),
        digits_value(s.push(digit_char(d))) == 10 * digits_value(s) + d,
        digits_value(Seq::empty()) == 0,
{
    assert(s.push(digit_char(d)).drop_last() =~= s);
}

/// A number of 32 bits is read back from its decimal notation, also behind a plus
/// sign; a number that needs more bits, an empty text and a text with anything but
/// digits behind its sign are not read.
pub proof fn numbers_are_read_from_decimal(n: nat, s: Seq<char>, i: int)
    ensures
        n <= 0xFFFF_FFFF ==> parsed_u32(decimal(n)) == Some(n as u32),
        n <= 0xFFFF_FFFF ==> parsed_u32("+"@ + decimal(n)) == Some(n as u32),
        n > 0xFFFF_FFFF ==> parsed_u32(decimal(n)) is None,
        parsed_u32(Seq::empty()) is None,
        0 < i < s.len() && !is_digit(s[i]) ==> parsed_u32(s) is None,
        s.len() > 0 && !is_digit(s[0]) && s[0] != '+' ==> parsed_u32(s) is None,
{
    lemma_decimal_value(n);
    reveal_strlit("+");
    assert(is_digit(decimal(n)[0]));
    assert(("+"@ + decimal(n)).skip(1) =~= decimal(n));
    if 0 < i < s.len() && !is_digit(s[i]) {
        assert(s.skip(1)[i - 1] == s[i]);
    }
}

/// A status code is read back from its decimal notation, with or without a sign; a
/// text with anything else in it is not read.
pub proof fn signed_numbers_are_read_from_decimal(n: nat, s: Seq<char>, i: int)
    ensures
        n <= 0x7FFF_FFFF ==> parsed_i32(decimal(n)) == Some(n as i32),
        n <= 0x7FFF_FFFF ==> parsed_i32("-"@ + decimal(n)) == Some((-n) as i32),
        n <= 0x7FFF_FFFF ==> parsed_i32("+"@ + decimal(n)) == Some(n as i32),
        n > 0x7FFF_FFFF ==> parsed_i32(decimal(n)) is None,
        parsed_i32(Seq::empty()) is None,
        0 < i < s.len() && !is_digit(s[i]) ==> parsed_i32(s) is None,
{
    lemma_decimal_value(n);
    reveal_strlit("+");
    reveal_strlit("-");
    assert(is_digit(decimal(n)[0]));
    assert(("+"@ + decimal(n)).skip(1) =~= decimal(n));
    assert(("-"@ + decimal(n)).skip(1) =~= decimal(n));
    if 0 < i < s.len() && !is_digit(s[i]) {
        assert(s.skip(1)[i - 1] == s[i]);
    }
}

/// What stands before the first `c` is the longest start of the text without `c`.
pub proof fn cut_at_the_first(s: Seq<char>, c: char)
    ensures
        before_first(s, c).len() <= s.len(),
        s.take(before_first(s, c).len() as int) == before_first(s, c),
        !before_first(s, c).contains(c),
        before_first(s, c).len() < s.len() ==> s[before_first(s, c).len() as int] == c,
    decreases s.len(),
{
    if s.len() > 0 && s[0] != c {
        let rest = s.drop_first();
        cut_at_the_first(rest, c);
        let b = before_first(rest, c);
        assert(s.take(1 + b.len() as int) =~= seq![s[0]] + rest.take(b.len() as int));
        assert forall|i: int| 0 <= i < 1 + b.len() implies (seq![s[0]] + b)[i] != c by {
            if i > 0 {
                assert((seq![s[0]] + b)[i] == b[i - 1]);
                assert(b.contains(b[i - 1]));
            }
        }
        if b.len() < rest.len() {
            assert(s[1 + b.len() as int] == rest[b.len() as int]);
        }
    } else {
        assert(s.take(0) =~= Seq::empty());
    }
}

/// A text without its last `c`s ends in no `c`, and only `c`s are gone.
pub proof fn only_trailing_characters_go(s: Seq<char>, c: char)
    ensures
        without_last(s, c).len() > 0 ==> without_last(s, c).last() != c,
        without_last(s, c).len() <= s.len(),
        s.take(without_last(s, c).len() as int) == without_last(s, c),
        forall|i: int| without_last(s, c).len() <= i < s.len() ==> s[i] == c,
    decreases s.len(),
{
    if s.len() > 0 && s.last() == c {
        let rest = s.drop_last();
        only_trailing_characters_go(rest, c);
        let k = without_last(rest, c).len() as int;
        assert(s.take(k) =~= rest.take(k));
        assert forall|i: int| k <= i < s.len() implies s[i] == c by {
            if i < rest.len() {
                assert(rest[i] == s[i]);
            }
        }
    } else {
        assert(s.take(s.len() as int) =~= s);
    }
}

/// What a text starts with, ends with and has in it: a text put together has its
/// first part at its start, its last at its end and each in it, and a text that has
/// them can be put together so.
pub proof fn parts_are_found(a: Seq<char>, p: Seq<char>, b: Seq<char>, s: Seq<char>)
    ensures
        has_prefix(p + b, p),
        has_suffix(a + p, p),
        has_part(a + p + b, p),
        has_prefix(s, p) ==> s == p + s.skip(p.len() as int),
        has_suffix(s, p) ==> s == s.take(s.len() - p.len()) + p,
        has_part(s, p) ==> exists|x: Seq<char>, y: Seq<char>| s == #[trigger] (x + p + y),
{
    assert((p + b).take(p.len() as int) =~= p);
    assert((a + p).skip((a + p).len() - p.len()) =~= p);
    assert((a + p + b).subrange(a.len() as int, (a.len() + p.len()) as int) =~= p);
    assert(has_part_at(a + p + b, p, a.len() as int));
    if has_prefix(s, p) {
        assert(s =~= s.take(p.len() as int) + s.skip(p.len() as int));
    }
    if has_suffix(s, p) {
        assert(s =~= s.take(s.len() - p.len()) + s.skip(s.len() - p.len()));
    }
    if has_part(s, p) {
        let i = choose|i: int| has_part_at(s, p, i);
        let x = s.take(i);
        let y = s.skip(i + p.len());
        assert(s =~= x + s.subrange(i, i + p.len()) + y);
        assert(s == x + p + y);
    }
}

/// The first characters of a text, as many as there are.
pub proof fn texts_are_cut_short(s: Seq<char>, n: int)
    requires
        n >= 0,
    ensures
        first_chars(s, n).len() == (if s.len() < n {
            s.len() as int
        } else {
            n
        }),
        forall|i: int| 0 <= i < first_chars(s, n).len() ==> first_chars(s, n)[i] == s[i],
{
}

} // verus!
