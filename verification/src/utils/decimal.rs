//! Unsigned decimal numbers as text: reading them the way the standard
//! library's `parse` does, and writing them without leading zeros.

use vstd::prelude::*;

verus! {

/// An ASCII decimal digit.
pub open spec fn is_digit(c: char) -> bool {
    '0' <= c && c <= '9'
}

/// The value of a digit character.
pub open spec fn digit_value(c: char) -> int {
    (c as int) - ('0' as int)
}

/// The character of a digit value below ten.
pub open spec fn digit_char(d: nat) -> char {
    (d + ('0' as nat)) as char
}

/// Every character of `s` is a digit.
pub open spec fn all_digits(s: Seq<char>) -> bool {
    forall|i: int| 0 <= i < s.len() ==> is_digit(#[trigger] s[i])
}

/// The number that a run of digits writes, most significant digit first.
pub open spec fn digits_value(s: Seq<char>) -> int
    decreases s.len(),
{
    if s.len() == 0 {
        0
    } else {
        digits_value(s.drop_last()) * 10 + digit_value(s.last())
    }
}

/// The text with one leading `+`, if there is one, taken off.
pub open spec fn without_plus(s: Seq<char>) -> Seq<char> {
    if s.len() > 0 && s[0] == '+' {
        s.drop_first()
    } else {
        s
    }
}

/// The number that `s` writes as an unsigned decimal: an optional `+`
/// followed by one or more digits; `None` for any other text.
pub open spec fn decimal_value(s: Seq<char>) -> Option<int> {
    let d = without_plus(s);
    if d.len() > 0 && all_digits(d) {
        Some(digits_value(d))
    } else {
        None
    }
}

/// What reading `s` as an unsigned number of at most `max` gives: its value,
/// or `None` when it is no decimal or its value exceeds `max`.
pub open spec fn parse_bounded(s: Seq<char>, max: int) -> Option<int> {
    match decimal_value(s) {
        Some(v) => if v <= max {
            Some(v)
        } else {
            None
        },
        None => None,
    }
}

/// The shortest decimal text of `n`: no sign and no leading zeros.
pub open spec fn decimal_text(n: nat) -> Seq<char>
    decreases n,
{
    if n < 10 {
        seq![digit_char(n)]
    } else {
        decimal_text(n / 10).push(digit_char(n % 10))
    }
}

proof fn lemma_digits_value_nonneg(s: Seq<char>)
    requires
        all_digits(s),
    ensures
        digits_value(s) >= 0,
    decreases s.len(),
{
    if s.len() > 0 {
        assert(is_digit(s[s.len() - 1]));
        assert(all_digits(s.drop_last())) by {
            assert forall|i: int| 0 <= i < s.drop_last().len() implies is_digit(
                #[trigger] s.drop_last()[i],
            ) by {
                assert(s.drop_last()[i] == s[i]);
            }
        }
        lemma_digits_value_nonneg(s.drop_last());
    }
}

/// More digits never make a smaller number: a prefix of a run of digits
/// writes at most what the whole run writes.
proof fn lemma_digits_value_prefix(s: Seq<char>, j: int)
    requires
        all_digits(s),
        0 <= j <= s.len(),
    ensures
        digits_value(s.take(j)) <= digits_value(s),
    decreases s.len(),
{
    if j < s.len() {
        let t = s.drop_last();
        assert(all_digits(t)) by {
            assert forall|i: int| 0 <= i < t.len() implies is_digit(#[trigger] t[i]) by {
                assert(t[i] == s[i]);
            }
        }
        assert(is_digit(s[s.len() - 1]));
        lemma_digits_value_nonneg(t);
        lemma_digits_value_prefix(t, j);
        assert(t.take(j) =~= s.take(j));
    } else {
        assert(s.take(j) =~= s);
    }
}

/// Adding one digit at the end: ten times the value, plus the digit.
proof fn lemma_digits_value_push(s: Seq<char>, c: char)
    ensures
        digits_value(s.push(c)) == digits_value(s) * 10 + digit_value(c),
{
    assert(s.push(c).drop_last() =~= s);
}

/// Reads `text` as an unsigned decimal of at most `max`.
fn parse_bounded_u64(text: &str, max: u64) -> (res: Option<u64>)
    requires
        max >= 9,
    ensures
        res is None <==> parse_bounded(text@, max as int) is None,
        res matches Some(v) ==> parse_bounded(text@, max as int) == Some(v as int),
{
    let len = text.unicode_len();
    let mut start: usize = 0;
    if len > 0 && text.get_char(0) == '+' {
        start = 1;
    }
    let ghost d = without_plus(text@);
    assert(d =~= text@.subrange(start as int, len as int));
    if start >= len {
        return None;
    }
    let mut acc: u64 = 0;
    let mut i: usize = start;
    while i < len
        invariant
            start <= i <= len,
            start < len,
            len == text@.len(),
            d == text@.subrange(start as int, len as int),
            d == without_plus(text@),
            all_digits(d.take(i - start)),
            acc as int == digits_value(d.take(i - start)),
            acc <= max,
            max >= 9,
        decreases len - i,
    {
        let c = text.get_char(i);
        let k = i - start;
        assert(d[k as int] == c);
        if !('0' <= c && c <= '9') {
            assert(!is_digit(d[k as int]));
            assert(!all_digits(d));
            return None;
        }
        let dv: u64 = (c as u32 - '0' as u32) as u64;
        assert(dv == digit_value(c));
        assert(d.take(k + 1) =~= d.take(k as int).push(c));
        proof {
            lemma_digits_value_push(d.take(k as int), c);
        }
        if acc > (max - dv) / 10 {
            assert(acc * 10 + dv > max) by (nonlinear_arith)
                requires
                    acc > (max - dv) / 10,
                    dv <= 9,
                    max >= 9,
            ;
            proof {
                if all_digits(d) {
                    lemma_digits_value_prefix(d, k + 1);
                }
            }
            return None;
        }
        assert(acc * 10 + dv <= max) by (nonlinear_arith)
            requires
                acc <= (max - dv) / 10,
                dv <= 9,
                max >= 9,
        ;
        assert(all_digits(d.take(k + 1))) by {
            assert forall|j: int| 0 <= j < d.take(k + 1).len() implies is_digit(
                #[trigger] d.take(k + 1)[j],
            ) by {
                if j < k {
                    assert(d.take(k + 1)[j] == d.take(k as int)[j]);
                }
            }
        }
        acc = acc * 10 + dv;
        i = i + 1;
    }
    assert(d.take(len - start) =~= d);
    Some(acc)
}

/// Reads `text` as a `u16` the way `str::parse::<u16>` does: an optional
/// `+` and at least one ASCII digit, with a value that fits.
pub fn parse_u16(text: &str) -> (res: Option<u16>)
    ensures
        res is None <==> parse_bounded(text@, u16::MAX as int) is None,
        res matches Some(v) ==> parse_bounded(text@, u16::MAX as int) == Some(v as int),
{
    match parse_bounded_u64(text, 0xffff) {
        Some(v) => Some(v as u16),
        None => None,
    }
}

/// Reads `text` as a `u64` the way `str::parse::<u64>` does: an optional
/// `+` and at least one ASCII digit, with a value that fits.
pub fn parse_u64(text: &str) -> (res: Option<u64>)
    ensures
        res is None <==> parse_bounded(text@, u64::MAX as int) is None,
        res matches Some(v) ==> parse_bounded(text@, u64::MAX as int) == Some(v as int),
{
    parse_bounded_u64(text, u64::MAX)
}

/// The text of a single digit.
fn digit_str(d: u64) -> (s: &'static str)
    requires
        d < 10,
    ensures
        s@ == seq![digit_char(d as nat)],
{
    proof {
        reveal_strlit("0");
        reveal_strlit("1");
        reveal_strlit("2");
        reveal_strlit("3");
        reveal_strlit("4");
        reveal_strlit("5");
        reveal_strlit("6");
        reveal_strlit("7");
        reveal_strlit("8");
        reveal_strlit("9");
    }
    match d {
        0 => "0",
        1 => "1",
        2 => "2",
        3 => "3",
        4 => "4",
        5 => "5",
        6 => "6",
        7 => "7",
        8 => "8",
        _ => "9",
    }
}

/// Appends the decimal text of `n` to `out`.
pub fn push_decimal(out: &mut String, n: u64)
    ensures
        final(out)@ == old(out)@ + decimal_text(n as nat),
    decreases n,
{
    if n >= 10 {
        push_decimal(out, n / 10);
    }
    out.append(digit_str(n % 10));
    proof {
        if n >= 10 {
            assert(old(out)@ + decimal_text(n as nat) =~= old(out)@ + decimal_text((n / 10) as nat)
                + seq![digit_char((n % 10) as nat)]);
        }
    }
}

/// Reading back what was written gives the number again: the decimal text of
/// `n` is read as `n`, by every bound that `n` does not exceed.
pub proof fn lemma_decimal_roundtrip(n: nat, max: int)
    requires
        n <= max,
    ensures
        decimal_value(decimal_text(n)) == Some(n as int),
        parse_bounded(decimal_text(n), max) == Some(n as int),
{
    lemma_decimal_text_digits(n);
    assert(without_plus(decimal_text(n)) == decimal_text(n));
}

/// What is written for `n` is a nonempty run of digits whose value is `n`,
/// with no leading zero: it starts with `0` only for zero itself, which is
/// written as the single digit `0`.
pub proof fn lemma_decimal_text_digits(n: nat)
    ensures
        decimal_text(n).len() > 0,
        all_digits(decimal_text(n)),
        is_digit(decimal_text(n)[0]),
        digits_value(decimal_text(n)) == n,
        decimal_text(n)[0] == '0' ==> n == 0 && decimal_text(n).len() == 1,
    decreases n,
{
    if n < 10 {
        let s = decimal_text(n);
        assert(s.drop_last() =~= Seq::<char>::empty());
        assert(digits_value(s.drop_last()) == 0);
        assert(digit_value(digit_char(n)) == n);
    } else {
        let m = n / 10;
        let r = n % 10;
        lemma_decimal_text_digits(m);
        let t = decimal_text(m);
        lemma_digits_value_push(t, digit_char(r));
        assert(digit_value(digit_char(r)) == r);
        vstd::arithmetic::div_mod::lemma_fundamental_div_mod(n as int, 10);
        let s = t.push(digit_char(r));
        assert forall|i: int| 0 <= i < s.len() implies is_digit(#[trigger] s[i]) by {
            if i < t.len() {
                assert(s[i] == t[i]);
            }
        }
        assert(s[0] == t[0]);
        assert(m > 0);
    }
}

/// What reading accepts and gives: a value never above the bound; only
/// texts made of digits, save for one leading `+`, with at least one digit;
/// every nonempty run of digits whose value fits is read as that value; and
/// a leading `+` before digits changes nothing.
pub proof fn lemma_parse_bounded_laws(s: Seq<char>, max: int)
    ensures
        parse_bounded(s, max) matches Some(v) ==> 0 <= v <= max,
        parse_bounded(s, max) is Some ==> s.len() > 0 && is_digit(s.last()),
        parse_bounded(s, max) is Some ==> forall|i: int|
            0 <= i < s.len() ==> is_digit(#[trigger] s[i]) || (i == 0 && s[i] == '+'),
        s.len() > 0 && all_digits(s) && digits_value(s) <= max ==> parse_bounded(s, max) == Some(
            digits_value(s),
        ),
        s.len() > 0 && all_digits(s) ==> parse_bounded(seq!['+'] + s, max) == parse_bounded(
            s,
            max,
        ),
{
    let d = without_plus(s);
    if d.len() > 0 && all_digits(d) {
        lemma_digits_value_nonneg(d);
        assert(is_digit(d[d.len() - 1]));
        if s.len() > 0 && s[0] == '+' {
            assert forall|i: int| 0 <= i < s.len() implies is_digit(#[trigger] s[i]) || (i == 0
                && s[i] == '+') by {
                if i > 0 {
                    assert(s[i] == d[i - 1]);
                }
            }
            assert(s.last() == d.last());
        }
    }
    if s.len() > 0 && all_digits(s) {
        assert(is_digit(s[0]));
        assert('+' != '0' && !is_digit('+'));
        assert((seq!['+'] + s).drop_first() =~= s);
    }
}

} // verus!
