//! Texts: comparing them, and reading and writing whole numbers.

use vstd::prelude::*;
use vstd::string::*;

verus! {

/// Whether two texts hold the same characters.
pub fn same_text(a: &str, b: &str) -> (r: bool)
    ensures
        r == (a@ == b@),
{
    let n = a.unicode_len();
    if n != b.unicode_len() {
        return false;
    }
    let mut i: usize = 0;
    while i < n
        invariant
            i <= n,
            n == a@.len(),
            n == b@.len(),
            forall|k: int| 0 <= k < i ==> a@[k] == b@[k],
        decreases n - i,
    {
        if a.get_char(i) != b.get_char(i) {
            return false;
        }
        i = i + 1;
    }
    assert(a@ =~= b@);
    true
}

/// Whether `a` comes before `b` from index `i` on, the characters before
/// `i` being the same in both: at the first difference the smaller
/// character decides, and a text comes before its extensions.
pub open spec fn text_less_from(a: Seq<char>, b: Seq<char>, i: int) -> bool
    decreases a.len() - i,
{
    if i < 0 || i >= b.len() {
        false
    } else if i >= a.len() {
        true
    } else if a[i] == b[i] {
        text_less_from(a, b, i + 1)
    } else {
        (a[i] as int) < (b[i] as int)
    }
}

/// Whether `a` comes before `b` in the order of a dictionary, character by
/// character.
pub open spec fn text_less(a: Seq<char>, b: Seq<char>) -> bool {
    text_less_from(a, b, 0)
}

/// Whether `a` comes before `b` in the order of a dictionary.
pub fn text_before(a: &str, b: &str) -> (r: bool)
    ensures
        r == text_less(a@, b@),
{
    let n = a.unicode_len();
    let m = b.unicode_len();
    let mut i: usize = 0;
    while i < n && i < m
        invariant
            i <= n,
            i <= m,
            n == a@.len(),
            m == b@.len(),
            text_less(a@, b@) == text_less_from(a@, b@, i as int),
        decreases n - i,
    {
        let x = a.get_char(i);
        let y = b.get_char(i);
        if x != y {
            return (x as u32) < (y as u32);
        }
        i = i + 1;
    }
    i < m
}

/// No text comes before itself, and of two texts at most one comes before
/// the other.
pub proof fn lemma_text_less_asymmetric(a: Seq<char>, b: Seq<char>, i: int)
    requires
        0 <= i,
    ensures
        !(text_less_from(a, b, i) && text_less_from(b, a, i)),
    decreases a.len() - i,
{
    if i < a.len() && i < b.len() && a[i] == b[i] {
        lemma_text_less_asymmetric(a, b, i + 1);
    }
}

/// Of two different texts one comes before the other.
pub proof fn lemma_text_less_total(a: Seq<char>, b: Seq<char>, i: int)
    requires
        0 <= i <= a.len(),
        i <= b.len(),
        forall|k: int| 0 <= k < i ==> a[k] == b[k],
        a != b,
    ensures
        text_less_from(a, b, i) || text_less_from(b, a, i),
    decreases a.len() - i,
{
    if i < a.len() && i < b.len() {
        if a[i] == b[i] {
            lemma_text_less_total(a, b, i + 1);
        } else {
            assert((a[i] as int) != (b[i] as int));
        }
    } else if i >= a.len() && i >= b.len() {
        assert(a =~= b);
    }
}

/// What comes before a text comes before every text that this one comes
/// before.
pub proof fn lemma_text_less_transitive(a: Seq<char>, b: Seq<char>, c: Seq<char>, i: int)
    requires
        0 <= i,
        text_less_from(a, b, i),
        text_less_from(b, c, i),
    ensures
        text_less_from(a, c, i),
    decreases a.len() - i,
{
    if i < a.len() && a[i] == b[i] && b[i] == c[i] {
        lemma_text_less_transitive(a, b, c, i + 1);
    }
}

/// The value of a decimal digit, or `None` for any other character.
pub open spec fn digit_value(c: char) -> Option<int> {
    if '0' <= c <= '9' {
        Some(c as int - '0' as int)
    } else {
        None
    }
}

/// The number that the characters from `from` up to `to` write in decimal
/// digits; `None` where one of them is no digit. No characters write zero.
pub open spec fn number_between(s: Seq<char>, from: int, to: int) -> Option<int>
    decreases to - from,
{
    if to <= from {
        Some(0)
    } else {
        match (number_between(s, from, to - 1), digit_value(s[to - 1])) {
            (Some(v), Some(d)) => Some(10 * v + d),
            _ => None,
        }
    }
}

/// The whole number that a text writes: an optional `+` or `-`, then one or
/// more decimal digits and nothing else, the number being within the range
/// of `i64`.
pub open spec fn spec_parse_i64(s: Seq<char>) -> Option<i64> {
    if s.len() == 0 {
        None
    } else {
        let signed = s[0] == '-' || s[0] == '+';
        let from: int = if signed {
            1
        } else {
            0
        };
        if from >= s.len() {
            None
        } else {
            match number_between(s, from, s.len() as int) {
                None => None,
                Some(v) => {
                    let n = if s[0] == '-' {
                        -v
                    } else {
                        v
                    };
                    if i64::MIN <= n <= i64::MAX {
                        Some(n as i64)
                    } else {
                        None
                    }
                },
            }
        }
    }
}

/// A number written in digits does not shrink when more digits follow.
pub proof fn lemma_number_grows(s: Seq<char>, from: int, mid: int, to: int)
    requires
        from <= mid <= to,
        number_between(s, from, to) is Some,
    ensures
        number_between(s, from, mid) is Some,
        0 <= number_between(s, from, mid).unwrap() <= number_between(s, from, to).unwrap(),
    decreases to - mid,
{
    if mid < to {
        lemma_number_grows(s, from, mid, to - 1);
        lemma_number_grows(s, from, to - 1, to - 1);
    } else {
        lemma_number_not_negative(s, from, to);
    }
}

/// A number written in digits is not negative.
pub proof fn lemma_number_not_negative(s: Seq<char>, from: int, to: int)
    requires
        number_between(s, from, to) is Some,
    ensures
        0 <= number_between(s, from, to).unwrap(),
    decreases to - from,
{
    if from < to {
        lemma_number_not_negative(s, from, to - 1);
    }
}

/// Reads a whole number from a text.
pub fn parse_i64(text: &str) -> (r: Option<i64>)
    ensures
        r == spec_parse_i64(text@),
{
    let n = text.unicode_len();
    if n == 0 {
        return None;
    }
    let first = text.get_char(0);
    let negative = first == '-';
    let from: usize = if first == '-' || first == '+' {
        1
    } else {
        0
    };
    if from >= n {
        return None;
    }
    let limit: i128 = 0x8000_0000_0000_0000i128;
    let mut value: i128 = 0;
    let mut i: usize = from;
    while i < n
        invariant
            from <= i <= n,
            n == text@.len(),
            from < n,
            from as int == (if text@[0] == '-' || text@[0] == '+' {
                1int
            } else {
                0int
            }),
            limit == 0x8000_0000_0000_0000i128,
            0 <= value <= limit,
            number_between(text@, from as int, i as int) == Some(value as int),
        decreases n - i,
    {
        let c = text.get_char(i);
        if !('0' <= c && c <= '9') {
            assert(number_between(text@, from as int, i + 1) is None);
            proof {
                if number_between(text@, from as int, n as int) is Some {
                    lemma_number_grows(text@, from as int, i + 1, n as int);
                }
            }
            return None;
        }
        let d: i128 = (c as u32 - '0' as u32) as i128;
        value = 10 * value + d;
        i = i + 1;
        if value > limit {
            proof {
                if number_between(text@, from as int, n as int) is Some {
                    lemma_number_grows(text@, from as int, i as int, n as int);
                }
            }
            return None;
        }
    }
    if negative {
        Some((-value) as i64)
    } else if value == limit {
        None
    } else {
        Some(value as i64)
    }
}

/// The character that writes the digit `d`.
pub open spec fn digit_char(d: int) -> char {
    ('0' as int + d) as char
}

/// The decimal digits of a number, the most significant first, without
/// leading zeros.
pub open spec fn digits_of(n: nat) -> Seq<char>
    decreases n,
{
    if n < 10 {
        seq![digit_char(n as int)]
    } else {
        digits_of(n / 10).push(digit_char((n % 10) as int))
    }
}

/// A whole number in decimal digits, with `-` before a negative one.
pub open spec fn spec_i64_text(n: int) -> Seq<char> {
    if n < 0 {
        seq!['-'] + digits_of((-n) as nat)
    } else {
        digits_of(n as nat)
    }
}

/// The text of one digit.
fn digit_text(d: u64) -> (r: &'static str)
    requires
        d < 10,
    ensures
        r@ == seq![digit_char(d as int)],
{
    proof {
        reveal_strlit("0");
        reveal_strlit("1");
        reveal_strlit("2");
        reveal_strlit("3");
        reveal_strlit("4");
        reveal_strlit("5");
        reveal_strlit("6");
        reveal_strlit("7");
        reveal_strlit("8");
        reveal_strlit("9");
    }
    let r = if d == 0 {
        "0"
    } else if d == 1 {
        "1"
    } else if d == 2 {
        "2"
    } else if d == 3 {
        "3"
    } else if d == 4 {
        "4"
    } else if d == 5 {
        "5"
    } else if d == 6 {
        "6"
    } else if d == 7 {
        "7"
    } else if d == 8 {
        "8"
    } else {
        "9"
    };
    assert(r@ =~= seq![digit_char(d as int)]);
    r
}

/// Writes the digits of a number behind a text.
fn append_digits(text: &mut String, n: u64)
    ensures
        final(text)@ == old(text)@ + digits_of(n as nat),
    decreases n,
{
    if n >= 10 {
        append_digits(text, n / 10);
    }
    text.append(digit_text(n % 10));
    assert(text@ =~= old(text)@ + digits_of(n as nat));
}

/// Writes a whole number in decimal digits.
pub fn i64_text(n: i64) -> (r: String)
    ensures
        r@ == spec_i64_text(n as int),
{
    let mut text = String::new();
    if n < 0 {
        proof {
            reveal_strlit("-");
        }
        text.append("-");
        assert(text@ =~= seq!['-']);
        append_digits(&mut text, (-(n as i128)) as u64);
    } else {
        append_digits(&mut text, n as u64);
        assert(text@ =~= digits_of(n as nat));
    }
    text
}

} // verus!
