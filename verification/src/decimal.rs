//! Decimal text for unsigned integers: parsing and formatting.

use vstd::prelude::*;

verus! {

/// Whether `c` is one of the ASCII digits `0` to `9`.
pub open spec fn is_digit(c: char) -> bool {
    '0' <= c && c <= '9'
}

/// The value of an ASCII digit.
pub open spec fn digit_value(c: char) -> nat {
    (c as int - '0' as int) as nat
}

/// The character that writes the digit `d` (for `d < 10`).
pub open spec fn digit_char(d: nat) -> char {
    ('0' as int + d) as char
}

/// Whether every character of `s` is an ASCII digit.
pub open spec fn all_digits(s: Seq<char>) -> bool {
    forall|i: int| 0 <= i < s.len() ==> is_digit(#[trigger] s[i])
}

/// The number that the digit string `s` writes in base ten (most significant first).
pub open spec fn digits_value(s: Seq<char>) -> nat
    decreases s.len(),
{
    if s.len() == 0 {
        0
    } else {
        digits_value(s.drop_last()) * 10 + digit_value(s.last())
    }
}

/// `s` without one leading `+`, if it has one.
pub open spec fn unsigned_digits(s: Seq<char>) -> Seq<char> {
    if s.len() > 0 && s[0] == '+' {
        s.drop_first()
    } else {
        s
    }
}

/// A count written in decimal: an optional `+`, then at least one ASCII digit,
/// and nothing else; the number must fit in a `usize`.
pub open spec fn parse_count_spec(s: Seq<char>) -> Option<usize> {
    let d = unsigned_digits(s);
    if d.len() > 0 && all_digits(d) && digits_value(d) <= usize::MAX {
        Some(digits_value(d) as usize)
    } else {
        None
    }
}

/// `t` is a nonempty run of ASCII digits that writes the number `n`.
pub open spec fn reads_as(t: Seq<char>, n: nat) -> bool {
    t.len() > 0 && all_digits(t) && digits_value(t) == n
}

/// The shortest decimal text of `n`.
pub open spec fn decimal(n: nat) -> Seq<char>
    decreases n,
{
    if n < 10 {
        seq![digit_char(n)]
    } else {
        decimal(n / 10).push(digit_char(n % 10))
    }
}

/// The decimal text of a signed integer: a `-` before the digits of a negative number.
pub open spec fn signed_decimal(n: int) -> Seq<char> {
    if n < 0 {
        seq!['-'] + decimal((-n) as nat)
    } else {
        decimal(n as nat)
    }
}

/// Parses a count written as in `parse_count_spec`; `None` on any other text.
pub fn parse_count(s: &str) -> (r: Option<usize>)
    ensures
        r == parse_count_spec(s@),
{
    let len = s.unicode_len();
    let start: usize = if len > 0 && s.get_char(0) == '+' { 1 } else { 0 };
    let ghost d = unsigned_digits(s@);
    assert(d =~= s@.subrange(start as int, len as int));
    if start == len {
        return None;
    }
    let mut value: usize = 0;
    let mut overflow = false;
    let mut i: usize = start;
    while i < len
        invariant
            len == s@.len(),
            start <= i <= len,
            d == unsigned_digits(s@),
            d =~= s@.subrange(start as int, len as int),
            all_digits(s@.subrange(start as int, i as int)),
            !overflow ==> value == digits_value(s@.subrange(start as int, i as int)),
            overflow ==> digits_value(s@.subrange(start as int, i as int)) > usize::MAX,
        decreases len - i,
    {
        let c = s.get_char(i);
        if !('0' <= c && c <= '9') {
            assert(d[i - start] == c);
            assert(!is_digit(d[i - start]));
            assert(!all_digits(d));
            return None;
        }
        let ghost prefix = s@.subrange(start as int, i as int);
        let ghost next = s@.subrange(start as int, i + 1);
        assert(next.drop_last() =~= prefix);
        assert(next.last() == c);
        let digit = (c as u32 - '0' as u32) as usize;
        assert(digit == digit_value(c));
        if !overflow {
            match value.checked_mul(10) {
                Some(m) => match m.checked_add(digit) {
                    Some(v) => {
                        value = v;
                    },
                    None => {
                        overflow = true;
                    },
                },
                None => {
                    overflow = true;
                },
            }
        }
        i = i + 1;
        assert(all_digits(s@.subrange(start as int, i as int))) by {
            assert forall|j: int| 0 <= j < next.len() implies is_digit(#[trigger] next[j]) by {
                if j < prefix.len() {
                    assert(next[j] == prefix[j]);
                }
            }
        }
    }
    assert(s@.subrange(start as int, len as int) =~= d);
    if overflow {
        None
    } else {
        Some(value)
    }
}

proof fn lemma_decimal_digits(n: nat)
    ensures
        decimal(n).len() > 0,
        all_digits(decimal(n)),
        digits_value(decimal(n)) == n,
    decreases n,
{
    let t = decimal(n);
    if n < 10 {
        assert(t.drop_last() =~= Seq::<char>::empty());
        assert(digits_value(t.drop_last()) == 0);
    } else {
        lemma_decimal_digits(n / 10);
        let h = decimal(n / 10);
        assert(t.drop_last() =~= h);
        assert forall|i: int| 0 <= i < t.len() implies is_digit(#[trigger] t[i]) by {
            if i < h.len() {
                assert(t[i] == h[i]);
            }
        }
    }
}

/// The decimal text of `n` is a run of digits that reads as `n`.
pub proof fn lemma_decimal_reads_as(n: nat)
    ensures
        reads_as(decimal(n), n),
{
    lemma_decimal_digits(n);
}

/// Digit runs that read as different numbers differ: a number's digits
/// determine it.
pub proof fn lemma_reads_as_unique(t: Seq<char>, n: nat, m: nat)
    requires
        reads_as(t, n),
        reads_as(t, m),
    ensures
        n == m,
{
}

/// A count text is accepted exactly when it is a digit run, or a `+` followed
/// by a digit run, whose number fits in a `usize`; the result is that number.
pub proof fn lemma_parse_count_accepts(d: Seq<char>, n: nat)
    requires
        reads_as(d, n),
        n <= usize::MAX,
    ensures
        parse_count_spec(d) == Some(n as usize),
        parse_count_spec(seq!['+'] + d) == Some(n as usize),
{
    assert(is_digit(d[0]));
    assert(unsigned_digits(d) == d);
    assert((seq!['+'] + d).drop_first() =~= d);
}

/// Every accepted count text is a digit run, possibly after one `+`, that reads
/// as the result: signs other than one leading `+`, spaces and other characters
/// are refused.
pub proof fn lemma_parse_count_sound(s: Seq<char>, n: usize)
    requires
        parse_count_spec(s) == Some(n),
    ensures
        exists|d: Seq<char>| reads_as(d, n as nat) && (s == d || s == seq!['+'] + d),
{
    let d = unsigned_digits(s);
    if s.len() > 0 && s[0] == '+' {
        assert(s =~= seq!['+'] + d);
    }
    assert(reads_as(d, n as nat));
}

/// Formatting and parsing agree: the decimal text of any count that fits in a
/// `usize` parses back to that count.
pub proof fn lemma_parse_formatted_count(n: nat)
    requires
        n <= usize::MAX,
    ensures
        parse_count_spec(decimal(n)) == Some(n as usize),
{
    lemma_decimal_digits(n);
    let t = decimal(n);
    assert(is_digit(t[0]));
    assert(unsigned_digits(t) == t);
}

/// `String::push` from std: appends the character `c` to the end of the string.
#[verifier::external_body]
fn push_char(s: &mut String, c: char)
    ensures
        final(s)@ == old(s)@.push(c),
{
    s.push(c);
}

/// The character of a single decimal digit.
fn digit_to_char(d: u8) -> (c: char)
    requires
        d < 10,
    ensures
        c == digit_char(d as nat),
{
    (48u8 + d) as char
}

/// Appends the decimal text of `n` to `out`.
pub fn push_decimal(out: &mut String, n: u128)
    ensures
        final(out)@ == old(out)@ + decimal(n as nat),
    decreases n,
{
    if n >= 10 {
        push_decimal(out, n / 10);
    }
    let d = (n % 10) as u8;
    push_char(out, digit_to_char(d));
    assert(decimal(n as nat) == if n < 10 {
        seq![digit_char(n as nat)]
    } else {
        decimal((n / 10) as nat).push(digit_char((n % 10) as nat))
    });
}

/// Appends the decimal text of the signed integer `n` to `out`.
pub fn push_signed_decimal(out: &mut String, n: i128)
    ensures
        final(out)@ == old(out)@ + signed_decimal(n as int),
{
    if n < 0 {
        push_char(out, '-');
        let magnitude: u128 = if n == i128::MIN {
            (i128::MAX as u128) + 1
        } else {
            (-n) as u128
        };
        push_decimal(out, magnitude);
    } else {
        push_decimal(out, n as u128);
    }
}

/// The decimal text of `n` as a new string.
pub fn decimal_string(n: u128) -> (r: String)
    ensures
        r@ == decimal(n as nat),
{
    let mut s = String::new();
    push_decimal(&mut s, n);
    s
}

} // verus!
