//! Decimal numerals: reading a device count and writing one.

use vstd::prelude::*;
use vstd::std_specs::iter::IteratorSpec;

verus! {

/// `String::push` appends one character to the end of the string.
pub assume_specification[ String::push ](s: &mut String, ch: char)
    ensures
        final(s)@ == old(s)@.push(ch),
;

/// Whether `c` is one of the ASCII digits `0` to `9`.
pub open spec fn is_digit(c: char) -> bool {
    '0' <= c && c <= '9'
}

/// The value of an ASCII digit.
pub open spec fn digit_value(c: char) -> nat
    recommends
        is_digit(c),
{
    (c as int - '0' as int) as nat
}

/// The ASCII digit that stands for `d`.
pub open spec fn digit_char(d: nat) -> char
    recommends
        d < 10,
{
    ('0' as int + d) as char
}

/// Whether every character of `s` is an ASCII digit.
pub open spec fn all_digits(s: Seq<char>) -> bool {
    forall|i: int| 0 <= i < s.len() ==> is_digit(#[trigger] s[i])
}

/// The number that a sequence of ASCII digits denotes in base ten.
pub open spec fn digits_value(s: Seq<char>) -> nat
    decreases s.len(),
{
    if s.len() == 0 {
        0
    } else {
        digits_value(s.drop_last()) * 10 + digit_value(s.last())
    }
}

/// The numeral without the `+` sign that may stand in front of it.
pub open spec fn unsigned_part(s: Seq<char>) -> Seq<char> {
    if s.len() > 0 && s[0] == '+' {
        s.drop_first()
    } else {
        s
    }
}

/// The device count that `s` denotes: an optional `+`, then one or more
/// ASCII digits whose value fits in a byte. Anything else denotes no count.
pub open spec fn count_of(s: Seq<char>) -> Option<u8> {
    let digits = unsigned_part(s);
    if digits.len() > 0 && all_digits(digits) && digits_value(digits) <= u8::MAX {
        Some(digits_value(digits) as u8)
    } else {
        None
    }
}

/// The shortest decimal numeral for `n`.
pub open spec fn decimal(n: nat) -> Seq<char>
    decreases n,
{
    if n < 10 {
        seq![digit_char(n)]
    } else {
        decimal(n / 10).push(digit_char(n % 10))
    }
}

/// A numeral denotes at least as much as any of its prefixes.
pub proof fn lemma_prefix_value(s: Seq<char>, k: int)
    requires
        0 <= k <= s.len(),
    ensures
        digits_value(s.take(k)) <= digits_value(s),
    decreases s.len(),
{
    if k == s.len() {
        assert(s.take(k) =~= s);
    } else {
        assert(s.drop_last().take(k) =~= s.take(k));
        lemma_prefix_value(s.drop_last(), k);
    }
}

/// Reading the numeral that was written for `n` gives `n` back.
pub proof fn lemma_decimal_reads_back(n: nat)
    ensures
        decimal(n).len() > 0,
        all_digits(decimal(n)),
        digits_value(decimal(n)) == n,
        unsigned_part(decimal(n)) == decimal(n),
        n <= u8::MAX ==> count_of(decimal(n)) == Some(n as u8),
    decreases n,
{
    if n < 10 {
        let s = decimal(n);
        assert(digits_value(s.drop_last()) == 0);
    } else {
        lemma_decimal_reads_back(n / 10);
        let head = decimal(n / 10);
        let s = head.push(digit_char(n % 10));
        assert(s.drop_last() =~= head);
    }
}

fn digit_of(c: char) -> (d: Option<u8>)
    ensures
        d is Some <==> is_digit(c),
        d matches Some(v) ==> v as nat == digit_value(c),
{
    if '0' <= c && c <= '9' {
        Some((c as u32 - '0' as u32) as u8)
    } else {
        None
    }
}

fn char_of(d: u8) -> (c: char)
    requires
        d < 10,
    ensures
        c == digit_char(d as nat),
{
    (48u8 + d) as char
}

/// Reads a device count: an optional `+` and then decimal digits, with a
/// value of at most 255.
pub fn parse_count(s: &str) -> (count: Option<u8>)
    ensures
        count == count_of(s@),
{
    let mut it = s.chars();
    let mut value: u16 = 0;
    let mut at_start = true;
    let mut any = false;
    let ghost n: int = 0;
    let ghost start: int = 0;
    loop
        invariant
            it.obeys_prophetic_iter_laws(),
            it.decrease() is Some,
            0 <= start <= n <= s@.len(),
            it.remaining() == s@.skip(n),
            at_start <==> n == 0,
            start == (if n > 0 && s@[0] == '+' { 1int } else { 0int }),
            any <==> n > start,
            all_digits(s@.subrange(start, n)),
            value as nat == digits_value(s@.subrange(start, n)),
            value <= u8::MAX,
        decreases it.decrease()->0,
    {
        let ghost seen = s@.subrange(start, n);
        match it.next() {
            None => {
                proof {
                    assert(unsigned_part(s@) =~= seen);
                }
                return if any { Some(value as u8) } else { None };
            },
            Some(c) => {
                if at_start && c == '+' {
                    proof {
                        start = 1;
                    }
                } else {
                    let ghost digits = unsigned_part(s@);
                    proof {
                        assert(digits.take(n + 1 - start) =~= seen.push(c));
                        assert(seen.push(c).drop_last() =~= seen);
                    }
                    match digit_of(c) {
                        None => {
                            assert(!is_digit(digits[n - start]));
                            return None;
                        },
                        Some(d) => {
                            value = value * 10 + d as u16;
                            if value > 255 {
                                proof {
                                    lemma_prefix_value(digits, n + 1 - start);
                                }
                                return None;
                            }
                            any = true;
                        },
                    }
                    proof {
                        assert(s@.subrange(start, n + 1) =~= seen.push(c));
                    }
                }
                at_start = false;
                proof {
                    n = n + 1;
                }
            },
        }
    }
}

/// Appends the shortest decimal numeral for `n` to `out`.
pub fn push_decimal(out: &mut String, n: u8)
    ensures
        final(out)@ == old(out)@ + decimal(n as nat),
{
    proof {
        reveal_with_fuel(decimal, 3);
    }
    if n >= 100 {
        out.push(char_of(n / 100));
    }
    if n >= 10 {
        out.push(char_of((n / 10) % 10));
    }
    out.push(char_of(n % 10));
}

} // verus!
