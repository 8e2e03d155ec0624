//! Decimal text of integers, written and read the way Rust's `Display` and
//! `FromStr` do for the unsigned and signed integer types.

use vstd::prelude::*;

verus! {

/// The ASCII digit for `d` (< 10).
pub open spec fn digit_char(d: nat) -> char {
    ((d + 48) as u8) as char
}

/// The decimal text of `n`, without leading zeros ("0" for zero).
pub open spec fn dec(n: nat) -> Seq<char>
    decreases n,
{
    if n < 10 {
        seq![digit_char(n)]
    } else {
        dec(n / 10).push(digit_char(n % 10))
    }
}

/// The decimal text of a signed value, with a leading '-' when negative.
pub open spec fn dec_signed(n: int) -> Seq<char> {
    if n < 0 {
        seq!['-'] + dec((-n) as nat)
    } else {
        dec(n as nat)
    }
}

pub open spec fn is_digit(c: char) -> bool {
    '0' <= c && c <= '9'
}

/// The value of a string of ASCII digits.
pub open spec fn digits_value(s: Seq<char>) -> nat
    decreases s.len(),
{
    if s.len() == 0 {
        0
    } else {
        digits_value(s.drop_last()) * 10 + ((s.last() as nat) - 48) as nat
    }
}

/// The digits after an optional leading '+'.
pub open spec fn unsigned_digits(s: Seq<char>) -> Seq<char> {
    if s.len() > 0 && s[0] == '+' {
        s.drop_first()
    } else {
        s
    }
}

/// What `s.parse::<u32>()` gives: the value of an optional '+' followed by at
/// least one ASCII digit, when it fits in 32 bits; `None` otherwise.
pub open spec fn parse_u32_spec(s: Seq<char>) -> Option<u32> {
    let d = unsigned_digits(s);
    if d.len() > 0 && (forall|i: int| 0 <= i < d.len() ==> is_digit(#[trigger] d[i]))
        && digits_value(d) <= u32::MAX {
        Some(digits_value(d) as u32)
    } else {
        None
    }
}

fn digit_of(d: u64) -> (c: char)
    requires
        d < 10,
    ensures
        c == digit_char(d as nat),
{
    ((d as u8) + 48) as char
}

/// The decimal text of an unsigned 64-bit value, as `Display` writes it.
pub fn u64_text(n: u64) -> (r: String)
    ensures
        r@ == dec(n as nat),
    decreases n,
{
    if n < 10 {
        let mut r = String::new();
        crate::text::push_char(&mut r, digit_of(n));
        assert(r@ =~= dec(n as nat));
        r
    } else {
        let mut r = u64_text(n / 10);
        crate::text::push_char(&mut r, digit_of(n % 10));
        r
    }
}

/// The decimal text of a signed 64-bit value, as `Display` writes it.
pub fn i64_text(n: i64) -> (r: String)
    ensures
        r@ == dec_signed(n as int),
{
    if n < 0 {
        let magnitude: u64 = if n == i64::MIN {
            9_223_372_036_854_775_808u64
        } else {
            (-n) as u64
        };
        let mut r = String::new();
        crate::text::push_char(&mut r, '-');
        let digits = u64_text(magnitude);
        r.append(digits.as_str());
        assert(r@ =~= dec_signed(n as int));
        r
    } else {
        u64_text(n as u64)
    }
}

proof fn lemma_digits_value_prefix(s: Seq<char>, i: int)
    requires
        0 <= i < s.len(),
    ensures
        digits_value(s.take(i + 1)) == digits_value(s.take(i)) * 10 + ((s[i] as nat) - 48) as nat,
{
    assert(s.take(i + 1).drop_last() =~= s.take(i));
}

proof fn lemma_digits_value_mono(s: Seq<char>, i: int)
    requires
        0 <= i <= s.len(),
        forall|j: int| 0 <= j < s.len() ==> is_digit(#[trigger] s[j]),
    ensures
        digits_value(s.take(i)) <= digits_value(s),
    decreases s.len() - i,
{
    if i < s.len() {
        lemma_digits_value_prefix(s, i);
        lemma_digits_value_mono(s, i + 1);
        assert(s.take(s.len() as int) =~= s);
    } else {
        assert(s.take(i) =~= s);
    }
}

/// `s.parse::<u32>()`, with `None` for every input it rejects.
pub fn parse_u32(s: &str) -> (r: Option<u32>)
    ensures
        r == parse_u32_spec(s@),
{
    let chars = crate::text::chars_of(s);
    let ghost d = unsigned_digits(s@);
    let start: usize = if chars.len() > 0 && chars[0] == '+' {
        1
    } else {
        0
    };
    assert(d =~= chars@.subrange(start as int, chars@.len() as int));
    if start >= chars.len() {
        return None;
    }
    let mut value: u64 = 0;
    let mut i: usize = start;
    while i < chars.len()
        invariant
            start <= i <= chars@.len(),
            d == unsigned_digits(s@),
            d == chars@.subrange(start as int, chars@.len() as int),
            forall|j: int| 0 <= j < i - start ==> is_digit(#[trigger] d[j]),
            value == digits_value(d.take(i - start)),
            value <= u32::MAX,
        decreases chars.len() - i,
    {
        let c = chars[i];
        if !('0' <= c && c <= '9') {
            assert(!is_digit(d[i - start]));
            return None;
        }
        proof {
            lemma_digits_value_prefix(d, i - start);
        }
        let next = value * 10 + ((c as u64) - 48);
        if next > 4_294_967_295u64 {
            proof {
                assert forall|j: int| 0 <= j < i - start + 1 implies is_digit(#[trigger] d[j]) by {}
                if forall|j: int| 0 <= j < d.len() ==> is_digit(#[trigger] d[j]) {
                    lemma_digits_value_mono(d, i - start + 1);
                }
            }
            return None;
        }
        value = next;
        i += 1;
    }
    assert(d.take(d.len() as int) =~= d);
    Some(value as u32)
}

} // verus!
