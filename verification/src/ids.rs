//! The canonical text form of 128-bit identifiers (hyphenated lowercase UUID).

use vstd::prelude::*;

verus! {

pub open spec fn hex_char(d: nat) -> char {
    if d < 10 {
        ((d + 48) as u32) as char
    } else {
        ((d + 87) as u32) as char
    }
}

/// The last `k` hexadecimal digits of `n`, most significant first.
pub open spec fn hex_digits(n: nat, k: nat) -> Seq<char>
    decreases k,
{
    if k == 0 {
        Seq::empty()
    } else {
        hex_digits(n / 16, (k - 1) as nat).push(hex_char(n % 16))
    }
}

/// `8-4-4-4-12` lowercase hexadecimal, as `uuid::Uuid` displays itself.
pub open spec fn uuid_text_spec(id: u128) -> Seq<char> {
    let d = hex_digits(id as nat, 32);
    d.subrange(0, 8) + "-"@ + d.subrange(8, 12) + "-"@ + d.subrange(12, 16) + "-"@ + d.subrange(
        16,
        20,
    ) + "-"@ + d.subrange(20, 32)
}

fn hex_char_of(d: u8) -> (c: char)
    requires
        d < 16,
    ensures
        c == hex_char(d as nat),
{
    if d < 10 {
        (d + 48) as char
    } else {
        (d + 87) as char
    }
}

proof fn lemma_hex_digits_len(n: nat, k: nat)
    ensures
        hex_digits(n, k).len() == k,
    decreases k,
{
    if k > 0 {
        lemma_hex_digits_len(n / 16, (k - 1) as nat);
    }
}

/// The hyphenated text of an identifier.
pub fn uuid_text(id: u128) -> (r: String)
    ensures
        r@ == uuid_text_spec(id),
{
    let mut digits: Vec<char> = Vec::new();
    let mut rest: u128 = id;
    let mut k: usize = 0;
    while k < 32
        invariant
            k <= 32,
            digits@.len() == k,
            hex_digits(id as nat, 32) =~= hex_digits(rest as nat, (32 - k) as nat) + digits@,
        decreases 32 - k,
    {
        let d: u8 = (rest % 16) as u8;
        let c = hex_char_of(d);
        proof {
            let m = (32 - k) as nat;
            let a = hex_digits((rest / 16) as nat, (m - 1) as nat);
            assert(hex_digits(rest as nat, m) == a.push(c));
            assert(a.push(c) + digits@ =~= a + (seq![c] + digits@));
        }
        let ghost before = digits@;
        digits.insert(0, c);
        assert(digits@ =~= seq![c] + before);
        rest = rest / 16;
        k += 1;
    }
    proof {
        lemma_hex_digits_len(id as nat, 32);
        assert(hex_digits(rest as nat, 0) =~= Seq::<char>::empty());
        assert(digits@ =~= hex_digits(id as nat, 32));
    }
    let mut r = String::new();
    let mut i: usize = 0;
    while i < 32
        invariant
            i <= 32,
            digits@.len() == 32,
            digits@ == hex_digits(id as nat, 32),
            r@ == dashed_prefix(hex_digits(id as nat, 32), i as nat),
        decreases 32 - i,
    {
        if i == 8 || i == 12 || i == 16 || i == 20 {
            crate::text::push_char(&mut r, '-');
        }
        crate::text::push_char(&mut r, digits[i]);
        i += 1;
    }
    proof {
        let d = hex_digits(id as nat, 32);
        lemma_dashed_full(d);
    }
    r
}

/// The dashed rendering of the first `i` digits.
pub open spec fn dashed_prefix(d: Seq<char>, i: nat) -> Seq<char>
    decreases i,
{
    if i == 0 {
        Seq::empty()
    } else {
        let j = (i - 1) as nat;
        let before = dashed_prefix(d, j);
        if j == 8 || j == 12 || j == 16 || j == 20 {
            before.push('-').push(d[j as int])
        } else {
            before.push(d[j as int])
        }
    }
}

proof fn lemma_dashed_full(d: Seq<char>)
    requires
        d.len() == 32,
    ensures
        dashed_prefix(d, 32) =~= d.subrange(0, 8) + "-"@ + d.subrange(8, 12) + "-"@ + d.subrange(
            12,
            16,
        ) + "-"@ + d.subrange(16, 20) + "-"@ + d.subrange(20, 32),
{
    reveal_strlit("-");
    reveal_with_fuel(dashed_prefix, 33);
}

} // verus!
