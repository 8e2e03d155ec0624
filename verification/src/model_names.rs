//! What a model's name tells: its capabilities, family, parameter size and
//! quantization, read from well-known fragments of the name.

use crate::models::CapabilitySet;
use crate::text::{lower_seq, seq_contains};
use vstd::prelude::*;

verus! {

/// The text capabilities are read from: the name, a space and the family,
/// in Unicode lowercase.
pub open spec fn capability_text(name: Seq<char>, family: Option<Seq<char>>) -> Seq<char> {
    crate::platform::unicode_lowercase(
        name + " "@ + match family {
            Some(f) => f,
            None => Seq::empty(),
        },
    )
}

/// Names of coding models.
pub open spec fn coding_hint(t: Seq<char>) -> bool {
    seq_contains(t, "coder"@) || seq_contains(t, "code"@) || seq_contains(t, "qwen"@)
        || seq_contains(t, "deepseek"@) || seq_contains(t, "codestral"@)
}

/// Names of models that handle tools and structured output.
pub open spec fn tool_hint(t: Seq<char>) -> bool {
    seq_contains(t, "qwen"@) || seq_contains(t, "llama"@) || seq_contains(t, "mistral"@)
        || seq_contains(t, "deepseek"@) || seq_contains(t, "gemma"@)
}

/// Every model is general; coding names add coding, reasoning and review;
/// tool-capable names add tool use and structured output.
pub open spec fn inferred_capabilities(t: Seq<char>) -> CapabilitySet {
    CapabilitySet {
        coding: coding_hint(t),
        reasoning: coding_hint(t),
        review: coding_hint(t),
        general: true,
        tool_use: tool_hint(t),
        structured_output: tool_hint(t),
        long_context: false,
    }
}

fn has(t: &str, n: &str) -> (b: bool)
    ensures
        b == seq_contains(t@, n@),
{
    crate::text::contains(t, n)
}

pub fn infer_capabilities(name: &str, family: Option<&str>) -> (c: CapabilitySet)
    ensures
        c == inferred_capabilities(
            capability_text(
                name@,
                match family {
                    Some(f) => Some(f@),
                    None => None,
                },
            ),
        ),
{
    let fam = match family {
        Some(f) => f,
        None => "",
    };
    proof {
        reveal_strlit("");
    }
    let joined = crate::text::concat3(name, " ", fam);
    let t = crate::platform::lowercase(joined.as_str());
    assert(joined@ == name@ + " "@ + match family {
        Some(f) => f@,
        None => Seq::<char>::empty(),
    });
    let s = t.as_str();
    let coding = has(s, "coder") || has(s, "code") || has(s, "qwen") || has(s, "deepseek") || has(
        s,
        "codestral",
    );
    let tools = has(s, "qwen") || has(s, "llama") || has(s, "mistral") || has(s, "deepseek") || has(
        s,
        "gemma",
    );
    CapabilitySet {
        coding,
        reasoning: coding,
        review: coding,
        general: true,
        tool_use: tools,
        structured_output: tools,
        long_context: false,
    }
}

/// The model family a lowercase name mentions first in the list of known
/// families.
pub open spec fn family_of(lower: Seq<char>) -> Option<Seq<char>> {
    if seq_contains(lower, "qwen"@) {
        Some("qwen"@)
    } else if seq_contains(lower, "llama"@) {
        Some("llama"@)
    } else if seq_contains(lower, "mistral"@) {
        Some("mistral"@)
    } else if seq_contains(lower, "deepseek"@) {
        Some("deepseek"@)
    } else if seq_contains(lower, "gemma"@) {
        Some("gemma"@)
    } else if seq_contains(lower, "phi"@) {
        Some("phi"@)
    } else {
        None
    }
}

/// The quantization a lowercase name mentions first in the list of known
/// quantizations, in uppercase.
pub open spec fn quantization_of(lower: Seq<char>) -> Option<Seq<char>> {
    if seq_contains(lower, "q2_k"@) {
        Some("Q2_K"@)
    } else if seq_contains(lower, "q3_k"@) {
        Some("Q3_K"@)
    } else if seq_contains(lower, "q4_k"@) {
        Some("Q4_K"@)
    } else if seq_contains(lower, "q5_k"@) {
        Some("Q5_K"@)
    } else if seq_contains(lower, "q6_k"@) {
        Some("Q6_K"@)
    } else if seq_contains(lower, "q8_0"@) {
        Some("Q8_0"@)
    } else if seq_contains(lower, "f16"@) {
        Some("F16"@)
    } else {
        None
    }
}

/// The quantization tags a name is searched for, in the order they are
/// tried: each lowercase tag with the name it is reported under.
pub open spec fn quantization_tags() -> Seq<(Seq<char>, Seq<char>)> {
    seq![
        ("q2_k"@, "Q2_K"@),
        ("q3_k"@, "Q3_K"@),
        ("q4_k"@, "Q4_K"@),
        ("q5_k"@, "Q5_K"@),
        ("q6_k"@, "Q6_K"@),
        ("q8_0"@, "Q8_0"@),
        ("f16"@, "F16"@),
    ]
}

/// A lowercase name that contains a quantization tag, and none tried before
/// it, is read as that tag's quantization; a name containing none of the tags
/// has none; and a quantization that is read is always one whose tag the name
/// contains.
pub proof fn quantization_is_the_first_tag_found(lower: Seq<char>, i: int)
    ensures
        0 <= i < quantization_tags().len() && seq_contains(lower, quantization_tags()[i].0) && (forall|
            j: int,
        | 0 <= j < i ==> !seq_contains(lower, #[trigger] quantization_tags()[j].0)) ==> quantization_of(lower)
            == Some(quantization_tags()[i].1),
        (forall|j: int|
            0 <= j < quantization_tags().len() ==> !seq_contains(lower, #[trigger] quantization_tags()[j].0))
            ==> quantization_of(lower) is None,
        quantization_of(lower) is Some ==> exists|j: int|
            0 <= j < quantization_tags().len() && seq_contains(lower, #[trigger] quantization_tags()[j].0)
                && quantization_of(lower) == Some(quantization_tags()[j].1),
{
    let t = quantization_tags();
    assert(t[0] == ("q2_k"@, "Q2_K"@));
    assert(t[1] == ("q3_k"@, "Q3_K"@));
    assert(t[2] == ("q4_k"@, "Q4_K"@));
    assert(t[3] == ("q5_k"@, "Q5_K"@));
    assert(t[4] == ("q6_k"@, "Q6_K"@));
    assert(t[5] == ("q8_0"@, "Q8_0"@));
    assert(t[6] == ("f16"@, "F16"@));
    let c0 = seq_contains(lower, quantization_tags()[0].0);
    let c1 = seq_contains(lower, quantization_tags()[1].0);
    let c2 = seq_contains(lower, quantization_tags()[2].0);
    let c3 = seq_contains(lower, quantization_tags()[3].0);
    let c4 = seq_contains(lower, quantization_tags()[4].0);
    let c5 = seq_contains(lower, quantization_tags()[5].0);
    let c6 = seq_contains(lower, quantization_tags()[6].0);
    assert(quantization_of(lower) == if c0 {
        Some(t[0].1)
    } else if c1 {
        Some(t[1].1)
    } else if c2 {
        Some(t[2].1)
    } else if c3 {
        Some(t[3].1)
    } else if c4 {
        Some(t[4].1)
    } else if c5 {
        Some(t[5].1)
    } else if c6 {
        Some(t[6].1)
    } else {
        None
    });
}

/// The name contains `tag` and no other known quantization tag.
pub open spec fn only_tag(lower: Seq<char>, tag: Seq<char>) -> bool {
    seq_contains(lower, tag) && forall|j: int|
        0 <= j < quantization_tags().len() && #[trigger] quantization_tags()[j].0 != tag
            ==> !seq_contains(lower, quantization_tags()[j].0)
}

/// Each known quantization is recognised: a name that mentions one tag and
/// no other is read as that tag's quantization.
pub proof fn each_known_quantization_is_recognised(lower: Seq<char>)
    ensures
        only_tag(lower, "q2_k"@) ==> quantization_of(lower) == Some("Q2_K"@),
        only_tag(lower, "q3_k"@) ==> quantization_of(lower) == Some("Q3_K"@),
        only_tag(lower, "q4_k"@) ==> quantization_of(lower) == Some("Q4_K"@),
        only_tag(lower, "q5_k"@) ==> quantization_of(lower) == Some("Q5_K"@),
        only_tag(lower, "q6_k"@) ==> quantization_of(lower) == Some("Q6_K"@),
        only_tag(lower, "q8_0"@) ==> quantization_of(lower) == Some("Q8_0"@),
        only_tag(lower, "f16"@) ==> quantization_of(lower) == Some("F16"@),
{
    let t = quantization_tags();
    assert(t[0] == ("q2_k"@, "Q2_K"@));
    assert(t[1] == ("q3_k"@, "Q3_K"@));
    assert(t[2] == ("q4_k"@, "Q4_K"@));
    assert(t[3] == ("q5_k"@, "Q5_K"@));
    assert(t[4] == ("q6_k"@, "Q6_K"@));
    assert(t[5] == ("q8_0"@, "Q8_0"@));
    assert(t[6] == ("f16"@, "F16"@));
    reveal_strlit("q2_k");
    reveal_strlit("q3_k");
    reveal_strlit("q4_k");
    reveal_strlit("q5_k");
    reveal_strlit("q6_k");
    reveal_strlit("q8_0");
    reveal_strlit("f16");
    assert(t[0].0[1] != t[1].0[1]);
    assert(t[0].0[1] != t[2].0[1]);
    assert(t[0].0[1] != t[3].0[1]);
    assert(t[0].0[1] != t[4].0[1]);
    assert(t[0].0[1] != t[5].0[1]);
    assert(t[0].0[0] != t[6].0[0]);
    assert(t[1].0[1] != t[2].0[1]);
    assert(t[1].0[1] != t[3].0[1]);
    assert(t[1].0[1] != t[4].0[1]);
    assert(t[1].0[1] != t[5].0[1]);
    assert(t[1].0[0] != t[6].0[0]);
    assert(t[2].0[1] != t[3].0[1]);
    assert(t[2].0[1] != t[4].0[1]);
    assert(t[2].0[1] != t[5].0[1]);
    assert(t[2].0[0] != t[6].0[0]);
    assert(t[3].0[1] != t[4].0[1]);
    assert(t[3].0[1] != t[5].0[1]);
    assert(t[3].0[0] != t[6].0[0]);
    assert(t[4].0[1] != t[5].0[1]);
    assert(t[4].0[0] != t[6].0[0]);
    assert(t[5].0[0] != t[6].0[0]);
    assert(forall|a: int, b: int| 0 <= a < b < 7 ==> #[trigger] t[a].0 != #[trigger] t[b].0);
    lemma_sole_tag(lower, 0);
    lemma_sole_tag(lower, 1);
    lemma_sole_tag(lower, 2);
    lemma_sole_tag(lower, 3);
    lemma_sole_tag(lower, 4);
    lemma_sole_tag(lower, 5);
    lemma_sole_tag(lower, 6);
}

proof fn lemma_sole_tag(lower: Seq<char>, i: int)
    requires
        0 <= i < 7,
        forall|a: int, b: int|
            0 <= a < b < 7 ==> #[trigger] quantization_tags()[a].0 != #[trigger] quantization_tags()[b].0,
    ensures
        only_tag(lower, quantization_tags()[i].0) ==> quantization_of(lower) == Some(
            quantization_tags()[i].1,
        ),
{
    let t = quantization_tags();
    if only_tag(lower, t[i].0) {
        assert forall|j: int| 0 <= j < i implies !seq_contains(lower, #[trigger] t[j].0) by {
            assert(t[j].0 != t[i].0);
        }
        quantization_is_the_first_tag_found(lower, i);
    }
}

/// The model families a name is searched for, in the order they are tried.
pub open spec fn family_names() -> Seq<Seq<char>> {
    seq!["qwen"@, "llama"@, "mistral"@, "deepseek"@, "gemma"@, "phi"@]
}

/// A lowercase name that mentions a known family, and none tried before it,
/// is read as that family; a name mentioning none has no family; and a family
/// that is read is always one the name mentions.
pub proof fn family_is_the_first_name_found(lower: Seq<char>, i: int)
    ensures
        0 <= i < family_names().len() && seq_contains(lower, family_names()[i]) && (forall|j: int|
            0 <= j < i ==> !seq_contains(lower, #[trigger] family_names()[j])) ==> family_of(lower)
            == Some(family_names()[i]),
        (forall|j: int| 0 <= j < family_names().len() ==> !seq_contains(lower, #[trigger] family_names()[j]))
            ==> family_of(lower) is None,
        family_of(lower) is Some ==> seq_contains(lower, family_of(lower)->Some_0),
{
    let t = family_names();
    assert(t[0] == "qwen"@);
    assert(t[1] == "llama"@);
    assert(t[2] == "mistral"@);
    assert(t[3] == "deepseek"@);
    assert(t[4] == "gemma"@);
    assert(t[5] == "phi"@);
}

/// The name mentions `family` and no other known family.
pub open spec fn only_family(lower: Seq<char>, family: Seq<char>) -> bool {
    seq_contains(lower, family) && forall|j: int|
        0 <= j < family_names().len() && #[trigger] family_names()[j] != family
            ==> !seq_contains(lower, family_names()[j])
}

/// Each known family is recognised: a name that mentions one known family
/// and no other is read as that family.
pub proof fn each_known_family_is_recognised(lower: Seq<char>)
    ensures
        only_family(lower, "qwen"@) ==> family_of(lower) == Some("qwen"@),
        only_family(lower, "llama"@) ==> family_of(lower) == Some("llama"@),
        only_family(lower, "mistral"@) ==> family_of(lower) == Some("mistral"@),
        only_family(lower, "deepseek"@) ==> family_of(lower) == Some("deepseek"@),
        only_family(lower, "gemma"@) ==> family_of(lower) == Some("gemma"@),
        only_family(lower, "phi"@) ==> family_of(lower) == Some("phi"@),
{
    let t = family_names();
    assert(t[0] == "qwen"@);
    assert(t[1] == "llama"@);
    assert(t[2] == "mistral"@);
    assert(t[3] == "deepseek"@);
    assert(t[4] == "gemma"@);
    assert(t[5] == "phi"@);
    reveal_strlit("qwen");
    reveal_strlit("llama");
    reveal_strlit("mistral");
    reveal_strlit("deepseek");
    reveal_strlit("gemma");
    reveal_strlit("phi");
    assert(t[0][0] != t[1][0]);
    assert(t[0][0] != t[2][0]);
    assert(t[0][0] != t[3][0]);
    assert(t[0][0] != t[4][0]);
    assert(t[0][0] != t[5][0]);
    assert(t[1][0] != t[2][0]);
    assert(t[1][0] != t[3][0]);
    assert(t[1][0] != t[4][0]);
    assert(t[1][0] != t[5][0]);
    assert(t[2][0] != t[3][0]);
    assert(t[2][0] != t[4][0]);
    assert(t[2][0] != t[5][0]);
    assert(t[3][0] != t[4][0]);
    assert(t[3][0] != t[5][0]);
    assert(t[4][0] != t[5][0]);
    assert(forall|a: int, b: int| 0 <= a < b < 6 ==> #[trigger] t[a] != #[trigger] t[b]);
    lemma_sole_family(lower, 0);
    lemma_sole_family(lower, 1);
    lemma_sole_family(lower, 2);
    lemma_sole_family(lower, 3);
    lemma_sole_family(lower, 4);
    lemma_sole_family(lower, 5);
}

proof fn lemma_sole_family(lower: Seq<char>, i: int)
    requires
        0 <= i < 6,
        forall|a: int, b: int| 0 <= a < b < 6 ==> #[trigger] family_names()[a] != #[trigger] family_names()[b],
    ensures
        only_family(lower, family_names()[i]) ==> family_of(lower) == Some(family_names()[i]),
{
    let t = family_names();
    if only_family(lower, t[i]) {
        assert forall|j: int| 0 <= j < i implies !seq_contains(lower, #[trigger] t[j]) by {
            assert(t[j] != t[i]);
        }
        family_is_the_first_name_found(lower, i);
    }
}

fn some_text(s: &str) -> (r: Option<String>)
    ensures
        r matches Some(t) && t@ == s@,
{
    Some(crate::text::owned(s))
}

pub fn family_from(lower: &str) -> (r: Option<String>)
    ensures
        match family_of(lower@) {
            Some(f) => r matches Some(t) && t@ == f,
            None => r is None,
        },
{
    if has(lower, "qwen") {
        some_text("qwen")
    } else if has(lower, "llama") {
        some_text("llama")
    } else if has(lower, "mistral") {
        some_text("mistral")
    } else if has(lower, "deepseek") {
        some_text("deepseek")
    } else if has(lower, "gemma") {
        some_text("gemma")
    } else if has(lower, "phi") {
        some_text("phi")
    } else {
        None
    }
}

pub fn quantization_from(lower: &str) -> (r: Option<String>)
    ensures
        match quantization_of(lower@) {
            Some(q) => r matches Some(t) && t@ == q,
            None => r is None,
        },
{
    if has(lower, "q2_k") {
        some_text("Q2_K")
    } else if has(lower, "q3_k") {
        some_text("Q3_K")
    } else if has(lower, "q4_k") {
        some_text("Q4_K")
    } else if has(lower, "q5_k") {
        some_text("Q5_K")
    } else if has(lower, "q6_k") {
        some_text("Q6_K")
    } else if has(lower, "q8_0") {
        some_text("Q8_0")
    } else if has(lower, "f16") {
        some_text("F16")
    } else {
        None
    }
}

pub open spec fn is_digit(c: char) -> bool {
    '0' <= c && c <= '9'
}

/// Characters that end a piece of a name: anything but an ASCII letter, an
/// ASCII digit or a dot.
pub open spec fn piece_break(c: char) -> bool {
    !(is_digit(c) || ('a' <= c && c <= 'z') || ('A' <= c && c <= 'Z') || c == '.')
}

/// The pieces of a name between breaks, empty pieces included (`str::split`).
pub open spec fn pieces(s: Seq<char>) -> Seq<Seq<char>>
    decreases s.len(),
{
    if s.len() == 0 {
        seq![Seq::empty()]
    } else {
        let p = pieces(s.drop_last());
        if piece_break(s.last()) {
            p.push(Seq::empty())
        } else {
            p.update(p.len() - 1, p.last().push(s.last()))
        }
    }
}

/// The part of a number before its exponent mark `e`.
pub open spec fn mantissa(s: Seq<char>) -> Seq<char> {
    let e = crate::text::first_index_of(s, 'e');
    if e < 0 {
        s
    } else {
        s.take(e)
    }
}

/// Digits with at most one dot and at least one digit.
pub open spec fn mantissa_ok(m: Seq<char>) -> bool {
    &&& forall|i: int| 0 <= i < m.len() ==> is_digit(#[trigger] m[i]) || m[i] == '.'
    &&& forall|i: int, j: int| 0 <= i < j < m.len() ==> !(#[trigger] m[i] == '.' && #[trigger] m[j] == '.')
    &&& exists|i: int| 0 <= i < m.len() && is_digit(#[trigger] m[i])
}

/// After an exponent mark come one or more digits.
pub open spec fn exponent_ok(s: Seq<char>) -> bool {
    let e = crate::text::first_index_of(s, 'e');
    e >= 0 ==> (s.len() > e + 1 && forall|i: int| e + 1 <= i < s.len() ==> is_digit(#[trigger] s[i]))
}

/// A decimal number as `f32`'s `FromStr` documents it, without a sign (the
/// text in ASCII lowercase).
pub open spec fn decimal_text(s: Seq<char>) -> bool {
    mantissa_ok(mantissa(s)) && exponent_ok(s)
}

/// A text `f32`'s `FromStr` accepts, for texts without a sign: `inf`,
/// `infinity`, `nan` (in any case) or a decimal number.
pub open spec fn float_text(s: Seq<char>) -> bool {
    let l = lower_seq(s);
    l == "inf"@ || l == "infinity"@ || l == "nan"@ || decimal_text(l)
}

/// A parameter-size piece: a number followed by `b`.
pub open spec fn size_piece(p: Seq<char>) -> bool {
    p.len() > 0 && p.last() == 'b' && float_text(p.drop_last())
}

pub open spec fn size_pred() -> spec_fn(Seq<char>) -> bool {
    |p: Seq<char>| size_piece(p)
}

/// ASCII uppercase of one character.
pub open spec fn upper_char(c: char) -> char {
    if 'a' <= c && c <= 'z' {
        ((c as u32) - 32) as char
    } else {
        c
    }
}

pub open spec fn upper_seq(s: Seq<char>) -> Seq<char> {
    Seq::new(s.len(), |i: int| upper_char(s[i]))
}

/// The first parameter-size piece of a lowercase name, in uppercase (the
/// pieces are ASCII, where Unicode and ASCII uppercase agree).
pub open spec fn parameter_size_of(lower: Seq<char>) -> Option<Seq<char>> {
    let ps = pieces(lower);
    let i = crate::seqs::first_pos(ps, size_pred());
    if i < 0 {
        None
    } else {
        Some(upper_seq(ps[i]))
    }
}

/// The parameter size read from a name is the first of its pieces (the runs
/// of ASCII letters, digits and dots) that is a number followed by `b`, in
/// uppercase; a name with no such piece has no parameter size.
pub proof fn parameter_size_is_the_first_size_piece(lower: Seq<char>)
    ensures
        parameter_size_of(lower) is None <==> forall|j: int|
            0 <= j < pieces(lower).len() ==> !size_piece(#[trigger] pieces(lower)[j]),
        parameter_size_of(lower) is Some ==> exists|i: int|
            0 <= i < pieces(lower).len() && size_piece(#[trigger] pieces(lower)[i])
                && parameter_size_of(lower) == Some(upper_seq(pieces(lower)[i])) && forall|j: int|
                0 <= j < i ==> !size_piece(#[trigger] pieces(lower)[j]),
{
    let ps = pieces(lower);
    crate::seqs::lemma_first_pos(ps, size_pred());
    let i = crate::seqs::first_pos(ps, size_pred());
    assert forall|j: int| 0 <= j < ps.len() implies size_pred()(ps[j]) == size_piece(#[trigger] ps[j]) by {}
    if i >= 0 {
        assert(size_piece(ps[i]));
        if forall|j: int| 0 <= j < ps.len() ==> !size_piece(#[trigger] ps[j]) {
            assert(!size_piece(ps[i]));
        }
    }
}

fn digit(c: char) -> (b: bool)
    ensures
        b == is_digit(c),
{
    '0' <= c && c <= '9'
}

fn breaks(c: char) -> (b: bool)
    ensures
        b == piece_break(c),
{
    !(digit(c) || ('a' <= c && c <= 'z') || ('A' <= c && c <= 'Z') || c == '.')
}

fn upper_ascii(c: char) -> (r: char)
    ensures
        r == upper_char(c),
{
    if 'a' <= c && c <= 'z' {
        let code: u32 = c as u32;
        let raised: u8 = (code - 32) as u8;
        assert(raised as u32 == code - 32);
        raised as char
    } else {
        c
    }
}

/// `v[lo..hi]` in ASCII uppercase.
fn upper_text(v: &Vec<char>, lo: usize, hi: usize) -> (r: String)
    requires
        lo <= hi <= v.len(),
    ensures
        r@ == upper_seq(v@.subrange(lo as int, hi as int)),
{
    let mut r = String::new();
    let mut i = lo;
    while i < hi
        invariant
            lo <= i <= hi <= v.len(),
            r@ == upper_seq(v@.subrange(lo as int, i as int)),
        decreases hi - i,
    {
        crate::text::push_char(&mut r, upper_ascii(v[i]));
        assert(upper_seq(v@.subrange(lo as int, i + 1)) =~= upper_seq(
            v@.subrange(lo as int, i as int),
        ).push(upper_char(v@[i as int])));
        i += 1;
    }
    r
}

/// Whether the lowercase characters `l` form a decimal number.
fn decimal_ok(l: &Vec<char>) -> (b: bool)
    ensures
        b == decimal_text(l@),
{
    let e = crate::text::find_char(l, 'e');
    let m_end: usize = match e {
        Some(k) => k,
        None => l.len(),
    };
    let ghost m = mantissa(l@);
    assert(m.len() == m_end);
    assert(forall|i: int| 0 <= i < m_end ==> m[i] == l@[i]);
    let mut i: usize = 0;
    let mut dot: Option<usize> = None;
    let mut digit_at: Option<usize> = None;
    while i < m_end
        invariant
            i <= m_end <= l@.len(),
            m == mantissa(l@),
            m.len() == m_end,
            forall|k: int| 0 <= k < m_end ==> m[k] == l@[k],
            forall|k: int| 0 <= k < i ==> is_digit(#[trigger] m[k]) || m[k] == '.',
            match dot {
                Some(d) => d < i && m[d as int] == '.' && forall|k: int|
                    0 <= k < i && k != d ==> #[trigger] m[k] != '.',
                None => forall|k: int| 0 <= k < i ==> #[trigger] m[k] != '.',
            },
            match digit_at {
                Some(d) => d < i && is_digit(m[d as int]),
                None => forall|k: int| 0 <= k < i ==> !is_digit(#[trigger] m[k]),
            },
        decreases m_end - i,
    {
        let c = l[i];
        if digit(c) {
            digit_at = Some(i);
        } else if c == '.' {
            if dot.is_some() {
                proof {
                    let d = dot.unwrap() as int;
                    assert(m[d] == '.' && m[i as int] == '.');
                    assert(!mantissa_ok(m));
                }
                return false;
            }
            dot = Some(i);
        } else {
            assert(!(is_digit(m[i as int]) || m[i as int] == '.'));
            assert(!mantissa_ok(m));
            return false;
        }
        i += 1;
    }
    if digit_at.is_none() {
        assert(!mantissa_ok(m));
        return false;
    }
    proof {
        let d = digit_at.unwrap() as int;
        assert(is_digit(m[d]));
        assert forall|a: int, b: int| 0 <= a < b < m.len() implies !(#[trigger] m[a] == '.'
            && #[trigger] m[b] == '.') by {
            match dot {
                Some(x) => {
                    if m[a] == '.' && m[b] == '.' {
                        assert(a == x as int);
                        assert(b == x as int);
                    }
                },
                None => {},
            }
        }
        assert(mantissa_ok(m));
    }
    match e {
        None => true,
        Some(k) => {
            if l.len() <= k + 1 {
                return false;
            }
            let mut j = k + 1;
            while j < l.len()
                invariant
                    k + 1 <= j <= l@.len(),
                    k as int == crate::text::first_index_of(l@, 'e'),
                    forall|x: int| k + 1 <= x < j ==> is_digit(#[trigger] l@[x]),
                decreases l.len() - j,
            {
                if !digit(l[j]) {
                    assert(!is_digit(l@[j as int]));
                    assert(k as int == crate::text::first_index_of(l@, 'e'));
                    assert(!exponent_ok(l@));
                    return false;
                }
                j += 1;
            }
            true
        },
    }
}

/// Whether `v[lo..hi]` is a text `f32`'s `FromStr` accepts (no sign).
fn float_ok(v: &Vec<char>, lo: usize, hi: usize) -> (b: bool)
    requires
        lo <= hi <= v.len(),
    ensures
        b == float_text(v@.subrange(lo as int, hi as int)),
{
    let ghost s = v@.subrange(lo as int, hi as int);
    let mut l: Vec<char> = Vec::new();
    let mut i = lo;
    while i < hi
        invariant
            lo <= i <= hi <= v.len(),
            s == v@.subrange(lo as int, hi as int),
            l@ == lower_seq(v@.subrange(lo as int, i as int)),
        decreases hi - i,
    {
        l.push(crate::text::lower_ascii_char(v[i]));
        assert(lower_seq(v@.subrange(lo as int, i + 1)) =~= lower_seq(
            v@.subrange(lo as int, i as int),
        ).push(crate::text::lower_char(v@[i as int])));
        i += 1;
    }
    let t = crate::text::string_from_chars(&l, 0, l.len());
    assert(l@.subrange(0, l@.len() as int) =~= l@);
    crate::text::str_eq(t.as_str(), "inf") || crate::text::str_eq(t.as_str(), "infinity")
        || crate::text::str_eq(t.as_str(), "nan") || decimal_ok(&l)
}

proof fn lemma_pieces_nonempty(s: Seq<char>)
    ensures
        pieces(s).len() >= 1,
    decreases s.len(),
{
    if s.len() > 0 {
        lemma_pieces_nonempty(s.drop_last());
    }
}

/// The pieces of a prefix are kept by every longer prefix, but for the
/// last, which may still grow.
proof fn lemma_pieces_prefix(s: Seq<char>, i: int, n: int)
    requires
        0 <= i <= n <= s.len(),
    ensures
        pieces(s.take(i)).len() <= pieces(s.take(n)).len(),
        forall|k: int| 0 <= k < pieces(s.take(i)).len() - 1 ==> #[trigger] pieces(s.take(n))[k]
            == pieces(s.take(i))[k],
        n == i + 1 && piece_break(s[i]) ==> pieces(s.take(n)) == pieces(s.take(i)).push(
            Seq::empty(),
        ),
        n == i + 1 && !piece_break(s[i]) ==> pieces(s.take(n)) == pieces(s.take(i)).update(
            pieces(s.take(i)).len() - 1,
            pieces(s.take(i)).last().push(s[i]),
        ),
    decreases n - i,
{
    lemma_pieces_nonempty(s.take(i));
    if n > i {
        lemma_pieces_prefix(s, i, n - 1);
        assert(s.take(n).drop_last() =~= s.take(n - 1));
        assert(s.take(n).last() == s[n - 1]);
        lemma_pieces_nonempty(s.take(n - 1));
    }
}

/// The first parameter-size piece of a lowercase name, in uppercase.
pub fn parameter_size_from(lower: &str) -> (r: Option<String>)
    ensures
        match parameter_size_of(lower@) {
            Some(p) => r matches Some(t) && t@ == p,
            None => r is None,
        },
{
    let v = crate::text::chars_of(lower);
    let n = v.len();
    let ghost ps = pieces(lower@);
    let ghost p = size_pred();
    let mut start: usize = 0;
    let mut i: usize = 0;
    proof {
        assert(lower@.take(0) =~= Seq::<char>::empty());
        assert(lower@.take(n as int) =~= lower@);
    }
    loop
        invariant
            start <= i <= n == v@.len(),
            v@ == lower@,
            ps == pieces(lower@),
            p == size_pred(),
            pieces(lower@.take(i as int)).last() == v@.subrange(start as int, i as int),
            pieces(lower@.take(i as int)).len() >= 1,
            forall|k: int|
                0 <= k < pieces(lower@.take(i as int)).len() - 1 ==> !size_piece(
                    #[trigger] pieces(lower@.take(i as int))[k],
                ),
        decreases n - i,
    {
        let ghost cur = pieces(lower@.take(i as int));
        if i == n || breaks(v[i]) {
            let good = hi_size(&v, start, i);
            proof {
                lemma_pieces_prefix(lower@, i as int, n as int);
                let k = cur.len() - 1;
                assert(lower@.take(n as int) =~= lower@);
                if i < n {
                    lemma_pieces_prefix(lower@, i as int, i + 1);
                    lemma_pieces_prefix(lower@, i + 1, n as int);
                    assert(pieces(lower@.take(i + 1))[k] == cur[k]);
                    assert(ps[k] == cur[k]);
                } else {
                    assert(ps[k] == cur[k]);
                }
                if good {
                    assert(p(ps[k]));
                    assert forall|j: int| 0 <= j < k implies !p(#[trigger] ps[j]) by {
                        assert(ps[j] == cur[j]);
                    }
                    crate::seqs::lemma_first_pos_is(ps, p, k);
                } else if i == n {
                    assert(cur =~= ps);
                    assert forall|j: int| 0 <= j < ps.len() implies !p(#[trigger] ps[j]) by {}
                    crate::seqs::lemma_first_pos_is(ps, p, -1);
                }
            }
            if good {
                return Some(upper_text(&v, start, i));
            }
            if i == n {
                return None;
            }
            proof {
                lemma_pieces_prefix(lower@, i as int, i + 1);
                assert(v@.subrange(i + 1, i + 1) =~= Seq::<char>::empty());
            }
            i += 1;
            start = i;
        } else {
            proof {
                lemma_pieces_prefix(lower@, i as int, i + 1);
                assert(v@.subrange(start as int, i + 1) =~= v@.subrange(start as int, i as int).push(
                    v@[i as int],
                ));
            }
            i += 1;
        }
    }
}

/// Whether `v[lo..hi]` is a parameter-size piece.
fn hi_size(v: &Vec<char>, lo: usize, hi: usize) -> (b: bool)
    requires
        lo <= hi <= v.len(),
    ensures
        b == size_piece(v@.subrange(lo as int, hi as int)),
{
    if hi == lo {
        return false;
    }
    if v[hi - 1] != 'b' {
        return false;
    }
    assert(v@.subrange(lo as int, hi as int).drop_last() =~= v@.subrange(lo as int, hi - 1));
    float_ok(v, lo, hi - 1)
}

/// What a model file's name tells: its family, parameter size and
/// quantization, read from the name in Unicode lowercase.
pub fn infer_filename_metadata(name: &str) -> (r: (Option<String>, Option<String>, Option<String>))
    ensures
        ({
            let lower = crate::platform::unicode_lowercase(name@);
            &&& match family_of(lower) {
                Some(f) => r.0 matches Some(t) && t@ == f,
                None => r.0 is None,
            }
            &&& match parameter_size_of(lower) {
                Some(p) => r.1 matches Some(t) && t@ == p,
                None => r.1 is None,
            }
            &&& match quantization_of(lower) {
                Some(q) => r.2 matches Some(t) && t@ == q,
                None => r.2 is None,
            }
        }),
{
    let lower = crate::platform::lowercase(name);
    (
        family_from(lower.as_str()),
        parameter_size_from(lower.as_str()),
        quantization_from(lower.as_str()),
    )
}

} // verus!
