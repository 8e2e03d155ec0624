//! Character-level string utilities with exact specifications.
//!
//! Every function here works on the `Seq<char>` view of its arguments, so the
//! callers' contracts can speak of trimming, ASCII case folding, substring
//! search and joining without trusting the standard library.

use vstd::prelude::*;
use vstd::string::StringExecFns;

verus! {

/// Unicode `White_Space` characters, as recognized by `char::is_whitespace`.
pub open spec fn is_ws(c: char) -> bool {
    ||| c == '\t' || c == '\n' || c == '\u{B}' || c == '\u{C}' || c == '\r' || c == ' '
    ||| c == '\u{85}' || c == '\u{A0}' || c == '\u{1680}'
    ||| ('\u{2000}' <= c && c <= '\u{200A}')
    ||| c == '\u{2028}' || c == '\u{2029}' || c == '\u{202F}' || c == '\u{205F}' || c == '\u{3000}'
}

/// A string is blank when every character is whitespace (`trim().is_empty()`).
pub open spec fn is_blank_seq(s: Seq<char>) -> bool {
    forall|i: int| 0 <= i < s.len() ==> is_ws(#[trigger] s[i])
}

/// ASCII lowercase of one character (`char::to_ascii_lowercase`).
pub open spec fn lower_char(c: char) -> char {
    if 'A' <= c && c <= 'Z' {
        ((c as u32) + 32) as char
    } else {
        c
    }
}

/// ASCII lowercase of a string (`str::to_ascii_lowercase`).
pub open spec fn lower_seq(s: Seq<char>) -> Seq<char> {
    Seq::new(s.len(), |i: int| lower_char(s[i]))
}

/// `n` occurs in `h` starting at position `i`.
pub open spec fn occurs_at(h: Seq<char>, n: Seq<char>, i: int) -> bool {
    0 <= i && i + n.len() <= h.len() && h.subrange(i, i + n.len()) =~= n
}

/// `h` contains `n` as a contiguous substring (`str::contains`).
pub open spec fn seq_contains(h: Seq<char>, n: Seq<char>) -> bool {
    exists|i: int| occurs_at(h, n, i)
}

pub open spec fn starts_with_seq(s: Seq<char>, p: Seq<char>) -> bool {
    p.len() <= s.len() && s.subrange(0, p.len() as int) =~= p
}

pub open spec fn ends_with_seq(s: Seq<char>, p: Seq<char>) -> bool {
    p.len() <= s.len() && s.subrange(s.len() - p.len(), s.len() as int) =~= p
}

/// `s` with leading whitespace removed (`str::trim_start`).
pub open spec fn trim_start_seq(s: Seq<char>) -> Seq<char>
    decreases s.len(),
{
    if s.len() > 0 && is_ws(s[0]) {
        trim_start_seq(s.subrange(1, s.len() as int))
    } else {
        s
    }
}

/// `s` with trailing whitespace removed (`str::trim_end`).
pub open spec fn trim_end_seq(s: Seq<char>) -> Seq<char>
    decreases s.len(),
{
    if s.len() > 0 && is_ws(s[s.len() - 1]) {
        trim_end_seq(s.subrange(0, s.len() - 1))
    } else {
        s
    }
}

/// `s` with surrounding whitespace removed (`str::trim`).
pub open spec fn trim_seq(s: Seq<char>) -> Seq<char> {
    trim_end_seq(trim_start_seq(s))
}

/// `s` with every trailing repetition of `p` removed (`str::trim_end_matches`).
pub open spec fn strip_suffixes(s: Seq<char>, p: Seq<char>) -> Seq<char>
    decreases s.len(),
{
    if p.len() > 0 && ends_with_seq(s, p) {
        strip_suffixes(s.subrange(0, s.len() - p.len()), p)
    } else {
        s
    }
}

/// `s` with every leading repetition of `p` removed (`str::trim_start_matches`).
pub open spec fn strip_prefixes(s: Seq<char>, p: Seq<char>) -> Seq<char>
    decreases s.len(),
{
    if p.len() > 0 && starts_with_seq(s, p) {
        strip_prefixes(s.subrange(p.len() as int, s.len() as int), p)
    } else {
        s
    }
}

/// The position of the first `c` in `s`, or -1 (`str::find` of a character).
pub open spec fn first_index_of(s: Seq<char>, c: char) -> int {
    crate::seqs::first_pos(s, char_is(c))
}

pub open spec fn char_is(c: char) -> spec_fn(char) -> bool {
    |x: char| x == c
}

/// The position of the last `c` in `s`, or -1 (`str::rfind` of a character).
pub open spec fn last_index_of(s: Seq<char>, c: char) -> int
    decreases s.len(),
{
    if s.len() == 0 {
        -1
    } else if s.last() == c {
        s.len() - 1
    } else {
        last_index_of(s.drop_last(), c)
    }
}

/// The parts joined with `sep` between consecutive parts (`[String]::join`).
pub open spec fn join_seq(parts: Seq<Seq<char>>, sep: Seq<char>) -> Seq<char>
    decreases parts.len(),
{
    if parts.len() == 0 {
        Seq::empty()
    } else if parts.len() == 1 {
        parts[0]
    } else {
        join_seq(parts.drop_last(), sep) + sep + parts.last()
    }
}

/// The first `n` characters of `s`, or all of it (`chars().take(n).collect()`).
pub open spec fn take_chars(s: Seq<char>, n: nat) -> Seq<char> {
    if n < s.len() {
        s.take(n as int)
    } else {
        s
    }
}

/// The views of a vector of strings.
pub open spec fn views_of(v: Seq<String>) -> Seq<Seq<char>> {
    Seq::new(v.len(), |i: int| v[i]@)
}

/// Appending a string appends its view.
pub proof fn lemma_views_push(v: Seq<String>, x: String)
    ensures
        views_of(v.push(x)) == views_of(v).push(x@),
{
    assert(views_of(v.push(x)) =~= views_of(v).push(x@));
}

pub fn is_ws_char(c: char) -> (b: bool)
    ensures
        b == is_ws(c),
{
    c == '\t' || c == '\n' || c == '\u{B}' || c == '\u{C}' || c == '\r' || c == ' '
        || c == '\u{85}' || c == '\u{A0}' || c == '\u{1680}' || ('\u{2000}' <= c && c
        <= '\u{200A}') || c == '\u{2028}' || c == '\u{2029}' || c == '\u{202F}' || c
        == '\u{205F}' || c == '\u{3000}'
}

pub fn lower_ascii_char(c: char) -> (r: char)
    ensures
        r == lower_char(c),
{
    if 'A' <= c && c <= 'Z' {
        let code: u32 = c as u32;
        let lowered: u8 = (code + 32) as u8;
        assert(lowered as u32 == code + 32);
        lowered as char
    } else {
        c
    }
}

/// The characters of `s`, in order.
pub fn chars_of(s: &str) -> (v: Vec<char>)
    ensures
        v@ == s@,
{
    let mut v: Vec<char> = Vec::new();
    for c in it: s.chars()
        invariant
            v@ == it.seq().take(it.index() as int),
            it.seq() == s@,
    {
        v.push(c);
    }
    v
}

/// Appends one character (`String::push`).
#[verifier::external_body]
pub fn push_char(s: &mut String, c: char)
    ensures
        final(s)@ == old(s)@.push(c),
{
    s.push(c);
}

/// The string made of `v[lo..hi]`.
pub fn string_from_chars(v: &Vec<char>, lo: usize, hi: usize) -> (r: String)
    requires
        lo <= hi <= v.len(),
    ensures
        r@ == v@.subrange(lo as int, hi as int),
{
    let mut r = String::new();
    let mut i = lo;
    while i < hi
        invariant
            lo <= i <= hi <= v.len(),
            r@ == v@.subrange(lo as int, i as int),
        decreases hi - i,
    {
        push_char(&mut r, v[i]);
        assert(v@.subrange(lo as int, i + 1) =~= v@.subrange(lo as int, i as int).push(v@[i as int]));
        i += 1;
    }
    r
}

/// An owned copy of `s`.
pub fn owned(s: &str) -> (r: String)
    ensures
        r@ == s@,
{
    s.to_owned()
}

/// The number of characters of `s` (`chars().count()`).
pub fn char_count(s: &str) -> (n: usize)
    ensures
        n == s@.len(),
{
    s.unicode_len()
}

pub fn is_blank(s: &str) -> (b: bool)
    ensures
        b == is_blank_seq(s@),
{
    let v = chars_of(s);
    let mut i: usize = 0;
    while i < v.len()
        invariant
            i <= v.len(),
            v@ == s@,
            forall|j: int| 0 <= j < i ==> is_ws(#[trigger] s@[j]),
        decreases v.len() - i,
    {
        if !is_ws_char(v[i]) {
            return false;
        }
        i += 1;
    }
    true
}

proof fn lemma_trim_start_skip(s: Seq<char>, i: int)
    requires
        0 <= i < s.len(),
        is_ws(s[i]),
    ensures
        trim_start_seq(s.subrange(i, s.len() as int)) == trim_start_seq(
            s.subrange(i + 1, s.len() as int),
        ),
{
    let t = s.subrange(i, s.len() as int);
    assert(t.subrange(1, t.len() as int) =~= s.subrange(i + 1, s.len() as int));
}

proof fn lemma_trim_end_skip(s: Seq<char>, j: int)
    requires
        0 < j <= s.len(),
        is_ws(s[j - 1]),
    ensures
        trim_end_seq(s.subrange(0, j)) == trim_end_seq(s.subrange(0, j - 1)),
{
    let t = s.subrange(0, j);
    assert(t.subrange(0, t.len() - 1) =~= s.subrange(0, j - 1));
}

proof fn lemma_trim_start_blank(s: Seq<char>)
    ensures
        trim_start_seq(s).len() == 0 <==> is_blank_seq(s),
    decreases s.len(),
{
    if s.len() > 0 && is_ws(s[0]) {
        let t = s.subrange(1, s.len() as int);
        lemma_trim_start_blank(t);
        if is_blank_seq(t) {
            assert forall|i: int| 0 <= i < s.len() implies is_ws(#[trigger] s[i]) by {
                if i > 0 {
                    assert(s[i] == t[i - 1]);
                }
            }
        }
        if is_blank_seq(s) {
            assert forall|i: int| 0 <= i < t.len() implies is_ws(#[trigger] t[i]) by {
                assert(t[i] == s[i + 1]);
            }
        }
    }
}

proof fn lemma_trim_end_nonempty(s: Seq<char>)
    requires
        s.len() > 0,
        !is_ws(s[0]),
    ensures
        trim_end_seq(s).len() > 0,
    decreases s.len(),
{
    if is_ws(s[s.len() - 1]) {
        let t = s.subrange(0, s.len() - 1);
        assert(t[0] == s[0]);
        lemma_trim_end_nonempty(t);
    }
}

/// A blank string trims to the empty string, and only a blank one does.
pub proof fn lemma_trim_empty_iff_blank(s: Seq<char>)
    ensures
        trim_seq(s).len() == 0 <==> is_blank_seq(s),
    decreases s.len(),
{
    lemma_trim_start_blank(s);
    lemma_trim_start_first(s);
    let t = trim_start_seq(s);
    if t.len() > 0 {
        lemma_trim_end_nonempty(t);
    }
}

proof fn lemma_trim_start_first(s: Seq<char>)
    ensures
        trim_start_seq(s).len() > 0 ==> !is_ws(trim_start_seq(s)[0]),
    decreases s.len(),
{
    if s.len() > 0 && is_ws(s[0]) {
        lemma_trim_start_first(s.subrange(1, s.len() as int));
    }
}

/// `s` without surrounding whitespace (`str::trim`).
pub fn trim(s: &str) -> (r: String)
    ensures
        r@ == trim_seq(s@),
{
    let v = chars_of(s);
    let n = v.len();
    let mut i: usize = 0;
    assert(s@.subrange(0, n as int) =~= s@);
    while i < n && is_ws_char(v[i])
        invariant
            i <= n == v.len(),
            v@ == s@,
            trim_start_seq(s@) == trim_start_seq(s@.subrange(i as int, n as int)),
        decreases n - i,
    {
        proof {
            lemma_trim_start_skip(s@, i as int);
        }
        i += 1;
    }
    let ghost head = s@.subrange(i as int, n as int);
    assert(trim_start_seq(head) == head);
    assert(trim_start_seq(s@) == head);
    let mut j: usize = n;
    while j > i && is_ws_char(v[j - 1])
        invariant
            i <= j <= n == v.len(),
            v@ == s@,
            head == s@.subrange(i as int, n as int),
            trim_end_seq(head) == trim_end_seq(s@.subrange(i as int, j as int)),
        decreases j - i,
    {
        proof {
            let h = s@.subrange(i as int, j as int);
            lemma_trim_end_skip(h, (j - i) as int);
            assert(h.subrange(0, (j - i) - 1) =~= s@.subrange(i as int, j - 1));
        }
        j -= 1;
    }
    let ghost body = s@.subrange(i as int, j as int);
    assert(trim_end_seq(body) == body);
    string_from_chars(&v, i, j)
}

/// ASCII lowercase copy of `s` (`str::to_ascii_lowercase`).
pub fn ascii_lowercase(s: &str) -> (r: String)
    ensures
        r@ == lower_seq(s@),
{
    let v = chars_of(s);
    let mut r = String::new();
    let mut i: usize = 0;
    while i < v.len()
        invariant
            i <= v.len(),
            v@ == s@,
            r@ =~= lower_seq(s@.take(i as int)),
        decreases v.len() - i,
    {
        let c = lower_ascii_char(v[i]);
        push_char(&mut r, c);
        assert(lower_seq(s@.take(i + 1)) =~= lower_seq(s@.take(i as int)).push(c));
        i += 1;
    }
    assert(s@.take(v.len() as int) =~= s@);
    r
}

/// Whether `n` occurs in `h` at position `i`, for vectors of characters.
pub fn occurs_at_vec(h: &Vec<char>, n: &Vec<char>, i: usize) -> (b: bool)
    requires
        i + n.len() <= h.len(),
    ensures
        b == occurs_at(h@, n@, i as int),
{
    let mut k: usize = 0;
    while k < n.len()
        invariant
            k <= n.len(),
            i + n.len() <= h.len(),
            forall|m: int| 0 <= m < k ==> h@[i + m] == n@[m],
        decreases n.len() - k,
    {
        if h[i + k] != n[k] {
            assert(h@.subrange(i as int, i + n.len())[k as int] != n@[k as int]);
            return false;
        }
        k += 1;
    }
    assert(h@.subrange(i as int, i + n.len()) =~= n@);
    true
}

/// Whether `n` occurs in `h` (`str::contains`), for vectors of characters.
pub fn contains_chars(h: &Vec<char>, n: &Vec<char>) -> (b: bool)
    ensures
        b == seq_contains(h@, n@),
{
    if n.len() > h.len() {
        assert forall|i: int| !occurs_at(h@, n@, i) by {}
        return false;
    }
    let last = h.len() - n.len();
    let mut i: usize = 0;
    while i <= last
        invariant
            last == h.len() - n.len(),
            n.len() <= h.len(),
            forall|j: int| 0 <= j < i ==> !occurs_at(h@, n@, j),
        decreases last + 1 - i,
    {
        if occurs_at_vec(h, n, i) {
            return true;
        }
        i += 1;
    }
    assert forall|j: int| !occurs_at(h@, n@, j) by {
        if 0 <= j < i {
        }
    }
    false
}

/// Whether `n` occurs in `h` (`str::contains`).
pub fn contains(h: &str, n: &str) -> (b: bool)
    ensures
        b == seq_contains(h@, n@),
{
    let hv = chars_of(h);
    let nv = chars_of(n);
    contains_chars(&hv, &nv)
}

/// Whether the character `c` occurs in `h`.
pub fn contains_char(h: &str, c: char) -> (b: bool)
    ensures
        b == h@.contains(c),
{
    let v = chars_of(h);
    let mut i: usize = 0;
    while i < v.len()
        invariant
            i <= v.len(),
            v@ == h@,
            forall|j: int| 0 <= j < i ==> h@[j] != c,
        decreases v.len() - i,
    {
        if v[i] == c {
            assert(h@[i as int] == c);
            return true;
        }
        i += 1;
    }
    false
}

/// Whether `a` and `b` hold the same characters.
pub fn str_eq(a: &str, b: &str) -> (r: bool)
    ensures
        r == (a@ == b@),
{
    let av = chars_of(a);
    let bv = chars_of(b);
    if av.len() != bv.len() {
        return false;
    }
    let mut i: usize = 0;
    while i < av.len()
        invariant
            i <= av.len() == bv.len(),
            av@ == a@,
            bv@ == b@,
            forall|j: int| 0 <= j < i ==> a@[j] == b@[j],
        decreases av.len() - i,
    {
        if av[i] != bv[i] {
            return false;
        }
        i += 1;
    }
    assert(a@ =~= b@);
    true
}

/// Whether `s` starts with `p`.
pub fn starts_with(s: &str, p: &str) -> (r: bool)
    ensures
        r == starts_with_seq(s@, p@),
{
    let sv = chars_of(s);
    let pv = chars_of(p);
    if pv.len() > sv.len() {
        return false;
    }
    occurs_at_vec(&sv, &pv, 0)
}

/// Whether `s` ends with `p`.
pub fn ends_with(s: &str, p: &str) -> (r: bool)
    ensures
        r == ends_with_seq(s@, p@),
{
    let sv = chars_of(s);
    let pv = chars_of(p);
    if pv.len() > sv.len() {
        return false;
    }
    occurs_at_vec(&sv, &pv, sv.len() - pv.len())
}

/// `s` without any trailing repetitions of `p` (`str::trim_end_matches`).
pub fn trim_end_matches(s: &str, p: &str) -> (r: String)
    requires
        p@.len() > 0,
    ensures
        r@ == strip_suffixes(s@, p@),
{
    let sv = chars_of(s);
    let pv = chars_of(p);
    let mut end: usize = sv.len();
    assert(s@.subrange(0, end as int) =~= s@);
    while pv.len() <= end && occurs_at_vec(&sv, &pv, end - pv.len())
        invariant
            end <= sv.len(),
            sv@ == s@,
            pv@ == p@,
            p@.len() > 0,
            strip_suffixes(s@, p@) == strip_suffixes(s@.subrange(0, end as int), p@),
        decreases end,
    {
        proof {
            let t = s@.subrange(0, end as int);
            assert(t.subrange(t.len() - p@.len(), t.len() as int) =~= s@.subrange(
                end - p@.len(),
                end as int,
            ));
            assert(ends_with_seq(t, p@));
            assert(t.subrange(0, t.len() - p@.len()) =~= s@.subrange(0, end - p@.len()));
        }
        end -= pv.len();
    }
    proof {
        let t = s@.subrange(0, end as int);
        if p@.len() <= t.len() {
            assert(t.subrange(t.len() - p@.len(), t.len() as int) =~= s@.subrange(
                end - p@.len(),
                end as int,
            ));
        }
        assert(!ends_with_seq(t, p@));
    }
    string_from_chars(&sv, 0, end)
}

/// The first `max` characters of `s` (`chars().take(max).collect()`).
pub fn truncate_chars(s: &str, max: usize) -> (r: String)
    ensures
        r@ == take_chars(s@, max as nat),
{
    let v = chars_of(s);
    if max < v.len() {
        string_from_chars(&v, 0, max)
    } else {
        assert(v@.subrange(0, v.len() as int) =~= v@);
        string_from_chars(&v, 0, v.len())
    }
}

/// The parts joined with `sep` (`[String]::join`).
pub fn join(parts: &Vec<String>, sep: &str) -> (r: String)
    ensures
        r@ == join_seq(views_of(parts@), sep@),
{
    let mut r = String::new();
    let mut i: usize = 0;
    while i < parts.len()
        invariant
            i <= parts.len(),
            r@ == join_seq(views_of(parts@.take(i as int)), sep@),
        decreases parts.len() - i,
    {
        let ghost before = views_of(parts@.take(i as int));
        let ghost after = views_of(parts@.take(i + 1));
        assert(after.drop_last() =~= before);
        if i > 0 {
            r.append(sep);
        }
        r.append(parts[i].as_str());
        i += 1;
    }
    assert(parts@.take(parts.len() as int) =~= parts@);
    r
}

/// `a` followed by `b`.
pub fn concat2(a: &str, b: &str) -> (r: String)
    ensures
        r@ == a@ + b@,
{
    let mut r = owned(a);
    r.append(b);
    r
}

/// `a`, `b` and `c` in sequence.
pub fn concat3(a: &str, b: &str, c: &str) -> (r: String)
    ensures
        r@ == a@ + b@ + c@,
{
    let mut r = owned(a);
    r.append(b);
    r.append(c);
    r
}

/// `s` without any leading repetitions of `p` (`str::trim_start_matches`).
pub fn trim_start_matches(s: &str, p: &str) -> (r: String)
    requires
        p@.len() > 0,
    ensures
        r@ == strip_prefixes(s@, p@),
{
    let sv = chars_of(s);
    let pv = chars_of(p);
    let mut start: usize = 0;
    assert(s@.subrange(0, s@.len() as int) =~= s@);
    while pv.len() <= sv.len() - start && occurs_at_vec(&sv, &pv, start)
        invariant
            start <= sv.len(),
            sv@ == s@,
            pv@ == p@,
            p@.len() > 0,
            strip_prefixes(s@, p@) == strip_prefixes(s@.subrange(start as int, s@.len() as int), p@),
        decreases sv.len() - start,
    {
        proof {
            let t = s@.subrange(start as int, s@.len() as int);
            assert(t.subrange(0, p@.len() as int) =~= s@.subrange(
                start as int,
                start + p@.len(),
            ));
            assert(starts_with_seq(t, p@));
            assert(t.subrange(p@.len() as int, t.len() as int) =~= s@.subrange(
                start + p@.len(),
                s@.len() as int,
            ));
        }
        start += pv.len();
    }
    proof {
        let t = s@.subrange(start as int, s@.len() as int);
        if p@.len() <= t.len() {
            assert(t.subrange(0, p@.len() as int) =~= s@.subrange(
                start as int,
                start + p@.len(),
            ));
        }
        assert(!starts_with_seq(t, p@));
    }
    string_from_chars(&sv, start, sv.len())
}

/// The position of the first `c` in `v`, if any.
pub fn find_char(v: &Vec<char>, c: char) -> (r: Option<usize>)
    ensures
        match r {
            Some(i) => i < v@.len() && i as int == first_index_of(v@, c),
            None => first_index_of(v@, c) < 0,
        },
{
    let ghost p = char_is(c);
    let mut i: usize = 0;
    while i < v.len()
        invariant
            i <= v.len(),
            p == char_is(c),
            forall|j: int| 0 <= j < i ==> !p(#[trigger] v@[j]),
        decreases v.len() - i,
    {
        if v[i] == c {
            proof {
                crate::seqs::lemma_first_pos_is(v@, p, i as int);
            }
            return Some(i);
        }
        i += 1;
    }
    proof {
        crate::seqs::lemma_first_pos_is(v@, p, -1);
    }
    None
}

proof fn lemma_last_index_of(s: Seq<char>, c: char)
    ensures
        -1 <= last_index_of(s, c) < s.len(),
        last_index_of(s, c) >= 0 ==> s[last_index_of(s, c)] == c,
        forall|j: int| last_index_of(s, c) < j < s.len() ==> #[trigger] s[j] != c,
    decreases s.len(),
{
    if s.len() > 0 && s.last() != c {
        lemma_last_index_of(s.drop_last(), c);
        assert forall|j: int| last_index_of(s, c) < j < s.len() implies #[trigger] s[j] != c by {
            if j < s.len() - 1 {
                assert(s[j] == s.drop_last()[j]);
            }
        }
    }
}

/// The position of the last `c` in `v`, if any.
pub fn rfind_char(v: &Vec<char>, c: char) -> (r: Option<usize>)
    ensures
        match r {
            Some(i) => i < v@.len() && i as int == last_index_of(v@, c),
            None => last_index_of(v@, c) < 0,
        },
{
    let mut i: usize = v.len();
    assert(v@.take(v@.len() as int) =~= v@);
    while i > 0
        invariant
            i <= v.len(),
            last_index_of(v@, c) == last_index_of(v@.take(i as int), c),
        decreases i,
    {
        assert(v@.take(i as int).drop_last() =~= v@.take(i - 1));
        if v[i - 1] == c {
            return Some(i - 1);
        }
        i -= 1;
    }
    None
}

} // verus!

verus! {

/// `s` with every `from` replaced by `to` (`str::replace` with a character).
pub open spec fn replace_char_seq(s: Seq<char>, from: char, to: char) -> Seq<char> {
    Seq::new(s.len(), |i: int| if s[i] == from { to } else { s[i] })
}

pub fn replace_char(s: &str, from: char, to: char) -> (r: String)
    ensures
        r@ == replace_char_seq(s@, from, to),
{
    let v = chars_of(s);
    let mut r = String::new();
    let mut i: usize = 0;
    while i < v.len()
        invariant
            i <= v.len(),
            v@ == s@,
            r@ == replace_char_seq(s@, from, to).take(i as int),
        decreases v.len() - i,
    {
        let c = if v[i] == from {
            to
        } else {
            v[i]
        };
        push_char(&mut r, c);
        assert(replace_char_seq(s@, from, to).take(i + 1) =~= replace_char_seq(s@, from, to).take(
            i as int,
        ).push(c));
        i += 1;
    }
    assert(replace_char_seq(s@, from, to).take(v.len() as int) =~= replace_char_seq(s@, from, to));
    r
}

} // verus!
