//! Character-level helpers shared by the parsers: ASCII case folding,
//! searching, Unicode-whitespace trimming, decimal rendering and integer parsing.
use vstd::prelude::*;

verus! {

// ───────────────────────── ASCII case ─────────────────────────

pub open spec fn lower_char(c: char) -> char {
    if 'A' <= c && c <= 'Z' {
        ((c as u32) + 32) as char
    } else {
        c
    }
}

pub open spec fn upper_char(c: char) -> char {
    if 'a' <= c && c <= 'z' {
        ((c as u32) - 32) as char
    } else {
        c
    }
}

pub open spec fn lower_seq(s: Seq<char>) -> Seq<char> {
    Seq::new(s.len(), |i: int| lower_char(s[i]))
}

/// ASCII case-insensitive equality (`str::eq_ignore_ascii_case`).
pub open spec fn eq_ic(a: Seq<char>, b: Seq<char>) -> bool {
    &&& a.len() == b.len()
    &&& forall|i: int| 0 <= i < a.len() ==> lower_char(#[trigger] a[i]) == lower_char(b[i])
}

pub fn to_lower_char(c: char) -> (r: char)
    ensures
        r == lower_char(c),
{
    if 'A' <= c && c <= 'Z' {
        ((c as u8) + 32) as char
    } else {
        c
    }
}

pub fn to_upper_char(c: char) -> (r: char)
    ensures
        r == upper_char(c),
{
    if 'a' <= c && c <= 'z' {
        ((c as u8) - 32) as char
    } else {
        c
    }
}

pub fn eq_ignore_case_chars(a: &Vec<char>, b: &Vec<char>) -> (r: bool)
    ensures
        r == eq_ic(a@, b@),
{
    if a.len() != b.len() {
        return false;
    }
    let mut i: usize = 0;
    while i < a.len()
        invariant
            a.len() == b.len(),
            i <= a.len(),
            forall|j: int| 0 <= j < i ==> lower_char(#[trigger] a@[j]) == lower_char(b@[j]),
        decreases a.len() - i,
    {
        if to_lower_char(a[i]) != to_lower_char(b[i]) {
            return false;
        }
        i += 1;
    }
    true
}

/// `str::eq_ignore_ascii_case`.
pub fn eq_ignore_ascii_case(a: &str, b: &str) -> (r: bool)
    ensures
        r == eq_ic(a@, b@),
{
    let av = chars_of(a);
    let bv = chars_of(b);
    eq_ignore_case_chars(&av, &bv)
}

/// `str::to_ascii_lowercase`.
pub fn ascii_lowercase(s: &str) -> (r: String)
    ensures
        r@ == lower_seq(s@),
{
    let v = chars_of(s);
    let mut out: Vec<char> = Vec::new();
    let mut i: usize = 0;
    while i < v.len()
        invariant
            i <= v.len(),
            out@ == lower_seq(v@.take(i as int)),
        decreases v.len() - i,
    {
        let c = to_lower_char(v[i]);
        out.push(c);
        i += 1;
        assert(out@ =~= lower_seq(v@.take(i as int)));
    }
    assert(v@.take(v.len() as int) =~= v@);
    string_of(&out)
}

// ───────────────────────── Strings and character vectors ─────────────────────────

pub fn chars_of(s: &str) -> (v: Vec<char>)
    ensures
        v@ == s@,
{
    let mut v: Vec<char> = Vec::new();
    for c in it: s.chars()
        invariant
            v@ == it.seq().take(it.index() as int),
    {
        v.push(c);
    }
    v
}

/// Appends one character to a string (`String::push`).
#[verifier::external_body]
pub(crate) fn push_char(s: &mut String, c: char)
    ensures
        final(s)@ == old(s)@.push(c),
{
    s.push(c);
}

pub fn push_chars(s: &mut String, v: &Vec<char>)
    ensures
        final(s)@ == old(s)@ + v@,
{
    let ghost start = s@;
    let mut i: usize = 0;
    while i < v.len()
        invariant
            i <= v.len(),
            s@ == start + v@.take(i as int),
        decreases v.len() - i,
    {
        push_char(s, v[i]);
        i += 1;
        assert(s@ =~= start + v@.take(i as int));
    }
    assert(v@.take(v.len() as int) =~= v@);
}

pub fn push_str(s: &mut String, t: &str)
    ensures
        final(s)@ == old(s)@ + t@,
{
    let v = chars_of(t);
    push_chars(s, &v);
}

pub fn string_of(v: &Vec<char>) -> (s: String)
    ensures
        s@ == v@,
{
    let mut s = String::new();
    push_chars(&mut s, v);
    assert(s@ =~= v@);
    s
}

/// Characters `v[from..to]` as a string.
pub fn string_of_range(v: &Vec<char>, from: usize, to: usize) -> (s: String)
    requires
        from <= to <= v.len(),
    ensures
        s@ == v@.subrange(from as int, to as int),
{
    let mut s = String::new();
    let mut i = from;
    while i < to
        invariant
            from <= i <= to <= v.len(),
            s@ == v@.subrange(from as int, i as int),
        decreases to - i,
    {
        push_char(&mut s, v[i]);
        i += 1;
        assert(s@ =~= v@.subrange(from as int, i as int));
    }
    s
}

pub fn copy_string(s: &String) -> (r: String)
    ensures
        r@ == s@,
{
    s.clone()
}

pub fn string_from_str(s: &str) -> (r: String)
    ensures
        r@ == s@,
{
    let mut r = String::new();
    push_str(&mut r, s);
    assert(r@ =~= s@);
    r
}

pub fn vec_char_eq(a: &Vec<char>, b: &Vec<char>) -> (r: bool)
    ensures
        r == (a@ == b@),
{
    if a.len() != b.len() {
        return false;
    }
    let mut i: usize = 0;
    while i < a.len()
        invariant
            a.len() == b.len(),
            i <= a.len(),
            forall|j: int| 0 <= j < i ==> a@[j] == b@[j],
        decreases a.len() - i,
    {
        if a[i] != b[i] {
            return false;
        }
        i += 1;
    }
    assert(a@ =~= b@);
    true
}

pub fn str_eq(a: &str, b: &str) -> (r: bool)
    ensures
        r == (a@ == b@),
{
    let av = chars_of(a);
    let bv = chars_of(b);
    vec_char_eq(&av, &bv)
}

// ───────────────────────── Searching ─────────────────────────

pub open spec fn is_first_from(s: Seq<char>, start: int, c: char, i: int) -> bool {
    &&& start <= i < s.len()
    &&& s[i] == c
    &&& forall|j: int| start <= j < i ==> s[j] != c
}

/// First index `>= start` holding `c`.
pub open spec fn first_from(s: Seq<char>, start: int, c: char) -> Option<int> {
    if exists|i: int| #[trigger] is_first_from(s, start, c, i) {
        Some(choose|i: int| #[trigger] is_first_from(s, start, c, i))
    } else {
        None
    }
}

pub open spec fn is_last(s: Seq<char>, c: char, i: int) -> bool {
    &&& 0 <= i < s.len()
    &&& s[i] == c
    &&& forall|j: int| i < j < s.len() ==> s[j] != c
}

/// Last index holding `c`.
pub open spec fn last_of(s: Seq<char>, c: char) -> Option<int> {
    if exists|i: int| #[trigger] is_last(s, c, i) {
        Some(choose|i: int| #[trigger] is_last(s, c, i))
    } else {
        None
    }
}

pub fn find_char_from(v: &Vec<char>, start: usize, c: char) -> (r: Option<usize>)
    requires
        start <= v.len(),
    ensures
        r matches Some(i) ==> first_from(v@, start as int, c) == Some(i as int) && is_first_from(
            v@,
            start as int,
            c,
            i as int,
        ),
        r is None ==> first_from(v@, start as int, c) is None,
        r is None ==> forall|j: int| start <= j < v@.len() ==> v@[j] != c,
{
    let mut i = start;
    while i < v.len()
        invariant
            start <= i <= v.len(),
            forall|j: int| start <= j < i ==> v@[j] != c,
        decreases v.len() - i,
    {
        if v[i] == c {
            assert(is_first_from(v@, start as int, c, i as int));
            proof {
                let k = choose|k: int| #[trigger] is_first_from(v@, start as int, c, k);
                assert(k == i);
            }
            return Some(i);
        }
        i += 1;
    }
    assert(!exists|k: int| #[trigger] is_first_from(v@, start as int, c, k));
    None
}

pub fn rfind_char(v: &Vec<char>, c: char) -> (r: Option<usize>)
    ensures
        r matches Some(i) ==> last_of(v@, c) == Some(i as int) && is_last(v@, c, i as int),
        r is None ==> last_of(v@, c) is None,
        r is None ==> forall|j: int| 0 <= j < v@.len() ==> v@[j] != c,
{
    let mut i = v.len();
    while i > 0
        invariant
            i <= v.len(),
            forall|j: int| i <= j < v@.len() ==> v@[j] != c,
        decreases i,
    {
        i -= 1;
        if v[i] == c {
            assert(is_last(v@, c, i as int));
            proof {
                let k = choose|k: int| #[trigger] is_last(v@, c, k);
                assert(k == i);
            }
            return Some(i);
        }
    }
    assert(!exists|k: int| #[trigger] is_last(v@, c, k));
    None
}

pub open spec fn matches_at(s: Seq<char>, p: Seq<char>, i: int) -> bool {
    0 <= i && i + p.len() <= s.len() && s.subrange(i, i + p.len()) == p
}

pub open spec fn is_first_pat(s: Seq<char>, p: Seq<char>, i: int) -> bool {
    &&& matches_at(s, p, i)
    &&& forall|j: int| 0 <= j < i ==> !matches_at(s, p, j)
}

/// First occurrence of the pattern `p` in `s` (`str::find` with a string pattern).
pub open spec fn first_pat(s: Seq<char>, p: Seq<char>) -> Option<int> {
    if exists|i: int| #[trigger] is_first_pat(s, p, i) {
        Some(choose|i: int| #[trigger] is_first_pat(s, p, i))
    } else {
        None
    }
}

pub fn matches_at_exec(v: &Vec<char>, p: &Vec<char>, i: usize) -> (r: bool)
    requires
        i <= v.len(),
    ensures
        r == matches_at(v@, p@, i as int),
{
    if p.len() > v.len() - i {
        return false;
    }
    let mut k: usize = 0;
    while k < p.len()
        invariant
            i + p.len() <= v.len(),
            k <= p.len(),
            forall|j: int| 0 <= j < k ==> v@[i + j] == p@[j],
        decreases p.len() - k,
    {
        if v[i + k] != p[k] {
            assert(v@.subrange(i as int, i + p.len())[k as int] != p@[k as int]);
            return false;
        }
        k += 1;
    }
    assert(v@.subrange(i as int, i + p.len()) =~= p@);
    true
}

pub fn find_pat(v: &Vec<char>, p: &Vec<char>) -> (r: Option<usize>)
    ensures
        r matches Some(i) ==> first_pat(v@, p@) == Some(i as int) && matches_at(v@, p@, i as int),
        r is None ==> first_pat(v@, p@) is None,
{
    let mut i: usize = 0;
    while i < v.len()
        invariant
            i <= v.len(),
            forall|j: int| 0 <= j < i ==> !matches_at(v@, p@, j),
        decreases v.len() - i,
    {
        if matches_at_exec(v, p, i) {
            assert(is_first_pat(v@, p@, i as int));
            proof {
                let k = choose|k: int| #[trigger] is_first_pat(v@, p@, k);
                assert(k == i);
            }
            return Some(i);
        }
        i += 1;
    }
    if matches_at_exec(v, p, i) {
        assert(is_first_pat(v@, p@, i as int));
        proof {
            let k = choose|k: int| #[trigger] is_first_pat(v@, p@, k);
            assert(k == i);
        }
        return Some(i);
    }
    assert forall|k: int| !is_first_pat(v@, p@, k) by {
        if is_first_pat(v@, p@, k) {
            assert(matches_at(v@, p@, k));
        }
    }
    None
}

pub open spec fn starts_with(s: Seq<char>, p: Seq<char>) -> bool {
    p.len() <= s.len() && s.subrange(0, p.len() as int) == p
}

pub open spec fn ends_with(s: Seq<char>, p: Seq<char>) -> bool {
    p.len() <= s.len() && s.subrange(s.len() - p.len(), s.len() as int) == p
}

pub fn starts_with_exec(v: &Vec<char>, p: &str) -> (r: bool)
    ensures
        r == starts_with(v@, p@),
{
    let pv = chars_of(p);
    matches_at_exec(v, &pv, 0)
}

pub fn ends_with_exec(v: &Vec<char>, p: &Vec<char>) -> (r: bool)
    ensures
        r == ends_with(v@, p@),
{
    if p.len() > v.len() {
        return false;
    }
    matches_at_exec(v, p, v.len() - p.len())
}

// ───────────────────────── Unicode whitespace and trimming ─────────────────────────

/// `char::is_whitespace`: the Unicode `White_Space` property.
pub open spec fn is_ws(c: char) -> bool {
    ||| ('\u{9}' <= c && c <= '\u{d}')
    ||| c == ' '
    ||| c == '\u{85}'
    ||| c == '\u{a0}'
    ||| c == '\u{1680}'
    ||| ('\u{2000}' <= c && c <= '\u{200a}')
    ||| c == '\u{2028}'
    ||| c == '\u{2029}'
    ||| c == '\u{202f}'
    ||| c == '\u{205f}'
    ||| c == '\u{3000}'
}

pub fn is_whitespace(c: char) -> (r: bool)
    ensures
        r == is_ws(c),
{
    ('\u{9}' <= c && c <= '\u{d}') || c == ' ' || c == '\u{85}' || c == '\u{a0}' || c == '\u{1680}'
        || ('\u{2000}' <= c && c <= '\u{200a}') || c == '\u{2028}' || c == '\u{2029}' || c
        == '\u{202f}' || c == '\u{205f}' || c == '\u{3000}'
}

/// First index at or after `i` that is not whitespace (or the end).
pub open spec fn skip_ws(s: Seq<char>, i: int) -> int
    decreases s.len() - i,
{
    if 0 <= i < s.len() && is_ws(s[i]) {
        skip_ws(s, i + 1)
    } else {
        i
    }
}

/// First index at or after `i` that is whitespace (or the end).
pub open spec fn word_end(s: Seq<char>, i: int) -> int
    decreases s.len() - i,
{
    if 0 <= i < s.len() && !is_ws(s[i]) {
        word_end(s, i + 1)
    } else {
        i
    }
}

pub proof fn lemma_skip_ws_bounds(s: Seq<char>, i: int)
    requires
        0 <= i <= s.len(),
    ensures
        i <= skip_ws(s, i) <= s.len(),
        skip_ws(s, i) < s.len() ==> !is_ws(s[skip_ws(s, i)]),
    decreases s.len() - i,
{
    if i < s.len() && is_ws(s[i]) {
        lemma_skip_ws_bounds(s, i + 1);
    }
}

pub proof fn lemma_word_end_bounds(s: Seq<char>, i: int)
    requires
        0 <= i <= s.len(),
    ensures
        i <= word_end(s, i) <= s.len(),
        i < s.len() && !is_ws(s[i]) ==> i < word_end(s, i),
    decreases s.len() - i,
{
    if i < s.len() && !is_ws(s[i]) {
        lemma_word_end_bounds(s, i + 1);
    }
}

/// `str::split_whitespace` from index `i`: the maximal runs of non-whitespace characters.
pub open spec fn words_from(s: Seq<char>, i: int) -> Seq<Seq<char>>
    decreases s.len() - i,
{
    if i < 0 || i > s.len() {
        Seq::empty()
    } else {
        let a = skip_ws(s, i);
        if a >= s.len() {
            Seq::empty()
        } else {
            let b = word_end(s, a);
            proof {
                lemma_skip_ws_bounds(s, i);
                lemma_word_end_bounds(s, a);
            }
            seq![s.subrange(a, b)] + words_from(s, b)
        }
    }
}

/// `str::split_whitespace`.
pub open spec fn words(s: Seq<char>) -> Seq<Seq<char>> {
    words_from(s, 0)
}

/// Index of the first non-whitespace character at or after `i`.
pub fn skip_ws_exec(v: &Vec<char>, i: usize) -> (r: usize)
    requires
        i <= v.len(),
    ensures
        r == skip_ws(v@, i as int),
        i <= r <= v.len(),
{
    let mut j = i;
    while j < v.len() && is_whitespace(v[j])
        invariant
            i <= j <= v.len(),
            skip_ws(v@, j as int) == skip_ws(v@, i as int),
        decreases v.len() - j,
    {
        j += 1;
    }
    j
}

/// Index of the first whitespace character at or after `i`.
pub fn word_end_exec(v: &Vec<char>, i: usize) -> (r: usize)
    requires
        i <= v.len(),
    ensures
        r == word_end(v@, i as int),
        i <= r <= v.len(),
{
    let mut j = i;
    while j < v.len() && !is_whitespace(v[j])
        invariant
            i <= j <= v.len(),
            word_end(v@, j as int) == word_end(v@, i as int),
        decreases v.len() - j,
    {
        j += 1;
    }
    j
}

/// Number of leading whitespace characters.
pub open spec fn lead_ws(s: Seq<char>) -> int
    decreases s.len(),
{
    if s.len() == 0 {
        0
    } else if is_ws(s[0]) {
        1 + lead_ws(s.drop_first())
    } else {
        0
    }
}

/// Number of trailing whitespace characters.
pub open spec fn trail_ws(s: Seq<char>) -> int
    decreases s.len(),
{
    if s.len() == 0 {
        0
    } else if is_ws(s.last()) {
        1 + trail_ws(s.drop_last())
    } else {
        0
    }
}

/// `str::trim`: the sequence without leading and trailing whitespace.
pub open spec fn trim_seq(s: Seq<char>) -> Seq<char> {
    if lead_ws(s) == s.len() {
        Seq::empty()
    } else {
        s.subrange(lead_ws(s), s.len() - trail_ws(s))
    }
}

pub proof fn lemma_lead_ws(s: Seq<char>, i: int)
    requires
        0 <= i <= s.len(),
        forall|j: int| 0 <= j < i ==> is_ws(#[trigger] s[j]),
        i == s.len() || !is_ws(s[i]),
    ensures
        lead_ws(s) == i,
    decreases s.len(),
{
    if s.len() > 0 && i > 0 {
        assert forall|j: int| 0 <= j < i - 1 implies is_ws(#[trigger] s.drop_first()[j]) by {
            assert(s.drop_first()[j] == s[j + 1]);
        }
        if i < s.len() {
            assert(s.drop_first()[i - 1] == s[i]);
        }
        lemma_lead_ws(s.drop_first(), i - 1);
    }
}

pub proof fn lemma_trail_ws(s: Seq<char>, k: int)
    requires
        0 <= k <= s.len(),
        forall|j: int| s.len() - k <= j < s.len() ==> is_ws(#[trigger] s[j]),
        k == s.len() || !is_ws(s[s.len() - k - 1]),
    ensures
        trail_ws(s) == k,
    decreases s.len(),
{
    if s.len() > 0 && k > 0 {
        let t = s.drop_last();
        assert forall|j: int| t.len() - (k - 1) <= j < t.len() implies is_ws(#[trigger] t[j]) by {
            assert(t[j] == s[j]);
        }
        if k < s.len() {
            assert(t[t.len() - (k - 1) - 1] == s[s.len() - k - 1]);
        }
        lemma_trail_ws(t, k - 1);
    }
}

pub proof fn lemma_lead_ws_bound(s: Seq<char>)
    ensures
        0 <= lead_ws(s) <= s.len(),
        forall|j: int| 0 <= j < lead_ws(s) ==> is_ws(#[trigger] s[j]),
        lead_ws(s) < s.len() ==> !is_ws(s[lead_ws(s)]),
    decreases s.len(),
{
    if s.len() > 0 && is_ws(s[0]) {
        lemma_lead_ws_bound(s.drop_first());
        assert forall|j: int| 0 <= j < lead_ws(s) implies is_ws(#[trigger] s[j]) by {
            if j > 0 {
                assert(s[j] == s.drop_first()[j - 1]);
            }
        }
    }
}

pub proof fn lemma_trail_ws_bound(s: Seq<char>)
    ensures
        0 <= trail_ws(s) <= s.len(),
        forall|j: int| s.len() - trail_ws(s) <= j < s.len() ==> is_ws(#[trigger] s[j]),
        trail_ws(s) < s.len() ==> !is_ws(s[s.len() - trail_ws(s) - 1]),
    decreases s.len(),
{
    if s.len() > 0 && is_ws(s.last()) {
        let t = s.drop_last();
        lemma_trail_ws_bound(t);
        assert forall|j: int| s.len() - trail_ws(s) <= j < s.len() implies is_ws(#[trigger] s[j]) by {
            if j < s.len() - 1 {
                assert(s[j] == t[j]);
            }
        }
        if trail_ws(s) < s.len() {
            assert(s[s.len() - trail_ws(s) - 1] == t[t.len() - trail_ws(t) - 1]);
        }
    }
}

/// Bounds `(a, b)` with `trim_seq(v[from..to]) == v[a..b]`.
pub fn trim_bounds(v: &Vec<char>, from: usize, to: usize) -> (r: (usize, usize))
    requires
        from <= to <= v.len(),
    ensures
        from <= r.0 <= r.1 <= to,
        v@.subrange(r.0 as int, r.1 as int) == trim_seq(v@.subrange(from as int, to as int)),
{
    let ghost s = v@.subrange(from as int, to as int);
    let mut a = from;
    while a < to && is_whitespace(v[a])
        invariant
            from <= a <= to <= v.len(),
            forall|j: int| from <= j < a ==> is_ws(#[trigger] v@[j]),
        decreases to - a,
    {
        a += 1;
    }
    proof {
        assert forall|j: int| 0 <= j < a - from implies is_ws(#[trigger] s[j]) by {
            assert(s[j] == v@[from + j]);
        }
        if a < to {
            assert(s[a - from] == v@[a as int]);
        }
        lemma_lead_ws(s, a - from);
    }
    if a == to {
        assert(v@.subrange(a as int, a as int) =~= Seq::<char>::empty());
        return (a, a);
    }
    let mut b = to;
    while b > a && is_whitespace(v[b - 1])
        invariant
            from <= a < to <= v.len(),
            a <= b <= to,
            !is_ws(v@[a as int]),
            forall|j: int| b <= j < to ==> is_ws(#[trigger] v@[j]),
        decreases b,
    {
        b -= 1;
    }
    proof {
        let k = to - b;
        assert forall|j: int| s.len() - k <= j < s.len() implies is_ws(#[trigger] s[j]) by {
            assert(s[j] == v@[from + j]);
        }
        assert(b > a);
        assert(s[s.len() - k - 1] == v@[b - 1]);
        lemma_trail_ws(s, k);
        assert(v@.subrange(a as int, b as int) =~= s.subrange(lead_ws(s), s.len() - trail_ws(s)));
    }
    (a, b)
}

pub fn trim_chars(v: &Vec<char>) -> (r: String)
    ensures
        r@ == trim_seq(v@),
{
    let (a, b) = trim_bounds(v, 0, v.len());
    assert(v@.subrange(0, v.len() as int) =~= v@);
    string_of_range(v, a, b)
}

/// `str::trim`, returned as an owned string.
pub fn trim_str(s: &str) -> (r: String)
    ensures
        r@ == trim_seq(s@),
{
    let v = chars_of(s);
    trim_chars(&v)
}

// ───────────────────────── Decimal numbers ─────────────────────────

pub open spec fn digit_char(d: nat) -> char {
    ((d + 48) as u32) as char
}

/// Decimal rendering of a natural number (`u64::to_string`).
pub open spec fn dec_str(n: nat) -> Seq<char>
    decreases n,
{
    if n < 10 {
        seq![digit_char(n)]
    } else {
        dec_str(n / 10).push(digit_char(n % 10))
    }
}

pub fn digit_to_char(d: u64) -> (c: char)
    requires
        d < 10,
    ensures
        c == digit_char(d as nat),
{
    ((d as u8) + 48) as char
}

pub fn push_decimal(s: &mut String, n: u64)
    ensures
        final(s)@ == old(s)@ + dec_str(n as nat),
    decreases n,
{
    if n >= 10 {
        push_decimal(s, n / 10);
    }
    let c = digit_to_char(n % 10);
    push_char(s, c);
    proof {
        if n >= 10 {
            assert(dec_str(n as nat) == dec_str((n / 10) as nat).push(digit_char((n % 10) as nat)));
        }
    }
}

/// Decimal rendering of `n`.
pub fn decimal_string(n: u64) -> (s: String)
    ensures
        s@ == dec_str(n as nat),
{
    let mut s = String::new();
    push_decimal(&mut s, n);
    assert(s@ =~= dec_str(n as nat));
    s
}

// ───────────────────────── Parsing unsigned integers ─────────────────────────

pub open spec fn is_digit(c: char) -> bool {
    '0' <= c && c <= '9'
}

pub open spec fn digit_value(c: char) -> nat {
    ((c as u32) - 48) as nat
}

pub open spec fn dec_value(s: Seq<char>) -> nat
    decreases s.len(),
{
    if s.len() == 0 {
        0
    } else {
        dec_value(s.drop_last()) * 10 + digit_value(s.last())
    }
}

/// The digits of an unsigned literal: a leading `+` is dropped when digits follow it.
pub open spec fn unsigned_digits(s: Seq<char>) -> Seq<char> {
    if s.len() > 1 && s[0] == '+' {
        s.drop_first()
    } else {
        s
    }
}

pub open spec fn all_digits(s: Seq<char>) -> bool {
    forall|i: int| 0 <= i < s.len() ==> is_digit(#[trigger] s[i])
}

/// `str::parse` for an unsigned integer type whose largest value is `max`.
pub open spec fn parse_unsigned(s: Seq<char>, max: nat) -> Option<nat> {
    let d = unsigned_digits(s);
    if d.len() > 0 && all_digits(d) && dec_value(d) <= max {
        Some(dec_value(d))
    } else {
        None
    }
}

proof fn lemma_dec_value_mono(d: Seq<char>, k: int)
    requires
        0 <= k <= d.len(),
        all_digits(d),
    ensures
        dec_value(d.take(k)) <= dec_value(d),
    decreases d.len() - k,
{
    if k < d.len() {
        lemma_dec_value_mono(d, k + 1);
        assert(d.take(k + 1).drop_last() =~= d.take(k));
    } else {
        assert(d.take(k) =~= d);
    }
}

/// Parses the digit sequence `v[from..to]` as a decimal value of at most `max`.
pub fn parse_decimal_range(v: &Vec<char>, from: usize, to: usize, max: u64) -> (r: Option<u64>)
    requires
        from <= to <= v.len(),
    ensures
        ({
            let d = v@.subrange(from as int, to as int);
            &&& r matches Some(x) ==> d.len() > 0 && all_digits(d) && dec_value(d) <= max && x
                == dec_value(d)
            &&& r is None ==> !(d.len() > 0 && all_digits(d) && dec_value(d) <= max)
        }),
{
    let ghost d = v@.subrange(from as int, to as int);
    if from == to {
        return None;
    }
    let mut acc: u64 = 0;
    let mut i = from;
    while i < to
        invariant
            from <= i <= to <= v.len(),
            d == v@.subrange(from as int, to as int),
            acc <= max,
            all_digits(d.take(i - from)),
            acc == dec_value(d.take(i - from)),
        decreases to - i,
    {
        let c = v[i];
        if !('0' <= c && c <= '9') {
            assert(d[i - from] == c);
            return None;
        }
        let dv = (c as u32 - 48) as u64;
        assert(d.take(i + 1 - from).drop_last() =~= d.take(i - from));
        assert(d.take(i + 1 - from).last() == c);
        if dv > max || acc > (max - dv) / 10 {
            proof {
                assert(acc * 10 + dv > max) by (nonlinear_arith)
                    requires
                        dv > max || acc > (max - dv) / 10,
                        dv < 10,
                ;
                if all_digits(d) {
                    lemma_dec_value_mono(d, i + 1 - from);
                }
            }
            return None;
        }
        assert(acc * 10 + dv <= max) by (nonlinear_arith)
            requires
                acc <= (max - dv) / 10,
                dv <= 9,
                acc <= max,
        ;
        acc = acc * 10 + dv;
        i += 1;
        assert forall|j: int| 0 <= j < i - from implies is_digit(#[trigger] d.take(i - from)[j]) by {
            if j < i - 1 - from {
                assert(d.take(i - from)[j] == d.take(i - 1 - from)[j]);
            }
        }
    }
    assert(d.take(to - from) =~= d);
    Some(acc)
}

/// `str::parse::<T>().ok()` for an unsigned `T` whose largest value is `max`.
pub fn parse_unsigned_chars(v: &Vec<char>, max: u64) -> (r: Option<u64>)
    ensures
        r matches Some(x) ==> parse_unsigned(v@, max as nat) == Some(x as nat),
        r is None ==> parse_unsigned(v@, max as nat) is None,
{
    let start: usize = if v.len() > 1 && v[0] == '+' {
        1
    } else {
        0
    };
    assert(v@.subrange(start as int, v.len() as int) =~= unsigned_digits(v@));
    parse_decimal_range(v, start, v.len(), max)
}

pub fn parse_u16(s: &str) -> (r: Option<u16>)
    ensures
        r matches Some(x) ==> parse_unsigned(s@, u16::MAX as nat) == Some(x as nat),
        r is None ==> parse_unsigned(s@, u16::MAX as nat) is None,
{
    let v = chars_of(s);
    match parse_unsigned_chars(&v, 65535) {
        Some(x) => Some(x as u16),
        None => None,
    }
}

pub fn parse_usize(s: &str) -> (r: Option<usize>)
    ensures
        r matches Some(x) ==> parse_unsigned(s@, usize::MAX as nat) == Some(x as nat),
        r is None ==> parse_unsigned(s@, usize::MAX as nat) is None,
{
    let v = chars_of(s);
    match parse_unsigned_chars(&v, usize::MAX as u64) {
        Some(x) => Some(x as usize),
        None => None,
    }
}

// ───────────────────────── Calls into std's text functions ─────────────────────────

/// Result of `String::from_utf8_lossy` on the given bytes.
pub uninterp spec fn utf8_lossy(b: Seq<u8>) -> Seq<char>;

/// `String::from_utf8_lossy`: decodes the bytes, replacing invalid sequences with U+FFFD.
/// Its documentation guarantees that valid UTF-8 is decoded unchanged; nothing more is
/// stated of invalid input.
#[verifier::external_body]
pub(crate) fn from_utf8_lossy(b: &[u8]) -> (s: String)
    ensures
        s@ == utf8_lossy(b@),
        vstd::utf8::valid_utf8(b@) ==> s@ == vstd::utf8::decode_utf8(b@),
{
    String::from_utf8_lossy(b).into_owned()
}

/// Result of `str::to_lowercase` (full Unicode lowercase mapping).
pub uninterp spec fn unicode_lower(s: Seq<char>) -> Seq<char>;

/// `str::to_lowercase`. For ASCII text this is ASCII lowercasing, as its documentation
/// states; other characters follow the Unicode tables, which are not stated here.
#[verifier::external_body]
pub(crate) fn unicode_lowercase(s: &str) -> (r: String)
    ensures
        r@ == unicode_lower(s@),
        vstd::utf8::is_ascii_chars(s@) ==> r@ == lower_seq(s@),
{
    s.to_lowercase()
}

pub open spec fn upper_seq(s: Seq<char>) -> Seq<char> {
    Seq::new(s.len(), |i: int| upper_char(s[i]))
}

/// Result of `str::to_uppercase` (full Unicode uppercase mapping).
pub uninterp spec fn unicode_upper(s: Seq<char>) -> Seq<char>;

/// `str::to_uppercase`. For ASCII text this is ASCII uppercasing, as its documentation
/// states; other characters follow the Unicode tables, which are not stated here.
#[verifier::external_body]
pub(crate) fn uppercase_text(s: &str) -> (r: String)
    ensures
        r@ == unicode_upper(s@),
        vstd::utf8::is_ascii_chars(s@) ==> r@ == upper_seq(s@),
{
    s.to_uppercase()
}

/// `String::from_utf8`: `Some` exactly for valid UTF-8, decoded.
#[verifier::external_body]
pub(crate) fn string_from_utf8(b: Vec<u8>) -> (r: Option<String>)
    ensures
        r is Some <==> vstd::utf8::valid_utf8(b@),
        r matches Some(s) ==> s@ == vstd::utf8::decode_utf8(b@),
{
    String::from_utf8(b).ok()
}

} // verus!
