use vstd::prelude::*;

verus! {

// ---------------------------------------------------------------------------
// Characters and strings as sequences
// ---------------------------------------------------------------------------

/// Relies on String::push: appends exactly the one character.
#[verifier::external_body]
pub(crate) fn push_char(s: &mut String, c: char)
    ensures
        final(s)@ == old(s)@ + seq![c],
{
    s.push(c)
}

/// The characters of a string slice, one element per char.
pub fn chars_of(s: &str) -> (v: Vec<char>)
    ensures
        v@ == s@,
{
    let n = s.unicode_len();
    let mut v: Vec<char> = Vec::new();
    let mut i: usize = 0;
    while i < n
        invariant
            n == s@.len(),
            i <= n,
            v@ == s@.subrange(0, i as int),
        decreases n - i,
    {
        v.push(s.get_char(i));
        i += 1;
        proof {
            assert(v@ =~= s@.subrange(0, i as int));
        }
    }
    proof {
        assert(v@ =~= s@);
    }
    v
}

/// A string holding exactly the given characters.
pub fn string_of(v: &Vec<char>) -> (s: String)
    ensures
        s@ == v@,
{
    let mut s = String::new();
    let mut i: usize = 0;
    while i < v.len()
        invariant
            i <= v@.len(),
            s@ == v@.subrange(0, i as int),
        decreases v@.len() - i,
    {
        push_char(&mut s, v[i]);
        i += 1;
        proof {
            assert(s@ =~= v@.subrange(0, i as int));
        }
    }
    proof {
        assert(s@ =~= v@);
    }
    s
}

/// Copy the characters of `v` between `a` and `b`.
pub fn copy_range(v: &Vec<char>, a: usize, b: usize) -> (r: Vec<char>)
    requires
        a <= b <= v@.len(),
    ensures
        r@ == v@.subrange(a as int, b as int),
{
    let mut r: Vec<char> = Vec::new();
    let mut i: usize = a;
    while i < b
        invariant
            a <= i <= b <= v@.len(),
            r@ == v@.subrange(a as int, i as int),
        decreases b - i,
    {
        r.push(v[i]);
        i += 1;
        proof {
            assert(r@ =~= v@.subrange(a as int, i as int));
        }
    }
    r
}

/// Append all characters of `other` to `out`.
pub fn extend_chars(out: &mut Vec<char>, other: &Vec<char>)
    ensures
        final(out)@ == old(out)@ + other@,
{
    let mut i: usize = 0;
    while i < other.len()
        invariant
            i <= other@.len(),
            out@ == old(out)@ + other@.subrange(0, i as int),
        decreases other@.len() - i,
    {
        out.push(other[i]);
        i += 1;
        proof {
            assert(out@ =~= old(out)@ + other@.subrange(0, i as int));
        }
    }
    proof {
        assert(old(out)@ + other@.subrange(0, other@.len() as int) =~= old(out)@ + other@);
    }
}

// ---------------------------------------------------------------------------
// Decimal rendering
// ---------------------------------------------------------------------------

pub open spec fn digit_char(d: nat) -> char {
    if d == 0 { '0' }
    else if d == 1 { '1' }
    else if d == 2 { '2' }
    else if d == 3 { '3' }
    else if d == 4 { '4' }
    else if d == 5 { '5' }
    else if d == 6 { '6' }
    else if d == 7 { '7' }
    else if d == 8 { '8' }
    else { '9' }
}

/// The usual decimal rendering of a natural number, most significant
/// digit first, no leading zeroes (except for zero itself).
pub open spec fn dec_rep(n: nat) -> Seq<char>
    decreases n,
{
    if n < 10 {
        seq![digit_char(n)]
    } else {
        dec_rep(n / 10) + seq![digit_char(n % 10)]
    }
}

fn dec_digit(d: u64) -> (c: char)
    requires
        d < 10,
    ensures
        c == digit_char(d as nat),
{
    if d == 0 { '0' }
    else if d == 1 { '1' }
    else if d == 2 { '2' }
    else if d == 3 { '3' }
    else if d == 4 { '4' }
    else if d == 5 { '5' }
    else if d == 6 { '6' }
    else if d == 7 { '7' }
    else if d == 8 { '8' }
    else { '9' }
}

/// The decimal digits of `n`.
pub fn dec_chars(n: u64) -> (v: Vec<char>)
    ensures
        v@ == dec_rep(n as nat),
    decreases n,
{
    if n < 10 {
        let mut v: Vec<char> = Vec::new();
        v.push(dec_digit(n));
        proof {
            assert(v@ =~= dec_rep(n as nat));
        }
        v
    } else {
        let mut v = dec_chars(n / 10);
        v.push(dec_digit(n % 10));
        proof {
            assert(v@ =~= dec_rep(n as nat));
        }
        v
    }
}

/// The decimal rendering of `n` as a string.
pub fn dec_string(n: u64) -> (s: String)
    ensures
        s@ == dec_rep(n as nat),
{
    let v = dec_chars(n);
    string_of(&v)
}

// ---------------------------------------------------------------------------
// Substring search
// ---------------------------------------------------------------------------

/// The pattern `p` occurs in `s` at position `i`.
pub open spec fn match_at(s: Seq<char>, p: Seq<char>, i: int) -> bool {
    0 <= i && i + p.len() <= s.len() && s.subrange(i, i + p.len() as int) == p
}

/// The pattern `p` occurs somewhere in `s`.
pub open spec fn contains_tok(s: Seq<char>, p: Seq<char>) -> bool {
    exists|i: int| match_at(s, p, i)
}

/// The least position at which `p` occurs in `s`; meaningful only when it
/// occurs at all.
pub open spec fn first_match(s: Seq<char>, p: Seq<char>) -> int
    decreases s.len(),
{
    if match_at(s, p, 0) {
        0
    } else if s.len() == 0 {
        0
    } else {
        1 + first_match(s.skip(1), p)
    }
}

pub proof fn lemma_match_shift(s: Seq<char>, p: Seq<char>, k: int, i: int)
    requires
        0 <= k <= s.len(),
    ensures
        match_at(s.skip(k), p, i) <==> match_at(s, p, i + k) && i >= 0,
{
    if 0 <= i && i + p.len() <= s.skip(k).len() {
        assert(s.skip(k).subrange(i, i + p.len() as int) =~= s.subrange(
            i + k,
            i + k + p.len() as int,
        ));
    }
}

pub proof fn lemma_not_contains_skip(s: Seq<char>, p: Seq<char>, k: int)
    requires
        !contains_tok(s, p),
        0 <= k <= s.len(),
    ensures
        !contains_tok(s.skip(k), p),
{
    assert forall|i: int| !match_at(s.skip(k), p, i) by {
        lemma_match_shift(s, p, k, i);
    }
}

/// When `p` occurs in `s`, `first_match` names its least occurrence.
pub proof fn lemma_first_match(s: Seq<char>, p: Seq<char>)
    requires
        contains_tok(s, p),
    ensures
        match_at(s, p, first_match(s, p)),
        forall|k: int| 0 <= k < first_match(s, p) ==> !match_at(s, p, k),
    decreases s.len(),
{
    if match_at(s, p, 0) {
    } else {
        assert(s.len() > 0) by {
            let i = choose|i: int| match_at(s, p, i);
            assert(i > 0 || p.len() > 0);
        }
        assert(contains_tok(s.skip(1), p)) by {
            let i = choose|i: int| match_at(s, p, i);
            assert(i >= 1);
            lemma_match_shift(s, p, 1, i - 1);
        }
        lemma_first_match(s.skip(1), p);
        let j = first_match(s.skip(1), p);
        lemma_match_shift(s, p, 1, j);
        assert(match_at(s, p, j + 1));
        assert forall|k: int| 0 <= k < j + 1 implies !match_at(s, p, k) by {
            if k > 0 {
                lemma_match_shift(s, p, 1, k - 1);
            }
        }
    }
}

/// A position that matches, below which nothing matches, is the first match.
pub proof fn lemma_first_match_unique(s: Seq<char>, p: Seq<char>, j: int)
    requires
        match_at(s, p, j),
        forall|k: int| 0 <= k < j ==> !match_at(s, p, k),
    ensures
        j == first_match(s, p),
{
    lemma_first_match(s, p);
    let f = first_match(s, p);
    if f < j {
        assert(match_at(s, p, f));
    }
}

/// Does `p` occur in `s` starting exactly at `i`?
pub fn eq_at(s: &Vec<char>, p: &Vec<char>, i: usize) -> (r: bool)
    requires
        i + p@.len() <= s@.len(),
    ensures
        r == match_at(s@, p@, i as int),
{
    let n = p.len();
    let slen = s.len();
    let mut k: usize = 0;
    while k < n
        invariant
            n == p@.len(),
            slen == s@.len(),
            i + n <= slen,
            k <= n,
            forall|m: int| 0 <= m < k ==> s@[i + m] == p@[m],
        decreases p@.len() - k,
    {
        if s[i + k] != p[k] {
            proof {
                assert(s@.subrange(i as int, i + p@.len() as int)[k as int] == s@[i + k]);
                assert(s@.subrange(i as int, i + p@.len() as int) != p@);
            }
            return false;
        }
        k += 1;
    }
    proof {
        assert(s@.subrange(i as int, i + p@.len() as int) =~= p@);
    }
    true
}

/// The first occurrence of `p` in `s` at or after `from`, as an offset into
/// the suffix that starts at `from`.
pub fn find_tok_from(s: &Vec<char>, p: &Vec<char>, from: usize) -> (r: Option<usize>)
    requires
        p@.len() >= 1,
        from <= s@.len(),
    ensures
        match r {
            Some(j) => {
                &&& contains_tok(s@.skip(from as int), p@)
                &&& j == first_match(s@.skip(from as int), p@)
                &&& from + j + p@.len() <= s@.len()
            },
            None => !contains_tok(s@.skip(from as int), p@),
        },
{
    if s.len() < p.len() || from > s.len() - p.len() {
        proof {
            assert forall|i: int| !match_at(s@.skip(from as int), p@, i) by {}
        }
        return None;
    }
    let n = p.len();
    let slen = s.len();
    let mut k: usize = from;
    while k <= slen - n
        invariant
            n == p@.len(),
            slen == s@.len(),
            n >= 1,
            n <= slen,
            from <= k,
            k <= slen - n + 1,
            forall|m: int| 0 <= m < k - from ==> !match_at(s@.skip(from as int), p@, m),
        decreases s@.len() - k,
    {
        if eq_at(s, p, k) {
            proof {
                lemma_match_shift(s@, p@, from as int, k - from);
                lemma_first_match_unique(s@.skip(from as int), p@, k - from);
            }
            return Some(k - from);
        }
        proof {
            lemma_match_shift(s@, p@, from as int, k - from);
        }
        k += 1;
    }
    proof {
        assert forall|i: int| !match_at(s@.skip(from as int), p@, i) by {
            lemma_match_shift(s@, p@, from as int, i);
        }
    }
    None
}

// ---------------------------------------------------------------------------
// Lexicographic order on character sequences (by code point)
// ---------------------------------------------------------------------------

pub open spec fn lex_le(a: Seq<char>, b: Seq<char>) -> bool
    decreases a.len(),
{
    if a.len() == 0 {
        true
    } else if b.len() == 0 {
        false
    } else if a[0] != b[0] {
        (a[0] as u32) < (b[0] as u32)
    } else {
        lex_le(a.skip(1), b.skip(1))
    }
}

pub proof fn lemma_lex_le_total(a: Seq<char>, b: Seq<char>)
    ensures
        lex_le(a, b) || lex_le(b, a),
    decreases a.len(),
{
    if a.len() > 0 && b.len() > 0 {
        if a[0] == b[0] {
            lemma_lex_le_total(a.skip(1), b.skip(1));
        } else {
            vstd::utf8::char_u32_cast(a[0], a[0] as u32);
            vstd::utf8::char_u32_cast(b[0], b[0] as u32);
        }
    }
}

pub proof fn lemma_lex_le_refl(a: Seq<char>)
    ensures
        lex_le(a, a),
    decreases a.len(),
{
    if a.len() > 0 {
        lemma_lex_le_refl(a.skip(1));
    }
}

pub proof fn lemma_lex_le_trans(a: Seq<char>, b: Seq<char>, c: Seq<char>)
    requires
        lex_le(a, b),
        lex_le(b, c),
    ensures
        lex_le(a, c),
    decreases a.len(),
{
    if a.len() > 0 && b.len() > 0 && c.len() > 0 && a[0] == b[0] && b[0] == c[0] {
        lemma_lex_le_trans(a.skip(1), b.skip(1), c.skip(1));
    }
}

/// Compare two strings by code point, `a <= b`.
pub fn str_lex_le(a: &str, b: &str) -> (r: bool)
    ensures
        r == lex_le(a@, b@),
{
    let av = chars_of(a);
    let bv = chars_of(b);
    let mut i: usize = 0;
    proof {
        assert(a@.skip(0) =~= a@);
        assert(b@.skip(0) =~= b@);
    }
    loop
        invariant
            av@ == a@,
            bv@ == b@,
            i <= a@.len(),
            i <= b@.len(),
            forall|m: int| 0 <= m < i ==> a@[m] == b@[m],
            lex_le(a@, b@) == lex_le(a@.skip(i as int), b@.skip(i as int)),
        decreases a@.len() - i,
    {
        if i >= av.len() {
            return true;
        }
        if i >= bv.len() {
            return false;
        }
        if av[i] != bv[i] {
            #[verifier::truncate]
            let ca = av[i] as u32;
            #[verifier::truncate]
            let cb = bv[i] as u32;
            return ca < cb;
        }
        proof {
            assert(a@.skip(i as int).skip(1) =~= a@.skip(i + 1));
            assert(b@.skip(i as int).skip(1) =~= b@.skip(i + 1));
        }
        i += 1;
    }
}

// ---------------------------------------------------------------------------
// Whitespace
// ---------------------------------------------------------------------------

/// Whitespace as the wiki rules understand it.
pub open spec fn is_wiki_ws(c: char) -> bool {
    c == ' ' || c == '\t' || c == '\n' || c == '\r'
}

/// Whitespace that cannot end a line.
pub open spec fn is_line_ws(c: char) -> bool {
    c == ' ' || c == '\t'
}

pub fn wiki_ws(c: char) -> (r: bool)
    ensures
        r == is_wiki_ws(c),
{
    c == ' ' || c == '\t' || c == '\n' || c == '\r'
}

pub fn line_ws(c: char) -> (r: bool)
    ensures
        r == is_line_ws(c),
{
    c == ' ' || c == '\t'
}

/// How many leading characters of `s` satisfy `is_line_ws`.
pub open spec fn line_ws_len(s: Seq<char>) -> nat
    decreases s.len(),
{
    if s.len() > 0 && is_line_ws(s[0]) {
        1 + line_ws_len(s.skip(1))
    } else {
        0
    }
}

pub proof fn lemma_line_ws_len(s: Seq<char>)
    ensures
        line_ws_len(s) <= s.len(),
        forall|m: int| 0 <= m < line_ws_len(s) ==> is_line_ws(s[m]),
        line_ws_len(s) < s.len() ==> !is_line_ws(s[line_ws_len(s) as int]),
    decreases s.len(),
{
    if s.len() > 0 && is_line_ws(s[0]) {
        lemma_line_ws_len(s.skip(1));
        assert forall|m: int| 0 <= m < line_ws_len(s) implies is_line_ws(s[m]) by {
            if m > 0 {
                assert(s.skip(1)[m - 1] == s[m]);
            }
        }
    }
}

/// Count the line whitespace starting at `from`.
pub fn count_line_ws(s: &Vec<char>, from: usize) -> (n: usize)
    requires
        from <= s@.len(),
    ensures
        n == line_ws_len(s@.skip(from as int)),
        from + n <= s@.len(),
{
    let mut k: usize = from;
    proof {
        assert(s@.skip(from as int).skip(0) =~= s@.skip(from as int));
    }
    while k < s.len() && line_ws(s[k])
        invariant
            from <= k <= s@.len(),
            line_ws_len(s@.skip(from as int)) == (k - from) + line_ws_len(s@.skip(k as int)),
        decreases s@.len() - k,
    {
        proof {
            assert(s@.skip(k as int).skip(1) =~= s@.skip(k + 1));
        }
        k += 1;
    }
    k - from
}

/// How many leading characters of `s` satisfy `is_wiki_ws`.
pub open spec fn wiki_ws_len(s: Seq<char>) -> nat
    decreases s.len(),
{
    if s.len() > 0 && is_wiki_ws(s[0]) {
        1 + wiki_ws_len(s.skip(1))
    } else {
        0
    }
}

pub proof fn lemma_wiki_ws_len(s: Seq<char>)
    ensures
        wiki_ws_len(s) <= s.len(),
    decreases s.len(),
{
    if s.len() > 0 && is_wiki_ws(s[0]) {
        lemma_wiki_ws_len(s.skip(1));
    }
}

/// `s` with leading wiki whitespace removed.
pub open spec fn trim_start_ws(s: Seq<char>) -> Seq<char>
    decreases s.len(),
{
    if s.len() > 0 && is_wiki_ws(s[0]) {
        trim_start_ws(s.skip(1))
    } else {
        s
    }
}

/// `s` with trailing wiki whitespace removed.
pub open spec fn trim_end_ws(s: Seq<char>) -> Seq<char>
    decreases s.len(),
{
    if s.len() > 0 && is_wiki_ws(s[s.len() - 1]) {
        trim_end_ws(s.take(s.len() - 1))
    } else {
        s
    }
}

/// `s` with wiki whitespace removed from both ends.
pub open spec fn trim_ws(s: Seq<char>) -> Seq<char> {
    trim_end_ws(trim_start_ws(s))
}

proof fn lemma_trim_start_skip(s: Seq<char>)
    ensures
        trim_start_ws(s) == s.skip(wiki_ws_len(s) as int),
    decreases s.len(),
{
    if s.len() > 0 && is_wiki_ws(s[0]) {
        lemma_trim_start_skip(s.skip(1));
        lemma_wiki_ws_len(s.skip(1));
        assert(s.skip(1).skip(wiki_ws_len(s.skip(1)) as int) =~= s.skip(
            1 + wiki_ws_len(s.skip(1)) as int,
        ));
    } else {
        assert(s.skip(0) =~= s);
    }
}

proof fn lemma_trim_end_take(s: Seq<char>, b: int)
    requires
        0 <= b <= s.len(),
        forall|m: int| b <= m < s.len() ==> is_wiki_ws(s[m]),
        b > 0 ==> !is_wiki_ws(s[b - 1]),
    ensures
        trim_end_ws(s) == s.take(b),
    decreases s.len(),
{
    if s.len() > 0 && is_wiki_ws(s[s.len() - 1]) {
        assert(b < s.len());
        lemma_trim_end_take(s.take(s.len() - 1), b);
        assert(s.take(s.len() - 1).take(b) =~= s.take(b));
    } else {
        assert(b == s.len());
        assert(s.take(b) =~= s);
    }
}

/// The part of `s` between whitespace margins.
pub fn trim_chars(s: &Vec<char>) -> (r: Vec<char>)
    ensures
        r@ == trim_ws(s@),
{
    let mut a: usize = 0;
    proof {
        assert(s@.skip(0) =~= s@);
    }
    while a < s.len() && wiki_ws(s[a])
        invariant
            a <= s@.len(),
            wiki_ws_len(s@) == a + wiki_ws_len(s@.skip(a as int)),
        decreases s@.len() - a,
    {
        proof {
            assert(s@.skip(a as int).skip(1) =~= s@.skip(a + 1));
        }
        a += 1;
    }
    proof {
        lemma_trim_start_skip(s@);
        assert(wiki_ws_len(s@) == a);
    }
    let mut b: usize = s.len();
    while b > a && wiki_ws(s[b - 1])
        invariant
            a <= b <= s@.len(),
            forall|m: int| b <= m < s@.len() ==> is_wiki_ws(s@[m]),
        decreases b,
    {
        b -= 1;
    }
    let mut r: Vec<char> = Vec::new();
    let mut i: usize = a;
    while i < b
        invariant
            a <= i <= b <= s@.len(),
            r@ == s@.subrange(a as int, i as int),
        decreases b - i,
    {
        r.push(s[i]);
        i += 1;
        proof {
            assert(r@ =~= s@.subrange(a as int, i as int));
        }
    }
    proof {
        let t = s@.skip(a as int);
        assert(trim_start_ws(s@) == t);
        if b > a {
            assert(!is_wiki_ws(s@[b - 1]));
        }
        assert forall|m: int| (b - a) <= m < t.len() implies is_wiki_ws(t[m]) by {
            assert(t[m] == s@[m + a]);
        }
        if b > a {
            assert(t[b - a - 1] == s@[b - 1]);
        }
        lemma_trim_end_take(t, b - a);
        assert(t.take(b - a) =~= s@.subrange(a as int, b as int));
    }
    r
}

} // verus!
