use vstd::prelude::*;

use crate::strutil::{
    chars_of, contains_tok, copy_range, count_line_ws, eq_at, extend_chars, find_tok_from,
    first_match, is_line_ws, lemma_first_match, lemma_line_ws_len, lemma_match_shift,
    lemma_not_contains_skip, line_ws, line_ws_len, match_at, string_of, trim_chars, trim_ws,
};

verus! {

// ---------------------------------------------------------------------------
// The wiki tokens
// ---------------------------------------------------------------------------

pub open spec fn tok_open_braces() -> Seq<char> {
    seq!['{', '{']
}

pub open spec fn tok_close_braces() -> Seq<char> {
    seq!['}', '}']
}

pub open spec fn tok_close_brackets() -> Seq<char> {
    seq![']', ']']
}

pub open spec fn tok_color_open() -> Seq<char> {
    seq!['{', 'c', 'o', 'l', 'o', 'r', ':']
}

pub open spec fn tok_color_close() -> Seq<char> {
    seq!['{', 'c', 'o', 'l', 'o', 'r', '}']
}

pub open spec fn tok_quote() -> Seq<char> {
    seq!['{', 'q', 'u', 'o', 't', 'e', '}']
}

pub open spec fn tok_close_brace() -> Seq<char> {
    seq!['}']
}

// ---------------------------------------------------------------------------
// Line-start markers: headings and bullets
// ---------------------------------------------------------------------------

/// Which line-start marker stands at the head of `s`: 1..3 for the three
/// heading levels (`h1.`..`h3.` followed by blank space), 4 for a bullet
/// (`*` followed by blank space), 0 for none.
pub open spec fn marker_kind(s: Seq<char>) -> int {
    if s.len() >= 4 && s[0] == 'h' && s[1] == '1' && s[2] == '.' && is_line_ws(s[3]) {
        1
    } else if s.len() >= 4 && s[0] == 'h' && s[1] == '2' && s[2] == '.' && is_line_ws(s[3]) {
        2
    } else if s.len() >= 4 && s[0] == 'h' && s[1] == '3' && s[2] == '.' && is_line_ws(s[3]) {
        3
    } else if s.len() >= 2 && s[0] == '*' && is_line_ws(s[1]) {
        4
    } else {
        0
    }
}

/// What a marker is rewritten to.
pub open spec fn marker_rep(k: int) -> Seq<char> {
    if k == 1 {
        seq!['#', ' ']
    } else if k == 2 {
        seq!['#', '#', ' ']
    } else if k == 3 {
        seq!['#', '#', '#', ' ']
    } else {
        seq!['-', ' ']
    }
}

/// How many characters the marker itself takes, before the blank space
/// that follows it.
pub open spec fn marker_base(k: int) -> int {
    if k == 4 {
        1
    } else {
        3
    }
}

/// First rule group: at the start of a line, a heading marker becomes the
/// matching markdown heading and a bullet marker becomes `- `; the marker
/// and the blank space after it are consumed.
pub open spec fn conv_line_markers(s: Seq<char>, bol: bool) -> Seq<char>
    decreases s.len(),
    via conv_line_markers_dec
{
    if s.len() == 0 {
        s
    } else if bol && marker_kind(s) != 0 {
        let k = marker_kind(s);
        let base = marker_base(k);
        let w = line_ws_len(s.skip(base)) as int;
        marker_rep(k) + conv_line_markers(s.skip(base + w), false)
    } else {
        seq![s[0]] + conv_line_markers(s.skip(1), s[0] == '\n')
    }
}

#[via_fn]
proof fn conv_line_markers_dec(s: Seq<char>, bol: bool) {
    if s.len() > 0 && bol && marker_kind(s) != 0 {
        lemma_line_ws_len(s.skip(marker_base(marker_kind(s))));
    }
}

// ---------------------------------------------------------------------------
// Inline code spans, bracket links, colour spans
// ---------------------------------------------------------------------------

/// Second rule: a double-brace span becomes a backtick span with the
/// interior whitespace trimmed; the closing pair is the nearest one.
/// An unclosed opener is left for the later flattening rules.
pub open spec fn conv_code(s: Seq<char>) -> Seq<char>
    decreases s.len(),
    via conv_code_dec
{
    if s.len() < 2 {
        s
    } else if s[0] == '{' && s[1] == '{' && contains_tok(s.skip(2), tok_close_braces()) {
        let j = first_match(s.skip(2), tok_close_braces());
        seq!['`'] + trim_ws(s.skip(2).take(j)) + seq!['`'] + conv_code(s.skip(2).skip(j + 2))
    } else {
        seq![s[0]] + conv_code(s.skip(1))
    }
}

#[via_fn]
proof fn conv_code_dec(s: Seq<char>) {
    if s.len() >= 2 && s[0] == '{' && s[1] == '{' && contains_tok(s.skip(2), tok_close_braces()) {
        lemma_first_match(s.skip(2), tok_close_braces());
    }
}

/// Third rule: a double-bracket link keeps its text and loses the
/// brackets; the closing pair is the nearest one.
pub open spec fn conv_links(s: Seq<char>) -> Seq<char>
    decreases s.len(),
    via conv_links_dec
{
    if s.len() < 2 {
        s
    } else if s[0] == '[' && s[1] == '[' && contains_tok(s.skip(2), tok_close_brackets()) {
        let j = first_match(s.skip(2), tok_close_brackets());
        s.skip(2).take(j) + conv_links(s.skip(2).skip(j + 2))
    } else {
        seq![s[0]] + conv_links(s.skip(1))
    }
}

#[via_fn]
proof fn conv_links_dec(s: Seq<char>) {
    if s.len() >= 2 && s[0] == '[' && s[1] == '[' && contains_tok(s.skip(2), tok_close_brackets()) {
        lemma_first_match(s.skip(2), tok_close_brackets());
    }
}

/// Fourth rule: a colour-open marker `{color:...}` disappears through its
/// nearest closing brace; an opener with no closing brace stays as it is.
pub open spec fn conv_color(s: Seq<char>) -> Seq<char>
    decreases s.len(),
    via conv_color_dec
{
    if s.len() == 0 {
        s
    } else if match_at(s, tok_color_open(), 0) && contains_tok(s.skip(7), tok_close_brace()) {
        let j = first_match(s.skip(7), tok_close_brace());
        conv_color(s.skip(7).skip(j + 1))
    } else {
        seq![s[0]] + conv_color(s.skip(1))
    }
}

#[via_fn]
proof fn conv_color_dec(s: Seq<char>) {
    if s.len() > 0 && match_at(s, tok_color_open(), 0) && contains_tok(
        s.skip(7),
        tok_close_brace(),
    ) {
        lemma_first_match(s.skip(7), tok_close_brace());
    }
}

/// Remove every occurrence of a literal token.
pub open spec fn strip_tok(s: Seq<char>, p: Seq<char>) -> Seq<char>
    decreases s.len(),
{
    if s.len() == 0 {
        s
    } else if p.len() > 0 && match_at(s, p, 0) {
        strip_tok(s.skip(p.len() as int), p)
    } else {
        seq![s[0]] + strip_tok(s.skip(1), p)
    }
}

// ---------------------------------------------------------------------------
// The whole conversion
// ---------------------------------------------------------------------------

/// The ordered substitution pipeline: headings and bullets, inline code,
/// bracket links, colour spans, then flattening of the leftover literal
/// markers (`{color}`, `{quote}`, stray `{{` and `}}`).
pub open spec fn wiki_to_md(s: Seq<char>) -> Seq<char> {
    let s1 = conv_line_markers(s, true);
    let s2 = conv_code(s1);
    let s3 = conv_links(s2);
    let s4 = conv_color(s3);
    let s5 = strip_tok(s4, tok_color_close());
    let s6 = strip_tok(s5, tok_quote());
    let s7 = strip_tok(s6, tok_open_braces());
    strip_tok(s7, tok_close_braces())
}

// ---------------------------------------------------------------------------
// What counts as remaining wiki markup, and idempotence
// ---------------------------------------------------------------------------

/// A line-start marker occurs somewhere in `s` (reading `bol` as whether
/// `s` begins a line).
pub open spec fn has_line_marker_tok(s: Seq<char>, bol: bool) -> bool
    decreases s.len(),
{
    if s.len() == 0 {
        false
    } else if bol && marker_kind(s) != 0 {
        true
    } else {
        has_line_marker_tok(s.skip(1), s[0] == '\n')
    }
}

/// A closable double-bracket link occurs somewhere in `s`.
pub open spec fn has_link_tok(s: Seq<char>) -> bool
    decreases s.len(),
{
    if s.len() < 2 {
        false
    } else if s[0] == '[' && s[1] == '[' && contains_tok(s.skip(2), tok_close_brackets()) {
        true
    } else {
        has_link_tok(s.skip(1))
    }
}

/// A closable colour-open marker occurs somewhere in `s`.
pub open spec fn has_color_tok(s: Seq<char>) -> bool
    decreases s.len(),
{
    if s.len() == 0 {
        false
    } else if match_at(s, tok_color_open(), 0) && contains_tok(s.skip(7), tok_close_brace()) {
        true
    } else {
        has_color_tok(s.skip(1))
    }
}

/// Any token that some rule of the pipeline would still rewrite.
pub open spec fn has_wiki_markup(s: Seq<char>) -> bool {
    ||| has_line_marker_tok(s, true)
    ||| contains_tok(s, tok_open_braces())
    ||| contains_tok(s, tok_close_braces())
    ||| has_link_tok(s)
    ||| has_color_tok(s)
    ||| contains_tok(s, tok_color_close())
    ||| contains_tok(s, tok_quote())
}

proof fn lemma_markers_id(s: Seq<char>, bol: bool)
    requires
        !has_line_marker_tok(s, bol),
    ensures
        conv_line_markers(s, bol) == s,
    decreases s.len(),
{
    if s.len() > 0 {
        lemma_markers_id(s.skip(1), s[0] == '\n');
        assert(seq![s[0]] + s.skip(1) =~= s);
    }
}

proof fn lemma_code_id(s: Seq<char>)
    requires
        !contains_tok(s, tok_open_braces()),
    ensures
        conv_code(s) == s,
    decreases s.len(),
{
    if s.len() >= 2 {
        if s[0] == '{' && s[1] == '{' {
            assert(s.subrange(0, 2) =~= tok_open_braces());
            assert(match_at(s, tok_open_braces(), 0));
        }
        lemma_not_contains_skip(s, tok_open_braces(), 1);
        lemma_code_id(s.skip(1));
        assert(seq![s[0]] + s.skip(1) =~= s);
    }
}

proof fn lemma_links_id(s: Seq<char>)
    requires
        !has_link_tok(s),
    ensures
        conv_links(s) == s,
    decreases s.len(),
{
    if s.len() >= 2 {
        lemma_links_id(s.skip(1));
        assert(seq![s[0]] + s.skip(1) =~= s);
    } else if s.len() == 1 {
        assert(conv_links(s) == s);
    }
}

proof fn lemma_color_id(s: Seq<char>)
    requires
        !has_color_tok(s),
    ensures
        conv_color(s) == s,
    decreases s.len(),
{
    if s.len() > 0 {
        lemma_color_id(s.skip(1));
        assert(seq![s[0]] + s.skip(1) =~= s);
    }
}

proof fn lemma_strip_id(s: Seq<char>, p: Seq<char>)
    requires
        !contains_tok(s, p),
        p.len() > 0,
    ensures
        strip_tok(s, p) == s,
    decreases s.len(),
{
    if s.len() > 0 {
        lemma_not_contains_skip(s, p, 1);
        lemma_strip_id(s.skip(1), p);
        assert(seq![s[0]] + s.skip(1) =~= s);
    }
}

// ---------------------------------------------------------------------------
// The executable passes
// ---------------------------------------------------------------------------

/// The marker kind standing at position `i`, as `marker_kind` sees it.
fn marker_kind_at(v: &Vec<char>, i: usize) -> (k: u8)
    requires
        i <= v@.len(),
    ensures
        k as int == marker_kind(v@.skip(i as int)),
{
    let n = v.len();
    proof {
        assert forall|m: int| 0 <= m < n - i implies v@.skip(i as int)[m] == v@[i + m] by {}
    }
    if n - i >= 4 && v[i] == 'h' && v[i + 2] == '.' && line_ws(v[i + 3]) {
        if v[i + 1] == '1' {
            return 1;
        }
        if v[i + 1] == '2' {
            return 2;
        }
        if v[i + 1] == '3' {
            return 3;
        }
    }
    if n - i >= 2 && v[i] == '*' && line_ws(v[i + 1]) {
        return 4;
    }
    0
}

#[verifier::loop_isolation(false)]
fn pass_line_markers(v: &Vec<char>) -> (out: Vec<char>)
    ensures
        out@ == conv_line_markers(v@, true),
{
    let mut out: Vec<char> = Vec::new();
    let mut i: usize = 0;
    let mut bol = true;
    proof {
        assert(v@.skip(0) =~= v@);
    }
    while i < v.len()
        invariant
            i <= v@.len(),
            conv_line_markers(v@, true) == out@ + conv_line_markers(v@.skip(i as int), bol),
        decreases v@.len() - i,
    {
        let ghost sfx = v@.skip(i as int);
        let k = if bol {
            marker_kind_at(v, i)
        } else {
            0
        };
        if k != 0 {
            let ghost outp = out@;
            if k == 1 {
                out.push('#');
                out.push(' ');
            } else if k == 2 {
                out.push('#');
                out.push('#');
                out.push(' ');
            } else if k == 3 {
                out.push('#');
                out.push('#');
                out.push('#');
                out.push(' ');
            } else {
                out.push('-');
                out.push(' ');
            }
            proof {
                assert(out@ =~= outp + marker_rep(k as int));
            }
            let base: usize = if k == 4 {
                1
            } else {
                3
            };
            let w = count_line_ws(v, i + base);
            proof {
                assert(v@.skip((i + base) as int) =~= sfx.skip(base as int));
                assert(sfx.skip(base as int).skip(line_ws_len(sfx.skip(base as int)) as int)
                    =~= sfx.skip(base + line_ws_len(sfx.skip(base as int))));
                assert(v@.skip((i + base + w) as int) =~= sfx.skip(
                    base + line_ws_len(sfx.skip(base as int)),
                ));
            }
            i = i + base + w;
            bol = false;
        } else {
            let c = v[i];
            out.push(c);
            proof {
                assert(sfx[0] == c);
                assert(out@ =~= (out@.drop_last() + seq![c]));
                assert(v@.skip(i + 1) =~= sfx.skip(1));
            }
            i = i + 1;
            bol = c == '\n';
        }
    }
    proof {
        assert(v@.skip(i as int).len() == 0);
        assert(conv_line_markers(v@.skip(i as int), bol) =~= Seq::<char>::empty());
        assert(out@ + Seq::<char>::empty() =~= out@);
    }
    out
}

#[verifier::loop_isolation(false)]
#[verifier::rlimit(60)]
fn pass_code(v: &Vec<char>) -> (out: Vec<char>)
    ensures
        out@ == conv_code(v@),
{
    let close: Vec<char> = vec!['}', '}'];
    proof {
        assert(close@ =~= tok_close_braces());
        assert(v@.skip(0) =~= v@);
    }
    let mut out: Vec<char> = Vec::new();
    let mut i: usize = 0;
    while i < v.len()
        invariant
            i <= v@.len(),
            close@ == tok_close_braces(),
            conv_code(v@) == out@ + conv_code(v@.skip(i as int)),
        decreases v@.len() - i,
    {
        let ghost sfx = v@.skip(i as int);
        proof {
            assert forall|m: int| 0 <= m < sfx.len() implies sfx[m] == v@[i + m] by {}
        }
        if v.len() - i >= 2 && v[i] == '{' && v[i + 1] == '{' {
            match find_tok_from(v, &close, i + 2) {
                Some(j) => {
                    proof {
                        assert(v@.skip((i + 2) as int) =~= sfx.skip(2));
                        lemma_first_match(sfx.skip(2), tok_close_braces());
                    }
                    let interior = copy_range(v, i + 2, i + 2 + j);
                    proof {
                        assert(interior@ =~= sfx.skip(2).take(j as int));
                    }
                    let trimmed = trim_chars(&interior);
                    let ghost outp = out@;
                    out.push('`');
                    extend_chars(&mut out, &trimmed);
                    out.push('`');
                    proof {
                        assert(out@ =~= outp + seq!['`'] + trim_ws(sfx.skip(2).take(j as int))
                            + seq!['`']);
                        assert(v@.skip((i + 2 + j + 2) as int) =~= sfx.skip(2).skip(j + 2));
                        assert(outp + (seq!['`'] + trim_ws(sfx.skip(2).take(j as int)) + seq!['`']
                            + conv_code(sfx.skip(2).skip(j + 2))) =~= out@ + conv_code(
                            sfx.skip(2).skip(j + 2),
                        ));
                    }
                    i = i + 2 + j + 2;
                },
                None => {
                    proof {
                        assert(v@.skip((i + 2) as int) =~= sfx.skip(2));
                        assert(v@.skip(i + 1) =~= sfx.skip(1));
                        assert(out@ + (seq![sfx[0]] + conv_code(sfx.skip(1))) =~= (out@
                            + seq![sfx[0]]) + conv_code(sfx.skip(1)));
                    }
                    let c = v[i];
                    out.push(c);
                    i = i + 1;
                },
            }
        } else {
            proof {
                if sfx.len() >= 2 && sfx[0] == '{' && sfx[1] == '{' {
                    assert(false);
                }
                assert(v@.skip(i + 1) =~= sfx.skip(1));
                if sfx.len() == 1 {
                    assert(conv_code(sfx) == sfx);
                    assert(sfx =~= seq![sfx[0]] + sfx.skip(1));
                }
                assert(out@ + (seq![sfx[0]] + conv_code(sfx.skip(1))) =~= (out@ + seq![sfx[0]])
                    + conv_code(sfx.skip(1)));
            }
            let c = v[i];
            out.push(c);
            i = i + 1;
        }
    }
    proof {
        assert(v@.skip(i as int).len() == 0);
        assert(out@ + conv_code(v@.skip(i as int)) =~= out@);
    }
    out
}

#[verifier::loop_isolation(false)]
#[verifier::rlimit(60)]
fn pass_links(v: &Vec<char>) -> (out: Vec<char>)
    ensures
        out@ == conv_links(v@),
{
    let close: Vec<char> = vec![']', ']'];
    proof {
        assert(close@ =~= tok_close_brackets());
        assert(v@.skip(0) =~= v@);
    }
    let mut out: Vec<char> = Vec::new();
    let mut i: usize = 0;
    while i < v.len()
        invariant
            i <= v@.len(),
            close@ == tok_close_brackets(),
            conv_links(v@) == out@ + conv_links(v@.skip(i as int)),
        decreases v@.len() - i,
    {
        let ghost sfx = v@.skip(i as int);
        proof {
            assert forall|m: int| 0 <= m < sfx.len() implies sfx[m] == v@[i + m] by {}
        }
        if v.len() - i >= 2 && v[i] == '[' && v[i + 1] == '[' {
            match find_tok_from(v, &close, i + 2) {
                Some(j) => {
                    proof {
                        assert(v@.skip((i + 2) as int) =~= sfx.skip(2));
                        lemma_first_match(sfx.skip(2), tok_close_brackets());
                    }
                    let interior = copy_range(v, i + 2, i + 2 + j);
                    let ghost outp = out@;
                    extend_chars(&mut out, &interior);
                    proof {
                        assert(interior@ =~= sfx.skip(2).take(j as int));
                        assert(v@.skip((i + 2 + j + 2) as int) =~= sfx.skip(2).skip(j + 2));
                        assert(outp + (sfx.skip(2).take(j as int) + conv_links(
                            sfx.skip(2).skip(j + 2),
                        )) =~= out@ + conv_links(sfx.skip(2).skip(j + 2)));
                    }
                    i = i + 2 + j + 2;
                },
                None => {
                    proof {
                        assert(v@.skip((i + 2) as int) =~= sfx.skip(2));
                        assert(v@.skip(i + 1) =~= sfx.skip(1));
                        assert(out@ + (seq![sfx[0]] + conv_links(sfx.skip(1))) =~= (out@
                            + seq![sfx[0]]) + conv_links(sfx.skip(1)));
                    }
                    let c = v[i];
                    out.push(c);
                    i = i + 1;
                },
            }
        } else {
            proof {
                if sfx.len() >= 2 && sfx[0] == '[' && sfx[1] == '[' {
                    assert(false);
                }
                assert(v@.skip(i + 1) =~= sfx.skip(1));
                if sfx.len() == 1 {
                    assert(conv_links(sfx) == sfx);
                    assert(sfx =~= seq![sfx[0]] + sfx.skip(1));
                }
                assert(out@ + (seq![sfx[0]] + conv_links(sfx.skip(1))) =~= (out@ + seq![sfx[0]])
                    + conv_links(sfx.skip(1)));
            }
            let c = v[i];
            out.push(c);
            i = i + 1;
        }
    }
    proof {
        assert(v@.skip(i as int).len() == 0);
        assert(out@ + conv_links(v@.skip(i as int)) =~= out@);
    }
    out
}

#[verifier::loop_isolation(false)]
fn pass_color(v: &Vec<char>) -> (out: Vec<char>)
    ensures
        out@ == conv_color(v@),
{
    let open: Vec<char> = vec!['{', 'c', 'o', 'l', 'o', 'r', ':'];
    let close: Vec<char> = vec!['}'];
    proof {
        assert(open@ =~= tok_color_open());
        assert(close@ =~= tok_close_brace());
        assert(v@.skip(0) =~= v@);
    }
    let mut out: Vec<char> = Vec::new();
    let mut i: usize = 0;
    while i < v.len()
        invariant
            i <= v@.len(),
            open@ == tok_color_open(),
            close@ == tok_close_brace(),
            conv_color(v@) == out@ + conv_color(v@.skip(i as int)),
        decreases v@.len() - i,
    {
        let ghost sfx = v@.skip(i as int);
        proof {
            assert forall|m: int| 0 <= m < sfx.len() implies sfx[m] == v@[i + m] by {}
        }
        let is_open = if v.len() - i >= 7 {
            let r = eq_at(v, &open, i);
            proof {
                lemma_match_shift(v@, tok_color_open(), i as int, 0);
            }
            r
        } else {
            false
        };
        if is_open {
            match find_tok_from(v, &close, i + 7) {
                Some(j) => {
                    proof {
                        assert(v@.skip((i + 7) as int) =~= sfx.skip(7));
                        lemma_first_match(sfx.skip(7), tok_close_brace());
                        assert(v@.skip((i + 7 + j + 1) as int) =~= sfx.skip(7).skip(j + 1));
                    }
                    i = i + 7 + j + 1;
                },
                None => {
                    proof {
                        assert(v@.skip((i + 7) as int) =~= sfx.skip(7));
                        assert(v@.skip(i + 1) =~= sfx.skip(1));
                        assert(out@ + (seq![sfx[0]] + conv_color(sfx.skip(1))) =~= (out@
                            + seq![sfx[0]]) + conv_color(sfx.skip(1)));
                    }
                    let c = v[i];
                    out.push(c);
                    i = i + 1;
                },
            }
        } else {
            proof {
                if match_at(sfx, tok_color_open(), 0) {
                    lemma_match_shift(v@, tok_color_open(), i as int, 0);
                    assert(false);
                }
                assert(v@.skip(i + 1) =~= sfx.skip(1));
                assert(out@ + (seq![sfx[0]] + conv_color(sfx.skip(1))) =~= (out@ + seq![sfx[0]])
                    + conv_color(sfx.skip(1)));
            }
            let c = v[i];
            out.push(c);
            i = i + 1;
        }
    }
    proof {
        assert(v@.skip(i as int).len() == 0);
        assert(out@ + conv_color(v@.skip(i as int)) =~= out@);
    }
    out
}

#[verifier::loop_isolation(false)]
fn pass_strip(v: &Vec<char>, p: &Vec<char>) -> (out: Vec<char>)
    requires
        p@.len() >= 1,
    ensures
        out@ == strip_tok(v@, p@),
{
    proof {
        assert(v@.skip(0) =~= v@);
    }
    let mut out: Vec<char> = Vec::new();
    let mut i: usize = 0;
    while i < v.len()
        invariant
            i <= v@.len(),
            strip_tok(v@, p@) == out@ + strip_tok(v@.skip(i as int), p@),
        decreases v@.len() - i,
    {
        let ghost sfx = v@.skip(i as int);
        let hit = if p.len() <= v.len() && i <= v.len() - p.len() {
            let r = eq_at(v, p, i);
            proof {
                lemma_match_shift(v@, p@, i as int, 0);
            }
            r
        } else {
            false
        };
        if hit {
            proof {
                assert(v@.skip(i + p@.len()) =~= sfx.skip(p@.len() as int));
            }
            i = i + p.len();
        } else {
            proof {
                if match_at(sfx, p@, 0) {
                    lemma_match_shift(v@, p@, i as int, 0);
                    assert(false);
                }
                assert(sfx[0] == v@[i as int]);
                assert(v@.skip(i + 1) =~= sfx.skip(1));
                assert(out@ + (seq![sfx[0]] + strip_tok(sfx.skip(1), p@)) =~= (out@ + seq![sfx[0]])
                    + strip_tok(sfx.skip(1), p@));
            }
            let c = v[i];
            out.push(c);
            i = i + 1;
        }
    }
    proof {
        assert(v@.skip(i as int).len() == 0);
        assert(out@ + strip_tok(v@.skip(i as int), p@) =~= out@);
    }
    out
}

/// Convert wiki-syntax text to Markdown by the ordered substitution
/// rules of `wiki_to_md`. Deterministic, side-effect-free, and total:
/// malformed markup degrades to plain text rather than failing.
pub fn backlog_to_markdown(input: &str) -> (r: String)
    ensures
        r@ == wiki_to_md(input@),
{
    let v0 = chars_of(input);
    let v1 = pass_line_markers(&v0);
    let v2 = pass_code(&v1);
    let v3 = pass_links(&v2);
    let v4 = pass_color(&v3);
    let color_close: Vec<char> = vec!['{', 'c', 'o', 'l', 'o', 'r', '}'];
    let quote: Vec<char> = vec!['{', 'q', 'u', 'o', 't', 'e', '}'];
    let open_braces: Vec<char> = vec!['{', '{'];
    let close_braces: Vec<char> = vec!['}', '}'];
    proof {
        assert(color_close@ =~= tok_color_close());
        assert(quote@ =~= tok_quote());
        assert(open_braces@ =~= tok_open_braces());
        assert(close_braces@ =~= tok_close_braces());
    }
    let v5 = pass_strip(&v4, &color_close);
    let v6 = pass_strip(&v5, &quote);
    let v7 = pass_strip(&v6, &open_braces);
    let v8 = pass_strip(&v7, &close_braces);
    string_of(&v8)
}

/// Law: the conversion is idempotent once no source markup remains. For
/// any input whose converted form contains no remaining wiki token, a
/// second application changes nothing further.
pub proof fn lemma_to_markdown_idempotent(x: Seq<char>)
    requires
        !has_wiki_markup(wiki_to_md(x)),
    ensures
        wiki_to_md(wiki_to_md(x)) == wiki_to_md(x),
{
    let y = wiki_to_md(x);
    lemma_markers_id(y, true);
    lemma_code_id(y);
    lemma_links_id(y);
    lemma_color_id(y);
    lemma_strip_id(y, tok_color_close());
    lemma_strip_id(y, tok_quote());
    lemma_strip_id(y, tok_open_braces());
    lemma_strip_id(y, tok_close_braces());
}

} // verus!
