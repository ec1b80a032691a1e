use vstd::prelude::*;
use crate::text::{is_ws, trim, trim_bounds, string_of, chars_of, is_whitespace};
use crate::token::{HeadingLevel, Token, TokenV, tokens_view};

verus! {

/// The heading rank for a run of `n` `#` characters; runs of six or more give `H6`.
pub open spec fn level_of(n: int) -> HeadingLevel {
    if n <= 1 {
        HeadingLevel::H1
    } else if n == 2 {
        HeadingLevel::H2
    } else if n == 3 {
        HeadingLevel::H3
    } else if n == 4 {
        HeadingLevel::H4
    } else if n == 5 {
        HeadingLevel::H5
    } else {
        HeadingLevel::H6
    }
}

/// The first index from `i` on whose character is not `c` (or the length).
pub open spec fn skip_run(s: Seq<char>, i: int, c: char) -> int
    decreases s.len() - i,
{
    if 0 <= i < s.len() && s[i] == c {
        skip_run(s, i + 1, c)
    } else {
        i
    }
}

/// The first index from `i` on whose character is not whitespace (or the length).
pub open spec fn skip_ws(s: Seq<char>, i: int) -> int
    decreases s.len() - i,
{
    if 0 <= i < s.len() && is_ws(s[i]) {
        skip_ws(s, i + 1)
    } else {
        i
    }
}

/// The first index from `i` on that holds a newline (or the length).
pub open spec fn line_end(s: Seq<char>, i: int) -> int
    decreases s.len() - i,
{
    if 0 <= i < s.len() && s[i] != '\n' {
        line_end(s, i + 1)
    } else {
        i
    }
}

/// Whether a footnote definition whose label starts at `a + 2` can end its
/// label at `j`: a non-empty label, then `]:`, one whitespace character and a
/// non-empty content.
pub open spec fn note_split_at(line: Seq<char>, a: int, j: int) -> bool {
    a + 2 < j && j + 3 < line.len() && line[j] == ']' && line[j + 1] == ':' && is_ws(line[j + 2])
}

/// The largest `j` at most `hi` at which `note_split_at` holds, or -1.
pub open spec fn last_split(line: Seq<char>, a: int, hi: int) -> int
    decreases hi - a,
{
    if hi <= a + 2 {
        -1
    } else if note_split_at(line, a, hi) {
        hi
    } else {
        last_split(line, a, hi - 1)
    }
}

/// The label and content of a line of the form `[^label]: content`, which may
/// be indented. The label is the longest one that leaves a content.
pub open spec fn note_def(line: Seq<char>) -> Option<(Seq<char>, Seq<char>)> {
    let a = skip_ws(line, 0);
    if a + 1 < line.len() && line[a] == '[' && line[a + 1] == '^' {
        let j = last_split(line, a, line.len() - 4);
        if j >= 0 {
            Some((line.subrange(a + 2, j), line.subrange(j + 3, line.len() as int)))
        } else {
            None
        }
    } else {
        None
    }
}

/// The tokens of one line and the span toggles after it.
pub ghost struct LexOut {
    pub toks: Seq<TokenV>,
    pub bold: bool,
    pub italic: bool,
}

/// `o` with the tokens `t` in front of its own.
pub open spec fn prepend(t: Seq<TokenV>, o: LexOut) -> LexOut {
    LexOut { toks: t + o.toks, ..o }
}

/// The buffered text as a token, or nothing when it is only whitespace.
pub open spec fn flush(buf: Seq<char>) -> Seq<TokenV> {
    if trim(buf).len() == 0 {
        Seq::empty()
    } else {
        seq![TokenV::Text(trim(buf))]
    }
}

/// Scans `line` from `i`, with the two toggles, the text buffered since the
/// last token, and whether only whitespace came before `i` on the line.
pub open spec fn scan(line: Seq<char>, i: int, bold: bool, italic: bool, buf: Seq<char>, start: bool) -> LexOut
    decreases line.len() - i,
{
    if i < 0 || i >= line.len() {
        LexOut { toks: flush(buf), bold, italic }
    } else {
        let c = line[i];
        let free = !bold && !italic;
        let pair = i + 1 < line.len() && line[i + 1] == c;
        if c == '#' && free && start {
            let j = skip_run(line, i, '#');
            let k = skip_run(line, j, ' ');
            LexOut {
                toks: flush(buf).push(TokenV::Heading(level_of(j - i), line.subrange(k, line.len() as int))),
                bold,
                italic,
            }
        } else if c == '>' && free {
            let k = skip_run(line, i + 1, ' ');
            LexOut {
                toks: flush(buf).push(TokenV::BlockQuotes(line.subrange(k, line.len() as int))),
                bold,
                italic,
            }
        } else if (c == '-' || c == '+') && free {
            let k = skip_run(line, i + 1, ' ');
            let item = trim(line.subrange(k, line.len() as int));
            LexOut {
                toks: if item.len() == 0 { flush(buf) } else { flush(buf).push(TokenV::Lists(item)) },
                bold,
                italic,
            }
        } else if c == '*' && pair && !italic {
            if !bold {
                prepend(flush(buf), scan(line, i + 2, true, italic, Seq::empty(), false))
            } else {
                prepend(seq![TokenV::Bold(trim(buf))], scan(line, i + 2, false, italic, Seq::empty(), false))
            }
        } else if c == '_' && free {
            prepend(flush(buf), scan(line, if pair { i + 2 } else { i + 1 }, bold, true, Seq::empty(), false))
        } else if c == '_' && pair && italic && !bold {
            prepend(seq![TokenV::Italic(trim(buf))], scan(line, i + 2, bold, false, Seq::empty(), false))
        } else {
            scan(line, i + 1, bold, italic, buf.push(c), start && is_ws(c))
        }
    }
}

/// The tokens of one line: a footnote definition, or what the scan finds.
pub open spec fn lex_line(line: Seq<char>, bold: bool, italic: bool) -> LexOut {
    match note_def(line) {
        Some((l, c)) => LexOut { toks: seq![TokenV::NoteDefinition(l, c)], bold, italic },
        None => scan(line, 0, bold, italic, Seq::empty(), true),
    }
}

/// The line of `s` that runs from `pos` to `e`, without the carriage return of
/// a `\r\n` ending.
pub open spec fn line_at(s: Seq<char>, pos: int, e: int) -> Seq<char> {
    if e < s.len() && pos < e && s[e - 1] == '\r' {
        s.subrange(pos, e - 1)
    } else {
        s.subrange(pos, e)
    }
}

/// The tokens of the lines of `s` from index `pos` on; the toggles carry over
/// from one line to the next.
pub open spec fn lex_from(s: Seq<char>, pos: int, bold: bool, italic: bool) -> Seq<TokenV>
    decreases s.len() - pos,
{
    if pos < 0 || pos >= s.len() {
        Seq::empty()
    } else {
        let e = line_end(s, pos);
        if e < pos || e > s.len() {
            Seq::empty()
        } else {
            let out = lex_line(line_at(s, pos, e), bold, italic);
            if e == s.len() {
                out.toks
            } else {
                out.toks + lex_from(s, e + 1, out.bold, out.italic)
            }
        }
    }
}

/// The tokens of a whole text.
pub open spec fn lex_spec(s: Seq<char>) -> Seq<TokenV> {
    lex_from(s, 0, false, false)
}

fn level_for(n: usize) -> (r: HeadingLevel)
    ensures
        r == level_of(n as int),
{
    if n <= 1 {
        HeadingLevel::H1
    } else if n == 2 {
        HeadingLevel::H2
    } else if n == 3 {
        HeadingLevel::H3
    } else if n == 4 {
        HeadingLevel::H4
    } else if n == 5 {
        HeadingLevel::H5
    } else {
        HeadingLevel::H6
    }
}

fn skip_char_run(v: &Vec<char>, i: usize, c: char) -> (r: usize)
    requires
        i <= v@.len(),
    ensures
        i <= r <= v@.len(),
        r == skip_run(v@, i as int, c),
{
    let mut k = i;
    while k < v.len() && v[k] == c
        invariant
            i <= k <= v@.len(),
            skip_run(v@, i as int, c) == skip_run(v@, k as int, c),
        decreases v@.len() - k,
    {
        k = k + 1;
    }
    k
}

fn skip_whitespace(v: &Vec<char>, i: usize) -> (r: usize)
    requires
        i <= v@.len(),
    ensures
        i <= r <= v@.len(),
        r == skip_ws(v@, i as int),
{
    let mut k = i;
    while k < v.len() && is_whitespace(v[k])
        invariant
            i <= k <= v@.len(),
            skip_ws(v@, i as int) == skip_ws(v@, k as int),
        decreases v@.len() - k,
    {
        k = k + 1;
    }
    k
}

fn find_line_end(v: &Vec<char>, i: usize) -> (r: usize)
    requires
        i <= v@.len(),
    ensures
        i <= r <= v@.len(),
        r == line_end(v@, i as int),
{
    let mut k = i;
    while k < v.len() && v[k] != '\n'
        invariant
            i <= k <= v@.len(),
            line_end(v@, i as int) == line_end(v@, k as int),
        decreases v@.len() - k,
    {
        k = k + 1;
    }
    k
}

/// The label and content of a footnote definition line, if `line` is one.
pub fn note_definition(line: &Vec<char>) -> (r: Option<(String, String)>)
    ensures
        match r {
            Some((l, c)) => note_def(line@) == Some((l@, c@)),
            None => note_def(line@) is None,
        },
{
    let n = line.len();
    let a = skip_whitespace(line, 0);
    if n - a > 1 && line[a] == '[' && line[a + 1] == '^' {
        if n < 4 {
            return None;
        }
        let mut j = n - 4;
        while j > a + 2
            invariant
                a + 1 < n == line@.len(),
                a == skip_ws(line@, 0),
                line@[a as int] == '[',
                line@[a + 1] == '^',
                n >= 4,
                j <= n - 4,
                last_split(line@, a as int, n - 4) == last_split(line@, a as int, j as int),
            decreases j,
        {
            if line[j] == ']' && line[j + 1] == ':' && is_whitespace(line[j + 2]) {
                assert(note_split_at(line@, a as int, j as int));
                assert(last_split(line@, a as int, n - 4) == j);
                let label = string_of(line, a + 2, j);
                let content = string_of(line, j + 3, n);
                assert(note_def(line@) == Some((label@, content@)));
                return Some((label, content));
            }
            j = j - 1;
        }
        None
    } else {
        None
    }
}

/// Appends the buffered text `v[lo..hi]`, trimmed, unless it is only whitespace.
fn push_flush(out: &mut Vec<Token>, v: &Vec<char>, lo: usize, hi: usize)
    requires
        lo <= hi <= v@.len(),
    ensures
        tokens_view(final(out)@) == tokens_view(old(out)@) + flush(v@.subrange(lo as int, hi as int)),
{
    let (a, b) = trim_bounds(v, lo, hi);
    if a < b {
        out.push(Token::Text(string_of(v, a, b)));
        assert(tokens_view(out@) =~= tokens_view(old(out)@) + flush(v@.subrange(lo as int, hi as int)));
    } else {
        assert(tokens_view(out@) =~= tokens_view(old(out)@) + flush(v@.subrange(lo as int, hi as int)));
    }
}

/// Appends the trimmed text `v[lo..hi]` as a span token, bold or italic.
fn push_span(out: &mut Vec<Token>, v: &Vec<char>, lo: usize, hi: usize, bold: bool)
    requires
        lo <= hi <= v@.len(),
    ensures
        tokens_view(final(out)@) == tokens_view(old(out)@) + seq![
            if bold {
                TokenV::Bold(trim(v@.subrange(lo as int, hi as int)))
            } else {
                TokenV::Italic(trim(v@.subrange(lo as int, hi as int)))
            },
        ],
{
    let (a, b) = trim_bounds(v, lo, hi);
    let t = string_of(v, a, b);
    if bold {
        out.push(Token::Bold(t));
    } else {
        out.push(Token::Italic(t));
    }
    assert(tokens_view(out@) =~= tokens_view(old(out)@) + seq![
        if bold {
            TokenV::Bold(trim(v@.subrange(lo as int, hi as int)))
        } else {
            TokenV::Italic(trim(v@.subrange(lo as int, hi as int)))
        },
    ]);
}

fn push_token(out: &mut Vec<Token>, t: Token)
    ensures
        tokens_view(final(out)@) == tokens_view(old(out)@).push(t@),
{
    out.push(t);
    assert(tokens_view(out@) =~= tokens_view(old(out)@).push(t@));
}

/// Scans one line that is not a footnote definition, appending its tokens,
/// and returns the bold and italic toggles after it.
fn scan_line(line: &Vec<char>, bold: bool, italic: bool, out: &mut Vec<Token>) -> (r: (bool, bool))
    ensures
        tokens_view(final(out)@) == tokens_view(old(out)@) + scan(line@, 0, bold, italic, Seq::empty(), true).toks,
        r.0 == scan(line@, 0, bold, italic, Seq::empty(), true).bold,
        r.1 == scan(line@, 0, bold, italic, Seq::empty(), true).italic,
{
    let ghost base = tokens_view(out@);
    let ghost target = scan(line@, 0, bold, italic, Seq::empty(), true);
    let n = line.len();
    let mut in_bold = bold;
    let mut in_italic = italic;
    let mut i: usize = 0;
    let mut bs: usize = 0;
    let mut start = true;
    assert(line@.subrange(0, 0) =~= Seq::<char>::empty());
    loop
        invariant_except_break
            base + target.toks == tokens_view(out@) + scan(
                line@,
                i as int,
                in_bold,
                in_italic,
                line@.subrange(bs as int, i as int),
                start,
            ).toks,
            target.bold == scan(line@, i as int, in_bold, in_italic, line@.subrange(bs as int, i as int), start).bold,
            target.italic == scan(line@, i as int, in_bold, in_italic, line@.subrange(bs as int, i as int), start).italic,
        invariant
            bs <= i <= n == line@.len(),
        ensures
            tokens_view(out@) == base + target.toks,
            in_bold == target.bold,
            in_italic == target.italic,
        decreases n - i,
    {
        let ghost buf = line@.subrange(bs as int, i as int);
        let ghost pre = tokens_view(out@);
        let ghost rest = scan(line@, i as int, in_bold, in_italic, buf, start);
        if i >= n {
            push_flush(out, line, bs, i);
            assert(tokens_view(out@) =~= base + target.toks);
            break;
        }
        let c = line[i];
        let free = !in_bold && !in_italic;
        let pair = i + 1 < n && line[i + 1] == c;
        if c == '#' && free && start {
            let j = skip_char_run(line, i, '#');
            let k = skip_char_run(line, j, ' ');
            push_flush(out, line, bs, i);
            push_token(out, Token::Heading(level_for(j - i), string_of(line, k, n)));
            assert(tokens_view(out@) =~= pre + rest.toks);
            break;
        } else if c == '>' && free {
            let k = skip_char_run(line, i + 1, ' ');
            push_flush(out, line, bs, i);
            push_token(out, Token::BlockQuotes(string_of(line, k, n)));
            assert(tokens_view(out@) =~= pre + rest.toks);
            break;
        } else if (c == '-' || c == '+') && free {
            let k = skip_char_run(line, i + 1, ' ');
            push_flush(out, line, bs, i);
            let (a, b) = trim_bounds(line, k, n);
            if a < b {
                push_token(out, Token::Lists(string_of(line, a, b)));
            }
            assert(tokens_view(out@) =~= pre + rest.toks);
            break;
        } else if c == '*' && pair && !in_italic {
            let ghost was_bold = in_bold;
            if !in_bold {
                push_flush(out, line, bs, i);
            } else {
                push_span(out, line, bs, i, true);
            }
            in_bold = !in_bold;
            i = i + 2;
            bs = i;
            start = false;
            assert(line@.subrange(bs as int, i as int) =~= Seq::<char>::empty());
            let ghost nxt = scan(line@, i as int, in_bold, in_italic, Seq::empty(), false);
            let ghost added = if !was_bold { flush(buf) } else { seq![TokenV::Bold(trim(buf))] };
            assert(rest == prepend(added, nxt));
            assert(tokens_view(out@) == pre + added);
            assert(pre + rest.toks =~= tokens_view(out@) + nxt.toks);
        } else if c == '_' && free {
            push_flush(out, line, bs, i);
            in_italic = true;
            i = if pair { i + 2 } else { i + 1 };
            bs = i;
            start = false;
            assert(line@.subrange(bs as int, i as int) =~= Seq::<char>::empty());
            let ghost nxt = scan(line@, i as int, in_bold, in_italic, Seq::empty(), false);
            assert(rest == prepend(flush(buf), nxt));
            assert(pre + rest.toks =~= tokens_view(out@) + nxt.toks);
        } else if c == '_' && pair && in_italic && !in_bold {
            push_span(out, line, bs, i, false);
            in_italic = false;
            i = i + 2;
            bs = i;
            start = false;
            assert(line@.subrange(bs as int, i as int) =~= Seq::<char>::empty());
            let ghost nxt = scan(line@, i as int, in_bold, in_italic, Seq::empty(), false);
            assert(rest == prepend(seq![TokenV::Italic(trim(buf))], nxt));
            assert(pre + rest.toks =~= tokens_view(out@) + nxt.toks);
        } else {
            start = start && is_whitespace(c);
            i = i + 1;
            assert(line@.subrange(bs as int, i as int) =~= buf.push(c));
        }
    }
    (in_bold, in_italic)
}

/// The tokens of one line appended to `out`, and the toggles after it.
fn lex_one_line(line: &Vec<char>, bold: bool, italic: bool, out: &mut Vec<Token>) -> (r: (bool, bool))
    ensures
        tokens_view(final(out)@) == tokens_view(old(out)@) + lex_line(line@, bold, italic).toks,
        r.0 == lex_line(line@, bold, italic).bold,
        r.1 == lex_line(line@, bold, italic).italic,
{
    match note_definition(line) {
        Some((label, content)) => {
            push_token(out, Token::NoteDefinition(label, content));
            (bold, italic)
        },
        None => scan_line(line, bold, italic, out),
    }
}

/// The characters of the line `v[pos..e]`, less the `\r` of a `\r\n` ending.
fn line_chars(v: &Vec<char>, pos: usize, e: usize) -> (r: Vec<char>)
    requires
        pos <= e <= v@.len(),
    ensures
        r@ == line_at(v@, pos as int, e as int),
{
    let hi = if e < v.len() && pos < e && v[e - 1] == '\r' {
        e - 1
    } else {
        e
    };
    let mut r: Vec<char> = Vec::new();
    let mut k = pos;
    while k < hi
        invariant
            pos <= k <= hi <= e <= v@.len(),
            r@ == v@.subrange(pos as int, k as int),
        decreases hi - k,
    {
        r.push(v[k]);
        assert(r@ =~= v@.subrange(pos as int, k + 1));
        k = k + 1;
    }
    r
}

/// Splits `input` into tokens, line by line. A `**` or `__` span may open on
/// one line and close on a later one.
pub fn lex(input: &str) -> (r: Vec<Token>)
    ensures
        tokens_view(r@) == lex_spec(input@),
{
    let s = chars_of(input);
    let n = s.len();
    let mut tokens: Vec<Token> = Vec::new();
    let mut in_bold = false;
    let mut in_italic = false;
    let mut pos: usize = 0;
    assert(tokens_view(tokens@) =~= Seq::empty());
    while pos < n
        invariant
            n == s@.len(),
            s@ == input@,
            pos <= n,
            tokens_view(tokens@) + lex_from(s@, pos as int, in_bold, in_italic) == lex_spec(input@),
        decreases n - pos,
    {
        let ghost pre = tokens_view(tokens@);
        let e = find_line_end(&s, pos);
        let line = line_chars(&s, pos, e);
        let (b, it) = lex_one_line(&line, in_bold, in_italic, &mut tokens);
        let ghost out = lex_line(line@, in_bold, in_italic);
        in_bold = b;
        in_italic = it;
        if e == n {
            pos = n;
            assert(tokens_view(tokens@) + lex_from(s@, pos as int, in_bold, in_italic) =~= pre + out.toks);
        } else {
            pos = e + 1;
            assert(tokens_view(tokens@) + lex_from(s@, pos as int, in_bold, in_italic)
                =~= pre + (out.toks + lex_from(s@, pos as int, in_bold, in_italic)));
        }
    }
    tokens
}

} // verus!
