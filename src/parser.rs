//! The line grammar: raw text to an ordered sequence of classified lines.
//!
//! A line ends with a line-feed. It is, tried in this order: blank (only spaces and tabs), a
//! comment (`#` and any text), a group header (`[name]`, the name without `[` and `]`), or an
//! entry (`key = value`, the key made of `A-Z a-z 0-9 -` with an optional `[locale]` suffix, the
//! spaces and tabs around `=` left out of key and value).
use vstd::prelude::*;

use crate::chars::{is_hspace, lemma_run_len, run_len, scan_run, sub_chars, CharClass};
use crate::text::{chars_of, string_of_range};

verus! {

/// A failure of a grammar, at a 1-based line and column: a line without its line-feed at its
/// last character, a line of none of the four forms at its first. The value grammars report
/// line 1, column 1.
#[derive(Debug, Clone, Copy, PartialEq, Eq)]
pub struct ParseError {
    pub line: usize,
    pub column: usize,
}

/// One classified line of a file.
#[derive(Debug, Clone, PartialEq, Eq)]
pub enum Line {
    Blank,
    Comment(String),
    GroupHeader(String),
    Entry(String, String),
}

/// The mathematical value of a [`Line`].
pub enum LineView {
    Blank,
    Comment(Seq<char>),
    GroupHeader(Seq<char>),
    Entry(Seq<char>, Seq<char>),
}

impl View for Line {
    type V = LineView;

    open spec fn view(&self) -> LineView {
        match self {
            Line::Blank => LineView::Blank,
            Line::Comment(c) => LineView::Comment(c@),
            Line::GroupHeader(g) => LineView::GroupHeader(g@),
            Line::Entry(k, v) => LineView::Entry(k@, v@),
        }
    }
}

pub open spec fn is_blank_line(l: Seq<char>) -> bool {
    forall|i: int| 0 <= i < l.len() ==> is_hspace(#[trigger] l[i])
}

pub open spec fn is_group_header_line(l: Seq<char>) -> bool {
    &&& l.len() >= 3
    &&& l[0] == '['
    &&& l[l.len() - 1] == ']'
    &&& forall|i: int| 1 <= i < l.len() - 1 ==> #[trigger] l[i] != '[' && l[i] != ']'
}

/// Where the key of an entry line ends: after the base key and its locale suffix, if any.
pub open spec fn key_end(l: Seq<char>) -> Option<int> {
    let k0 = run_len(l, 0, CharClass::Key) as int;
    if k0 == 0 {
        None
    } else if k0 < l.len() && l[k0] == '[' {
        let m = run_len(l, k0 + 1, CharClass::Locale) as int;
        if m > 0 && k0 + 1 + m < l.len() && l[k0 + 1 + m] == ']' {
            Some(k0 + 2 + m)
        } else {
            None
        }
    } else {
        Some(k0)
    }
}

/// Key and value of an entry line, or `None` where `l` is no entry.
pub open spec fn entry_parts(l: Seq<char>) -> Option<(Seq<char>, Seq<char>)> {
    match key_end(l) {
        None => None,
        Some(ke) => {
            let eq = ke + run_len(l, ke, CharClass::HSpace);
            if eq < l.len() && l[eq] == '=' {
                let vs = eq + 1 + run_len(l, eq + 1, CharClass::HSpace);
                Some((l.subrange(0, ke), l.subrange(vs, l.len() as int)))
            } else {
                None
            }
        },
    }
}

/// The line that `l` (without its line-feed) is, or `None` where it has none of the four forms.
pub open spec fn classify(l: Seq<char>) -> Option<LineView> {
    if is_blank_line(l) {
        Some(LineView::Blank)
    } else if l[0] == '#' {
        Some(LineView::Comment(l.drop_first()))
    } else if is_group_header_line(l) {
        Some(LineView::GroupHeader(l.subrange(1, l.len() - 1)))
    } else {
        match entry_parts(l) {
            Some((k, v)) => Some(LineView::Entry(k, v)),
            None => None,
        }
    }
}

/// The lines of `s` from position `pos` on, where `n` lines came before; or the first failure.
pub open spec fn lines_from(s: Seq<char>, pos: int, n: int) -> Result<Seq<LineView>, ParseError>
    decreases s.len() - pos,
{
    if pos < 0 || pos >= s.len() {
        Ok(seq![])
    } else {
        let k = run_len(s, pos, CharClass::NotNewline) as int;
        if pos + k >= s.len() {
            Err(ParseError { line: (n + 1) as usize, column: k as usize })
        } else {
            match classify(s.subrange(pos, pos + k)) {
                None => Err(ParseError { line: (n + 1) as usize, column: 1 }),
                Some(l) => match lines_from(s, pos + k + 1, n + 1) {
                    Ok(ls) => Ok(seq![l] + ls),
                    Err(e) => Err(e),
                },
            }
        }
    }
}

/// The lines of a whole text, or where the grammar first fails.
pub open spec fn spec_lines(s: Seq<char>) -> Result<Seq<LineView>, ParseError> {
    lines_from(s, 0, 0)
}

pub open spec fn prepend(a: Seq<LineView>, r: Result<Seq<LineView>, ParseError>) -> Result<
    Seq<LineView>,
    ParseError,
> {
    match r {
        Ok(ls) => Ok(a + ls),
        Err(e) => Err(e),
    }
}

pub open spec fn views(ls: Seq<Line>) -> Seq<LineView> {
    ls.map_values(|l: Line| l@)
}

fn blank_line(l: &Vec<char>) -> (r: bool)
    ensures
        r == is_blank_line(l@),
{
    let e = scan_run(l, 0, CharClass::HSpace);
    proof {
        lemma_run_len(l@, 0, CharClass::HSpace);
    }
    e == l.len()
}

fn group_header_line(l: &Vec<char>) -> (r: bool)
    ensures
        r == is_group_header_line(l@),
{
    let n = l.len();
    if n < 3 || l[0] != '[' || l[n - 1] != ']' {
        return false;
    }
    let mut i: usize = 1;
    while i < n - 1
        invariant
            1 <= i <= n - 1,
            n == l@.len(),
            n >= 3,
            forall|j: int| 1 <= j < i ==> #[trigger] l@[j] != '[' && l@[j] != ']',
        decreases n - i,
    {
        if l[i] == '[' || l[i] == ']' {
            return false;
        }
        i = i + 1;
    }
    true
}

fn key_end_of(l: &Vec<char>) -> (r: Option<usize>)
    ensures
        match key_end(l@) {
            Some(e) => r == Some(e as usize) && e <= l@.len(),
            None => r is None,
        },
{
    let k0 = scan_run(l, 0, CharClass::Key);
    if k0 == 0 {
        None
    } else if k0 < l.len() && l[k0] == '[' {
        let m_end = scan_run(l, k0 + 1, CharClass::Locale);
        if m_end > k0 + 1 && m_end < l.len() && l[m_end] == ']' {
            Some(m_end + 1)
        } else {
            None
        }
    } else {
        Some(k0)
    }
}

fn entry_parts_of(l: &Vec<char>) -> (r: Option<(String, String)>)
    ensures
        match entry_parts(l@) {
            Some((k, v)) => r matches Some((rk, rv)) && rk@ == k && rv@ == v,
            None => r is None,
        },
{
    match key_end_of(l) {
        None => None,
        Some(ke) => {
            let eq = scan_run(l, ke, CharClass::HSpace);
            if eq < l.len() && l[eq] == '=' {
                let vs = scan_run(l, eq + 1, CharClass::HSpace);
                Some((string_of_range(l, 0, ke), string_of_range(l, vs, l.len())))
            } else {
                None
            }
        },
    }
}

/// Classifies one line, given without its line-feed.
pub fn classify_line(l: &Vec<char>) -> (r: Option<Line>)
    ensures
        match classify(l@) {
            Some(lv) => r matches Some(x) && x@ == lv,
            None => r is None,
        },
{
    if blank_line(l) {
        Some(Line::Blank)
    } else if l[0] == '#' {
        let c = string_of_range(l, 1, l.len());
        Some(Line::Comment(c))
    } else if group_header_line(l) {
        let g = string_of_range(l, 1, l.len() - 1);
        Some(Line::GroupHeader(g))
    } else {
        match entry_parts_of(l) {
            Some((k, v)) => Some(Line::Entry(k, v)),
            None => None,
        }
    }
}

/// Splits `s` into its lines and classifies each one; fails at the first line that is not
/// terminated by a line-feed or has none of the four forms.
pub fn file_lines(s: &str) -> (r: Result<Vec<Line>, ParseError>)
    ensures
        match spec_lines(s@) {
            Ok(ls) => r matches Ok(v) && views(v@) == ls,
            Err(e) => r == Err::<Vec<Line>, ParseError>(e),
        },
{
    let v = chars_of(s);
    let mut out: Vec<Line> = Vec::new();
    let mut pos: usize = 0;
    let mut n: usize = 0;
    while pos < v.len()
        invariant
            v@ == s@,
            n <= pos <= v@.len(),
            spec_lines(v@) == prepend(views(out@), lines_from(v@, pos as int, n as int)),
        decreases v@.len() - pos,
    {
        let end = scan_run(&v, pos, CharClass::NotNewline);
        if end >= v.len() {
            return Err(ParseError { line: n + 1, column: end - pos });
        }
        let line = sub_chars(&v, pos, end);
        match classify_line(&line) {
            None => {
                return Err(ParseError { line: n + 1, column: 1 });
            },
            Some(l) => {
                let ghost before = views(out@);
                proof {
                    let rest = lines_from(v@, end + 1, n + 1);
                    match rest {
                        Ok(ls) => {
                            assert(before + (seq![l@] + ls) == (before.push(l@)) + ls);
                        },
                        Err(e) => {},
                    }
                }
                out.push(l);
                assert(views(out@) == before.push(l@));
                pos = end + 1;
                n = n + 1;
            },
        }
    }
    assert(views(out@) + seq![] == views(out@));
    Ok(out)
}

/// The content of `s` where `s` is exactly one line, line-feed included; else where that fails.
pub open spec fn single_line(s: Seq<char>) -> Result<Seq<char>, ParseError> {
    let k = run_len(s, 0, CharClass::NotNewline) as int;
    if k >= s.len() {
        Err(ParseError { line: 1, column: if k == 0 { 1 } else { k as usize } })
    } else if k + 1 < s.len() {
        Err(ParseError { line: 2, column: 1 })
    } else {
        Ok(s.take(k))
    }
}

/// The error of a single line of the wrong form.
pub open spec fn form_error() -> ParseError {
    ParseError { line: 1, column: 1 }
}

fn single_line_of(s: &str) -> (r: Result<Vec<char>, ParseError>)
    ensures
        match single_line(s@) {
            Ok(l) => r matches Ok(v) && v@ == l,
            Err(e) => r == Err::<Vec<char>, ParseError>(e),
        },
{
    let v = chars_of(s);
    let k = scan_run(&v, 0, CharClass::NotNewline);
    if k >= v.len() {
        Err(ParseError { line: 1, column: if k == 0 { 1 } else { k } })
    } else if k + 1 < v.len() {
        Err(ParseError { line: 2, column: 1 })
    } else {
        Ok(sub_chars(&v, 0, k))
    }
}

/// One line of any of the four forms.
pub fn line_any(s: &str) -> (r: Result<Line, ParseError>)
    ensures
        match single_line(s@) {
            Ok(l) => match classify(l) {
                Some(lv) => r matches Ok(x) && x@ == lv,
                None => r == Err::<Line, ParseError>(form_error()),
            },
            Err(e) => r == Err::<Line, ParseError>(e),
        },
{
    let l = single_line_of(s)?;
    match classify_line(&l) {
        Some(x) => Ok(x),
        None => Err(ParseError { line: 1, column: 1 }),
    }
}

/// A blank line: spaces and tabs only.
pub fn line_blank(s: &str) -> (r: Result<(), ParseError>)
    ensures
        match single_line(s@) {
            Ok(l) => r == if is_blank_line(l) {
                Ok::<(), ParseError>(())
            } else {
                Err(form_error())
            },
            Err(e) => r == Err::<(), ParseError>(e),
        },
{
    let l = single_line_of(s)?;
    if blank_line(&l) {
        Ok(())
    } else {
        Err(ParseError { line: 1, column: 1 })
    }
}

/// A comment line; gives the text after `#`.
pub fn line_comment(s: &str) -> (r: Result<String, ParseError>)
    ensures
        match single_line(s@) {
            Ok(l) => if l.len() > 0 && l[0] == '#' {
                r matches Ok(c) && c@ == l.drop_first()
            } else {
                r == Err::<String, ParseError>(form_error())
            },
            Err(e) => r == Err::<String, ParseError>(e),
        },
{
    let l = single_line_of(s)?;
    if l.len() > 0 && l[0] == '#' {
        Ok(string_of_range(&l, 1, l.len()))
    } else {
        Err(ParseError { line: 1, column: 1 })
    }
}

/// A group header line; gives the group name.
pub fn line_group_header(s: &str) -> (r: Result<String, ParseError>)
    ensures
        match single_line(s@) {
            Ok(l) => if is_group_header_line(l) {
                r matches Ok(g) && g@ == l.subrange(1, l.len() - 1)
            } else {
                r == Err::<String, ParseError>(form_error())
            },
            Err(e) => r == Err::<String, ParseError>(e),
        },
{
    let l = single_line_of(s)?;
    if group_header_line(&l) {
        Ok(string_of_range(&l, 1, l.len() - 1))
    } else {
        Err(ParseError { line: 1, column: 1 })
    }
}

/// An entry line; gives its key and value.
pub fn line_entry(s: &str) -> (r: Result<(String, String), ParseError>)
    ensures
        match single_line(s@) {
            Ok(l) => match entry_parts(l) {
                Some((k, v)) => r matches Ok((rk, rv)) && rk@ == k && rv@ == v,
                None => r == Err::<(String, String), ParseError>(form_error()),
            },
            Err(e) => r == Err::<(String, String), ParseError>(e),
        },
{
    let l = single_line_of(s)?;
    match entry_parts_of(&l) {
        Some(kv) => Ok(kv),
        None => Err(ParseError { line: 1, column: 1 }),
    }
}

/// The text made of `ls`, each line followed by a line-feed.
pub open spec fn join_lines(ls: Seq<Seq<char>>) -> Seq<char>
    decreases ls.len(),
{
    if ls.len() == 0 {
        Seq::empty()
    } else {
        ls[0] + seq!['\n'] + join_lines(ls.drop_first())
    }
}

/// A line of text: no line-feed in it.
pub open spec fn no_newline(l: Seq<char>) -> bool {
    forall|i: int| 0 <= i < l.len() ==> #[trigger] l[i] != '\n'
}

proof fn lemma_run_len_skip(s: Seq<char>, pos: int, j: int, cls: CharClass)
    requires
        0 <= pos <= s.len(),
        0 <= j,
    ensures
        run_len(s, pos + j, cls) == run_len(s.skip(pos), j, cls),
    decreases s.len() - pos - j,
{
    if pos + j < s.len() {
        assert(s.skip(pos)[j] == s[pos + j]);
        lemma_run_len_skip(s, pos, j + 1, cls);
    }
}

/// Reading from `pos` on is reading the text that starts there.
proof fn lemma_lines_from_skip(s: Seq<char>, pos: int, n: int)
    requires
        0 <= pos <= s.len(),
    ensures
        lines_from(s, pos, n) == lines_from(s.skip(pos), 0, n),
    decreases s.len() - pos,
{
    if pos < s.len() {
        let t = s.skip(pos);
        lemma_run_len_skip(s, pos, 0, CharClass::NotNewline);
        let k = run_len(s, pos, CharClass::NotNewline) as int;
        lemma_run_len(s, pos, CharClass::NotNewline);
        assert(s.subrange(pos, pos + k) == t.subrange(0, k));
        if pos + k < s.len() {
            lemma_lines_from_skip(s, pos + k + 1, n + 1);
            lemma_lines_from_skip(t, k + 1, n + 1);
            assert(t.skip(k + 1) == s.skip(pos + k + 1));
        }
    }
}

/// The run of non-line-feed characters at the start of `l + "\n" + rest` is `l`.
proof fn lemma_first_line(l: Seq<char>, rest: Seq<char>)
    requires
        no_newline(l),
    ensures
        run_len(l + seq!['\n'] + rest, 0, CharClass::NotNewline) == l.len(),
{
    let s = l + seq!['\n'] + rest;
    lemma_run_len(s, 0, CharClass::NotNewline);
    let k = run_len(s, 0, CharClass::NotNewline) as int;
    if k < l.len() {
        assert(s[k] == l[k]);
    } else if k > l.len() {
        assert(s[l.len() as int] == '\n');
    }
}

proof fn lemma_lines_of_joined(ls: Seq<Seq<char>>, n: int)
    requires
        forall|i: int| 0 <= i < ls.len() ==> no_newline(#[trigger] ls[i]),
        forall|i: int| 0 <= i < ls.len() ==> (#[trigger] classify(ls[i])) is Some,
    ensures
        lines_from(join_lines(ls), 0, n) == Ok::<Seq<LineView>, ParseError>(
            ls.map_values(|l: Seq<char>| classify(l)->Some_0),
        ),
    decreases ls.len(),
{
    let s = join_lines(ls);
    if ls.len() > 0 {
        let l = ls[0];
        let rest = ls.drop_first();
        assert forall|i: int| 0 <= i < rest.len() implies no_newline(#[trigger] rest[i]) by {
            assert(rest[i] == ls[i + 1]);
        }
        assert forall|i: int| 0 <= i < rest.len() implies (#[trigger] classify(rest[i])) is Some by {
            assert(rest[i] == ls[i + 1]);
        }
        lemma_lines_of_joined(rest, n + 1);
        assert(no_newline(ls[0]));
        lemma_first_line(l, join_lines(rest));
        let k = l.len() as int;
        assert(s.subrange(0, k) == l);
        lemma_lines_from_skip(s, k + 1, n + 1);
        assert(s.skip(k + 1) == join_lines(rest));
        assert(ls.map_values(|l: Seq<char>| classify(l)->Some_0) == seq![classify(l)->Some_0]
            + rest.map_values(|l: Seq<char>| classify(l)->Some_0));
    } else {
        assert(ls.map_values(|l: Seq<char>| classify(l)->Some_0) == Seq::<LineView>::empty());
    }
}

/// A text whose lines each end with a line-feed and have one of the four forms reads as
/// exactly one classified line per source line, in source order.
pub proof fn law_one_line_per_source_line(ls: Seq<Seq<char>>)
    requires
        forall|i: int| 0 <= i < ls.len() ==> no_newline(#[trigger] ls[i]),
        forall|i: int| 0 <= i < ls.len() ==> (#[trigger] classify(ls[i])) is Some,
    ensures
        spec_lines(join_lines(ls)) == Ok::<Seq<LineView>, ParseError>(
            ls.map_values(|l: Seq<char>| classify(l)->Some_0),
        ),
{
    lemma_lines_of_joined(ls, 0);
}

proof fn lemma_unterminated_fails(s: Seq<char>, pos: int, n: int)
    requires
        0 <= pos < s.len(),
        s.last() != '\n',
    ensures
        lines_from(s, pos, n) is Err,
    decreases s.len() - pos,
{
    let k = run_len(s, pos, CharClass::NotNewline) as int;
    lemma_run_len(s, pos, CharClass::NotNewline);
    if pos + k < s.len() {
        if classify(s.subrange(pos, pos + k)) is Some {
            if pos + k + 1 >= s.len() {
                assert(s[pos + k] == s.last());
            } else {
                lemma_unterminated_fails(s, pos + k + 1, n + 1);
            }
        }
    }
}

/// A non-empty text whose last character is not a line-feed fails the grammar; the empty text
/// has no lines, and a lone line-feed is one blank line.
pub proof fn law_final_line_feed_required(s: Seq<char>)
    ensures
        s.len() > 0 && s.last() != '\n' ==> spec_lines(s) is Err,
        spec_lines(Seq::empty()) == Ok::<Seq<LineView>, ParseError>(Seq::empty()),
        spec_lines(seq!['\n']) == Ok::<Seq<LineView>, ParseError>(seq![LineView::Blank]),
{
    if s.len() > 0 && s.last() != '\n' {
        lemma_unterminated_fails(s, 0, 0);
    }
    let t = seq!['\n'];
    assert(run_len(t, 0, CharClass::NotNewline) == 0);
    assert(t.subrange(0, 0) == Seq::<char>::empty());
    assert(is_blank_line(Seq::<char>::empty()));
    assert(lines_from(t, 1, 1) == Ok::<Seq<LineView>, ParseError>(Seq::empty()));
    assert(seq![LineView::Blank] + Seq::<LineView>::empty() == seq![LineView::Blank]);
}

} // verus!
