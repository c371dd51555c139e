//! Character classes and maximal runs of them, the building blocks of the grammars.
use vstd::prelude::*;

verus! {

/// The character classes that the grammars of this crate scan for.
#[derive(Clone, Copy)]
pub enum CharClass {
    /// `A-Z a-z 0-9 -`: the characters of a key.
    Key,
    /// The key characters plus `_` and `@`: the characters of a locale suffix.
    Locale,
    /// Space or tab.
    HSpace,
    /// Anything but a line-feed.
    NotNewline,
    /// Anything but a space.
    NotSpace,
    /// `0-9`.
    Digit,
}

pub open spec fn is_key_char(c: char) -> bool {
    ('A' <= c && c <= 'Z') || ('a' <= c && c <= 'z') || ('0' <= c && c <= '9') || c == '-'
}

pub open spec fn is_locale_char(c: char) -> bool {
    is_key_char(c) || c == '_' || c == '@'
}

pub open spec fn is_hspace(c: char) -> bool {
    c == ' ' || c == '\t'
}

pub open spec fn is_digit(c: char) -> bool {
    '0' <= c && c <= '9'
}

pub open spec fn in_class(cls: CharClass, c: char) -> bool {
    match cls {
        CharClass::Key => is_key_char(c),
        CharClass::Locale => is_locale_char(c),
        CharClass::HSpace => is_hspace(c),
        CharClass::NotNewline => c != '\n',
        CharClass::NotSpace => c != ' ',
        CharClass::Digit => is_digit(c),
    }
}

impl CharClass {
    pub fn has(self, c: char) -> (r: bool)
        ensures
            r == in_class(self, c),
    {
        match self {
            CharClass::Key => ('A' <= c && c <= 'Z') || ('a' <= c && c <= 'z') || ('0' <= c && c
                <= '9') || c == '-',
            CharClass::Locale => ('A' <= c && c <= 'Z') || ('a' <= c && c <= 'z') || ('0' <= c
                && c <= '9') || c == '-' || c == '_' || c == '@',
            CharClass::HSpace => c == ' ' || c == '\t',
            CharClass::NotNewline => c != '\n',
            CharClass::NotSpace => c != ' ',
            CharClass::Digit => '0' <= c && c <= '9',
        }
    }
}

/// The length of the longest run of characters of class `cls` in `s` that starts at `start`.
pub open spec fn run_len(s: Seq<char>, start: int, cls: CharClass) -> nat
    decreases s.len() - start,
{
    if start < 0 || start >= s.len() || !in_class(cls, s[start]) {
        0
    } else {
        1 + run_len(s, start + 1, cls)
    }
}

/// A run is made of characters of its class, and ends at the end of `s` or before a character
/// outside the class.
pub proof fn lemma_run_len(s: Seq<char>, start: int, cls: CharClass)
    requires
        0 <= start <= s.len(),
    ensures
        start + run_len(s, start, cls) <= s.len(),
        forall|j: int| start <= j < start + run_len(s, start, cls) ==> in_class(cls, #[trigger] s[j]),
        start + run_len(s, start, cls) == s.len() || !in_class(
            cls,
            s[start + run_len(s, start, cls)],
        ),
    decreases s.len() - start,
{
    if start < s.len() && in_class(cls, s[start]) {
        lemma_run_len(s, start + 1, cls);
    }
}

/// The end of the run of class `cls` in `v` that starts at `start`.
pub fn scan_run(v: &Vec<char>, start: usize, cls: CharClass) -> (end: usize)
    requires
        start <= v@.len(),
    ensures
        end == start + run_len(v@, start as int, cls),
        end <= v@.len(),
{
    let mut j = start;
    while j < v.len() && cls.has(v[j])
        invariant
            start <= j <= v@.len(),
            run_len(v@, start as int, cls) == (j - start) + run_len(v@, j as int, cls),
        decreases v@.len() - j,
    {
        j = j + 1;
    }
    j
}

/// The characters `v[from..to]` as a vector of their own.
pub fn sub_chars(v: &Vec<char>, from: usize, to: usize) -> (r: Vec<char>)
    requires
        from <= to <= v@.len(),
    ensures
        r@ == v@.subrange(from as int, to as int),
{
    let mut r: Vec<char> = Vec::new();
    let mut i = from;
    while i < to
        invariant
            from <= i <= to <= v@.len(),
            r@ == v@.subrange(from as int, i as int),
        decreases to - i,
    {
        r.push(v[i]);
        assert(v@.subrange(from as int, i + 1) == v@.subrange(from as int, i as int).push(
            v@[i as int],
        ));
        i = i + 1;
    }
    r
}

} // verus!
