//! The value grammars: a raw value to a string, a list of strings, a boolean or a number.
use vstd::prelude::*;

use crate::chars::{run_len, scan_run, CharClass};
use crate::locale::strings_view;
use crate::parser::ParseError;
use crate::text::{chars_of, string_of, string_of_range};

verus! {

/// The error of a value that its grammar does not accept.
pub open spec fn value_error() -> ParseError {
    ParseError { line: 1, column: 1 }
}

/// The characters that may follow `\` in a list item.
pub open spec fn is_escape_code(c: char) -> bool {
    c == 's' || c == 'n' || c == 't' || c == 'r' || c == ';' || c == '\\'
}

/// What the escape `\c` stands for.
pub open spec fn unescaped(c: char) -> char {
    if c == 's' {
        ' '
    } else if c == 'n' {
        '\n'
    } else if c == 't' {
        '\t'
    } else if c == 'r' {
        '\r'
    } else {
        c
    }
}

/// Splits `v` from position `i` on at unescaped `;`, decoding escapes; `cur` is the item being
/// read and `done` the items before it.
pub open spec fn scan_items(v: Seq<char>, i: int, cur: Seq<char>, done: Seq<Seq<char>>) -> Seq<
    Seq<char>,
>
    decreases v.len() - i,
{
    if i < 0 || i >= v.len() {
        done.push(cur)
    } else if v[i] == '\\' && i + 1 < v.len() && is_escape_code(v[i + 1]) {
        scan_items(v, i + 2, cur.push(unescaped(v[i + 1])), done)
    } else if v[i] == ';' {
        scan_items(v, i + 1, Seq::empty(), done.push(cur))
    } else {
        scan_items(v, i + 1, cur.push(v[i]), done)
    }
}

/// The items of a string list: split at unescaped `;`, escapes decoded, and a last empty item
/// (left by a trailing `;`) dropped unless it is the only one.
pub open spec fn spec_strings(v: Seq<char>) -> Seq<Seq<char>> {
    let items = scan_items(v, 0, Seq::empty(), Seq::empty());
    if items.len() > 1 && items.last().len() == 0 {
        items.drop_last()
    } else {
        items
    }
}

/// The number a numeric value stands for: sign, integer digits and fraction digits, or `None`
/// where the value is malformed.
pub open spec fn spec_numeric(v: Seq<char>) -> Option<(bool, Seq<char>, Seq<char>)> {
    let sign: int = if v.len() > 0 && (v[0] == '+' || v[0] == '-') {
        1
    } else {
        0
    };
    let negative = sign == 1 && v[0] == '-';
    let d = run_len(v, sign, CharClass::Digit) as int;
    if d == 0 {
        None
    } else if sign + d == v.len() {
        Some((negative, v.subrange(sign, sign + d), Seq::empty()))
    } else if v[sign + d] == '.' && sign + d + 1 + run_len(v, sign + d + 1, CharClass::Digit)
        == v.len() {
        Some((negative, v.subrange(sign, sign + d), v.subrange(sign + d + 1, v.len() as int)))
    } else {
        None
    }
}

/// A decoded numeric value, kept as its decimal digits.
#[derive(Debug, Clone, PartialEq, Eq)]
pub struct Numeric {
    pub negative: bool,
    pub integer_digits: String,
    pub fraction_digits: String,
}

/// A plain string: the value as it stands.
pub fn string(value: &str) -> (r: Result<String, ParseError>)
    ensures
        r matches Ok(s) && s@ == value@,
{
    Ok(value.to_owned())
}

/// A list of strings.
pub fn strings(value: &str) -> (r: Result<Vec<String>, ParseError>)
    ensures
        r matches Ok(items) && strings_view(items@) == spec_strings(value@),
{
    let v = chars_of(value);
    let mut cur: Vec<char> = Vec::new();
    let mut done: Vec<String> = Vec::new();
    let mut i: usize = 0;
    assert(cur@ == Seq::<char>::empty());
    assert(strings_view(done@) == Seq::<Seq<char>>::empty());
    while i < v.len()
        invariant
            v@ == value@,
            i <= v@.len(),
            scan_items(v@, 0, Seq::empty(), Seq::empty()) == scan_items(
                v@,
                i as int,
                cur@,
                strings_view(done@),
            ),
        decreases v@.len() - i,
    {
        let c = v[i];
        if c == '\\' && i + 1 < v.len() && (v[i + 1] == 's' || v[i + 1] == 'n' || v[i + 1] == 't'
            || v[i + 1] == 'r' || v[i + 1] == ';' || v[i + 1] == '\\') {
            let e = v[i + 1];
            let d = if e == 's' {
                ' '
            } else if e == 'n' {
                '\n'
            } else if e == 't' {
                '\t'
            } else if e == 'r' {
                '\r'
            } else {
                e
            };
            cur.push(d);
            i = i + 2;
        } else if c == ';' {
            let item = string_of(&cur);
            let ghost before = strings_view(done@);
            done.push(item);
            assert(strings_view(done@) == before.push(item@));
            cur = Vec::new();
            assert(cur@ == Seq::<char>::empty());
            i = i + 1;
        } else {
            cur.push(c);
            i = i + 1;
        }
    }
    let last_empty = cur.len() == 0;
    let item = string_of(&cur);
    let ghost before = strings_view(done@);
    done.push(item);
    assert(strings_view(done@) == before.push(item@));
    if done.len() > 1 && last_empty {
        done.pop();
        assert(strings_view(done@) == before);
    }
    Ok(done)
}

/// `true` or `false`, nothing else.
pub fn boolean(value: &str) -> (r: Result<bool, ParseError>)
    ensures
        r == if value@ == seq!['t', 'r', 'u', 'e'] {
            Ok::<bool, ParseError>(true)
        } else if value@ == seq!['f', 'a', 'l', 's', 'e'] {
            Ok(false)
        } else {
            Err(value_error())
        },
{
    let v = chars_of(value);
    if v.len() == 4 && v[0] == 't' && v[1] == 'r' && v[2] == 'u' && v[3] == 'e' {
        assert(v@ =~= seq!['t', 'r', 'u', 'e']);
        Ok(true)
    } else if v.len() == 5 && v[0] == 'f' && v[1] == 'a' && v[2] == 'l' && v[3] == 's' && v[4]
        == 'e' {
        assert(v@ =~= seq!['f', 'a', 'l', 's', 'e']);
        Ok(false)
    } else {
        Err(ParseError { line: 1, column: 1 })
    }
}

/// A number: an optional sign, one or more digits, and optionally `.` with zero or more digits.
pub fn numeric(value: &str) -> (r: Result<Numeric, ParseError>)
    ensures
        match spec_numeric(value@) {
            Some((neg, int_digits, frac_digits)) => r matches Ok(n) && n.negative == neg
                && n.integer_digits@ == int_digits && n.fraction_digits@ == frac_digits,
            None => r == Err::<Numeric, ParseError>(value_error()),
        },
{
    let v = chars_of(value);
    let sign: usize = if v.len() > 0 && (v[0] == '+' || v[0] == '-') {
        1
    } else {
        0
    };
    let negative = sign == 1 && v[0] == '-';
    let d_end = scan_run(&v, sign, CharClass::Digit);
    if d_end == sign {
        return Err(ParseError { line: 1, column: 1 });
    }
    if d_end == v.len() {
        return Ok(
            Numeric {
                negative,
                integer_digits: string_of_range(&v, sign, d_end),
                fraction_digits: String::new(),
            },
        );
    }
    if v[d_end] == '.' {
        let f_end = scan_run(&v, d_end + 1, CharClass::Digit);
        if f_end == v.len() {
            return Ok(
                Numeric {
                    negative,
                    integer_digits: string_of_range(&v, sign, d_end),
                    fraction_digits: string_of_range(&v, d_end + 1, f_end),
                },
            );
        }
    }
    Err(ParseError { line: 1, column: 1 })
}

/// A type that a raw value decodes to.
pub trait FromRaw: Sized {
    /// Whether `raw` is a well-formed value of this type.
    spec fn accepts(raw: Seq<char>) -> bool;

    /// Whether `raw` decodes to `v`.
    spec fn decodes(raw: Seq<char>, v: Self) -> bool;

    fn from_raw(raw: &str) -> (r: Result<Self, ParseError>)
        ensures
            r is Ok <==> Self::accepts(raw@),
            r matches Ok(v) ==> Self::decodes(raw@, v),
            r matches Err(e) ==> e == value_error(),
    ;
}

/// Values of the `string`, `localestring` and `iconstring` types.
impl FromRaw for String {
    open spec fn accepts(raw: Seq<char>) -> bool {
        true
    }

    open spec fn decodes(raw: Seq<char>, v: String) -> bool {
        v@ == raw
    }

    fn from_raw(raw: &str) -> (r: Result<String, ParseError>) {
        string(raw)
    }
}

/// Values of the `strings`, `localestrings` and `iconstrings` types.
impl FromRaw for Vec<String> {
    open spec fn accepts(raw: Seq<char>) -> bool {
        true
    }

    open spec fn decodes(raw: Seq<char>, v: Vec<String>) -> bool {
        strings_view(v@) == spec_strings(raw)
    }

    fn from_raw(raw: &str) -> (r: Result<Vec<String>, ParseError>) {
        strings(raw)
    }
}

/// Values of the `boolean` type.
impl FromRaw for bool {
    open spec fn accepts(raw: Seq<char>) -> bool {
        raw == seq!['t', 'r', 'u', 'e'] || raw == seq!['f', 'a', 'l', 's', 'e']
    }

    open spec fn decodes(raw: Seq<char>, v: bool) -> bool {
        v == (raw == seq!['t', 'r', 'u', 'e'])
    }

    fn from_raw(raw: &str) -> (r: Result<bool, ParseError>) {
        boolean(raw)
    }
}

/// Values of the `numeric` type.
impl FromRaw for Numeric {
    open spec fn accepts(raw: Seq<char>) -> bool {
        spec_numeric(raw) is Some
    }

    open spec fn decodes(raw: Seq<char>, v: Numeric) -> bool {
        spec_numeric(raw) == Some((v.negative, v.integer_digits@, v.fraction_digits@))
    }

    fn from_raw(raw: &str) -> (r: Result<Numeric, ParseError>) {
        numeric(raw)
    }
}

/// Decoding a string list is a function of the raw value: two decodings of one value agree.
pub proof fn law_strings_deterministic(raw: Seq<char>, a: Vec<String>, b: Vec<String>)
    requires
        <Vec<String> as FromRaw>::decodes(raw, a),
        <Vec<String> as FromRaw>::decodes(raw, b),
    ensures
        strings_view(a@) == strings_view(b@),
{
}

/// Decoding a plain string is a function of the raw value: two decodings of one value agree.
pub proof fn law_string_deterministic(raw: Seq<char>, a: String, b: String)
    requires
        <String as FromRaw>::decodes(raw, a),
        <String as FromRaw>::decodes(raw, b),
    ensures
        a@ == b@,
{
}

/// Decoding a boolean is a function of the raw value: two decodings of one value agree.
pub proof fn law_boolean_deterministic(raw: Seq<char>, a: bool, b: bool)
    requires
        <bool as FromRaw>::decodes(raw, a),
        <bool as FromRaw>::decodes(raw, b),
    ensures
        a == b,
{
}

/// Decoding a number is a function of the raw value: two decodings of one value agree.
pub proof fn law_numeric_deterministic(raw: Seq<char>, a: Numeric, b: Numeric)
    requires
        <Numeric as FromRaw>::decodes(raw, a),
        <Numeric as FromRaw>::decodes(raw, b),
    ensures
        a.negative == b.negative,
        a.integer_digits@ == b.integer_digits@,
        a.fraction_digits@ == b.fraction_digits@,
{
}

} // verus!
