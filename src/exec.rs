//! The command-line grammar: an `Exec`-style value to a program and its arguments.
//!
//! The program is the first run of non-space characters, taken as it stands. Each argument
//! follows a single space and is, in this order: a placeholder code (`%` and one more
//! character; `%%` stands for a literal `%`), a quoted literal (`"…"`, where `\` makes the next
//! character literal), or a bare literal (a run of non-space characters). A quote that is not
//! closed, or that is closed before the end of its argument, is an error; so is an empty
//! program or argument.
use vstd::prelude::*;

use crate::chars::{run_len, scan_run, CharClass};
use crate::parser::ParseError;
use crate::text::{chars_of, string_of, string_of_range};
use crate::value::{value_error, FromRaw};

verus! {

/// One argument of a command line.
#[derive(Debug, Clone, PartialEq, Eq)]
pub enum ExecArgument {
    /// Literal text.
    String(String),
    /// A placeholder code such as `%f` or `%U`, by its letter.
    FieldCode(char),
}

/// A decoded command line.
#[derive(Debug, Clone, PartialEq, Eq)]
pub struct Exec {
    pub program: String,
    pub arguments: Vec<ExecArgument>,
}

/// The mathematical value of an [`ExecArgument`].
pub enum ArgView {
    String(Seq<char>),
    FieldCode(char),
}

impl View for ExecArgument {
    type V = ArgView;

    open spec fn view(&self) -> ArgView {
        match self {
            ExecArgument::String(s) => ArgView::String(s@),
            ExecArgument::FieldCode(c) => ArgView::FieldCode(*c),
        }
    }
}

pub open spec fn arg_views(a: Seq<ExecArgument>) -> Seq<ArgView> {
    a.map_values(|x: ExecArgument| x@)
}

/// The interior of a quoted literal read from `j` on (after the opening quote), with `acc`
/// read so far: the decoded text and the position after the closing quote, or `None` where the
/// quote is not closed.
pub open spec fn spec_quoted(v: Seq<char>, j: int, acc: Seq<char>) -> Option<(Seq<char>, int)>
    decreases v.len() - j,
{
    if j < 0 || j >= v.len() {
        None
    } else if v[j] == '"' {
        Some((acc, j + 1))
    } else if v[j] == '\\' {
        if j + 1 < v.len() {
            spec_quoted(v, j + 2, acc.push(v[j + 1]))
        } else {
            None
        }
    } else {
        spec_quoted(v, j + 1, acc.push(v[j]))
    }
}

/// The argument that starts at `i`, and where it ends.
pub open spec fn spec_arg(v: Seq<char>, i: int) -> Option<(ArgView, int)> {
    if 0 <= i < v.len() && v[i] == '"' {
        match spec_quoted(v, i + 1, Seq::empty()) {
            Some((t, e)) => if e == v.len() || v[e] == ' ' {
                Some((ArgView::String(t), e))
            } else {
                None
            },
            None => None,
        }
    } else {
        let t = run_len(v, i, CharClass::NotSpace) as int;
        if t == 0 {
            None
        } else if t == 2 && v[i] == '%' {
            if v[i + 1] == '%' {
                Some((ArgView::String(seq!['%']), i + 2))
            } else {
                Some((ArgView::FieldCode(v[i + 1]), i + 2))
            }
        } else {
            Some((ArgView::String(v.subrange(i, i + t)), i + t))
        }
    }
}

/// The arguments from `i` on, after the arguments `acc`.
pub open spec fn spec_args(v: Seq<char>, i: int, acc: Seq<ArgView>) -> Option<Seq<ArgView>>
    decreases v.len() - i,
{
    match spec_arg(v, i) {
        None => None,
        Some((a, e)) => if e <= i || e >= v.len() {
            Some(acc.push(a))
        } else {
            spec_args(v, e + 1, acc.push(a))
        },
    }
}

/// Program and arguments of a command line, or `None` where it is malformed.
pub open spec fn spec_exec(v: Seq<char>) -> Option<(Seq<char>, Seq<ArgView>)> {
    let p = run_len(v, 0, CharClass::NotSpace) as int;
    if p == 0 {
        None
    } else if p == v.len() {
        Some((v, Seq::empty()))
    } else {
        match spec_args(v, p + 1, Seq::empty()) {
            Some(args) => Some((v.subrange(0, p), args)),
            None => None,
        }
    }
}

fn quoted_at(v: &Vec<char>, start: usize) -> (r: Option<(String, usize)>)
    requires
        start <= v@.len(),
    ensures
        match spec_quoted(v@, start as int, Seq::empty()) {
            Some((t, e)) => r matches Some((s, re)) && s@ == t && re == e && start < e <= v@.len(),
            None => r is None,
        },
{
    let mut acc: Vec<char> = Vec::new();
    let mut j = start;
    assert(acc@ == Seq::<char>::empty());
    while j < v.len()
        invariant
            start <= j <= v@.len() + 1,
            spec_quoted(v@, start as int, Seq::empty()) == spec_quoted(v@, j as int, acc@),
        decreases v@.len() - j,
    {
        let c = v[j];
        if c == '"' {
            return Some((string_of(&acc), j + 1));
        } else if c == '\\' {
            if j + 1 < v.len() {
                acc.push(v[j + 1]);
                j = j + 2;
            } else {
                return None;
            }
        } else {
            acc.push(c);
            j = j + 1;
        }
    }
    None
}

fn arg_at(v: &Vec<char>, i: usize) -> (r: Option<(ExecArgument, usize)>)
    requires
        i <= v@.len(),
    ensures
        match spec_arg(v@, i as int) {
            Some((a, e)) => r matches Some((x, re)) && x@ == a && re == e && i < e <= v@.len(),
            None => r is None,
        },
{
    if i < v.len() && v[i] == '"' {
        match quoted_at(v, i + 1) {
            Some((t, e)) => if e == v.len() || v[e] == ' ' {
                Some((ExecArgument::String(t), e))
            } else {
                None
            },
            None => None,
        }
    } else {
        let end = scan_run(v, i, CharClass::NotSpace);
        if end == i {
            None
        } else if end - i == 2 && v[i] == '%' {
            if v[i + 1] == '%' {
                let mut s = String::new();
                crate::text::push_char(&mut s, '%');
                assert(s@ =~= seq!['%']);
                Some((ExecArgument::String(s), i + 2))
            } else {
                Some((ExecArgument::FieldCode(v[i + 1]), i + 2))
            }
        } else {
            Some((ExecArgument::String(string_of_range(v, i, end)), end))
        }
    }
}

impl Exec {
    /// Decodes a command line into its program and arguments.
    pub fn from_value(value: &str) -> (r: Result<Exec, ParseError>)
        ensures
            match spec_exec(value@) {
                Some((p, args)) => r matches Ok(x) && x.program@ == p && arg_views(x.arguments@)
                    == args,
                None => r == Err::<Exec, ParseError>(value_error()),
            },
    {
        let v = chars_of(value);
        let p = scan_run(&v, 0, CharClass::NotSpace);
        if p == 0 {
            return Err(ParseError { line: 1, column: 1 });
        }
        if p == v.len() {
            assert(v@.subrange(0, p as int) == v@);
            return Ok(Exec { program: string_of(&v), arguments: Vec::new() });
        }
        let mut args: Vec<ExecArgument> = Vec::new();
        let mut i = p + 1;
        assert(arg_views(args@) == Seq::<ArgView>::empty());
        loop
            invariant
                v@ == value@,
                p < i <= v@.len(),
                0 < p < v@.len(),
                p == run_len(v@, 0, CharClass::NotSpace),
                spec_args(v@, p + 1, Seq::empty()) == spec_args(v@, i as int, arg_views(args@)),
            decreases v@.len() - i,
        {
            match arg_at(&v, i) {
                None => {
                    return Err(ParseError { line: 1, column: 1 });
                },
                Some((a, e)) => {
                    let ghost before = arg_views(args@);
                    args.push(a);
                    assert(arg_views(args@) == before.push(a@));
                    if e >= v.len() {
                        return Ok(Exec { program: string_of_range(&v, 0, p), arguments: args });
                    }
                    i = e + 1;
                },
            }
        }
    }
}

/// Command-line values, such as that of the `Exec` key.
impl FromRaw for Exec {
    open spec fn accepts(raw: Seq<char>) -> bool {
        spec_exec(raw) is Some
    }

    open spec fn decodes(raw: Seq<char>, v: Exec) -> bool {
        spec_exec(raw) == Some((v.program@, arg_views(v.arguments@)))
    }

    fn from_raw(raw: &str) -> (r: Result<Exec, ParseError>) {
        Exec::from_value(raw)
    }
}

/// Decoding a command line is a function of the raw value: two decodings of one value agree.
pub proof fn law_exec_deterministic(raw: Seq<char>, a: Exec, b: Exec)
    requires
        <Exec as FromRaw>::decodes(raw, a),
        <Exec as FromRaw>::decodes(raw, b),
    ensures
        a.program@ == b.program@,
        arg_views(a.arguments@) == arg_views(b.arguments@),
{
}

} // verus!
