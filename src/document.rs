//! The document assembler: a sequence of lines to a validated group/key/value document.
use vstd::prelude::*;

use crate::locale::{key_candidates, strings_view, Key};
use crate::value::{value_error, FromRaw};
use crate::parser::{file_lines, spec_lines, views, Line, LineView, ParseError};
use vstd::std_specs::convert::IntoSpec;

verus! {

/// A group: a mapping from complete keys (locale suffix included) to raw values.
#[derive(Debug)]
pub struct Group {
    entries: Vec<(String, String)>,
}

/// A parsed file: a mapping from group names to groups.
#[derive(Debug)]
pub struct DesktopFile {
    groups: Vec<(String, Group)>,
}

/// What can go wrong when a text is read as a document.
#[derive(Debug, Clone, PartialEq, Eq)]
pub enum DesktopFileError {
    /// The text does not follow the line grammar.
    Parse(ParseError),
    /// An entry stands before any group header.
    EntryOutsideOfGroup(String),
    /// A group header names a group that an earlier header opened.
    DuplicateGroup(String),
    /// A key appears twice within one group.
    DuplicateKey(String),
}

/// The mathematical value of a [`DesktopFileError`].
pub enum FileErrorView {
    Parse(ParseError),
    EntryOutsideOfGroup(Seq<char>),
    DuplicateGroup(Seq<char>),
    DuplicateKey(Seq<char>),
}

impl View for DesktopFileError {
    type V = FileErrorView;

    open spec fn view(&self) -> FileErrorView {
        match self {
            DesktopFileError::Parse(e) => FileErrorView::Parse(*e),
            DesktopFileError::EntryOutsideOfGroup(k) => FileErrorView::EntryOutsideOfGroup(k@),
            DesktopFileError::DuplicateGroup(g) => FileErrorView::DuplicateGroup(g@),
            DesktopFileError::DuplicateKey(k) => FileErrorView::DuplicateKey(k@),
        }
    }
}

/// A group's model: key to raw value.
pub type GroupMap = Map<Seq<char>, Seq<char>>;

/// A document's model: group name to group.
pub type DocMap = Map<Seq<char>, GroupMap>;

/// The map that a sequence of named items with distinct names stands for.
pub open spec fn named_map<V: View>(s: Seq<(String, V)>) -> Map<Seq<char>, V::V>
    decreases s.len(),
{
    if s.len() == 0 {
        Map::empty()
    } else {
        named_map(s.drop_last()).insert(s.last().0@, s.last().1@)
    }
}

/// No two items carry the same name.
pub open spec fn distinct_names<V>(s: Seq<(String, V)>) -> bool {
    forall|i: int, j: int| 0 <= i < j < s.len() ==> #[trigger] s[i].0@ != #[trigger] s[j].0@
}

impl View for Group {
    type V = GroupMap;

    closed spec fn view(&self) -> GroupMap {
        named_map(self.entries@)
    }
}

impl View for DesktopFile {
    type V = DocMap;

    closed spec fn view(&self) -> DocMap {
        named_map(self.groups@)
    }
}

impl Group {
    /// No key appears twice.
    #[verifier::type_invariant]
    closed spec fn wf(&self) -> bool {
        distinct_names(self.entries@)
    }
}

impl DesktopFile {
    /// No group name appears twice.
    #[verifier::type_invariant]
    closed spec fn wf(&self) -> bool {
        distinct_names(self.groups@)
    }
}

/// The assembler's state: the groups so far and the group that is open, if any.
pub struct AsmState {
    pub groups: DocMap,
    pub current: Option<Seq<char>>,
}

pub open spec fn initial_state() -> AsmState {
    AsmState { groups: Map::empty(), current: None }
}

/// One step of the assembler.
pub open spec fn step(st: AsmState, line: LineView) -> Result<AsmState, FileErrorView> {
    match line {
        LineView::Blank => Ok(st),
        LineView::Comment(_) => Ok(st),
        LineView::GroupHeader(g) => if st.groups.contains_key(g) {
            Err(FileErrorView::DuplicateGroup(g))
        } else {
            Ok(AsmState { groups: st.groups.insert(g, Map::empty()), current: Some(g) })
        },
        LineView::Entry(k, v) => match st.current {
            None => Err(FileErrorView::EntryOutsideOfGroup(k)),
            Some(g) => if st.groups[g].contains_key(k) {
                Err(FileErrorView::DuplicateKey(k))
            } else {
                Ok(AsmState { groups: st.groups.insert(g, st.groups[g].insert(k, v)), current: Some(g) })
            },
        },
    }
}

/// The assembler run over a whole sequence of lines, stopping at the first error.
pub open spec fn assemble(lines: Seq<LineView>) -> Result<AsmState, FileErrorView>
    decreases lines.len(),
{
    if lines.len() == 0 {
        Ok(initial_state())
    } else {
        match assemble(lines.drop_last()) {
            Ok(st) => step(st, lines.last()),
            Err(e) => Err(e),
        }
    }
}

/// What reading the text `s` as a document gives.
pub open spec fn spec_parse(s: Seq<char>) -> Result<DocMap, FileErrorView> {
    match spec_lines(s) {
        Err(e) => Err(FileErrorView::Parse(e)),
        Ok(lines) => match assemble(lines) {
            Ok(st) => Ok(st.groups),
            Err(e) => Err(e),
        },
    }
}

/// A name that no item carries is not in the map.
proof fn lemma_named_map_absent<V: View>(s: Seq<(String, V)>, k: Seq<char>)
    requires
        forall|i: int| 0 <= i < s.len() ==> (#[trigger] s[i]).0@ != k,
    ensures
        !named_map(s).contains_key(k),
    decreases s.len(),
{
    if s.len() > 0 {
        let d = s.drop_last();
        assert forall|i: int| 0 <= i < d.len() implies (#[trigger] d[i]).0@ != k by {
            assert(d[i] == s[i]);
        }
        lemma_named_map_absent(d, k);
        assert(s[s.len() - 1] == s.last());
    }
}

/// With distinct names, the `i`-th item is the map's value for its name.
proof fn lemma_named_map_value<V: View>(s: Seq<(String, V)>, i: int)
    requires
        0 <= i < s.len(),
        distinct_names(s),
    ensures
        named_map(s).contains_key(s[i].0@),
        named_map(s)[s[i].0@] == s[i].1@,
    decreases s.len(),
{
    if i < s.len() - 1 {
        let d = s.drop_last();
        assert(d[i] == s[i]);
        assert forall|a: int, b: int| 0 <= a < b < d.len() implies #[trigger] d[a].0@
            != #[trigger] d[b].0@ by {
            assert(d[a] == s[a] && d[b] == s[b]);
        }
        lemma_named_map_value(d, i);
        assert(s[i].0@ != s[s.len() - 1].0@);
    }
}

/// The index of the pair whose key is `key`, if any.
fn find_key(entries: &Vec<(String, String)>, key: &String) -> (r: Option<usize>)
    ensures
        match r {
            Some(i) => i < entries@.len() && entries@[i as int].0@ == key@,
            None => forall|i: int| 0 <= i < entries@.len() ==> (#[trigger] entries@[i]).0@ != key@,
        },
{
    let mut i: usize = 0;
    while i < entries.len()
        invariant
            i <= entries@.len(),
            forall|j: int| 0 <= j < i ==> (#[trigger] entries@[j]).0@ != key@,
        decreases entries@.len() - i,
    {
        if entries[i].0 == *key {
            return Some(i);
        }
        i = i + 1;
    }
    None
}

fn find_group(groups: &Vec<(String, Group)>, name: &String) -> (r: Option<usize>)
    ensures
        match r {
            Some(i) => i < groups@.len() && groups@[i as int].0@ == name@,
            None => forall|i: int| 0 <= i < groups@.len() ==> (#[trigger] groups@[i]).0@ != name@,
        },
{
    let mut i: usize = 0;
    while i < groups.len()
        invariant
            i <= groups@.len(),
            forall|j: int| 0 <= j < i ==> (#[trigger] groups@[j]).0@ != name@,
        decreases groups@.len() - i,
    {
        if groups[i].0 == *name {
            return Some(i);
        }
        i = i + 1;
    }
    None
}

impl Group {
    fn new() -> (r: Group)
        ensures
            r@ == Map::<Seq<char>, Seq<char>>::empty(),
    {
        Group { entries: Vec::new() }
    }

    /// Adds `key` with `value` unless `key` is there already; tells whether it was added.
    fn insert_new(self, key: String, value: String) -> (r: (Group, bool))
        ensures
            r.1 == !self@.contains_key(key@),
            r.1 ==> r.0@ == self@.insert(key@, value@),
            !r.1 ==> r.0@ == self@,
    {
        proof {
            use_type_invariant(&self);
        }
        let Group { entries } = self;
        let mut entries = entries;
        match find_key(&entries, &key) {
            Some(i) => {
                proof {
                    lemma_named_map_value(entries@, i as int);
                }
                (Group { entries }, false)
            },
            None => {
                proof {
                    lemma_named_map_absent(entries@, key@);
                }
                let ghost before = entries@;
                entries.push((key, value));
                proof {
                    assert(entries@.drop_last() == before);
                    assert forall|i: int, j: int|
                        0 <= i < j < entries@.len() implies #[trigger] entries@[i].0@
                        != #[trigger] entries@[j].0@ by {
                        if j == entries@.len() - 1 {
                            assert(before[i] == entries@[i]);
                        } else {
                            assert(before[i] == entries@[i] && before[j] == entries@[j]);
                        }
                    }
                }
                (Group { entries }, true)
            },
        }
    }
}

/// Once the assembler has failed on a prefix, it fails the same way on the whole sequence.
proof fn lemma_assemble_stops(ls: Seq<LineView>, n: int, e: FileErrorView)
    requires
        0 <= n <= ls.len(),
        assemble(ls.take(n)) == Err::<AsmState, FileErrorView>(e),
    ensures
        assemble(ls) == Err::<AsmState, FileErrorView>(e),
    decreases ls.len() - n,
{
    if n < ls.len() {
        assert(ls.take(n + 1).drop_last() == ls.take(n));
        lemma_assemble_stops(ls, n + 1, e);
    } else {
        assert(ls.take(n) == ls);
    }
}

impl DesktopFile {
    /// Reads `s` as a document: its lines by the line grammar, then assembled into groups, with
    /// the first error that either step meets.
    pub fn parse(s: &str) -> (r: Result<DesktopFile, DesktopFileError>)
        ensures
            match spec_parse(s@) {
                Ok(doc) => r matches Ok(f) && f@ == doc,
                Err(e) => r matches Err(re) && re@ == e,
            },
    {
        let lines = match file_lines(s) {
            Ok(lines) => lines,
            Err(e) => {
                return Err(DesktopFileError::Parse(e));
            },
        };
        let ghost ls = views(lines@);
        let mut groups: Vec<(String, Group)> = Vec::new();
        let mut open = false;
        let mut i: usize = 0;
        while i < lines.len()
            invariant
                ls == views(lines@),
                spec_lines(s@) == Ok::<Seq<LineView>, ParseError>(ls),
                i <= lines@.len(),
                distinct_names(groups@),
                open ==> groups@.len() > 0,
                assemble(ls.take(i as int)) == Ok::<AsmState, FileErrorView>(
                    AsmState {
                        groups: named_map(groups@),
                        current: if open {
                            Some(groups@.last().0@)
                        } else {
                            None
                        },
                    },
                ),
            decreases lines@.len() - i,
        {
            let ghost st = AsmState {
                groups: named_map(groups@),
                current: if open {
                    Some(groups@.last().0@)
                } else {
                    None
                },
            };
            assert(ls.take(i + 1).drop_last() == ls.take(i as int));
            assert(ls.take(i + 1).last() == lines@[i as int]@);
            match &lines[i] {
                Line::Blank => {},
                Line::Comment(_) => {},
                Line::GroupHeader(g) => {
                    match find_group(&groups, g) {
                        Some(j) => {
                            proof {
                                lemma_named_map_value(groups@, j as int);
                            }
                            let err = DesktopFileError::DuplicateGroup(g.clone());
                            proof {
                                lemma_assemble_stops(ls, i + 1, err@);
                            }
                            return Err(err);
                        },
                        None => {
                            proof {
                                lemma_named_map_absent(groups@, g@);
                            }
                            let ghost before = groups@;
                            groups.push((g.clone(), Group::new()));
                            proof {
                                assert(groups@.drop_last() == before);
                                assert forall|a: int, b: int|
                                    0 <= a < b < groups@.len() implies #[trigger] groups@[a].0@
                                    != #[trigger] groups@[b].0@ by {
                                    assert(before[a] == groups@[a]);
                                    if b < before.len() {
                                        assert(before[b] == groups@[b]);
                                    }
                                }
                            }
                            open = true;
                        },
                    }
                },
                Line::Entry(k, v) => {
                    if !open {
                        let err = DesktopFileError::EntryOutsideOfGroup(k.clone());
                        proof {
                            lemma_assemble_stops(ls, i + 1, err@);
                        }
                        return Err(err);
                    }
                    let li = groups.len() - 1;
                    proof {
                        lemma_named_map_value(groups@, li as int);
                    }
                    let ghost before = groups@;
                    let (name, grp) = groups.pop().unwrap();
                    assert(groups@ == before.drop_last());
                    let (grp, added) = grp.insert_new(k.clone(), v.clone());
                    if !added {
                        let err = DesktopFileError::DuplicateKey(k.clone());
                        proof {
                            lemma_assemble_stops(ls, i + 1, err@);
                        }
                        return Err(err);
                    }
                    groups.push((name, grp));
                    proof {
                        assert(groups@.drop_last() == before.drop_last());
                        assert forall|a: int, b: int|
                            0 <= a < b < groups@.len() implies #[trigger] groups@[a].0@
                            != #[trigger] groups@[b].0@ by {
                            assert(before[a].0 == groups@[a].0);
                            assert(before[b].0 == groups@[b].0);
                        }
                        assert(named_map(groups@) =~= st.groups.insert(
                            name@,
                            st.groups[name@].insert(k@, v@),
                        ));
                    }
                },
            }
            i = i + 1;
        }
        assert(ls.take(lines@.len() as int) == ls);
        Ok(DesktopFile { groups })
    }
}

/// A name in the map is carried by some item.
proof fn lemma_named_map_present<V: View>(s: Seq<(String, V)>, k: Seq<char>) -> (i: int)
    requires
        named_map(s).contains_key(k),
    ensures
        0 <= i < s.len(),
        s[i].0@ == k,
    decreases s.len(),
{
    if s.len() == 0 {
        0
    } else if s.last().0@ == k {
        s.len() - 1
    } else {
        let i = lemma_named_map_present(s.drop_last(), k);
        assert(s.drop_last()[i] == s[i]);
        i
    }
}

/// The raw value of the first of `keys` that `g` holds, if any.
pub open spec fn resolve(g: GroupMap, keys: Seq<Seq<char>>) -> Option<Seq<char>>
    decreases keys.len(),
{
    if keys.len() == 0 {
        None
    } else if g.contains_key(keys[0]) {
        Some(g[keys[0]])
    } else {
        resolve(g, keys.drop_first())
    }
}

/// Looking up one plain key finds its value, if the group holds it.
pub proof fn lemma_resolve_single(g: GroupMap, k: Seq<char>)
    ensures
        resolve(g, seq![k]) == if g.contains_key(k) {
            Some(g[k])
        } else {
            None::<Seq<char>>
        },
{
    assert(seq![k].drop_first() =~= Seq::<Seq<char>>::empty());
    assert(resolve(g, seq![k].drop_first()) == None::<Seq<char>>);
    assert(seq![k][0] == k);
}

impl Group {
    /// The raw value stored under the complete key `key`.
    fn lookup(&self, key: &String) -> (r: Option<&String>)
        ensures
            match r {
                Some(v) => self@.contains_key(key@) && v@ == self@[key@],
                None => !self@.contains_key(key@),
            },
    {
        proof {
            use_type_invariant(self);
        }
        match find_key(&self.entries, key) {
            Some(i) => {
                proof {
                    lemma_named_map_value(self.entries@, i as int);
                }
                Some(&self.entries[i].1)
            },
            None => {
                proof {
                    lemma_named_map_absent(self.entries@, key@);
                }
                None
            },
        }
    }

    /// The raw value of the first candidate key of `key` that the group holds: the key itself
    /// for a plain key, the locale fallbacks in order for a localized one.
    pub fn get_raw<'k, K: Into<Key<'k>>>(&self, key: K) -> (r: Option<&str>)
        ensures
            <K as IntoSpec<Key<'k>>>::obeys_into_spec() ==> match resolve(
                self@,
                key_candidates(key.into_spec()),
            ) {
                Some(v) => r matches Some(x) && x@ == v,
                None => r is None,
            },
    {
        let ghost given = key;
        let k: Key<'k> = key.into();
        assert(<K as IntoSpec<Key<'k>>>::obeys_into_spec() ==> k == given.into_spec());
        let keys = k.candidate_keys();
        let ghost ks = strings_view(keys@);
        assert(ks.skip(0) == ks);
        let mut i: usize = 0;
        while i < keys.len()
            invariant
                i <= keys@.len(),
                ks == strings_view(keys@),
                ks == key_candidates(k),
                given == key,
                <K as IntoSpec<Key<'k>>>::obeys_into_spec() ==> k == given.into_spec(),
                resolve(self@, ks) == resolve(self@, ks.skip(i as int)),
            decreases keys@.len() - i,
        {
            assert(ks.skip(i as int)[0] == keys@[i as int]@);
            match self.lookup(&keys[i]) {
                Some(v) => {
                    assert(resolve(self@, ks.skip(i as int)) == Some(v@));
                    return Some(v.as_str());
                },
                None => {
                    assert(ks.skip(i as int).drop_first() == ks.skip(i + 1));
                },
            }
            i = i + 1;
        }
        None
    }

    /// The value that [`Group::get_raw`] finds for `key`, decoded as a `V`; a decode failure is
    /// told apart from a missing key.
    pub fn get<'k, V: FromRaw, K: Into<Key<'k>>>(&self, key: K) -> (r: Option<Result<V, ParseError>>)
        ensures
            <K as IntoSpec<Key<'k>>>::obeys_into_spec() ==> match resolve(
                self@,
                key_candidates(key.into_spec()),
            ) {
                Some(raw) => r matches Some(x) && (x is Ok <==> V::accepts(raw)) && (x matches Ok(
                    v,
                ) ==> V::decodes(raw, v)) && (x matches Err(e) ==> e == value_error()),
                None => r is None,
            },
    {
        match self.get_raw(key) {
            Some(raw) => Some(V::from_raw(raw)),
            None => None,
        }
    }

    /// All entries, as key/value pairs, in no particular order.
    pub fn entries(&self) -> (r: Vec<(&str, &str)>)
        ensures
            forall|i: int, j: int| 0 <= i < j < r@.len() ==> #[trigger] r@[i].0@ != #[trigger] r@[j].0@,
            forall|i: int|
                0 <= i < r@.len() ==> self@.contains_key((#[trigger] r@[i]).0@) && self@[r@[i].0@]
                    == r@[i].1@,
            forall|k: Seq<char>|
                #[trigger] self@.contains_key(k) ==> exists|i: int| 0 <= i < r@.len() && (#[trigger] r@[i]).0@ == k,
    {
        proof {
            use_type_invariant(self);
        }
        let mut out: Vec<(&str, &str)> = Vec::new();
        let mut i: usize = 0;
        while i < self.entries.len()
            invariant
                i <= self.entries@.len(),
                distinct_names(self.entries@),
                out@.len() == i,
                forall|j: int| 0 <= j < i ==> (#[trigger] out@[j]).0@ == self.entries@[j].0@ && out@[j].1@ == self.entries@[j].1@,
            decreases self.entries@.len() - i,
        {
            out.push((self.entries[i].0.as_str(), self.entries[i].1.as_str()));
            i = i + 1;
        }
        proof {
            assert forall|a: int| 0 <= a < out@.len() implies self@.contains_key((#[trigger] out@[a]).0@) && self@[out@[a].0@] == out@[a].1@ by {
                lemma_named_map_value(self.entries@, a);
            }
            assert forall|k: Seq<char>| #[trigger] self@.contains_key(k) implies exists|a: int| 0 <= a < out@.len() && (#[trigger] out@[a]).0@ == k by {
                let a = lemma_named_map_present(self.entries@, k);
                assert(out@[a].0@ == k);
            }
        }
        out
    }
}

impl DesktopFile {
    /// The group named `group_name`, if the document has one.
    pub fn group(&self, group_name: &str) -> (r: Option<&Group>)
        ensures
            match r {
                Some(g) => self@.contains_key(group_name@) && g@ == self@[group_name@],
                None => !self@.contains_key(group_name@),
            },
    {
        proof {
            use_type_invariant(self);
        }
        let name = group_name.to_owned();
        match find_group(&self.groups, &name) {
            Some(i) => {
                proof {
                    lemma_named_map_value(self.groups@, i as int);
                }
                Some(&self.groups[i].1)
            },
            None => {
                proof {
                    lemma_named_map_absent(self.groups@, name@);
                }
                None
            },
        }
    }

    /// All groups with their names, in no particular order.
    pub fn groups(&self) -> (r: Vec<(&str, &Group)>)
        ensures
            forall|i: int, j: int| 0 <= i < j < r@.len() ==> #[trigger] r@[i].0@ != #[trigger] r@[j].0@,
            forall|i: int|
                0 <= i < r@.len() ==> self@.contains_key((#[trigger] r@[i]).0@) && self@[r@[i].0@]
                    == r@[i].1@,
            forall|k: Seq<char>|
                #[trigger] self@.contains_key(k) ==> exists|i: int| 0 <= i < r@.len() && (#[trigger] r@[i]).0@ == k,
    {
        proof {
            use_type_invariant(self);
        }
        let mut out: Vec<(&str, &Group)> = Vec::new();
        let mut i: usize = 0;
        while i < self.groups.len()
            invariant
                i <= self.groups@.len(),
                distinct_names(self.groups@),
                out@.len() == i,
                forall|j: int| 0 <= j < i ==> (#[trigger] out@[j]).0@ == self.groups@[j].0@ && out@[j].1@ == self.groups@[j].1@,
            decreases self.groups@.len() - i,
        {
            out.push((self.groups[i].0.as_str(), &self.groups[i].1));
            i = i + 1;
        }
        proof {
            assert forall|a: int| 0 <= a < out@.len() implies self@.contains_key((#[trigger] out@[a]).0@) && self@[out@[a].0@] == out@[a].1@ by {
                lemma_named_map_value(self.groups@, a);
            }
            assert forall|k: Seq<char>| #[trigger] self@.contains_key(k) implies exists|a: int| 0 <= a < out@.len() && (#[trigger] out@[a]).0@ == k by {
                let a = lemma_named_map_present(self.groups@, k);
                assert(out@[a].0@ == k);
            }
        }
        out
    }
}

/// Keys are unique per group only: two groups may each hold the same key.
pub proof fn law_key_scope_per_group(
    g1: Seq<char>,
    g2: Seq<char>,
    k: Seq<char>,
    v1: Seq<char>,
    v2: Seq<char>,
)
    requires
        g1 != g2,
    ensures
        assemble(
            seq![
                LineView::GroupHeader(g1),
                LineView::Entry(k, v1),
                LineView::GroupHeader(g2),
                LineView::Entry(k, v2),
            ],
        ) == Ok::<AsmState, FileErrorView>(
            AsmState {
                groups: Map::<Seq<char>, GroupMap>::empty().insert(
                    g1,
                    Map::empty().insert(k, v1),
                ).insert(g2, Map::empty().insert(k, v2)),
                current: Some(g2),
            },
        ),
{
    let ls = seq![
        LineView::GroupHeader(g1),
        LineView::Entry(k, v1),
        LineView::GroupHeader(g2),
        LineView::Entry(k, v2),
    ];
    let l3 = ls.drop_last();
    let l2 = l3.drop_last();
    let l1 = l2.drop_last();
    assert(l1.drop_last() =~= Seq::<LineView>::empty());
    assert(l1.last() == LineView::GroupHeader(g1));
    assert(l2.last() == LineView::Entry(k, v1));
    assert(l3.last() == LineView::GroupHeader(g2));
    assert(ls.last() == LineView::Entry(k, v2));
    let m1 = Map::<Seq<char>, GroupMap>::empty().insert(g1, Map::empty());
    let m2 = m1.insert(g1, Map::<Seq<char>, Seq<char>>::empty().insert(k, v1));
    assert(m2 =~= Map::<Seq<char>, GroupMap>::empty().insert(g1, Map::empty().insert(k, v1)));
    let m3 = m2.insert(g2, Map::empty());
    assert(!m2.contains_key(g2));
    assert(m3[g2] == Map::<Seq<char>, Seq<char>>::empty());
    assert(m3.insert(g2, m3[g2].insert(k, v2)) =~= m2.insert(g2, Map::empty().insert(k, v2)));
    assert(assemble(l1.drop_last()) == Ok::<AsmState, FileErrorView>(initial_state()));
    assert(assemble(l1) == Ok::<AsmState, FileErrorView>(AsmState { groups: m1, current: Some(g1) }));
    assert(m1[g1] == Map::<Seq<char>, Seq<char>>::empty());
    assert(assemble(l2) == Ok::<AsmState, FileErrorView>(AsmState { groups: m2, current: Some(g1) }));
    assert(assemble(l3) == Ok::<AsmState, FileErrorView>(AsmState { groups: m3, current: Some(g2) }));
}

} // verus!
