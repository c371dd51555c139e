//! Schema binding: reading a fixed set of required and optional typed fields of a group, each
//! field by a key, with the first missing required key or malformed value as the error.
use vstd::prelude::*;
use vstd::std_specs::convert::FromSpec;
use core::marker::PhantomData;

use crate::document::{lemma_resolve_single, Group, GroupMap};
use crate::locale::{key_candidates, Key};
use crate::parser::ParseError;
use crate::value::{value_error, FromRaw};

verus! {

/// A required key that the group does not hold.
#[derive(Debug, Clone, Copy, PartialEq, Eq)]
pub struct RequiredKeyMissing(pub &'static str);

/// Marks a field whose key must be present.
pub struct Required<T>(PhantomData<T>);

/// A field kind: how a field is read from a group, with errors of type `E`.
pub trait GroupValue<E> {
    /// What the field holds.
    type Value;

    /// Whether `r` is what reading the field under `key` of `g` gives.
    spec fn reads(g: GroupMap, key: &'static str, r: Result<Self::Value, E>) -> bool;

    fn get_from(group: &Group, key: &'static str) -> (r: Result<Self::Value, E>)
        ensures
            Self::reads(group@, key, r),
    ;
}

/// The field stored under `key` is present and malformed.
pub open spec fn field_bad<V: FromRaw>(g: GroupMap, key: Seq<char>) -> bool {
    g.contains_key(key) && !V::accepts(g[key])
}

/// An optional field holds the decoded value of `key`, or nothing where `key` is absent.
pub open spec fn optional_field<V: FromRaw>(g: GroupMap, key: Seq<char>, field: Option<V>) -> bool {
    if g.contains_key(key) {
        field matches Some(v) && V::decodes(g[key], v)
    } else {
        field is None
    }
}

/// The decoded value of `key`, or nothing where `key` is absent; the decode error as a
/// [`ParseError`].
pub(crate) fn get_optional<V: FromRaw>(group: &Group, key: &str) -> (r: Result<Option<V>, ParseError>)
    ensures
        field_bad::<V>(group@, key@) ==> r == Err::<Option<V>, ParseError>(value_error()),
        !field_bad::<V>(group@, key@) ==> (r matches Ok(f) && optional_field(group@, key@, f)),
{
    let r = group.get::<V, &str>(key);
    proof {
        lemma_resolve_single(group@, key@);
    }
    assert(key_candidates(Key::String(key)) == seq![key@]);
    match r {
        None => Ok(None),
        Some(Ok(v)) => Ok(Some(v)),
        Some(Err(e)) => Err(e),
    }
}

/// An optional field: absent, or present and decoded.
impl<E: From<RequiredKeyMissing> + From<ParseError>, V: FromRaw> GroupValue<E> for Option<V> {
    type Value = Option<V>;

    open spec fn reads(g: GroupMap, key: &'static str, r: Result<Option<V>, E>) -> bool {
        if field_bad::<V>(g, key@) {
            r is Err && (<E as FromSpec<ParseError>>::obeys_from_spec() ==> r == Err::<
                Option<V>,
                E,
            >(<E as FromSpec<ParseError>>::from_spec(value_error())))
        } else {
            r matches Ok(f) && optional_field(g, key@, f)
        }
    }

    fn get_from(group: &Group, key: &'static str) -> (r: Result<Option<V>, E>) {
        match get_optional::<V>(group, key) {
            Ok(f) => Ok(f),
            Err(e) => Err(E::from(e)),
        }
    }
}

/// A required field: present and decoded.
impl<E: From<RequiredKeyMissing> + From<ParseError>, V: FromRaw> GroupValue<E> for Required<V> {
    type Value = V;

    open spec fn reads(g: GroupMap, key: &'static str, r: Result<V, E>) -> bool {
        if !g.contains_key(key@) {
            r is Err && (<E as FromSpec<RequiredKeyMissing>>::obeys_from_spec() ==> r == Err::<
                V,
                E,
            >(<E as FromSpec<RequiredKeyMissing>>::from_spec(RequiredKeyMissing(key))))
        } else if field_bad::<V>(g, key@) {
            r is Err && (<E as FromSpec<ParseError>>::obeys_from_spec() ==> r == Err::<V, E>(
                <E as FromSpec<ParseError>>::from_spec(value_error()),
            ))
        } else {
            r matches Ok(v) && V::decodes(g[key@], v)
        }
    }

    fn get_from(group: &Group, key: &'static str) -> (r: Result<V, E>) {
        match get_optional::<V>(group, key) {
            Ok(Some(v)) => Ok(v),
            Ok(None) => Err(E::from(RequiredKeyMissing(key))),
            Err(e) => Err(E::from(e)),
        }
    }
}

} // verus!
