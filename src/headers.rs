//! HTTP headers: the validity rules of names and values, the (name, value)
//! pairs of an `http::HeaderMap` and the trusted calls that change one.
use vstd::prelude::*;
use crate::text::chars_of;
use vstd::string::StringSliceAdditionalSpecFns;

verus! {

/// The abstract value of a header list.
pub type HeaderSeq = Seq<(Seq<char>, Seq<u8>)>;

/// A character allowed in a header name or a method token.
pub open spec fn token_char(c: char) -> bool {
    ('a' <= c && c <= 'z') || ('A' <= c && c <= 'Z') || ('0' <= c && c <= '9') || c == '!' || c
        == '#' || c == '$' || c == '%' || c == '&' || c == '\'' || c == '*' || c == '+' || c == '-'
        || c == '.' || c == '^' || c == '_' || c == '`' || c == '|' || c == '~'
}

/// ASCII lower case of one character.
pub open spec fn lower_char(c: char) -> char {
    if 'A' <= c && c <= 'Z' {
        ((c as u32 + 32) as u8) as char
    } else {
        c
    }
}

/// ASCII upper case of one character.
pub open spec fn upper_char(c: char) -> char {
    if 'a' <= c && c <= 'z' {
        ((c as u32 - 32) as u8) as char
    } else {
        c
    }
}

/// A valid header name: one to 65535 token characters.
pub open spec fn valid_header_name(s: Seq<char>) -> bool {
    0 < s.len() <= 65535 && forall|i: int| 0 <= i < s.len() ==> token_char(#[trigger] s[i])
}

/// A character that a received header name may hold: a token character,
/// or `"`, which HTTP/2 header names may carry.
pub open spec fn received_name_char(c: char) -> bool {
    token_char(c) || c == '"'
}

/// A header name as `http::HeaderName` holds it: one to 65535 characters,
/// each a received-name character, in lower case.
pub open spec fn held_header_name(s: Seq<char>) -> bool {
    &&& 0 < s.len() <= 65535
    &&& forall|i: int| 0 <= i < s.len() ==> received_name_char(#[trigger] s[i])
    &&& s == s.map_values(|c: char| lower_char(c))
}

/// A byte allowed in a header value.
pub open spec fn header_value_byte(b: u8) -> bool {
    (b >= 32 && b != 127) || b == 9
}

/// A valid header value.
pub open spec fn valid_header_value(b: Seq<u8>) -> bool {
    forall|i: int| 0 <= i < b.len() ==> header_value_byte(#[trigger] b[i])
}

pub fn is_token_char(c: char) -> (r: bool)
    ensures
        r == token_char(c),
{
    ('a' <= c && c <= 'z') || ('A' <= c && c <= 'Z') || ('0' <= c && c <= '9') || c == '!' || c
        == '#' || c == '$' || c == '%' || c == '&' || c == '\'' || c == '*' || c == '+' || c == '-'
        || c == '.' || c == '^' || c == '_' || c == '`' || c == '|' || c == '~'
}

pub fn to_lower_char(c: char) -> (r: char)
    ensures
        r == lower_char(c),
{
    if 'A' <= c && c <= 'Z' {
        ((c as u32 + 32) as u8) as char
    } else {
        c
    }
}

pub fn to_upper_char(c: char) -> (r: char)
    ensures
        r == upper_char(c),
{
    if 'a' <= c && c <= 'z' {
        ((c as u32 - 32) as u8) as char
    } else {
        c
    }
}

/// The canonical form of a header name: its ASCII lower case, or `None`
/// when it is not a valid header name.
pub fn header_name(s: &str) -> (r: Option<String>)
    ensures
        r is Some <==> valid_header_name(s@),
        r is Some ==> r->0@ == s@.map_values(|c: char| lower_char(c)),
{
    let cs = chars_of(s);
    if cs.len() == 0 || cs.len() > 65535 {
        return None;
    }
    let mut out: Vec<char> = Vec::new();
    let mut i: usize = 0;
    while i < cs.len()
        invariant
            i <= cs@.len(),
            cs@ == s@,
            out@ == cs@.subrange(0, i as int).map_values(|c: char| lower_char(c)),
            forall|j: int| 0 <= j < i ==> token_char(#[trigger] cs@[j]),
        decreases cs@.len() - i,
    {
        if !is_token_char(cs[i]) {
            return None;
        }
        out.push(to_lower_char(cs[i]));
        i += 1;
        proof {
            assert(out@ =~= cs@.subrange(0, i as int).map_values(|c: char| lower_char(c)));
        }
    }
    proof {
        assert(cs@.subrange(0, i as int) =~= cs@);
    }
    Some(crate::text::string_of(&out))
}

/// The bytes of a header value, or `None` when some byte is not allowed.
pub fn header_value(s: &str) -> (r: Option<Vec<u8>>)
    ensures
        r is Some <==> valid_header_value(s.spec_bytes()),
        r is Some ==> r->0@ == s.spec_bytes(),
{
    let b = s.as_bytes();
    let mut out: Vec<u8> = Vec::new();
    let mut i: usize = 0;
    while i < b.len()
        invariant
            i <= b@.len(),
            b@ == s.spec_bytes(),
            out@ == b@.subrange(0, i as int),
            forall|j: int| 0 <= j < i ==> header_value_byte(#[trigger] b@[j]),
        decreases b@.len() - i,
    {
        let x = b[i];
        if !((x >= 32 && x != 127) || x == 9) {
            return None;
        }
        out.push(x);
        i += 1;
        proof {
            assert(out@ =~= b@.subrange(0, i as int));
        }
    }
    proof {
        assert(b@.subrange(0, i as int) =~= b@);
    }
    Some(out)
}

/// The values under `name`, in order.
pub open spec fn values_of(hs: HeaderSeq, name: Seq<char>) -> Seq<Seq<u8>>
    decreases hs.len(),
{
    if hs.len() == 0 {
        seq![]
    } else {
        let rest = values_of(hs.drop_last(), name);
        if hs.last().0 == name {
            rest.push(hs.last().1)
        } else {
            rest
        }
    }
}

/// Whether some entry is named `name`.
pub open spec fn has_name(hs: HeaderSeq, name: Seq<char>) -> bool {
    exists|i: int| 0 <= i < hs.len() && (#[trigger] hs[i]).0 == name
}

/// The distinct names, in order of first appearance.
pub open spec fn names_of(hs: HeaderSeq) -> Seq<Seq<char>>
    decreases hs.len(),
{
    if hs.len() == 0 {
        seq![]
    } else {
        let rest = names_of(hs.drop_last());
        if rest.contains(hs.last().0) {
            rest
        } else {
            rest.push(hs.last().0)
        }
    }
}

/// The walk behind `inserted`: entries named `name` give way to one
/// `(name, value)` at the place of the first; the flag says whether it was placed.
pub open spec fn insert_walk(hs: HeaderSeq, name: Seq<char>, value: Seq<u8>) -> (HeaderSeq, bool)
    decreases hs.len(),
{
    if hs.len() == 0 {
        (seq![], false)
    } else {
        let (out, placed) = insert_walk(hs.drop_last(), name, value);
        let e = hs.last();
        if e.0 == name {
            if placed {
                (out, true)
            } else {
                (out.push((name, value)), true)
            }
        } else {
            (out.push(e), placed)
        }
    }
}

/// The list after inserting `(name, value)`: every earlier value of `name`
/// is replaced by this one, which takes the place of the first; a new name
/// goes last.
pub open spec fn inserted(hs: HeaderSeq, name: Seq<char>, value: Seq<u8>) -> HeaderSeq {
    let (out, placed) = insert_walk(hs, name, value);
    if placed {
        out
    } else {
        out.push((name, value))
    }
}

/// The list after appending `(name, value)`: the value goes right after
/// the last value under `name`, or last when the name is new.
pub open spec fn appended(hs: HeaderSeq, name: Seq<char>, value: Seq<u8>) -> HeaderSeq
    decreases hs.len(),
{
    if hs.len() == 0 {
        seq![(name, value)]
    } else if hs.last().0 == name {
        hs.push((name, value))
    } else if has_name(hs.drop_last(), name) {
        appended(hs.drop_last(), name, value).push(hs.last())
    } else {
        hs.push((name, value))
    }
}

pub proof fn lemma_appended_len(hs: HeaderSeq, name: Seq<char>, value: Seq<u8>)
    ensures
        appended(hs, name, value).len() == hs.len() + 1,
    decreases hs.len(),
{
    if hs.len() > 0 && hs.last().0 != name && has_name(hs.drop_last(), name) {
        lemma_appended_len(hs.drop_last(), name, value);
    }
}

proof fn lemma_insert_walk_len(hs: HeaderSeq, name: Seq<char>, value: Seq<u8>)
    ensures
        insert_walk(hs, name, value).0.len() <= hs.len(),
    decreases hs.len(),
{
    if hs.len() > 0 {
        lemma_insert_walk_len(hs.drop_last(), name, value);
    }
}

pub proof fn lemma_inserted_len(hs: HeaderSeq, name: Seq<char>, value: Seq<u8>)
    ensures
        inserted(hs, name, value).len() <= hs.len() + 1,
{
    lemma_insert_walk_len(hs, name, value);
}

/// The most values a header map may hold before an `append` or `insert`.
/// `http::HeaderMap` never grows its table past 32768 slots; with at most
/// 6553 names (and never more names than values) it has no need to, however
/// the names hash.
pub const HEADER_MAP_ROOM: usize = 6553;

#[verifier::external_type_specification]
#[verifier::external_body]
#[verifier::reject_recursive_types(T)]
pub struct ExHeaderMap<T>(http::HeaderMap<T>);

#[verifier::external_type_specification]
#[verifier::external_body]
pub struct ExHeaderValue(http::HeaderValue);

/// The (name, value) pairs of a header map, in the order in which
/// `HeaderMap::iter` gives them: names in order of first insertion, each
/// name's values in order.
pub uninterp spec fn header_entries(m: http::HeaderMap) -> HeaderSeq;

/// The views of a list of (name, value) pairs.
pub open spec fn entry_views(v: Seq<(String, Vec<u8>)>) -> HeaderSeq {
    v.map_values(|e: (String, Vec<u8>)| (e.0@, e.1@))
}

/// Relies on `http::HeaderMap::new`: an empty map.
#[verifier::external_body]
pub(crate) fn new_header_map() -> (r: http::HeaderMap)
    ensures
        header_entries(r) == Seq::<(Seq<char>, Seq<u8>)>::empty(),
{
    http::HeaderMap::new()
}

/// Relies on `HeaderMap::len`: the number of values, counting each value
/// under a name.
#[verifier::external_body]
pub(crate) fn header_map_len(m: &http::HeaderMap) -> (r: usize)
    ensures
        r == header_entries(*m).len(),
{
    m.len()
}

/// Relies on `HeaderMap::clone`: a map with the same pairs.
#[verifier::external_body]
pub(crate) fn clone_header_map(m: &http::HeaderMap) -> (r: http::HeaderMap)
    ensures
        header_entries(r) == header_entries(*m),
{
    m.clone()
}

/// Relies on `HeaderMap::append`: the value goes after the others under the
/// name (lower-cased by `HeaderName::from_bytes`), a new name last.
#[verifier::external_body]
pub(crate) fn append_to_header_map(m: &mut http::HeaderMap, name: &str, value: &[u8])
    requires
        valid_header_name(name@),
        valid_header_value(value@),
        header_entries(*old(m)).len() <= HEADER_MAP_ROOM,
    ensures
        header_entries(*final(m)) == appended(
            header_entries(*old(m)),
            name@.map_values(|c: char| lower_char(c)),
            value@,
        ),
{
    m.append(
        http::HeaderName::from_bytes(name.as_bytes()).expect("a valid header name"),
        http::HeaderValue::from_bytes(value).expect("a valid header value"),
    );
}

/// Relies on `HeaderMap::insert`: every earlier value under the name
/// (lower-cased by `HeaderName::from_bytes`) is replaced by this one, at the
/// name's place; a new name goes last.
#[verifier::external_body]
pub(crate) fn insert_into_header_map(m: &mut http::HeaderMap, name: &str, value: &[u8])
    requires
        valid_header_name(name@),
        valid_header_value(value@),
        header_entries(*old(m)).len() <= HEADER_MAP_ROOM,
    ensures
        header_entries(*final(m)) == inserted(
            header_entries(*old(m)),
            name@.map_values(|c: char| lower_char(c)),
            value@,
        ),
{
    m.insert(
        http::HeaderName::from_bytes(name.as_bytes()).expect("a valid header name"),
        http::HeaderValue::from_bytes(value).expect("a valid header value"),
    );
}

/// Relies on `HeaderMap::iter`, `HeaderName::as_str` and
/// `HeaderValue::as_bytes`: every pair, in order; names are as `HeaderName`
/// keeps them.
#[verifier::external_body]
pub(crate) fn header_map_pairs(m: &http::HeaderMap) -> (r: Vec<(String, Vec<u8>)>)
    ensures
        entry_views(r@) == header_entries(*m),
        forall|i: int| 0 <= i < r@.len() ==> held_header_name((#[trigger] r@[i]).0@),
{
    m.iter().map(|(k, v)| (k.as_str().to_string(), v.as_bytes().to_vec())).collect()
}

pub fn copy_bytes(b: &Vec<u8>) -> (r: Vec<u8>)
    ensures
        r@ == b@,
{
    let mut out: Vec<u8> = Vec::new();
    let mut i: usize = 0;
    while i < b.len()
        invariant
            i <= b@.len(),
            out@ == b@.subrange(0, i as int),
        decreases b@.len() - i,
    {
        out.push(b[i]);
        i += 1;
        proof {
            assert(out@ =~= b@.subrange(0, i as int));
        }
    }
    proof {
        assert(b@.subrange(0, i as int) =~= b@);
    }
    out
}

/// Copies of a list of (name, value) pairs.
pub fn copy_pairs(v: &Vec<(String, Vec<u8>)>) -> (r: Vec<(String, Vec<u8>)>)
    ensures
        entry_views(r@) == entry_views(v@),
{
    let mut entries: Vec<(String, Vec<u8>)> = Vec::new();
    let mut j: usize = 0;
    while j < v.len()
        invariant
            j <= v@.len(),
            entry_views(entries@) == entry_views(v@.subrange(0, j as int)),
        decreases v@.len() - j,
    {
        let e = &v[j];
        let n = e.0.clone();
        let b = copy_bytes(&e.1);
        let ghost before = entries@;
        entries.push((n, b));
        proof {
            assert(entries@ == before.push((n, b)));
            assert(entry_views(entries@) =~= entry_views(before).push((n@, b@)));
            assert(v@.subrange(0, j + 1) =~= v@.subrange(0, j as int).push(v@[j as int]));
            assert(entry_views(v@.subrange(0, j + 1)) =~= entry_views(v@.subrange(0, j as int)).push(
                (v@[j as int].0@, v@[j as int].1@),
            ));
        }
        j += 1;
    }
    proof {
        assert(v@.subrange(0, j as int) =~= v@);
    }
    entries
}

} // verus!
