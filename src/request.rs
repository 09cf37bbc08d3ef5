//! An incoming request, normalised once before any matcher runs, and its
//! rendering in diagnostics.
use vstd::prelude::*;
use vstd::utf8::{decode_utf8, valid_utf8};
use crate::headers::{HeaderSeq, clone_header_map, copy_bytes, copy_pairs, entry_views, header_entries, header_map_pairs, held_header_name, lower_char, names_of, to_upper_char, upper_char, valid_header_name, values_of};
use crate::text::{decimal, lossy_text, push_chars, push_decimal, push_str, chars_of, string_of, utf8_lossy, utf8_text};

verus! {

/// The default limit on body bytes printed in diagnostics.
pub const BODY_PRINT_LIMIT: usize = 10_000;

/// How much of a request body diagnostics print.
#[derive(Debug, Copy, Clone, PartialEq, Eq)]
pub enum BodyPrintLimit {
    /// At most this many bytes.
    Limited(usize),
    /// The whole body.
    Unlimited,
}

/// A decimal digit.
pub open spec fn is_digit(c: char) -> bool {
    '0' <= c && c <= '9'
}

/// The number that a string of decimal digits denotes.
pub open spec fn decimal_value(s: Seq<char>) -> int
    decreases s.len(),
{
    if s.len() == 0 {
        0
    } else {
        decimal_value(s.drop_last()) * 10 + (s.last() as int - '0' as int)
    }
}

/// The digits of a setting: the text after an optional leading `+`.
pub open spec fn setting_digits(s: Seq<char>) -> Seq<char> {
    if s.len() > 0 && s[0] == '+' {
        s.drop_first()
    } else {
        s
    }
}

/// Every character is a decimal digit.
pub open spec fn all_digits(d: Seq<char>) -> bool {
    forall|i: int| 0 <= i < d.len() ==> is_digit(#[trigger] d[i])
}

/// A limit setting read as a `usize`: decimal digits, after an optional `+`,
/// denoting a value that fits.
pub open spec fn usize_setting(s: Seq<char>) -> Option<usize> {
    let d = setting_digits(s);
    if d.len() > 0 && all_digits(d) && decimal_value(d) <= usize::MAX {
        Some(decimal_value(d) as usize)
    } else {
        None
    }
}

proof fn lemma_decimal_value_nonneg(s: Seq<char>)
    requires
        forall|i: int| 0 <= i < s.len() ==> is_digit(#[trigger] s[i]),
    ensures
        decimal_value(s) >= 0,
    decreases s.len(),
{
    if s.len() > 0 {
        lemma_decimal_value_nonneg(s.drop_last());
    }
}

proof fn lemma_decimal_value_grows(s: Seq<char>, k: int)
    requires
        0 <= k <= s.len(),
        forall|i: int| 0 <= i < s.len() ==> is_digit(#[trigger] s[i]),
    ensures
        decimal_value(s.take(k)) <= decimal_value(s),
    decreases s.len() - k,
{
    if k < s.len() {
        let t = s.take(k + 1);
        assert(t.drop_last() =~= s.take(k));
        lemma_decimal_value_nonneg(s.take(k));
        lemma_decimal_value_grows(s, k + 1);
    } else {
        assert(s.take(k) =~= s);
    }
}

impl BodyPrintLimit {
    /// The limit a setting asks for: `Limited(n)` for a setting that reads
    /// as the `usize` `n`, and the default limit when there is no setting or
    /// it does not read as one.
    pub fn from_setting(value: Option<&str>) -> (r: BodyPrintLimit)
        ensures
            r == match value {
                Some(s) => match usize_setting(s@) {
                    Some(n) => BodyPrintLimit::Limited(n),
                    None => BodyPrintLimit::Limited(BODY_PRINT_LIMIT),
                },
                None => BodyPrintLimit::Limited(BODY_PRINT_LIMIT),
            },
    {
        match value {
            None => BodyPrintLimit::Limited(BODY_PRINT_LIMIT),
            Some(s) => match parse_usize(s) {
                Some(n) => BodyPrintLimit::Limited(n),
                None => BodyPrintLimit::Limited(BODY_PRINT_LIMIT),
            },
        }
    }
}

/// A string read as a `usize`, as `usize_setting` states.
pub fn parse_usize(s: &str) -> (r: Option<usize>)
    ensures
        r == usize_setting(s@),
{
    let cs = chars_of(s);
    let start: usize = if cs.len() > 0 && cs[0] == '+' {
        1
    } else {
        0
    };
    let ghost d = setting_digits(s@);
    proof {
        assert(d =~= cs@.subrange(start as int, cs@.len() as int));
    }
    if start >= cs.len() {
        return None;
    }
    let mut value: usize = 0;
    let mut i: usize = start;
    while i < cs.len()
        invariant
            start <= i <= cs@.len(),
            cs@ == s@,
            d == cs@.subrange(start as int, cs@.len() as int),
            d == setting_digits(s@),
            d.len() > 0,
            forall|j: int| 0 <= j < i - start ==> is_digit(#[trigger] d[j]),
            value as int == decimal_value(d.take(i - start)),
        decreases cs@.len() - i,
    {
        let c = cs[i];
        proof {
            assert(d.take(i - start + 1).drop_last() =~= d.take(i - start));
            assert(d[i - start] == c);
        }
        if !('0' <= c && c <= '9') {
            proof {
                assert(!is_digit(d[i - start]));
            }
            return None;
        }
        let digit: usize = (c as u32 - '0' as u32) as usize;
        proof {
            assert(decimal_value(d.take(i - start + 1)) == value * 10 + digit);
        }
        let next = match value.checked_mul(10) {
            None => None,
            Some(m) => m.checked_add(digit),
        };
        match next {
            None => {
                proof {
                    if all_digits(d) {
                        lemma_decimal_value_grows(d, i - start + 1);
                    }
                }
                return None;
            },
            Some(v) => {
                value = v;
            },
        }
        i += 1;
    }
    proof {
        assert(d.take(i - start) =~= d);
    }
    Some(value)
}

/// The parts of a URL, as `url::Url` gives them: serialization, path, host
/// and the decoded query pairs.
pub uninterp spec fn url_parts(s: Seq<char>) -> Option<
    (Seq<char>, Seq<char>, Option<Seq<char>>, Seq<(Seq<char>, Seq<char>)>),
>;

/// A parsed URL held as plain values.
pub struct ParsedUrl {
    pub serialization: String,
    pub path: String,
    pub host: Option<String>,
    pub query_pairs: Vec<(String, String)>,
}

/// The views of a list of string pairs.
pub open spec fn pairs_view(v: Seq<(String, String)>) -> Seq<(Seq<char>, Seq<char>)> {
    v.map_values(|p: (String, String)| (p.0@, p.1@))
}

impl ParsedUrl {
    pub open spec fn parts(&self) -> (
        Seq<char>,
        Seq<char>,
        Option<Seq<char>>,
        Seq<(Seq<char>, Seq<char>)>,
    ) {
        (
            self.serialization@,
            self.path@,
            match self.host {
                Some(h) => Some(h@),
                None => None,
            },
            pairs_view(self.query_pairs@),
        )
    }
}

/// Relies on `url::Url::parse` and the accessors `as_str`, `path`, `host_str`
/// and `query_pairs` of the parsed value: `None` exactly when parsing fails;
/// the parts depend on the input string alone.
#[verifier::external_body]
pub fn parse_url(s: &str) -> (r: Option<ParsedUrl>)
    ensures
        r is Some <==> url_parts(s@) is Some,
        r is Some ==> r->0.parts() == url_parts(s@)->0,
{
    url::Url::parse(s).ok().map(
        |u|
            ParsedUrl {
                serialization: u.as_str().to_string(),
                path: u.path().to_string(),
                host: u.host_str().map(|h| h.to_string()),
                query_pairs: u.query_pairs().map(|(k, v)| (k.into_owned(), v.into_owned())).collect(),
            },
    )
}

/// The abstract value of a request.
pub struct RequestView {
    pub method: Seq<char>,
    pub url: Seq<char>,
    pub path: Seq<char>,
    pub query: Seq<(Seq<char>, Seq<char>)>,
    pub headers: HeaderSeq,
    pub body: Seq<u8>,
}

/// An incoming request: absolute URL, upper-case method, headers in the
/// order received, and the body bytes.
#[derive(Debug)]
pub struct Request {
    method: String,
    url: String,
    path: String,
    query_pairs: Vec<(String, String)>,
    headers: http::HeaderMap,
    header_pairs: Vec<(String, Vec<u8>)>,
    body: Vec<u8>,
}

impl Request {
    /// The pairs are those of the header map, with valid lower-case names.
    #[verifier::type_invariant]
    spec fn headers_agree(&self) -> bool {
        &&& header_entries(self.headers) == entry_views(self.header_pairs@)
        &&& lower_case_names(entry_views(self.header_pairs@))
    }
}

/// Every name is as `http::HeaderName` holds it: valid, in lower case.
pub open spec fn lower_case_names(hs: HeaderSeq) -> bool {
    forall|i: int| 0 <= i < hs.len() ==> held_header_name((#[trigger] hs[i]).0)
}

impl View for Request {
    type V = RequestView;

    closed spec fn view(&self) -> RequestView {
        RequestView {
            method: self.method@,
            url: self.url@,
            path: self.path@,
            query: pairs_view(self.query_pairs@),
            headers: entry_views(self.header_pairs@),
            body: self.body@,
        }
    }
}

/// The URL text of a request target: the target itself when it names an
/// authority, else the target under `http://localhost`.
pub open spec fn absolute_target(target: Seq<char>, has_authority: bool) -> Seq<char> {
    if has_authority {
        target
    } else {
        "http://localhost"@ + target
    }
}

/// The request made of these parts, when the URL parses.
pub open spec fn request_of(
    method: Seq<char>,
    url: Seq<char>,
    headers: HeaderSeq,
    body: Seq<u8>,
    r: RequestView,
) -> bool {
    let parts = url_parts(url)->0;
    &&& url_parts(url) is Some
    &&& r.method == method.map_values(|c: char| upper_char(c))
    &&& r.url == parts.0
    &&& r.path == parts.1
    &&& r.query == parts.3
    &&& r.headers == headers
    &&& r.body == body
}

pub fn uppercase(s: &str) -> (r: String)
    ensures
        r@ == s@.map_values(|c: char| upper_char(c)),
{
    let cs = chars_of(s);
    let mut out: Vec<char> = Vec::new();
    let mut i: usize = 0;
    while i < cs.len()
        invariant
            i <= cs@.len(),
            cs@ == s@,
            out@ == cs@.subrange(0, i as int).map_values(|c: char| upper_char(c)),
        decreases cs@.len() - i,
    {
        out.push(to_upper_char(cs[i]));
        i += 1;
        proof {
            assert(out@ =~= cs@.subrange(0, i as int).map_values(|c: char| upper_char(c)));
        }
    }
    proof {
        assert(cs@.subrange(0, i as int) =~= cs@);
    }
    string_of(&out)
}

impl Request {
    /// A request for `method` on the absolute `url`; `None` when the URL
    /// does not parse. Header names are those of the map: valid, in lower
    /// case.
    pub fn new(method: &str, url: &str, headers: http::HeaderMap, body: Vec<u8>) -> (r: Option<
        Request,
    >)
        ensures
            r is Some <==> url_parts(url@) is Some,
            r is Some ==> request_of(method@, url@, header_entries(headers), body@, r->0@),
            r is Some ==> lower_case_names(r->0@.headers),
    {
        match parse_url(url) {
            None => None,
            Some(parsed) => {
                let header_pairs = header_map_pairs(&headers);
                Some(
                    Request {
                        method: uppercase(method),
                        url: parsed.serialization,
                        path: parsed.path,
                        query_pairs: parsed.query_pairs,
                        headers,
                        header_pairs,
                        body,
                    },
                )
            },
        }
    }

    /// A request as read off the wire: `target` is the request target, and
    /// `has_authority` says whether it names a host; without one the host
    /// is `localhost`.
    pub fn from_wire(
        method: &str,
        target: &str,
        has_authority: bool,
        headers: http::HeaderMap,
        body: Vec<u8>,
    ) -> (r: Option<Request>)
        ensures
            r is Some <==> url_parts(absolute_target(target@, has_authority)) is Some,
            r is Some ==> request_of(
                method@,
                absolute_target(target@, has_authority),
                header_entries(headers),
                body@,
                r->0@,
            ),
            r is Some ==> lower_case_names(r->0@.headers),
    {
        if has_authority {
            Request::new(method, target, headers, body)
        } else {
            let mut text: Vec<char> = Vec::new();
            push_str(&mut text, "http://localhost");
            push_str(&mut text, target);
            let url = string_of(&text);
            Request::new(method, url.as_str(), headers, body)
        }
    }

    pub fn method(&self) -> (r: &String)
        ensures
            r@ == self@.method,
    {
        &self.method
    }

    pub fn url(&self) -> (r: &String)
        ensures
            r@ == self@.url,
    {
        &self.url
    }

    pub fn path(&self) -> (r: &String)
        ensures
            r@ == self@.path,
    {
        &self.path
    }

    pub fn query_pairs(&self) -> (r: &Vec<(String, String)>)
        ensures
            pairs_view(r@) == self@.query,
    {
        &self.query_pairs
    }

    /// The headers as received.
    pub fn headers(&self) -> (r: &http::HeaderMap)
        ensures
            header_entries(*r) == self@.headers,
    {
        proof {
            use_type_invariant(self);
        }
        &self.headers
    }

    /// The headers as (name, value) pairs, in order.
    pub fn header_pairs(&self) -> (r: &Vec<(String, Vec<u8>)>)
        ensures
            entry_views(r@) == self@.headers,
            lower_case_names(self@.headers),
    {
        proof {
            use_type_invariant(self);
        }
        &self.header_pairs
    }

    pub fn body(&self) -> (r: &Vec<u8>)
        ensures
            r@ == self@.body,
    {
        &self.body
    }

    /// A copy with the same value.
    pub fn duplicate(&self) -> (r: Request)
        ensures
            r@ == self@,
    {
        proof {
            use_type_invariant(self);
        }
        let mut pairs: Vec<(String, String)> = Vec::new();
        let mut i: usize = 0;
        while i < self.query_pairs.len()
            invariant
                i <= self.query_pairs@.len(),
                pairs_view(pairs@) == pairs_view(self.query_pairs@.subrange(0, i as int)),
            decreases self.query_pairs@.len() - i,
        {
            let p = &self.query_pairs[i];
            let k = p.0.clone();
            let v = p.1.clone();
            let ghost before = pairs@;
            pairs.push((k, v));
            proof {
                assert(pairs@ == before.push((k, v)));
                assert(pairs_view(pairs@) =~= pairs_view(before).push((k@, v@)));
                assert(self.query_pairs@.subrange(0, i + 1) =~= self.query_pairs@.subrange(
                    0,
                    i as int,
                ).push(self.query_pairs@[i as int]));
                assert(pairs_view(self.query_pairs@.subrange(0, i + 1)) =~= pairs_view(
                    self.query_pairs@.subrange(0, i as int),
                ).push((k@, v@)));
            }
            i += 1;
        }
        proof {
            assert(self.query_pairs@.subrange(0, i as int) =~= self.query_pairs@);
        }
        let r = Request {
            method: self.method.clone(),
            url: self.url.clone(),
            path: self.path.clone(),
            query_pairs: pairs,
            headers: clone_header_map(&self.headers),
            header_pairs: copy_pairs(&self.header_pairs),
            body: copy_bytes(&self.body),
        };
        proof {
            assert(r@.query =~= self@.query);
            assert(r@.headers =~= self@.headers);
        }
        r
    }
}

/// Header values joined by commas, each decoded leniently.
pub open spec fn joined_values(vs: Seq<Seq<u8>>) -> Seq<char>
    decreases vs.len(),
{
    if vs.len() == 0 {
        seq![]
    } else if vs.len() == 1 {
        lossy_text(vs[0])
    } else {
        joined_values(vs.drop_last()) + ","@ + lossy_text(vs.last())
    }
}

/// One line per name, `Name: v1,v2`.
pub open spec fn header_lines(hs: HeaderSeq, names: Seq<Seq<char>>) -> Seq<char>
    decreases names.len(),
{
    if names.len() == 0 {
        seq![]
    } else {
        header_lines(hs, names.drop_last()) + names.last() + ": "@ + joined_values(
            values_of(hs, names.last()),
        ) + "\n"@
    }
}

/// The first `e` in `from..to` such that the first `e` bytes are valid UTF-8.
pub open spec fn first_valid_prefix(body: Seq<u8>, from: nat, to: nat) -> Option<nat>
    decreases to - from,
{
    if from >= to {
        None
    } else if valid_utf8(body.take(from as int)) {
        Some(from)
    } else {
        first_valid_prefix(body, from + 1, to)
    }
}

proof fn lemma_first_valid_prefix_step(body: Seq<u8>, from: nat, to: nat)
    ensures
        first_valid_prefix(body, from, to) == if from >= to {
            None
        } else if valid_utf8(body.take(from as int)) {
            Some(from)
        } else {
            first_valid_prefix(body, from + 1, to)
        },
{
}

pub open spec fn binary_note(len: nat) -> Seq<char> {
    "Body is likely binary (invalid utf-8) size is "@ + decimal(len) + " bytes\n"@
}

pub open spec fn truncation_note(len: nat, limit: nat) -> Seq<char> {
    "We truncated the body because it was too large: "@ + decimal(len) + " bytes (limit: "@
        + decimal(limit) + " bytes)\n"@
        + "Increase this limit by setting `WIREMOCK_BODY_PRINT_LIMIT`, or calling `MockServerBuilder::body_print_limit` when building your MockServer instance\n"@
}

/// Where the search for a cut point stops (exclusive): up to three bytes past
/// the limit, or up to the body's end, never beyond the body.
pub open spec fn cut_search_end(len: nat, limit: nat) -> nat {
    if len < limit + 4 {
        len + 1
    } else {
        len
    }
}

/// How the body is printed under a limit.
pub open spec fn body_text(body: Seq<u8>, limit: BodyPrintLimit) -> Seq<char> {
    match limit {
        BodyPrintLimit::Limited(l) => {
            if body.len() > l {
                match first_valid_prefix(body, l as nat, cut_search_end(body.len(), l as nat)) {
                    Some(e) => decode_utf8(body.take(e as int)) + "\n"@ + if e < body.len() {
                        truncation_note(body.len(), l as nat)
                    } else {
                        seq![]
                    },
                    None => binary_note(body.len()),
                }
            } else if valid_utf8(body) {
                decode_utf8(body) + "\n"@
            } else {
                binary_note(body.len())
            }
        },
        BodyPrintLimit::Unlimited => {
            if valid_utf8(body) {
                decode_utf8(body) + "\n"@
            } else {
                binary_note(body.len())
            }
        },
    }
}

/// A request as diagnostics print it: the request line, one line per
/// header name, then the body.
pub open spec fn request_text(r: RequestView, limit: BodyPrintLimit) -> Seq<char> {
    r.method + " "@ + r.url + "\n"@ + header_lines(r.headers, names_of(r.headers)) + body_text(
        r.body,
        limit,
    )
}

fn contains_name(names: &Vec<String>, n: &String) -> (r: bool)
    ensures
        r == names@.map_values(|s: String| s@).contains(n@),
{
    let mut i: usize = 0;
    while i < names.len()
        invariant
            i <= names@.len(),
            forall|j: int| 0 <= j < i ==> names@[j]@ != n@,
        decreases names@.len() - i,
    {
        if names[i] == *n {
            proof {
                assert(names@.map_values(|s: String| s@)[i as int] == n@);
            }
            return true;
        }
        i += 1;
    }
    proof {
        if names@.map_values(|s: String| s@).contains(n@) {
            let ns = names@.map_values(|s: String| s@);
            let k = choose|k: int| 0 <= k < ns.len() && #[trigger] ns[k] == n@;
            assert(names@[k]@ == n@);
        }
    }
    false
}

/// The distinct header names, in order of first appearance.
pub fn header_names(hs: &Vec<(String, Vec<u8>)>) -> (r: Vec<String>)
    ensures
        r@.map_values(|s: String| s@) == names_of(entry_views(hs@)),
{
    let mut names: Vec<String> = Vec::new();
    let mut i: usize = 0;
    while i < hs.len()
        invariant
            i <= entry_views(hs@).len(),
            names@.map_values(|s: String| s@) == names_of(entry_views(hs@).take(i as int)),
        decreases entry_views(hs@).len() - i,
    {
        proof {
            assert(entry_views(hs@).take(i + 1).drop_last() =~= entry_views(hs@).take(i as int));
        }
        let n = &hs[i].0;
        if !contains_name(&names, n) {
            names.push(n.clone());
        }
        i += 1;
        proof {
            assert(names@.map_values(|s: String| s@) =~= names_of(entry_views(hs@).take(i as int)));
        }
    }
    proof {
        assert(entry_views(hs@).take(i as int) =~= entry_views(hs@));
    }
    names
}

/// Appends the values under `name`, joined by commas.
fn push_joined_values(out: &mut Vec<char>, hs: &Vec<(String, Vec<u8>)>, name: &String)
    ensures
        final(out)@ == old(out)@ + joined_values(values_of(entry_views(hs@), name@)),
{
    let ghost start = out@;
    let mut i: usize = 0;
    let mut first = true;
    while i < hs.len()
        invariant
            i <= entry_views(hs@).len(),
            out@ == start + joined_values(values_of(entry_views(hs@).take(i as int), name@)),
            first == (values_of(entry_views(hs@).take(i as int), name@).len() == 0),
        decreases entry_views(hs@).len() - i,
    {
        proof {
            assert(entry_views(hs@).take(i + 1).drop_last() =~= entry_views(hs@).take(i as int));
        }
        let e = &hs[i];
        if e.0 == *name {
            if !first {
                push_str(out, ",");
            }
            let v = utf8_lossy(e.1.as_slice());
            push_str(out, v.as_str());
            first = false;
        }
        i += 1;
        proof {
            let vs = values_of(entry_views(hs@).take(i as int), name@);
            if entry_views(hs@)[i - 1].0 == name@ {
                assert(vs.drop_last() =~= values_of(entry_views(hs@).take(i - 1), name@));
            }
            assert(out@ =~= start + joined_values(values_of(entry_views(hs@).take(i as int), name@)));
        }
    }
    proof {
        assert(entry_views(hs@).take(i as int) =~= entry_views(hs@));
    }
}

fn push_header_lines(out: &mut Vec<char>, hs: &Vec<(String, Vec<u8>)>)
    ensures
        final(out)@ == old(out)@ + header_lines(entry_views(hs@), names_of(entry_views(hs@))),
{
    let ghost start = out@;
    let names = header_names(hs);
    let ghost ns = names@.map_values(|s: String| s@);
    let mut i: usize = 0;
    while i < names.len()
        invariant
            i <= names@.len(),
            ns == names@.map_values(|s: String| s@),
            out@ == start + header_lines(entry_views(hs@), ns.take(i as int)),
        decreases names@.len() - i,
    {
        proof {
            assert(ns.take(i + 1).drop_last() =~= ns.take(i as int));
        }
        push_str(out, names[i].as_str());
        push_str(out, ": ");
        push_joined_values(out, hs, &names[i]);
        push_str(out, "\n");
        i += 1;
        proof {
            assert(out@ =~= start + header_lines(entry_views(hs@), ns.take(i as int)));
        }
    }
    proof {
        assert(ns.take(i as int) =~= ns);
    }
}

fn push_binary_note(out: &mut Vec<char>, len: usize)
    ensures
        final(out)@ == old(out)@ + binary_note(len as nat),
{
    let ghost start = out@;
    push_str(out, "Body is likely binary (invalid utf-8) size is ");
    push_decimal(out, len as u64);
    push_str(out, " bytes\n");
    proof {
        assert(out@ =~= start + binary_note(len as nat));
    }
}

fn push_truncation_note(out: &mut Vec<char>, len: usize, limit: usize)
    ensures
        final(out)@ == old(out)@ + truncation_note(len as nat, limit as nat),
{
    let ghost start = out@;
    push_str(out, "We truncated the body because it was too large: ");
    push_decimal(out, len as u64);
    push_str(out, " bytes (limit: ");
    push_decimal(out, limit as u64);
    push_str(out, " bytes)\n");
    push_str(
        out,
        "Increase this limit by setting `WIREMOCK_BODY_PRINT_LIMIT`, or calling `MockServerBuilder::body_print_limit` when building your MockServer instance\n",
    );
    proof {
        assert(out@ =~= start + truncation_note(len as nat, limit as nat));
    }
}

fn push_whole_body(out: &mut Vec<char>, body: &Vec<u8>)
    ensures
        final(out)@ == old(out)@ + if valid_utf8(body@) {
            decode_utf8(body@) + "\n"@
        } else {
            binary_note(body@.len())
        },
{
    let ghost start = out@;
    match utf8_text(body.as_slice()) {
        Some(t) => {
            push_str(out, t.as_str());
            push_str(out, "\n");
            proof {
                assert(out@ =~= start + (decode_utf8(body@) + "\n"@));
            }
        },
        None => {
            push_binary_note(out, body.len());
        },
    }
}

fn push_body(out: &mut Vec<char>, body: &Vec<u8>, limit: BodyPrintLimit)
    ensures
        final(out)@ == old(out)@ + body_text(body@, limit),
{
    let ghost start = out@;
    match limit {
        BodyPrintLimit::Limited(l) => {
            if body.len() > l {
                let len = body.len();
                let last: usize = if len - l < 4 {
                    len
                } else {
                    len - 1
                };
                let ghost end: nat = last as nat + 1;
                let mut e: usize = l;
                loop
                    invariant
                        l <= e <= last,
                        end == cut_search_end(len as nat, l as nat),
                        end == last as nat + 1,
                        last <= len,
                        len == body@.len(),
                        len > l,
                        out@ == start,
                        start == old(out)@,
                        limit == BodyPrintLimit::Limited(l),
                        first_valid_prefix(body@, l as nat, end) == first_valid_prefix(
                            body@,
                            e as nat,
                            end,
                        ),
                    ensures
                        first_valid_prefix(body@, l as nat, end) == None::<nat>,
                        out@ == start,
                    decreases last - e,
                {
                    let prefix = &body.as_slice()[0..e];
                    proof {
                        assert(prefix@ =~= body@.take(e as int));
                    }
                    let decoded = utf8_text(prefix);
                    match decoded {
                        Some(t) => {
                            proof {
                                lemma_first_valid_prefix_step(body@, e as nat, end);
                                assert(first_valid_prefix(body@, e as nat, end) == Some(e as nat));
                            }
                            push_str(out, t.as_str());
                            push_str(out, "\n");
                            let ghost mid = out@;
                            if e < len {
                                push_truncation_note(out, len, l);
                            }
                            proof {
                                assert(mid =~= start + (decode_utf8(body@.take(e as int)) + "\n"@));
                                assert(out@ =~= start + body_text(body@, limit));
                            }
                            return;
                        },
                        None => {
                            proof {
                                lemma_first_valid_prefix_step(body@, e as nat, end);
                                lemma_first_valid_prefix_step(body@, e as nat + 1, end);
                            }
                            if e == last {
                                break;
                            }
                        },
                    }
                    e += 1;
                }
                push_binary_note(out, len);
            } else {
                push_whole_body(out, body);
            }
        },
        BodyPrintLimit::Unlimited => {
            push_whole_body(out, body);
        },
    }
}

impl Request {
    /// Appends the rendering of this request, with the body cut to `limit`.
    pub fn print_with_limit(&self, out: &mut Vec<char>, limit: BodyPrintLimit)
        ensures
            final(out)@ == old(out)@ + request_text(self@, limit),
    {
        let ghost start = out@;
        push_str(out, self.method.as_str());
        push_str(out, " ");
        push_str(out, self.url.as_str());
        push_str(out, "\n");
        push_header_lines(out, &self.header_pairs);
        push_body(out, &self.body, limit);
        proof {
            assert(out@ =~= start + request_text(self@, limit));
        }
    }

    /// The rendering of this request, with the body cut to `limit`.
    pub fn to_text(&self, limit: BodyPrintLimit) -> (r: String)
        ensures
            r@ == request_text(self@, limit),
    {
        let mut out: Vec<char> = Vec::new();
        self.print_with_limit(&mut out, limit);
        proof {
            assert(out@ =~= request_text(self@, limit));
        }
        string_of(&out)
    }
}

} // verus!
