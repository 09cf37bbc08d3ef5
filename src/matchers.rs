//! The built-in request matchers: each is a pure predicate over a request,
//! stated as `Match::accepts` and proved of `Match::matches`.
use vstd::prelude::*;
use vstd::string::StringSliceAdditionalSpecFns;
use vstd::utf8::valid_utf8;
use crate::headers::{HeaderSeq, entry_views, copy_bytes, has_name, header_name, header_value, token_char, upper_char, valid_header_name, valid_header_value, values_of};
use crate::request::{Request, RequestView, parse_url, pairs_view, uppercase, url_parts};
use crate::response_template::{canonical_name, copy_slice};
use crate::text::{bytes_contain, chars_of, is_infix, str_contains, string_of, utf8_text};

verus! {

/// A predicate over requests.
pub trait Match: Sized {
    /// Whether the matcher accepts a request.
    spec fn accepts(&self, request: RequestView) -> bool;

    /// Evaluates the predicate on a request.
    fn matches(&self, request: &Request) -> (r: bool)
        ensures
            r == self.accepts(request@),
    ;
}

/// A matcher that is one of the built-in ones.
pub trait IntoMatcher: Match {
    /// The same predicate as a `Matcher`.
    fn into_matcher(self) -> (m: Matcher)
        ensures
            forall|q: RequestView| #[trigger] m.spec_accepts(q) == self.accepts(q),
    ;
}

// ---------------------------------------------------------------- text facts

/// The views of a list of byte vectors.
pub open spec fn byte_views(v: Seq<Vec<u8>>) -> Seq<Seq<u8>> {
    v.map_values(|x: Vec<u8>| x@)
}

/// A byte that a header value may hold and still read as text.
pub open spec fn visible_byte(b: u8) -> bool {
    (32 <= b && b < 127) || b == 9
}

/// A header value that reads as text.
pub open spec fn visible(b: Seq<u8>) -> bool {
    forall|i: int| 0 <= i < b.len() ==> visible_byte(#[trigger] b[i])
}

pub open spec fn ws_byte(b: u8) -> bool {
    b == 32 || b == 9
}

pub open spec fn trim_start(s: Seq<u8>) -> Seq<u8>
    decreases s.len(),
{
    if s.len() > 0 && ws_byte(s[0]) {
        trim_start(s.drop_first())
    } else {
        s
    }
}

pub open spec fn trim_end(s: Seq<u8>) -> Seq<u8>
    decreases s.len(),
{
    if s.len() > 0 && ws_byte(s.last()) {
        trim_end(s.drop_last())
    } else {
        s
    }
}

/// Surrounding spaces and tabs removed.
pub open spec fn trim(s: Seq<u8>) -> Seq<u8> {
    trim_end(trim_start(s))
}

/// Splitting at commas: the pieces completed so far, and the current one.
pub open spec fn split_walk(s: Seq<u8>) -> (Seq<Seq<u8>>, Seq<u8>)
    decreases s.len(),
{
    if s.len() == 0 {
        (seq![], seq![])
    } else {
        let (done, cur) = split_walk(s.drop_last());
        if s.last() == 44 {
            (done.push(cur), seq![])
        } else {
            (done, cur.push(s.last()))
        }
    }
}

/// The comma-separated pieces of a header value, each trimmed.
pub open spec fn comma_tokens(s: Seq<u8>) -> Seq<Seq<u8>> {
    let (done, cur) = split_walk(s);
    done.push(cur).map_values(|p: Seq<u8>| trim(p))
}

/// The tokens of a list of header values; values that do not read as text
/// are skipped.
pub open spec fn header_tokens(vs: Seq<Seq<u8>>) -> Seq<Seq<u8>>
    decreases vs.len(),
{
    if vs.len() == 0 {
        seq![]
    } else {
        header_tokens(vs.drop_last()) + if visible(vs.last()) {
            comma_tokens(vs.last())
        } else {
            seq![]
        }
    }
}

/// The values that read as text.
pub open spec fn visible_values(vs: Seq<Seq<u8>>) -> Seq<Seq<u8>>
    decreases vs.len(),
{
    if vs.len() == 0 {
        seq![]
    } else if visible(vs.last()) {
        visible_values(vs.drop_last()).push(vs.last())
    } else {
        visible_values(vs.drop_last())
    }
}

/// ASCII bytes read as characters.
pub open spec fn ascii_chars(b: Seq<u8>) -> Seq<char> {
    b.map_values(|x: u8| x as char)
}

/// A valid method token.
pub open spec fn valid_method(s: Seq<char>) -> bool {
    s.len() > 0 && forall|i: int| 0 <= i < s.len() ==> token_char(#[trigger] s[i])
}

/// ASCII upper case.
pub open spec fn upper(s: Seq<char>) -> Seq<char> {
    s.map_values(|c: char| upper_char(c))
}

/// Whether a path argument names a host, read as a URL.
pub open spec fn names_host(p: Seq<char>) -> bool {
    let parts = url_parts(p)->0;
    url_parts(p) is Some && parts.2 is Some
}

/// A path with a leading `/`.
pub open spec fn rooted(p: Seq<char>) -> Seq<char> {
    if p.len() > 0 && p[0] == '/' {
        p
    } else {
        seq!['/'] + p
    }
}

// ---------------------------------------------------------------- outside names

/// Whether `regex::Regex::new` accepts a pattern.
pub uninterp spec fn valid_regex(p: Seq<char>) -> bool;

/// Whether a compiled pattern matches somewhere in a text.
pub uninterp spec fn regex_matches(p: Seq<char>, t: Seq<char>) -> bool;

/// Whether `serde_json` parses the bytes as a JSON document.
pub uninterp spec fn valid_json(b: Seq<u8>) -> bool;

/// Whether both byte strings parse as JSON and the documents are equal.
pub uninterp spec fn json_equal(a: Seq<u8>, b: Seq<u8>) -> bool;

/// Whether both byte strings parse as JSON and the first includes the second.
pub uninterp spec fn json_includes(actual: Seq<u8>, expected: Seq<u8>) -> bool;

/// The base64 digit of a six-bit value, in the standard alphabet.
pub open spec fn base64_digit(v: int) -> u8 {
    if v < 26 {
        (65 + v) as u8
    } else if v < 52 {
        (97 + v - 26) as u8
    } else if v < 62 {
        (48 + v - 52) as u8
    } else if v == 62 {
        43u8
    } else {
        47u8
    }
}

/// The standard base64 encoding of some bytes: four digits for each three
/// bytes, the last group padded with `=`.
pub open spec fn base64_of(b: Seq<u8>) -> Seq<u8>
    decreases b.len(),
{
    if b.len() == 0 {
        seq![]
    } else if b.len() == 1 {
        seq![base64_digit((b[0] as int) / 4), base64_digit(((b[0] as int) % 4) * 16), 61u8, 61u8]
    } else if b.len() == 2 {
        seq![
            base64_digit((b[0] as int) / 4),
            base64_digit(((b[0] as int) % 4) * 16 + (b[1] as int) / 16),
            base64_digit(((b[1] as int) % 16) * 4),
            61u8,
        ]
    } else {
        seq![
            base64_digit((b[0] as int) / 4),
            base64_digit(((b[0] as int) % 4) * 16 + (b[1] as int) / 16),
            base64_digit(((b[1] as int) % 16) * 4 + (b[2] as int) / 64),
            base64_digit((b[2] as int) % 64),
        ] + base64_of(b.subrange(3, b.len() as int))
    }
}

proof fn lemma_base64_alphabet(b: Seq<u8>)
    ensures
        forall|i: int| 0 <= i < base64_of(b).len() ==> base64_byte(#[trigger] base64_of(b)[i]),
    decreases b.len(),
{
    if b.len() >= 3 {
        lemma_base64_alphabet(b.subrange(3, b.len() as int));
        let head = seq![
            base64_digit((b[0] as int) / 4),
            base64_digit(((b[0] as int) % 4) * 16 + (b[1] as int) / 16),
            base64_digit(((b[1] as int) % 16) * 4 + (b[2] as int) / 64),
            base64_digit((b[2] as int) % 64),
        ];
        let rest = base64_of(b.subrange(3, b.len() as int));
        assert(base64_of(b) == head + rest);
        assert forall|i: int| 0 <= i < base64_of(b).len() implies base64_byte(
            #[trigger] base64_of(b)[i],
        ) by {
            if i >= 4 {
                assert(base64_of(b)[i] == rest[i - 4]);
            }
        }
    }
}

/// A byte of the standard base64 alphabet, or the padding `=`.
pub open spec fn base64_byte(b: u8) -> bool {
    (65 <= b <= 90) || (97 <= b <= 122) || (48 <= b <= 57) || b == 43 || b == 47 || b == 61
}

/// Relies on `regex::Regex::new`: `Ok` exactly for a pattern that compiles.
#[verifier::external_body]
fn regex_compiles(p: &str) -> (r: bool)
    ensures
        r == valid_regex(p@),
{
    regex::Regex::new(p).is_ok()
}

/// Relies on `regex::Regex::new` and `Regex::is_match`: whether the compiled
/// pattern matches somewhere in the text.
#[verifier::external_body]
fn regex_is_match(p: &str, t: &str) -> (r: bool)
    ensures
        valid_regex(p@) ==> r == regex_matches(p@, t@),
{
    regex::Regex::new(p).map(|re| re.is_match(t)).unwrap_or(false)
}

/// Relies on `serde_json::from_slice::<serde_json::Value>`: `Ok` exactly for a
/// JSON document.
#[verifier::external_body]
fn json_parses(b: &[u8]) -> (r: bool)
    ensures
        r == valid_json(b@),
{
    serde_json::from_slice::<serde_json::Value>(b).is_ok()
}

/// Relies on `serde_json::from_slice::<serde_json::Value>` and the `==` of
/// `serde_json::Value`: both parse and the values are equal.
#[verifier::external_body]
fn json_documents_equal(a: &[u8], b: &[u8]) -> (r: bool)
    ensures
        r == json_equal(a@, b@),
{
    match (serde_json::from_slice::<serde_json::Value>(a), serde_json::from_slice::<serde_json::Value>(b)) {
        (Ok(x), Ok(y)) => x == y,
        _ => false,
    }
}

/// Relies on `serde_json::from_slice::<serde_json::Value>` and
/// `assert_json_diff::assert_json_matches_no_panic` in inclusive mode: both
/// parse and every part of the second is found in the first.
#[verifier::external_body]
fn json_document_includes(actual: &[u8], expected: &[u8]) -> (r: bool)
    ensures
        r == json_includes(actual@, expected@),
{
    match (serde_json::from_slice::<serde_json::Value>(actual), serde_json::from_slice::<serde_json::Value>(expected)) {
        (Ok(x), Ok(y)) => assert_json_diff::assert_json_matches_no_panic(
            &x,
            &y,
            assert_json_diff::Config::new(assert_json_diff::CompareMode::Inclusive),
        ).is_ok(),
        _ => false,
    }
}

/// Relies on `base64::engine::general_purpose::STANDARD.encode`: the standard
/// alphabet with padding.
#[verifier::external_body]
fn base64_encode(b: &[u8]) -> (r: Vec<u8>)
    ensures
        r@ == base64_of(b@),
{
    base64::Engine::encode(&base64::engine::general_purpose::STANDARD, b).into_bytes()
}

// ---------------------------------------------------------------- helpers

fn has_char(s: &str, c: char) -> (r: bool)
    ensures
        r == s@.contains(c),
{
    let cs = chars_of(s);
    let mut i: usize = 0;
    while i < cs.len()
        invariant
            i <= cs@.len(),
            cs@ == s@,
            forall|j: int| 0 <= j < i ==> cs@[j] != c,
        decreases cs@.len() - i,
    {
        if cs[i] == c {
            return true;
        }
        i += 1;
    }
    false
}

fn bytes_equal(a: &Vec<u8>, b: &Vec<u8>) -> (r: bool)
    ensures
        r == (a@ == b@),
{
    if a.len() != b.len() {
        return false;
    }
    let mut i: usize = 0;
    while i < a.len()
        invariant
            i <= a@.len(),
            a@.len() == b@.len(),
            forall|j: int| 0 <= j < i ==> a@[j] == b@[j],
        decreases a@.len() - i,
    {
        if a[i] != b[i] {
            return false;
        }
        i += 1;
    }
    proof {
        assert(a@ =~= b@);
    }
    true
}

fn byte_lists_equal(a: &Vec<Vec<u8>>, b: &Vec<Vec<u8>>) -> (r: bool)
    ensures
        r == (byte_views(a@) == byte_views(b@)),
{
    if a.len() != b.len() {
        proof {
            assert(byte_views(a@).len() != byte_views(b@).len());
        }
        return false;
    }
    let mut i: usize = 0;
    while i < a.len()
        invariant
            i <= a@.len(),
            a@.len() == b@.len(),
            forall|j: int| 0 <= j < i ==> a@[j]@ == b@[j]@,
        decreases a@.len() - i,
    {
        if !bytes_equal(&a[i], &b[i]) {
            proof {
                assert(byte_views(a@)[i as int] != byte_views(b@)[i as int]);
            }
            return false;
        }
        i += 1;
    }
    proof {
        assert(byte_views(a@) =~= byte_views(b@));
    }
    true
}

fn is_visible(b: &Vec<u8>) -> (r: bool)
    ensures
        r == visible(b@),
{
    let mut i: usize = 0;
    while i < b.len()
        invariant
            i <= b@.len(),
            forall|j: int| 0 <= j < i ==> visible_byte(#[trigger] b@[j]),
        decreases b@.len() - i,
    {
        let x = b[i];
        if !((32 <= x && x < 127) || x == 9) {
            return false;
        }
        i += 1;
    }
    true
}

proof fn lemma_trim_start_skip(s: Seq<u8>, a: int)
    requires
        0 <= a < s.len(),
        ws_byte(s[a]),
    ensures
        trim_start(s.subrange(a, s.len() as int)) == trim_start(s.subrange(a + 1, s.len() as int)),
{
    assert(s.subrange(a, s.len() as int).drop_first() =~= s.subrange(a + 1, s.len() as int));
}

proof fn lemma_trim_end_skip(s: Seq<u8>, e: int)
    requires
        0 < e <= s.len(),
        ws_byte(s[e - 1]),
    ensures
        trim_end(s.subrange(0, e)) == trim_end(s.subrange(0, e - 1)),
{
    assert(s.subrange(0, e).drop_last() =~= s.subrange(0, e - 1));
}

fn trim_bytes(s: &Vec<u8>) -> (r: Vec<u8>)
    ensures
        r@ == trim(s@),
{
    let n = s.len();
    let mut a: usize = 0;
    proof {
        assert(s@.subrange(0, n as int) =~= s@);
    }
    while a < n && (s[a] == 32 || s[a] == 9)
        invariant
            a <= n,
            n == s@.len(),
            trim_start(s@) == trim_start(s@.subrange(a as int, n as int)),
        decreases n - a,
    {
        proof {
            lemma_trim_start_skip(s@, a as int);
        }
        a += 1;
    }
    let ghost rest = s@.subrange(a as int, n as int);
    let mut e: usize = n;
    proof {
        assert(rest.subrange(0, n - a) =~= rest);
    }
    while e > a && (s[e - 1] == 32 || s[e - 1] == 9)
        invariant
            a <= e <= n,
            n == s@.len(),
            rest == s@.subrange(a as int, n as int),
            trim_end(rest) == trim_end(rest.subrange(0, e - a)),
        decreases e - a,
    {
        proof {
            lemma_trim_end_skip(rest, e - a);
        }
        e -= 1;
    }
    let mut out: Vec<u8> = Vec::new();
    let mut i: usize = a;
    while i < e
        invariant
            a <= i <= e <= n,
            n == s@.len(),
            out@ == s@.subrange(a as int, i as int),
        decreases e - i,
    {
        out.push(s[i]);
        i += 1;
        proof {
            assert(out@ =~= s@.subrange(a as int, i as int));
        }
    }
    proof {
        assert(rest.subrange(0, e - a) =~= out@);
    }
    out
}

/// Appends the trimmed comma-separated pieces of `v`.
fn push_comma_tokens(out: &mut Vec<Vec<u8>>, v: &Vec<u8>)
    ensures
        byte_views(final(out)@) == byte_views(old(out)@) + comma_tokens(v@),
{
    let ghost start = byte_views(out@);
    let mut cur: Vec<u8> = Vec::new();
    let mut i: usize = 0;
    while i < v.len()
        invariant
            i <= v@.len(),
            byte_views(out@) == start + split_walk(v@.take(i as int)).0.map_values(
                |p: Seq<u8>| trim(p),
            ),
            cur@ == split_walk(v@.take(i as int)).1,
        decreases v@.len() - i,
    {
        proof {
            assert(v@.take(i + 1).drop_last() =~= v@.take(i as int));
        }
        if v[i] == 44 {
            let t = trim_bytes(&cur);
            let ghost before = out@;
            out.push(t);
            proof {
                assert(byte_views(out@) =~= byte_views(before).push(t@));
            }
            cur = Vec::new();
        } else {
            cur.push(v[i]);
        }
        i += 1;
        proof {
            assert(byte_views(out@) =~= start + split_walk(v@.take(i as int)).0.map_values(
                |p: Seq<u8>| trim(p),
            ));
        }
    }
    proof {
        assert(v@.take(i as int) =~= v@);
    }
    let t = trim_bytes(&cur);
    let ghost before = out@;
    out.push(t);
    proof {
        assert(byte_views(out@) =~= byte_views(before).push(t@));
        assert(byte_views(out@) =~= start + comma_tokens(v@));
    }
}

/// The tokens of the values under `name`.
fn tokens_of(hs: &Vec<(String, Vec<u8>)>, name: &String) -> (r: Vec<Vec<u8>>)
    ensures
        byte_views(r@) == header_tokens(values_of(entry_views(hs@), name@)),
{
    let mut out: Vec<Vec<u8>> = Vec::new();
    let mut i: usize = 0;
    while i < hs.len()
        invariant
            i <= entry_views(hs@).len(),
            byte_views(out@) == header_tokens(values_of(entry_views(hs@).take(i as int), name@)),
        decreases entry_views(hs@).len() - i,
    {
        proof {
            assert(entry_views(hs@).take(i + 1).drop_last() =~= entry_views(hs@).take(i as int));
        }
        let e = &hs[i];
        if e.0 == *name {
            let ghost vs = values_of(entry_views(hs@).take(i + 1), name@);
            proof {
                assert(vs.drop_last() =~= values_of(entry_views(hs@).take(i as int), name@));
            }
            if is_visible(&e.1) {
                push_comma_tokens(&mut out, &e.1);
            }
            proof {
                assert(byte_views(out@) =~= header_tokens(vs));
            }
        }
        i += 1;
    }
    proof {
        assert(entry_views(hs@).take(i as int) =~= entry_views(hs@));
    }
    out
}

/// Characters of ASCII bytes.
fn ascii_text(b: &Vec<u8>) -> (r: String)
    ensures
        r@ == ascii_chars(b@),
{
    let mut out: Vec<char> = Vec::new();
    let mut i: usize = 0;
    while i < b.len()
        invariant
            i <= b@.len(),
            out@ == ascii_chars(b@.subrange(0, i as int)),
        decreases b@.len() - i,
    {
        out.push(b[i] as char);
        i += 1;
        proof {
            assert(out@ =~= ascii_chars(b@.subrange(0, i as int)));
        }
    }
    proof {
        assert(b@.subrange(0, i as int) =~= b@);
    }
    string_of(&out)
}

// ---------------------------------------------------------------- method

/// Matches requests whose method is the given one, compared in upper case.
#[derive(Debug)]
pub struct MethodExactMatcher(pub String);

/// A matcher on the request method; `"get"` and `"GET"` are the same.
pub fn method(token: &str) -> (r: MethodExactMatcher)
    requires
        valid_method(token@),
    ensures
        r.0@ == upper(token@),
{
    MethodExactMatcher::new(token)
}

impl MethodExactMatcher {
    /// The matcher, or `None` when the argument is not a method token.
    pub fn try_new(token: &str) -> (r: Option<MethodExactMatcher>)
        ensures
            r is Some <==> valid_method(token@),
            r is Some ==> (r->0).0@ == upper(token@),
    {
        let cs = chars_of(token);
        if cs.len() == 0 {
            return None;
        }
        let mut i: usize = 0;
        while i < cs.len()
            invariant
                i <= cs@.len(),
                cs@ == token@,
                forall|j: int| 0 <= j < i ==> token_char(#[trigger] cs@[j]),
            decreases cs@.len() - i,
        {
            if !crate::headers::is_token_char(cs[i]) {
                return None;
            }
            i += 1;
        }
        Some(method(token))
    }

    pub fn new(method: &str) -> (r: MethodExactMatcher)
        requires
            valid_method(method@),
        ensures
            r.0@ == upper(method@),
    {
        MethodExactMatcher(uppercase(method))
    }
}

impl Match for MethodExactMatcher {
    open spec fn accepts(&self, request: RequestView) -> bool {
        request.method == self.0@
    }

    fn matches(&self, request: &Request) -> (r: bool) {
        *request.method() == self.0
    }
}

// ---------------------------------------------------------------- any

/// Matches every request.
#[derive(Debug)]
pub struct AnyMatcher;

/// A matcher that accepts every request.
pub fn any() -> (r: AnyMatcher) {
    AnyMatcher
}

impl Match for AnyMatcher {
    open spec fn accepts(&self, request: RequestView) -> bool {
        true
    }

    fn matches(&self, request: &Request) -> (r: bool) {
        true
    }
}

// ---------------------------------------------------------------- path

/// Matches requests whose URL path is exactly the given one.
#[derive(Debug)]
pub struct PathExactMatcher(pub String);

/// A matcher on the exact path; a missing leading `/` is added.
pub fn path(p: &str) -> (r: PathExactMatcher)
    requires
        !p@.contains('?'),
        !names_host(p@),
    ensures
        r.0@ == rooted(p@),
{
    PathExactMatcher::new(p)
}

impl PathExactMatcher {
    pub fn new(path: &str) -> (r: PathExactMatcher)
        requires
            !path@.contains('?'),
            !names_host(path@),
        ensures
            r.0@ == rooted(path@),
    {
        let cs = chars_of(path);
        if cs.len() > 0 && cs[0] == '/' {
            PathExactMatcher(string_of(&cs))
        } else {
            let mut out: Vec<char> = Vec::new();
            out.push('/');
            crate::text::push_chars(&mut out, &cs);
            proof {
                assert(out@ =~= seq!['/'] + path@);
            }
            PathExactMatcher(string_of(&out))
        }
    }

    /// The matcher, or `None` when the argument holds a `?` or names a host:
    /// queries and hosts are matched otherwise.
    pub fn try_new(p: &str) -> (r: Option<PathExactMatcher>)
        ensures
            r is Some <==> (!p@.contains('?') && !names_host(p@)),
            r is Some ==> (r->0).0@ == rooted(p@),
    {
        if has_char(p, '?') {
            return None;
        }
        match parse_url(p) {
            Some(u) => {
                if u.host.is_some() {
                    return None;
                }
            },
            None => {},
        }
        Some(path(p))
    }
}

impl Match for PathExactMatcher {
    open spec fn accepts(&self, request: RequestView) -> bool {
        request.path == self.0@
    }

    fn matches(&self, request: &Request) -> (r: bool) {
        *request.path() == self.0
    }
}

/// Matches requests whose path matches a regular expression.
#[derive(Debug)]
pub struct PathRegexMatcher(pub String);

/// A matcher on the path by regular expression.
pub fn path_regex(pattern: &str) -> (r: PathRegexMatcher)
    requires
        valid_regex(pattern@),
    ensures
        r.0@ == pattern@,
{
    PathRegexMatcher::new(pattern)
}

impl PathRegexMatcher {
    pub fn new(pattern: &str) -> (r: PathRegexMatcher)
        requires
            valid_regex(pattern@),
        ensures
            r.0@ == pattern@,
    {
        PathRegexMatcher(string_of(&chars_of(pattern)))
    }

    /// The matcher, or `None` when the pattern does not compile.
    pub fn try_new(pattern: &str) -> (r: Option<PathRegexMatcher>)
        ensures
            r is Some <==> valid_regex(pattern@),
            r is Some ==> (r->0).0@ == pattern@,
    {
        if regex_compiles(pattern) {
            Some(path_regex(pattern))
        } else {
            None
        }
    }
}

impl Match for PathRegexMatcher {
    open spec fn accepts(&self, request: RequestView) -> bool {
        valid_regex(self.0@) && regex_matches(self.0@, request.path)
    }

    fn matches(&self, request: &Request) -> (r: bool) {
        regex_compiles(self.0.as_str()) && regex_is_match(self.0.as_str(), request.path().as_str())
    }
}

// ---------------------------------------------------------------- headers

/// Matches requests whose values under a header name, split at commas and
/// trimmed, are exactly the given ones, in order.
#[derive(Debug)]
pub struct HeaderExactMatcher(pub String, pub Vec<Vec<u8>>);

/// The bytes of a list of header values.
pub open spec fn value_bytes(values: Seq<&str>) -> Seq<Seq<u8>> {
    values.map_values(|v: &str| v.spec_bytes())
}

/// Valid header values.
pub open spec fn valid_values(values: Seq<&str>) -> bool {
    forall|i: int| 0 <= i < values.len() ==> valid_header_value((#[trigger] values[i]).spec_bytes())
}

/// A matcher on one header value.
pub fn header(key: &str, value: &str) -> (r: HeaderExactMatcher)
    requires
        valid_header_name(key@),
        valid_header_value(value.spec_bytes()),
    ensures
        r.0@ == canonical_name(key@),
        byte_views(r.1@) == seq![value.spec_bytes()],
{
    let r = HeaderExactMatcher::new(key, vec![value]);
    proof {
        assert(value_bytes(seq![value]) =~= seq![value.spec_bytes()]);
    }
    r
}

/// A matcher on the list of values under a header name.
pub fn headers(key: &str, values: Vec<&str>) -> (r: HeaderExactMatcher)
    requires
        valid_header_name(key@),
        valid_values(values@),
    ensures
        r.0@ == canonical_name(key@),
        byte_views(r.1@) == value_bytes(values@),
{
    HeaderExactMatcher::new(key, values)
}

impl HeaderExactMatcher {
    pub fn new(key: &str, values: Vec<&str>) -> (r: HeaderExactMatcher)
        requires
            valid_header_name(key@),
            valid_values(values@),
        ensures
            r.0@ == canonical_name(key@),
            byte_views(r.1@) == value_bytes(values@),
    {
        let name = header_name(key).unwrap();
        let mut out: Vec<Vec<u8>> = Vec::new();
        let mut i: usize = 0;
        while i < values.len()
            invariant
                i <= values@.len(),
                valid_values(values@),
                byte_views(out@) == value_bytes(values@.subrange(0, i as int)),
            decreases values@.len() - i,
        {
            let v = header_value(values[i]).unwrap();
            let ghost before = out@;
            out.push(v);
            i += 1;
            proof {
                assert(byte_views(out@) =~= byte_views(before).push(v@));
                assert(byte_views(out@) =~= value_bytes(values@.subrange(0, i as int)));
            }
        }
        proof {
            assert(values@.subrange(0, i as int) =~= values@);
        }
        HeaderExactMatcher(name, out)
    }
}

impl Match for HeaderExactMatcher {
    open spec fn accepts(&self, request: RequestView) -> bool {
        header_tokens(values_of(request.headers, self.0@)) == byte_views(self.1@)
    }

    fn matches(&self, request: &Request) -> (r: bool) {
        let tokens = tokens_of(request.header_pairs(), &self.0);
        byte_lists_equal(&tokens, &self.1)
    }
}

/// Matches requests that carry a header name.
#[derive(Debug)]
pub struct HeaderExistsMatcher(pub String);

/// A matcher on the presence of a header.
pub fn header_exists(key: &str) -> (r: HeaderExistsMatcher)
    requires
        valid_header_name(key@),
    ensures
        r.0@ == canonical_name(key@),
{
    HeaderExistsMatcher::new(key)
}

impl HeaderExistsMatcher {
    pub fn new(key: &str) -> (r: HeaderExistsMatcher)
        requires
            valid_header_name(key@),
        ensures
            r.0@ == canonical_name(key@),
    {
        HeaderExistsMatcher(header_name(key).unwrap())
    }
}

impl Match for HeaderExistsMatcher {
    open spec fn accepts(&self, request: RequestView) -> bool {
        has_name(request.headers, self.0@)
    }

    fn matches(&self, request: &Request) -> (r: bool) {
        let hs = request.header_pairs();
        let mut i: usize = 0;
        while i < hs.len()
            invariant
                i <= entry_views(hs@).len(),
                entry_views(hs@) == request@.headers,
                forall|j: int| 0 <= j < i ==> (#[trigger] entry_views(hs@)[j]).0 != self.0@,
            decreases entry_views(hs@).len() - i,
        {
            if hs[i].0 == self.0 {
                proof {
                    assert(entry_views(hs@)[i as int].0 == self.0@);
                }
                return true;
            }
            i += 1;
        }
        false
    }
}

/// Matches requests with at least one textual value under a header name,
/// every one of which matches a regular expression.
#[derive(Debug)]
pub struct HeaderRegexMatcher(pub String, pub String);

/// A matcher on the values of a header by regular expression.
pub fn header_regex(key: &str, value: &str) -> (r: HeaderRegexMatcher)
    requires
        valid_header_name(key@),
        valid_regex(value@),
    ensures
        r.0@ == canonical_name(key@),
        r.1@ == value@,
{
    HeaderRegexMatcher::new(key, value)
}

impl HeaderRegexMatcher {
    pub fn new(key: &str, value: &str) -> (r: HeaderRegexMatcher)
        requires
            valid_header_name(key@),
            valid_regex(value@),
        ensures
            r.0@ == canonical_name(key@),
            r.1@ == value@,
    {
        HeaderRegexMatcher(header_name(key).unwrap(), string_of(&chars_of(value)))
    }

    /// The matcher, or `None` when the name is not valid or the pattern does
    /// not compile.
    pub fn try_new(key: &str, value: &str) -> (r: Option<HeaderRegexMatcher>)
        ensures
            r is Some <==> valid_header_name(key@) && valid_regex(value@),
            r is Some ==> (r->0).0@ == canonical_name(key@) && (r->0).1@ == value@,
    {
        if header_name(key).is_none() || !regex_compiles(value) {
            return None;
        }
        Some(header_regex(key, value))
    }
}

impl Match for HeaderRegexMatcher {
    open spec fn accepts(&self, request: RequestView) -> bool {
        let vs = visible_values(values_of(request.headers, self.0@));
        &&& valid_regex(self.1@)
        &&& vs.len() > 0
        &&& forall|i: int| 0 <= i < vs.len() ==> regex_matches(self.1@, ascii_chars(#[trigger] vs[i]))
    }

    fn matches(&self, request: &Request) -> (r: bool) {
        if !regex_compiles(self.1.as_str()) {
            return false;
        }
        let hs = request.header_pairs();
        let mut seen = false;
        let mut all = true;
        let mut i: usize = 0;
        while i < hs.len()
            invariant
                i <= entry_views(hs@).len(),
                entry_views(hs@) == request@.headers,
                valid_regex(self.1@),
                seen == (visible_values(values_of(entry_views(hs@).take(i as int), self.0@)).len() > 0),
                all == forall|k: int|
                    0 <= k < visible_values(values_of(entry_views(hs@).take(i as int), self.0@)).len()
                        ==> regex_matches(
                        self.1@,
                        ascii_chars(
                            #[trigger] visible_values(values_of(entry_views(hs@).take(i as int), self.0@))[k],
                        ),
                    ),
            decreases entry_views(hs@).len() - i,
        {
            proof {
                assert(entry_views(hs@).take(i + 1).drop_last() =~= entry_views(hs@).take(i as int));
            }
            let ghost old_vs = visible_values(values_of(entry_views(hs@).take(i as int), self.0@));
            let e = &hs[i];
            if e.0 == self.0 {
                let ghost vals = values_of(entry_views(hs@).take(i + 1), self.0@);
                proof {
                    assert(vals.drop_last() =~= values_of(entry_views(hs@).take(i as int), self.0@));
                }
                if is_visible(&e.1) {
                    let text = ascii_text(&e.1);
                    let ok = regex_is_match(self.1.as_str(), text.as_str());
                    seen = true;
                    all = all && ok;
                    proof {
                        let new_vs = visible_values(vals);
                        assert(new_vs == old_vs.push(e.1@));
                        assert(all == forall|k: int|
                            0 <= k < new_vs.len() ==> regex_matches(
                                self.1@,
                                ascii_chars(#[trigger] new_vs[k]),
                            )) by {
                            if all {
                                assert forall|k: int| 0 <= k < new_vs.len() implies regex_matches(
                                    self.1@,
                                    ascii_chars(#[trigger] new_vs[k]),
                                ) by {
                                    if k < old_vs.len() {
                                        assert(new_vs[k] == old_vs[k]);
                                    }
                                }
                            } else {
                                if !ok {
                                    assert(new_vs[old_vs.len() as int] == e.1@);
                                } else {
                                    let k = choose|k: int|
                                        0 <= k < old_vs.len() && !regex_matches(
                                            self.1@,
                                            ascii_chars(#[trigger] old_vs[k]),
                                        );
                                    assert(new_vs[k] == old_vs[k]);
                                }
                            }
                        }
                    }
                }
            }
            proof {
                let vals = values_of(entry_views(hs@).take(i + 1), self.0@);
                if entry_views(hs@)[i as int].0 != self.0@ {
                    assert(vals == values_of(entry_views(hs@).take(i as int), self.0@));
                } else if !visible(entry_views(hs@)[i as int].1) {
                    assert(vals.drop_last() =~= values_of(entry_views(hs@).take(i as int), self.0@));
                    assert(visible_values(vals) == old_vs);
                }
            }
            i += 1;
        }
        proof {
            assert(entry_views(hs@).take(i as int) =~= entry_views(hs@));
        }
        seen && all
    }
}

// ---------------------------------------------------------------- body

/// What an exact body matcher compares with.
#[derive(Debug)]
pub enum Body {
    /// These bytes exactly.
    Bytes(Vec<u8>),
    /// A JSON document equal to this one.
    Json(Vec<u8>),
}

/// Matches requests whose body is exactly the given bytes, or the given
/// JSON document.
#[derive(Debug)]
pub struct BodyExactMatcher(pub Body);

impl BodyExactMatcher {
    /// The UTF-8 bytes of a string.
    pub fn string(body: &str) -> (r: BodyExactMatcher)
        ensures
            r.0 matches Body::Bytes(b) && b@ == body.spec_bytes(),
    {
        BodyExactMatcher(Body::Bytes(copy_slice(body.as_bytes())))
    }

    pub fn bytes(body: Vec<u8>) -> (r: BodyExactMatcher)
        ensures
            r.0 matches Body::Bytes(b) && b@ == body@,
    {
        BodyExactMatcher(Body::Bytes(body))
    }

    /// A JSON document given as text.
    pub fn json_string(body: &[u8]) -> (r: BodyExactMatcher)
        requires
            valid_json(body@),
        ensures
            r.0 matches Body::Json(b) && b@ == body@,
    {
        BodyExactMatcher(Body::Json(copy_slice(body)))
    }

    /// The matcher, or `None` when the text is not JSON.
    pub fn try_json_string(body: &[u8]) -> (r: Option<BodyExactMatcher>)
        ensures
            r is Some <==> valid_json(body@),
            r is Some ==> ((r->0).0 matches Body::Json(b) && b@ == body@),
    {
        if json_parses(body) {
            Some(body_json_string(body))
        } else {
            None
        }
    }
}

/// A matcher on the exact body, given as a string.
pub fn body_string(body: &str) -> (r: BodyExactMatcher)
    ensures
        r.0 matches Body::Bytes(b) && b@ == body.spec_bytes(),
{
    BodyExactMatcher::string(body)
}

/// A matcher on the exact body bytes.
pub fn body_bytes(body: Vec<u8>) -> (r: BodyExactMatcher)
    ensures
        r.0 matches Body::Bytes(b) && b@ == body@,
{
    BodyExactMatcher::bytes(body)
}

/// A matcher on a JSON body equal to the given document.
pub fn body_json_string(body: &[u8]) -> (r: BodyExactMatcher)
    requires
        valid_json(body@),
    ensures
        r.0 matches Body::Json(b) && b@ == body@,
{
    BodyExactMatcher::json_string(body)
}

impl Match for BodyExactMatcher {
    open spec fn accepts(&self, request: RequestView) -> bool {
        match self.0 {
            Body::Bytes(b) => request.body == b@,
            Body::Json(j) => json_equal(request.body, j@),
        }
    }

    fn matches(&self, request: &Request) -> (r: bool) {
        match &self.0 {
            Body::Bytes(b) => bytes_equal(request.body(), b),
            Body::Json(j) => json_documents_equal(request.body().as_slice(), j.as_slice()),
        }
    }
}

/// Matches requests whose body, read as UTF-8, contains a string.
#[derive(Debug)]
pub struct BodyContainsMatcher(pub Vec<u8>);

impl BodyContainsMatcher {
    pub fn string(body: &str) -> (r: BodyContainsMatcher)
        ensures
            r.0@ == body.spec_bytes(),
    {
        BodyContainsMatcher(copy_slice(body.as_bytes()))
    }
}

/// A matcher on a part of the body.
pub fn body_string_contains(body: &str) -> (r: BodyContainsMatcher)
    ensures
        r.0@ == body.spec_bytes(),
{
    BodyContainsMatcher::string(body)
}

impl Match for BodyContainsMatcher {
    open spec fn accepts(&self, request: RequestView) -> bool {
        valid_utf8(request.body) && valid_utf8(self.0@) && is_infix(self.0@, request.body)
    }

    fn matches(&self, request: &Request) -> (r: bool) {
        if utf8_text(request.body().as_slice()).is_none() {
            return false;
        }
        if utf8_text(self.0.as_slice()).is_none() {
            return false;
        }
        bytes_contain(request.body().as_slice(), self.0.as_slice())
    }
}

/// Matches requests whose JSON body includes the given document.
#[derive(Debug)]
pub struct BodyPartialJsonMatcher(pub Vec<u8>);

impl BodyPartialJsonMatcher {
    /// A JSON document given as text.
    pub fn json_string(body: &str) -> (r: BodyPartialJsonMatcher)
        requires
            valid_json(body.spec_bytes()),
        ensures
            r.0@ == body.spec_bytes(),
    {
        BodyPartialJsonMatcher(copy_slice(body.as_bytes()))
    }

    /// The matcher, or `None` when the text is not JSON.
    pub fn try_json_string(body: &str) -> (r: Option<BodyPartialJsonMatcher>)
        ensures
            r is Some <==> valid_json(body.spec_bytes()),
            r is Some ==> (r->0).0@ == body.spec_bytes(),
    {
        if json_parses(body.as_bytes()) {
            Some(body_partial_json_string(body))
        } else {
            None
        }
    }
}

/// A matcher on a JSON body that includes the given document.
pub fn body_partial_json_string(body: &str) -> (r: BodyPartialJsonMatcher)
    requires
        valid_json(body.spec_bytes()),
    ensures
        r.0@ == body.spec_bytes(),
{
    BodyPartialJsonMatcher::json_string(body)
}

impl Match for BodyPartialJsonMatcher {
    open spec fn accepts(&self, request: RequestView) -> bool {
        json_includes(request.body, self.0@)
    }

    fn matches(&self, request: &Request) -> (r: bool) {
        json_document_includes(request.body().as_slice(), self.0.as_slice())
    }
}

// ---------------------------------------------------------------- query

/// Matches requests with a query pair of exactly this key and value.
#[derive(Debug)]
pub struct QueryParamExactMatcher(pub String, pub String);

impl QueryParamExactMatcher {
    pub fn new(key: &str, value: &str) -> (r: QueryParamExactMatcher)
        ensures
            r.0@ == key@,
            r.1@ == value@,
    {
        QueryParamExactMatcher(string_of(&chars_of(key)), string_of(&chars_of(value)))
    }
}

/// A matcher on one query pair.
pub fn query_param(key: &str, value: &str) -> (r: QueryParamExactMatcher)
    ensures
        r.0@ == key@,
        r.1@ == value@,
{
    QueryParamExactMatcher::new(key, value)
}

impl Match for QueryParamExactMatcher {
    open spec fn accepts(&self, request: RequestView) -> bool {
        exists|i: int| 0 <= i < request.query.len() && #[trigger] request.query[i] == (self.0@, self.1@)
    }

    fn matches(&self, request: &Request) -> (r: bool) {
        let qs = request.query_pairs();
        let mut i: usize = 0;
        while i < qs.len()
            invariant
                i <= qs@.len(),
                pairs_view(qs@) == request@.query,
                forall|j: int| 0 <= j < i ==> (#[trigger] request@.query[j]) != (self.0@, self.1@),
            decreases qs@.len() - i,
        {
            if qs[i].0 == self.0 && qs[i].1 == self.1 {
                proof {
                    assert(request@.query[i as int] == (self.0@, self.1@));
                }
                return true;
            }
            proof {
                assert(request@.query[i as int] == (qs@[i as int].0@, qs@[i as int].1@));
            }
            i += 1;
        }
        false
    }
}

/// Matches requests with a query pair of this key whose value contains a
/// string.
#[derive(Debug)]
pub struct QueryParamContainsMatcher(pub String, pub String);

impl QueryParamContainsMatcher {
    pub fn new(key: &str, value: &str) -> (r: QueryParamContainsMatcher)
        ensures
            r.0@ == key@,
            r.1@ == value@,
    {
        QueryParamContainsMatcher(string_of(&chars_of(key)), string_of(&chars_of(value)))
    }
}

/// A matcher on a part of a query value.
pub fn query_param_contains(key: &str, value: &str) -> (r: QueryParamContainsMatcher)
    ensures
        r.0@ == key@,
        r.1@ == value@,
{
    QueryParamContainsMatcher::new(key, value)
}

impl Match for QueryParamContainsMatcher {
    open spec fn accepts(&self, request: RequestView) -> bool {
        exists|i: int|
            0 <= i < request.query.len() && (#[trigger] request.query[i]).0 == self.0@ && is_infix(
                self.1@,
                request.query[i].1,
            )
    }

    fn matches(&self, request: &Request) -> (r: bool) {
        let qs = request.query_pairs();
        let mut i: usize = 0;
        while i < qs.len()
            invariant
                i <= qs@.len(),
                pairs_view(qs@) == request@.query,
                forall|j: int|
                    0 <= j < i ==> !((#[trigger] request@.query[j]).0 == self.0@ && is_infix(
                        self.1@,
                        request@.query[j].1,
                    )),
            decreases qs@.len() - i,
        {
            proof {
                assert(request@.query[i as int] == (qs@[i as int].0@, qs@[i as int].1@));
            }
            if qs[i].0 == self.0 && str_contains(qs[i].1.as_str(), self.1.as_str()) {
                return true;
            }
            i += 1;
        }
        false
    }
}

/// Matches requests with no query pair of this key.
#[derive(Debug)]
pub struct QueryParamIsMissingMatcher(pub String);

impl QueryParamIsMissingMatcher {
    pub fn new(key: &str) -> (r: QueryParamIsMissingMatcher)
        ensures
            r.0@ == key@,
    {
        QueryParamIsMissingMatcher(string_of(&chars_of(key)))
    }
}

/// A matcher on the absence of a query key.
pub fn query_param_is_missing(key: &str) -> (r: QueryParamIsMissingMatcher)
    ensures
        r.0@ == key@,
{
    QueryParamIsMissingMatcher::new(key)
}

impl Match for QueryParamIsMissingMatcher {
    open spec fn accepts(&self, request: RequestView) -> bool {
        forall|i: int| 0 <= i < request.query.len() ==> (#[trigger] request.query[i]).0 != self.0@
    }

    fn matches(&self, request: &Request) -> (r: bool) {
        let qs = request.query_pairs();
        let mut i: usize = 0;
        while i < qs.len()
            invariant
                i <= qs@.len(),
                pairs_view(qs@) == request@.query,
                forall|j: int| 0 <= j < i ==> (#[trigger] request@.query[j]).0 != self.0@,
            decreases qs@.len() - i,
        {
            proof {
                assert(request@.query[i as int] == (qs@[i as int].0@, qs@[i as int].1@));
            }
            if qs[i].0 == self.0 {
                return false;
            }
            i += 1;
        }
        true
    }
}

// ---------------------------------------------------------------- authorization

/// The bytes of `"Basic "`.
pub open spec fn basic_prefix() -> Seq<u8> {
    seq![66u8, 97u8, 115u8, 105u8, 99u8, 32u8]
}

/// The bytes of `"Bearer "`.
pub open spec fn bearer_prefix() -> Seq<u8> {
    seq![66u8, 101u8, 97u8, 114u8, 101u8, 114u8, 32u8]
}

/// A matcher on the single `authorization` value `prefix` + `token`.
fn authorization(prefix: Vec<u8>, token: &[u8]) -> (r: HeaderExactMatcher)
    requires
        valid_header_value(prefix@),
        valid_header_value(token@),
    ensures
        r.0@ == "authorization"@,
        byte_views(r.1@) == seq![prefix@ + token@],
{
    let mut value = prefix;
    let mut i: usize = 0;
    let ghost start = value@;
    while i < token.len()
        invariant
            i <= token@.len(),
            value@ == start + token@.subrange(0, i as int),
        decreases token@.len() - i,
    {
        value.push(token[i]);
        i += 1;
        proof {
            assert(value@ =~= start + token@.subrange(0, i as int));
        }
    }
    proof {
        assert(token@.subrange(0, i as int) =~= token@);
    }
    let mut values: Vec<Vec<u8>> = Vec::new();
    values.push(value);
    proof {
        assert(byte_views(values@) =~= seq![prefix@ + token@]);
    }
    HeaderExactMatcher(string_of(&chars_of("authorization")), values)
}

/// Matches requests with basic authorization by the given token.
#[derive(Debug)]
pub struct BasicAuthMatcher(pub HeaderExactMatcher);

impl BasicAuthMatcher {
    /// The `Basic` token of a user name and password.
    pub fn from_credentials(username: &str, password: &str) -> (r: BasicAuthMatcher)
        ensures
            r.0.0@ == "authorization"@,
            byte_views(r.0.1@) == seq![
                basic_prefix() + base64_of(username.spec_bytes() + seq![58u8] + password.spec_bytes()),
            ],
    {
        let mut raw = copy_slice(username.as_bytes());
        raw.push(58u8);
        let p = copy_slice(password.as_bytes());
        let mut i: usize = 0;
        let ghost start = raw@;
        while i < p.len()
            invariant
                i <= p@.len(),
                raw@ == start + p@.subrange(0, i as int),
            decreases p@.len() - i,
        {
            raw.push(p[i]);
            i += 1;
            proof {
                assert(raw@ =~= start + p@.subrange(0, i as int));
            }
        }
        proof {
            assert(p@.subrange(0, i as int) =~= p@);
            assert(raw@ =~= username.spec_bytes() + seq![58u8] + password.spec_bytes());
        }
        let token = base64_encode(raw.as_slice());
        proof {
            lemma_base64_alphabet(raw@);
        }
        BasicAuthMatcher(authorization(vec![66u8, 97u8, 115u8, 105u8, 99u8, 32u8], token.as_slice()))
    }

    /// The given `Basic` token.
    pub fn from_token(token: &str) -> (r: BasicAuthMatcher)
        requires
            valid_header_value(token.spec_bytes()),
        ensures
            r.0.0@ == "authorization"@,
            byte_views(r.0.1@) == seq![basic_prefix() + token.spec_bytes()],
    {
        BasicAuthMatcher(authorization(vec![66u8, 97u8, 115u8, 105u8, 99u8, 32u8], token.as_bytes()))
    }
}

/// A matcher on basic authorization by user name and password.
pub fn basic_auth(username: &str, password: &str) -> (r: BasicAuthMatcher)
    ensures
        r.0.0@ == "authorization"@,
        byte_views(r.0.1@) == seq![
            basic_prefix() + base64_of(username.spec_bytes() + seq![58u8] + password.spec_bytes()),
        ],
{
    BasicAuthMatcher::from_credentials(username, password)
}

impl Match for BasicAuthMatcher {
    open spec fn accepts(&self, request: RequestView) -> bool {
        self.0.accepts(request)
    }

    fn matches(&self, request: &Request) -> (r: bool) {
        self.0.matches(request)
    }
}

/// Matches requests with bearer authorization by the given token.
#[derive(Debug)]
pub struct BearerTokenMatcher(pub HeaderExactMatcher);

impl BearerTokenMatcher {
    pub fn from_token(token: &str) -> (r: BearerTokenMatcher)
        requires
            valid_header_value(token.spec_bytes()),
        ensures
            r.0.0@ == "authorization"@,
            byte_views(r.0.1@) == seq![bearer_prefix() + token.spec_bytes()],
    {
        BearerTokenMatcher(
            authorization(vec![66u8, 101u8, 97u8, 114u8, 101u8, 114u8, 32u8], token.as_bytes()),
        )
    }
}

/// A matcher on a bearer token.
pub fn bearer_token(token: &str) -> (r: BearerTokenMatcher)
    requires
        valid_header_value(token.spec_bytes()),
    ensures
        r.0.0@ == "authorization"@,
        byte_views(r.0.1@) == seq![bearer_prefix() + token.spec_bytes()],
{
    BearerTokenMatcher::from_token(token)
}

impl Match for BearerTokenMatcher {
    open spec fn accepts(&self, request: RequestView) -> bool {
        self.0.accepts(request)
    }

    fn matches(&self, request: &Request) -> (r: bool) {
        self.0.matches(request)
    }
}

// ---------------------------------------------------------------- any matcher

/// One of the built-in matchers.
#[derive(Debug)]
pub enum Matcher {
    Method(MethodExactMatcher),
    Any(AnyMatcher),
    Path(PathExactMatcher),
    PathRegex(PathRegexMatcher),
    Header(HeaderExactMatcher),
    HeaderExists(HeaderExistsMatcher),
    HeaderRegex(HeaderRegexMatcher),
    Body(BodyExactMatcher),
    BodyContains(BodyContainsMatcher),
    BodyPartialJson(BodyPartialJsonMatcher),
    QueryParam(QueryParamExactMatcher),
    QueryParamContains(QueryParamContainsMatcher),
    QueryParamIsMissing(QueryParamIsMissingMatcher),
    BasicAuth(BasicAuthMatcher),
    BearerToken(BearerTokenMatcher),
}

impl Matcher {
    /// Whether the built-in matcher accepts a request.
    pub open spec fn spec_accepts(&self, request: RequestView) -> bool {
        match self {
            Matcher::Method(m) => m.accepts(request),
            Matcher::Any(m) => m.accepts(request),
            Matcher::Path(m) => m.accepts(request),
            Matcher::PathRegex(m) => m.accepts(request),
            Matcher::Header(m) => m.accepts(request),
            Matcher::HeaderExists(m) => m.accepts(request),
            Matcher::HeaderRegex(m) => m.accepts(request),
            Matcher::Body(m) => m.accepts(request),
            Matcher::BodyContains(m) => m.accepts(request),
            Matcher::BodyPartialJson(m) => m.accepts(request),
            Matcher::QueryParam(m) => m.accepts(request),
            Matcher::QueryParamContains(m) => m.accepts(request),
            Matcher::QueryParamIsMissing(m) => m.accepts(request),
            Matcher::BasicAuth(m) => m.accepts(request),
            Matcher::BearerToken(m) => m.accepts(request),
        }
    }
}

impl Match for Matcher {
    open spec fn accepts(&self, request: RequestView) -> bool {
        self.spec_accepts(request)
    }

    fn matches(&self, request: &Request) -> (r: bool) {
        match self {
            Matcher::Method(m) => m.matches(request),
            Matcher::Any(m) => m.matches(request),
            Matcher::Path(m) => m.matches(request),
            Matcher::PathRegex(m) => m.matches(request),
            Matcher::Header(m) => m.matches(request),
            Matcher::HeaderExists(m) => m.matches(request),
            Matcher::HeaderRegex(m) => m.matches(request),
            Matcher::Body(m) => m.matches(request),
            Matcher::BodyContains(m) => m.matches(request),
            Matcher::BodyPartialJson(m) => m.matches(request),
            Matcher::QueryParam(m) => m.matches(request),
            Matcher::QueryParamContains(m) => m.matches(request),
            Matcher::QueryParamIsMissing(m) => m.matches(request),
            Matcher::BasicAuth(m) => m.matches(request),
            Matcher::BearerToken(m) => m.matches(request),
        }
    }
}

impl IntoMatcher for MethodExactMatcher {
    fn into_matcher(self) -> (m: Matcher) {
        Matcher::Method(self)
    }
}

impl IntoMatcher for AnyMatcher {
    fn into_matcher(self) -> (m: Matcher) {
        Matcher::Any(self)
    }
}

impl IntoMatcher for PathExactMatcher {
    fn into_matcher(self) -> (m: Matcher) {
        Matcher::Path(self)
    }
}

impl IntoMatcher for PathRegexMatcher {
    fn into_matcher(self) -> (m: Matcher) {
        Matcher::PathRegex(self)
    }
}

impl IntoMatcher for HeaderExactMatcher {
    fn into_matcher(self) -> (m: Matcher) {
        Matcher::Header(self)
    }
}

impl IntoMatcher for HeaderExistsMatcher {
    fn into_matcher(self) -> (m: Matcher) {
        Matcher::HeaderExists(self)
    }
}

impl IntoMatcher for HeaderRegexMatcher {
    fn into_matcher(self) -> (m: Matcher) {
        Matcher::HeaderRegex(self)
    }
}

impl IntoMatcher for BodyExactMatcher {
    fn into_matcher(self) -> (m: Matcher) {
        Matcher::Body(self)
    }
}

impl IntoMatcher for BodyContainsMatcher {
    fn into_matcher(self) -> (m: Matcher) {
        Matcher::BodyContains(self)
    }
}

impl IntoMatcher for BodyPartialJsonMatcher {
    fn into_matcher(self) -> (m: Matcher) {
        Matcher::BodyPartialJson(self)
    }
}

impl IntoMatcher for QueryParamExactMatcher {
    fn into_matcher(self) -> (m: Matcher) {
        Matcher::QueryParam(self)
    }
}

impl IntoMatcher for QueryParamContainsMatcher {
    fn into_matcher(self) -> (m: Matcher) {
        Matcher::QueryParamContains(self)
    }
}

impl IntoMatcher for QueryParamIsMissingMatcher {
    fn into_matcher(self) -> (m: Matcher) {
        Matcher::QueryParamIsMissing(self)
    }
}

impl IntoMatcher for BasicAuthMatcher {
    fn into_matcher(self) -> (m: Matcher) {
        Matcher::BasicAuth(self)
    }
}

impl IntoMatcher for BearerTokenMatcher {
    fn into_matcher(self) -> (m: Matcher) {
        Matcher::BearerToken(self)
    }
}

impl IntoMatcher for Matcher {
    fn into_matcher(self) -> (m: Matcher) {
        self
    }
}

} // verus!
