//! The blueprint of a response: status, headers, media type, body, delay.
use vstd::prelude::*;
use vstd::string::StringSliceAdditionalSpecFns;
use core::time::Duration;
use crate::headers::{HEADER_MAP_ROOM, HeaderSeq, append_to_header_map, appended, clone_header_map, copy_bytes, header_entries, header_map_len, header_value, insert_into_header_map, inserted, lemma_appended_len, lemma_inserted_len, lower_char, new_header_map, valid_header_name, valid_header_value};
use crate::text::{chars_of, string_of};

verus! {

/// A valid status code: from 100 to 599.
pub open spec fn valid_status(s: u16) -> bool {
    100 <= s <= 599
}

/// The abstract value of a response template.
pub struct TemplateView {
    pub status: u16,
    pub headers: HeaderSeq,
    pub mime: Seq<char>,
    pub body: Option<Seq<u8>>,
    pub delay: Option<Duration>,
}

/// The canonical form of a valid header name.
pub open spec fn canonical_name(s: Seq<char>) -> Seq<char> {
    s.map_values(|c: char| lower_char(c))
}

/// A template for the responses a mock sends.
#[derive(Debug)]
pub struct ResponseTemplate {
    mime: String,
    status_code: u16,
    headers: http::HeaderMap,
    body: Option<Vec<u8>>,
    delay: Option<Duration>,
}

impl ResponseTemplate {
    /// The headers leave room for one more value, and the media type is a
    /// valid header value.
    #[verifier::type_invariant]
    spec fn well_formed(&self) -> bool {
        &&& header_entries(self.headers).len() <= HEADER_MAP_ROOM
        &&& valid_header_value(encode_mime(self.mime@))
    }
}

impl View for ResponseTemplate {
    type V = TemplateView;

    closed spec fn view(&self) -> TemplateView {
        TemplateView {
            status: self.status_code,
            headers: header_entries(self.headers),
            mime: self.mime@,
            body: match self.body {
                Some(b) => Some(b@),
                None => None,
            },
            delay: self.delay,
        }
    }
}

/// A response ready to be written: status, headers and body.
#[derive(Debug)]
pub struct RenderedResponse {
    pub status: u16,
    pub headers: http::HeaderMap,
    pub body: Vec<u8>,
}

/// The headers a template renders: the content type, when one was set,
/// replaces any earlier one.
pub open spec fn rendered_headers(t: TemplateView) -> HeaderSeq {
    if t.mime.len() > 0 {
        inserted(t.headers, "content-type"@, encode_mime(t.mime))
    } else {
        t.headers
    }
}

/// The bytes of a media type.
pub open spec fn encode_mime(m: Seq<char>) -> Seq<u8> {
    vstd::utf8::encode_utf8(m)
}

/// The headers after appending each pair in turn.
pub open spec fn appended_all(hs: HeaderSeq, pairs: Seq<(&str, &str)>) -> HeaderSeq
    decreases pairs.len(),
{
    if pairs.len() == 0 {
        hs
    } else {
        appended(
            appended_all(hs, pairs.drop_last()),
            canonical_name(pairs.last().0@),
            pairs.last().1.spec_bytes(),
        )
    }
}

proof fn lemma_appended_all_len(hs: HeaderSeq, pairs: Seq<(&str, &str)>)
    ensures
        appended_all(hs, pairs).len() == hs.len() + pairs.len(),
    decreases pairs.len(),
{
    if pairs.len() > 0 {
        lemma_appended_all_len(hs, pairs.drop_last());
        lemma_appended_len(
            appended_all(hs, pairs.drop_last()),
            canonical_name(pairs.last().0@),
            pairs.last().1.spec_bytes(),
        );
    }
}

/// Visible ASCII text is a valid header value.
proof fn lemma_visible_ascii_value(s: Seq<char>)
    requires
        forall|i: int| 0 <= i < s.len() ==> ' ' <= #[trigger] s[i] && s[i] <= '~',
    ensures
        valid_header_value(encode_mime(s)),
{
    vstd::utf8::is_ascii_chars_encode_utf8(s);
}

/// The body a template renders: the last one set, or none at all.
pub open spec fn rendered_body(t: TemplateView) -> Seq<u8> {
    match t.body {
        Some(b) => b,
        None => seq![],
    }
}

impl ResponseTemplate {
    /// A template with this status, no headers, no body and no delay.
    pub fn new(s: u16) -> (r: ResponseTemplate)
        requires
            valid_status(s),
        ensures
            r@ == (TemplateView {
                status: s,
                headers: seq![],
                mime: seq![],
                body: None,
                delay: None,
            }),
    {
        proof {
            lemma_visible_ascii_value(Seq::<char>::empty());
        }
        let r = ResponseTemplate {
            mime: String::new(),
            status_code: s,
            headers: new_header_map(),
            body: None,
            delay: None,
        };
        r
    }

    /// A template with this status, or `None` when the status is not from
    /// 100 to 599.
    pub fn try_new(s: u16) -> (r: Option<ResponseTemplate>)
        ensures
            r is Some <==> valid_status(s),
            r is Some ==> (r->0)@ == (TemplateView {
                status: s,
                headers: seq![],
                mime: seq![],
                body: None,
                delay: None,
            }),
    {
        if 100 <= s && s <= 599 {
            Some(ResponseTemplate::new(s))
        } else {
            None
        }
    }

    /// How many header values the template holds.
    pub fn header_count(&self) -> (r: usize)
        ensures
            r == self@.headers.len(),
    {
        proof {
            use_type_invariant(self);
        }
        header_map_len(&self.headers)
    }

    /// Adds a value under a header name, after the others.
    pub fn append_header(self, key: &str, value: &str) -> (r: ResponseTemplate)
        requires
            valid_header_name(key@),
            valid_header_value(value.spec_bytes()),
            self@.headers.len() < HEADER_MAP_ROOM,
        ensures
            r@ == (TemplateView {
                headers: appended(self@.headers, canonical_name(key@), value.spec_bytes()),
                ..self@
            }),
    {
        proof {
            use_type_invariant(&self);
            lemma_appended_len(self@.headers, canonical_name(key@), value.spec_bytes());
        }
        let ResponseTemplate { mime, status_code, mut headers, body, delay } = self;
        append_to_header_map(&mut headers, key, value.as_bytes());
        ResponseTemplate { mime, status_code, headers, body, delay }
    }

    /// Sets the only value under a header name.
    pub fn insert_header(self, key: &str, value: &str) -> (r: ResponseTemplate)
        requires
            valid_header_name(key@),
            valid_header_value(value.spec_bytes()),
            self@.headers.len() < HEADER_MAP_ROOM,
        ensures
            r@ == (TemplateView {
                headers: inserted(self@.headers, canonical_name(key@), value.spec_bytes()),
                ..self@
            }),
    {
        proof {
            use_type_invariant(&self);
            lemma_inserted_len(self@.headers, canonical_name(key@), value.spec_bytes());
        }
        let ResponseTemplate { mime, status_code, mut headers, body, delay } = self;
        insert_into_header_map(&mut headers, key, value.as_bytes());
        ResponseTemplate { mime, status_code, headers, body, delay }
    }

    /// Adds each pair, in order, as `append_header` does.
    pub fn append_headers(self, headers: Vec<(&str, &str)>) -> (r: ResponseTemplate)
        requires
            forall|i: int|
                0 <= i < headers@.len() ==> valid_header_name((#[trigger] headers@[i]).0@)
                    && valid_header_value(headers@[i].1.spec_bytes()),
            self@.headers.len() + headers@.len() < HEADER_MAP_ROOM,
        ensures
            r@ == (TemplateView { headers: appended_all(self@.headers, headers@), ..self@ }),
    {
        let ghost start = self@;
        let mut t = self;
        let mut i: usize = 0;
        while i < headers.len()
            invariant
                i <= headers@.len(),
                forall|j: int|
                    0 <= j < headers@.len() ==> valid_header_name((#[trigger] headers@[j]).0@)
                        && valid_header_value(headers@[j].1.spec_bytes()),
                start.headers.len() + headers@.len() < HEADER_MAP_ROOM,
                t@ == (TemplateView {
                    headers: appended_all(start.headers, headers@.take(i as int)),
                    ..start
                }),
            decreases headers@.len() - i,
        {
            proof {
                lemma_appended_all_len(start.headers, headers@.take(i as int));
                assert(headers@.take(i + 1).drop_last() =~= headers@.take(i as int));
            }
            let (k, v) = headers[i];
            t = t.append_header(k, v);
            i += 1;
        }
        proof {
            assert(headers@.take(i as int) =~= headers@);
        }
        t
    }

    /// Sets the body, as `application/octet-stream`.
    pub fn set_body_bytes(self, body: Vec<u8>) -> (r: ResponseTemplate)
        ensures
            r@ == (TemplateView {
                body: Some(body@),
                mime: "application/octet-stream"@,
                ..self@
            }),
    {
        let mut t = self;
        proof {
            use_type_invariant(&t);
        }
        t.body = Some(body);
        proof {
            reveal_strlit("application/octet-stream");
            lemma_visible_ascii_value("application/octet-stream"@);
        }
        t.mime = string_of(&chars_of("application/octet-stream"));
        t
    }

    /// Sets the body to the UTF-8 bytes of `body`, as `text/plain`.
    pub fn set_body_string(self, body: String) -> (r: ResponseTemplate)
        ensures
            r@ == (TemplateView {
                body: Some(vstd::utf8::encode_utf8(body@)),
                mime: "text/plain"@,
                ..self@
            }),
    {
        let mut t = self;
        proof {
            use_type_invariant(&t);
        }
        let b = body.as_str().as_bytes();
        t.body = Some(copy_slice(b));
        proof {
            reveal_strlit("text/plain");
            lemma_visible_ascii_value("text/plain"@);
        }
        t.mime = string_of(&chars_of("text/plain"));
        t
    }

    /// Sets the body and its media type.
    pub fn set_body_raw(self, body: Vec<u8>, mime: &str) -> (r: ResponseTemplate)
        requires
            valid_header_value(mime.spec_bytes()),
        ensures
            r@ == (TemplateView { body: Some(body@), mime: mime@, ..self@ }),
    {
        let mut t = self;
        proof {
            use_type_invariant(&t);
        }
        t.body = Some(body);
        t.mime = string_of(&chars_of(mime));
        t
    }

    /// Sets the delay before the response is sent.
    pub fn set_delay(self, delay: Duration) -> (r: ResponseTemplate)
        ensures
            r@ == (TemplateView { delay: Some(delay), ..self@ }),
    {
        let mut t = self;
        proof {
            use_type_invariant(&t);
        }
        t.delay = Some(delay);
        t
    }

    /// The delay before the response is sent, if any.
    pub fn delay(&self) -> (r: Option<Duration>)
        ensures
            r == self@.delay,
    {
        self.delay
    }

    pub fn status(&self) -> (r: u16)
        ensures
            r == self@.status,
    {
        self.status_code
    }

    /// A copy with the same value.
    pub fn duplicate(&self) -> (r: ResponseTemplate)
        ensures
            r@ == self@,
    {
        proof {
            use_type_invariant(self);
        }
        ResponseTemplate {
            mime: self.mime.clone(),
            status_code: self.status_code,
            headers: clone_header_map(&self.headers),
            body: match &self.body {
                Some(b) => Some(copy_bytes(b)),
                None => None,
            },
            delay: self.delay,
        }
    }

    /// The response this template describes; the delay is not applied here.
    pub fn generate_response(&self) -> (r: RenderedResponse)
        ensures
            r.status == self@.status,
            header_entries(r.headers) == rendered_headers(self@),
            r.body@ == rendered_body(self@),
    {
        proof {
            use_type_invariant(self);
        }
        let mut headers = clone_header_map(&self.headers);
        if !self.mime.as_str().is_empty() {
            let v = header_value(self.mime.as_str()).unwrap();
            proof {
                reveal_strlit("content-type");
                assert(valid_header_name("content-type"@));
                assert(canonical_name("content-type"@) =~= "content-type"@);
            }
            insert_into_header_map(&mut headers, "content-type", v.as_slice());
        }
        let body = match &self.body {
            Some(b) => copy_bytes(b),
            None => Vec::new(),
        };
        RenderedResponse { status: self.status_code, headers, body }
    }
}

/// The bytes of a slice, in a vector.
pub fn copy_slice(b: &[u8]) -> (r: Vec<u8>)
    ensures
        r@ == b@,
{
    let mut out: Vec<u8> = Vec::new();
    let mut i: usize = 0;
    while i < b.len()
        invariant
            i <= b@.len(),
            out@ == b@.subrange(0, i as int),
        decreases b@.len() - i,
    {
        out.push(b[i]);
        i += 1;
        proof {
            assert(out@ =~= b@.subrange(0, i as int));
        }
    }
    proof {
        assert(b@.subrange(0, i as int) =~= b@);
    }
    out
}

} // verus!
