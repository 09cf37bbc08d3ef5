//! Mocks: matchers, a responder, a cap, a priority and an expectation.
use vstd::prelude::*;
use crate::matchers::{IntoMatcher, Match, Matcher};
use crate::request::RequestView;
use crate::response_template::{RenderedResponse, ResponseTemplate, rendered_body, rendered_headers};
use crate::headers::{header_entries, new_header_map};
use core::time::Duration;
use crate::times::Times;
use crate::text::{chars_of, string_of};

verus! {

/// What a mock answers with.
#[derive(Debug)]
pub enum Responder {
    /// A response made from this template.
    Template(ResponseTemplate),
    /// A transport-level failure, described by this message.
    Error(String),
}

/// What the server does with a request.
#[derive(Debug)]
pub enum Reply {
    /// Send this response, after the delay if there is one.
    Response(RenderedResponse, Option<Duration>),
    /// Fail the connection; the message describes why.
    Error(String),
}

/// `r` is what `resp` answers.
pub open spec fn reply_of(resp: Responder, r: Reply) -> bool {
    match resp {
        Responder::Template(t) => r matches Reply::Response(rr, d) && rr.status == t@.status
            && header_entries(rr.headers) == rendered_headers(t@) && rr.body@ == rendered_body(t@) && d == t@.delay,
        Responder::Error(m) => r matches Reply::Error(e) && e@ == m@,
    }
}

/// `r` is the answer to a request no mock matched: status 404, no headers,
/// an empty body and no delay.
pub open spec fn is_not_found(r: Reply) -> bool {
    r matches Reply::Response(rr, d) && rr.status == 404 && header_entries(rr.headers).len() == 0
        && rr.body@.len() == 0 && d is None
}

impl Responder {
    /// The answer for one matched request; each call makes a fresh one.
    pub fn reply(&self) -> (r: Reply)
        ensures
            reply_of(*self, r),
    {
        match self {
            Responder::Template(t) => Reply::Response(t.generate_response(), t.delay()),
            Responder::Error(m) => Reply::Error(m.clone()),
        }
    }
}

/// The answer to a request no mock matched.
pub fn not_found() -> (r: Reply)
    ensures
        is_not_found(r),
{
    Reply::Response(RenderedResponse { status: 404, headers: new_header_map(), body: Vec::new() }, None)
}

/// A request matching rule and what to answer; it holds no runtime state.
#[derive(Debug)]
pub struct Mock {
    pub matchers: Vec<Matcher>,
    pub response: Responder,
    pub max_n_matches: Option<u64>,
    pub priority: u8,
    pub name: Option<String>,
    pub expectation_range: Times,
}

/// Matchers gathered before the responder is chosen.
#[derive(Debug)]
pub struct MockBuilder {
    pub matchers: Vec<Matcher>,
}

/// Whether every matcher accepts a request.
pub open spec fn all_accept(ms: Seq<Matcher>, q: RequestView) -> bool {
    forall|i: int| 0 <= i < ms.len() ==> (#[trigger] ms[i]).spec_accepts(q)
}

/// A mock with these matchers and responder, and the defaults: no cap,
/// priority 5, no name, any number of matches expected.
pub open spec fn default_mock(matchers: Seq<Matcher>, response: Responder, m: Mock) -> bool {
    &&& m.matchers@ == matchers
    &&& m.response == response
    &&& m.max_n_matches == None::<u64>
    &&& m.priority == 5
    &&& m.name == None::<String>
    &&& m.expectation_range == Times::Unbounded
}

impl Mock {
    /// Starts a mock with one matcher.
    pub fn given<M: IntoMatcher>(matcher: M) -> (r: MockBuilder)
        ensures
            r.matchers@.len() == 1,
            forall|q: RequestView| #[trigger] r.matchers@[0].spec_accepts(q) == matcher.accepts(q),
    {
        let mut matchers: Vec<Matcher> = Vec::new();
        matchers.push(matcher.into_matcher());
        MockBuilder { matchers }
    }

    /// Matches at most `n` requests.
    pub fn up_to_n_times(self, n: u64) -> (r: Mock)
        requires
            n > 0,
        ensures
            r == (Mock { max_n_matches: Some(n), ..self }),
    {
        let mut m = self;
        m.max_n_matches = Some(n);
        m
    }

    /// Sets the priority: 1 is the highest, 255 the lowest.
    pub fn with_priority(self, p: u8) -> (r: Mock)
        requires
            p > 0,
        ensures
            r == (Mock { priority: p, ..self }),
    {
        let mut m = self;
        m.priority = p;
        m
    }

    /// Sets how many matches are expected.
    pub fn expect(self, r: Times) -> (m: Mock)
        ensures
            m == (Mock { expectation_range: r, ..self }),
    {
        let mut m = self;
        m.expectation_range = r;
        m
    }

    /// Names the mock in diagnostics.
    pub fn named(self, mock_name: &str) -> (r: Mock)
        ensures
            r.name matches Some(n) && n@ == mock_name@,
            r.matchers == self.matchers,
            r.response == self.response,
            r.max_n_matches == self.max_n_matches,
            r.priority == self.priority,
            r.expectation_range == self.expectation_range,
    {
        let mut m = self;
        m.name = Some(string_of(&chars_of(mock_name)));
        m
    }
}

impl MockBuilder {
    /// Adds a matcher; all of them must accept a request.
    pub fn and<M: IntoMatcher>(self, matcher: M) -> (r: MockBuilder)
        ensures
            r.matchers@.len() == self.matchers@.len() + 1,
            r.matchers@.subrange(0, self.matchers@.len() as int) == self.matchers@,
            forall|q: RequestView| #[trigger]
                r.matchers@[self.matchers@.len() as int].spec_accepts(q) == matcher.accepts(q),
    {
        let mut b = self;
        b.matchers.push(matcher.into_matcher());
        proof {
            assert(b.matchers@.subrange(0, self.matchers@.len() as int) =~= self.matchers@);
        }
        b
    }

    /// Answers matching requests with responses made from `template`.
    pub fn respond_with(self, template: ResponseTemplate) -> (r: Mock)
        ensures
            default_mock(self.matchers@, Responder::Template(template), r),
    {
        Mock {
            matchers: self.matchers,
            response: Responder::Template(template),
            max_n_matches: None,
            priority: 5,
            name: None,
            expectation_range: Times::Unbounded,
        }
    }

    /// Answers matching requests with a transport-level failure.
    pub fn respond_with_err(self, message: String) -> (r: Mock)
        ensures
            default_mock(self.matchers@, Responder::Error(message), r),
    {
        Mock {
            matchers: self.matchers,
            response: Responder::Error(message),
            max_n_matches: None,
            priority: 5,
            name: None,
            expectation_range: Times::Unbounded,
        }
    }
}

impl Mock {
    /// Whether every matcher accepts the request; evaluated in order, stopping
    /// at the first that does not.
    pub fn all_matchers_accept(&self, request: &crate::request::Request) -> (r: bool)
        ensures
            r == all_accept(self.matchers@, request@),
    {
        let mut i: usize = 0;
        while i < self.matchers.len()
            invariant
                i <= self.matchers@.len(),
                forall|j: int| 0 <= j < i ==> (#[trigger] self.matchers@[j]).spec_accepts(request@),
            decreases self.matchers@.len() - i,
        {
            if !self.matchers[i].matches(request) {
                return false;
            }
            i += 1;
        }
        true
    }
}

} // verus!
