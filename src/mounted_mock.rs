//! A registered mock and what happened to it since.
use vstd::prelude::*;
use crate::mock::{Mock, all_accept};
use crate::request::{Request, RequestView};
use crate::verification::VerificationReport;

verus! {

/// The abstract value of a mounted mock.
pub struct MountedView {
    pub spec: Mock,
    pub n_matched: u64,
    pub position: usize,
    pub matched: Seq<RequestView>,
    pub satisfied: bool,
}

/// A mock whose count can grow no further: it reached its cap, or the
/// counter's largest value.
pub open spec fn capped(m: MountedView) -> bool {
    m.spec.max_n_matches == Some(m.n_matched) || m.n_matched == u64::MAX
}

/// The mock after matching `q`: one more match, `q` recorded, and the
/// satisfaction flag raised if the new count is in the expected range.
pub open spec fn after_match(m: MountedView, q: RequestView) -> MountedView
    recommends
        m.n_matched < u64::MAX,
{
    MountedView {
        n_matched: (m.n_matched + 1) as u64,
        matched: m.matched.push(q),
        satisfied: m.satisfied || m.spec.expectation_range.spec_contains((m.n_matched + 1) as u64),
        ..m
    }
}

/// The report that verification of a mock gives.
pub open spec fn report_of(m: MountedView) -> VerificationReport {
    VerificationReport {
        mock_name: m.spec.name,
        expectation_range: m.spec.expectation_range,
        n_matched_requests: m.n_matched,
        position_in_set: m.position,
    }
}

/// A mock with its match counter, the requests it matched and whether its
/// expectation has been met.
#[derive(Debug)]
pub struct MountedMock {
    specification: Mock,
    n_matched_requests: u64,
    position_in_set: usize,
    matched_requests: Vec<Request>,
    satisfied: bool,
}

/// The views of a list of requests.
pub open spec fn request_views(v: Seq<Request>) -> Seq<RequestView> {
    v.map_values(|r: Request| r@)
}

impl View for MountedMock {
    type V = MountedView;

    closed spec fn view(&self) -> MountedView {
        MountedView {
            spec: self.specification,
            n_matched: self.n_matched_requests,
            position: self.position_in_set,
            matched: request_views(self.matched_requests@),
            satisfied: self.satisfied,
        }
    }
}

/// Copies of a list of requests.
pub fn copy_requests(v: &Vec<Request>) -> (r: Vec<Request>)
    ensures
        request_views(r@) == request_views(v@),
{
    let mut out: Vec<Request> = Vec::new();
    let mut i: usize = 0;
    while i < v.len()
        invariant
            i <= v@.len(),
            request_views(out@) == request_views(v@.subrange(0, i as int)),
        decreases v@.len() - i,
    {
        let c = v[i].duplicate();
        let ghost before = out@;
        out.push(c);
        proof {
            assert(request_views(out@) =~= request_views(before).push(c@));
            assert(v@.subrange(0, i + 1) =~= v@.subrange(0, i as int).push(v@[i as int]));
            assert(request_views(v@.subrange(0, i + 1)) =~= request_views(
                v@.subrange(0, i as int),
            ).push(v@[i as int]@));
        }
        i += 1;
    }
    proof {
        assert(v@.subrange(0, i as int) =~= v@);
    }
    out
}

impl MountedMock {
    pub fn new(specification: Mock, position_in_set: usize) -> (r: MountedMock)
        ensures
            r@ == (MountedView {
                spec: specification,
                n_matched: 0,
                position: position_in_set,
                matched: seq![],
                satisfied: false,
            }),
    {
        let r = MountedMock {
            specification,
            n_matched_requests: 0,
            position_in_set,
            matched_requests: Vec::new(),
            satisfied: false,
        };
        proof {
            assert(r@.matched =~= seq![]);
        }
        r
    }

    pub fn specification(&self) -> (r: &Mock)
        ensures
            *r == self@.spec,
    {
        &self.specification
    }

    /// Whether the mock may still count a match.
    pub fn can_match(&self) -> (r: bool)
        ensures
            r == !capped(self@),
    {
        !(self.specification.max_n_matches == Some(self.n_matched_requests)
            || self.n_matched_requests == u64::MAX)
    }

    /// Whether this mock would match the request now: it is not capped and
    /// every matcher accepts.
    pub fn would_match(&self, request: &Request) -> (r: bool)
        ensures
            r == (!capped(self@) && all_accept(self@.spec.matchers@, request@)),
    {
        self.can_match() && self.specification.all_matchers_accept(request)
    }

    /// Counts a match of `request` and records it.
    pub fn record_match(&mut self, request: Request)
        requires
            !capped(old(self)@),
        ensures
            final(self)@ == after_match(old(self)@, request@),
    {
        self.n_matched_requests = self.n_matched_requests + 1;
        let ghost before = self.matched_requests@;
        self.matched_requests.push(request);
        proof {
            assert(request_views(self.matched_requests@) =~= request_views(before).push(request@));
        }
        if self.specification.expectation_range.contains(self.n_matched_requests) {
            // The flag only ever goes from false to true.
            self.satisfied = true;
        }
    }

    /// Matches the request if it can: counts and records it on a match.
    pub fn matches(&mut self, request: &Request) -> (r: bool)
        ensures
            r == (!capped(old(self)@) && all_accept(old(self)@.spec.matchers@, request@)),
            r ==> final(self)@ == after_match(old(self)@, request@),
            !r ==> final(self)@ == old(self)@,
    {
        if self.would_match(request) {
            self.record_match(request.duplicate());
            true
        } else {
            false
        }
    }

    /// The report on this mock's expectation.
    pub fn verify(&self) -> (r: VerificationReport)
        ensures
            r == report_of(self@),
    {
        VerificationReport {
            mock_name: match &self.specification.name {
                Some(n) => Some(n.clone()),
                None => None,
            },
            expectation_range: self.specification.expectation_range,
            n_matched_requests: self.n_matched_requests,
            position_in_set: self.position_in_set,
        }
    }

    /// Copies of the requests this mock matched, in order.
    pub fn received_requests(&self) -> (r: Vec<Request>)
        ensures
            request_views(r@) == self@.matched,
    {
        copy_requests(&self.matched_requests)
    }

    /// Whether the expectation has been met at some point.
    pub fn is_satisfied(&self) -> (r: bool)
        ensures
            r == self@.satisfied,
    {
        self.satisfied
    }
}

} // verus!
