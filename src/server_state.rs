//! The state a server shares between its connections: the mock set, the
//! recorded requests, and the composition of verification diagnostics.
use vstd::prelude::*;
use crate::mock::{Mock, Reply, is_not_found, reply_of};
use crate::mock_set::{MockId, MountedMockSet, MountedMockState, SetView, dispatched, failed_reports, winner};
use crate::mounted_mock::{MountedView, copy_requests, report_of, request_views};
use crate::request::{BodyPrintLimit, Request, RequestView, request_text};
use crate::text::{decimal, push_decimal, push_str, string_of};
use crate::verification::{VerificationOutcome, VerificationReport, report_text};

verus! {

/// One line per failed report, each as `- <message>`.
pub open spec fn report_lines(rs: Seq<VerificationReport>) -> Seq<char>
    decreases rs.len(),
{
    if rs.len() == 0 {
        seq![]
    } else {
        report_lines(rs.drop_last()) + "- "@ + report_text(rs.last()) + "\n"@
    }
}

/// The recorded requests, numbered from 1.
pub open spec fn request_list(rs: Seq<RequestView>, limit: BodyPrintLimit) -> Seq<char>
    decreases rs.len(),
{
    if rs.len() == 0 {
        seq![]
    } else {
        request_list(rs.drop_last(), limit) + "- Request #"@ + decimal(rs.len()) + "\n\t"@
            + request_text(rs.last(), limit)
    }
}

/// What diagnostics say about the received requests.
pub open spec fn received_text(received: Option<Seq<RequestView>>, limit: BodyPrintLimit) -> Seq<
    char,
> {
    match received {
        None => "Enable request recording on the mock server to get the list of incoming requests as part of the panic message."@,
        Some(rs) => if rs.len() == 0 {
            "The server did not receive any request."@
        } else {
            "Received requests:\n"@ + request_list(rs, limit)
        },
    }
}

/// The diagnostic of a failed verification of every mock.
pub open spec fn verification_message(
    failed: Seq<VerificationReport>,
    received: Option<Seq<RequestView>>,
    limit: BodyPrintLimit,
) -> Seq<char> {
    "Verifications failed:\n"@ + report_lines(failed) + "\n"@ + received_text(received, limit)
}

/// The diagnostic of a failed verification of one scoped mock.
pub open spec fn scoped_message(
    report: VerificationReport,
    received: Option<Seq<RequestView>>,
    limit: BodyPrintLimit,
) -> Seq<char> {
    "Verification failed for a scoped mock:\n"@ + "- "@ + report_text(report) + "\n"@ + "\n"@
        + received_text(received, limit)
}

/// The abstract value of a server's state.
pub struct StateView {
    pub set: SetView,
    pub received: Option<Seq<RequestView>>,
    pub limit: BodyPrintLimit,
}

/// The mock set, the recording of every request (when enabled) and the
/// limit on printed bodies.
#[derive(Debug)]
pub struct MockServerState {
    mock_set: MountedMockSet,
    received_requests: Option<Vec<Request>>,
    body_print_limit: BodyPrintLimit,
}

impl View for MockServerState {
    type V = StateView;

    closed spec fn view(&self) -> StateView {
        StateView {
            set: self.mock_set@,
            received: match self.received_requests {
                Some(v) => Some(request_views(v@)),
                None => None,
            },
            limit: self.body_print_limit,
        }
    }
}

fn push_report_lines(out: &mut Vec<char>, rs: &Vec<VerificationReport>)
    ensures
        final(out)@ == old(out)@ + report_lines(rs@),
{
    let ghost start = out@;
    let mut i: usize = 0;
    while i < rs.len()
        invariant
            i <= rs@.len(),
            out@ == start + report_lines(rs@.take(i as int)),
        decreases rs@.len() - i,
    {
        proof {
            assert(rs@.take(i + 1).drop_last() =~= rs@.take(i as int));
        }
        push_str(out, "- ");
        rs[i].push_error_message(out);
        push_str(out, "\n");
        i += 1;
        proof {
            assert(out@ =~= start + report_lines(rs@.take(i as int)));
        }
    }
    proof {
        assert(rs@.take(i as int) =~= rs@);
    }
}

fn push_received_text(out: &mut Vec<char>, received: &Option<Vec<Request>>, limit: BodyPrintLimit)
    ensures
        final(out)@ == old(out)@ + received_text(
            match received {
                Some(v) => Some(request_views(v@)),
                None => None,
            },
            limit,
        ),
{
    let ghost start = out@;
    match received {
        None => {
            push_str(
                out,
                "Enable request recording on the mock server to get the list of incoming requests as part of the panic message.",
            );
        },
        Some(rs) => {
            if rs.len() == 0 {
                push_str(out, "The server did not receive any request.");
            } else {
                push_str(out, "Received requests:\n");
                let ghost head = out@;
                let ghost vs = request_views(rs@);
                let mut i: usize = 0;
                while i < rs.len()
                    invariant
                        i <= rs@.len(),
                        vs == request_views(rs@),
                        out@ == head + request_list(vs.take(i as int), limit),
                    decreases rs@.len() - i,
                {
                    proof {
                        assert(vs.take(i + 1).drop_last() =~= vs.take(i as int));
                    }
                    push_str(out, "- Request #");
                    push_decimal(out, (i + 1) as u64);
                    push_str(out, "\n\t");
                    rs[i].print_with_limit(out, limit);
                    i += 1;
                    proof {
                        assert(out@ =~= head + request_list(vs.take(i as int), limit));
                    }
                }
                proof {
                    assert(vs.take(i as int) =~= vs);
                }
            }
        },
    }
}

impl MockServerState {
    pub open spec fn wf(&self) -> bool {
        crate::mock_set::entries_wf(self@.set.entries)
    }

    /// Whether `id` names a mock of the current generation.
    pub open spec fn valid_id(&self, id: MockId) -> bool {
        id.spec_generation() == self@.set.generation && id.spec_index() < self@.set.entries.len()
    }

    /// An empty state; `recording` says whether requests are recorded.
    pub fn new(recording: bool, body_print_limit: BodyPrintLimit) -> (r: MockServerState)
        ensures
            r.wf(),
            r@.set.entries.len() == 0,
            r@.set.generation == 0,
            r@.received == if recording {
                Some(Seq::<RequestView>::empty())
            } else {
                None
            },
            r@.limit == body_print_limit,
    {
        let r = MockServerState {
            mock_set: MountedMockSet::new(body_print_limit),
            received_requests: if recording {
                Some(Vec::new())
            } else {
                None
            },
            body_print_limit,
        };
        proof {
            if recording {
                assert(request_views(Seq::<Request>::empty()) =~= Seq::<RequestView>::empty());
            }
        }
        r
    }

    pub fn body_print_limit(&self) -> (r: BodyPrintLimit)
        ensures
            r == self@.limit,
    {
        self.body_print_limit
    }

    pub fn generation(&self) -> (r: u64)
        ensures
            r == self@.set.generation,
    {
        self.mock_set.generation()
    }

    /// Records the request when recording is on, then lets the mock set
    /// answer it.
    pub fn handle_request(&mut self, request: Request) -> (r: Reply)
        requires
            old(self).wf(),
        ensures
            final(self).wf(),
            final(self)@.limit == old(self)@.limit,
            final(self)@.set.generation == old(self)@.set.generation,
            final(self)@.received == match old(self)@.received {
                Some(rs) => Some(rs.push(request@)),
                None => None,
            },
            final(self)@.set.entries == dispatched(old(self)@.set.entries, request@),
            match winner(old(self)@.set.entries, request@) {
                Some(i) => reply_of(old(self)@.set.entries[i].0.spec.response, r),
                None => is_not_found(r),
            },
    {
        match &mut self.received_requests {
            Some(v) => {
                let ghost before = v@;
                v.push(request.duplicate());
                proof {
                    assert(request_views(v@) =~= request_views(before).push(request@));
                }
            },
            None => {},
        }
        self.mock_set.handle_request(request)
    }

    /// Registers a mock.
    pub fn register(&mut self, mock: Mock) -> (id: MockId)
        requires
            old(self).wf(),
        ensures
            final(self).wf(),
            final(self)@.received == old(self)@.received,
            final(self)@.limit == old(self)@.limit,
            final(self)@.set.generation == old(self)@.set.generation,
            final(self)@.set.entries == old(self)@.set.entries.push(
                (
                    MountedView {
                        spec: mock,
                        n_matched: 0,
                        position: old(self)@.set.entries.len() as usize,
                        matched: seq![],
                        satisfied: false,
                    },
                    MountedMockState::InScope,
                ),
            ),
            id.spec_index() == old(self)@.set.entries.len(),
            final(self).valid_id(id),
    {
        self.mock_set.register(mock)
    }

    /// Drops every mock and every recorded request.
    pub fn reset(&mut self)
        requires
            old(self)@.set.generation < u64::MAX,
        ensures
            final(self).wf(),
            final(self)@.set.entries.len() == 0,
            final(self)@.set.generation == old(self)@.set.generation + 1,
            final(self)@.limit == old(self)@.limit,
            final(self)@.received == match old(self)@.received {
                Some(_) => Some(Seq::<RequestView>::empty()),
                None => None,
            },
    {
        self.mock_set.reset();
        match &mut self.received_requests {
            Some(v) => {
                v.clear();
                proof {
                    assert(request_views(v@) =~= Seq::<RequestView>::empty());
                }
            },
            None => {},
        }
    }

    /// Verifies every mock in scope.
    pub fn verify(&self) -> (r: VerificationOutcome)
        ensures
            failed_reports(self@.set.entries).len() == 0 ==> r is Success,
            failed_reports(self@.set.entries).len() > 0 ==> (r matches VerificationOutcome::Failure(
                v,
            ) && v@ == failed_reports(self@.set.entries)),
    {
        self.mock_set.verify_all()
    }

    /// The diagnostic of a failed verification of every mock, or `None`
    /// when every mock in scope met its expectation.
    pub fn verification_failure(&self) -> (r: Option<String>)
        ensures
            r is None <==> failed_reports(self@.set.entries).len() == 0,
            r is Some ==> r->0@ == verification_message(
                failed_reports(self@.set.entries),
                self@.received,
                self@.limit,
            ),
    {
        match self.mock_set.verify_all() {
            VerificationOutcome::Success => None,
            VerificationOutcome::Failure(failed) => {
                let mut out: Vec<char> = Vec::new();
                push_str(&mut out, "Verifications failed:\n");
                push_report_lines(&mut out, &failed);
                push_str(&mut out, "\n");
                push_received_text(&mut out, &self.received_requests, self.body_print_limit);
                proof {
                    assert(out@ =~= verification_message(
                        failed_reports(self@.set.entries),
                        self@.received,
                        self@.limit,
                    ));
                }
                Some(string_of(&out))
            },
        }
    }

    /// Verifies one scoped mock as its guard goes: when its expectation is
    /// met it leaves matching and the result is `None`; otherwise the state
    /// is unchanged and the result is the diagnostic.
    pub fn verify_scoped(&mut self, id: MockId) -> (r: Option<String>)
        requires
            old(self).wf(),
            old(self).valid_id(id),
        ensures
            final(self).wf(),
            final(self)@.received == old(self)@.received,
            final(self)@.limit == old(self)@.limit,
            final(self)@.set.generation == old(self)@.set.generation,
            ({
                let i = id.spec_index() as int;
                let report = report_of(old(self)@.set.entries[i].0);
                if report.spec_is_satisfied() {
                    &&& r is None
                    &&& final(self)@.set.entries == old(self)@.set.entries.update(
                        i,
                        (old(self)@.set.entries[i].0, MountedMockState::OutOfScope),
                    )
                } else {
                    &&& r is Some
                    &&& r->0@ == scoped_message(report, old(self)@.received, old(self)@.limit)
                    &&& final(self)@.set.entries == old(self)@.set.entries
                }
            }),
    {
        let report = self.mock_set.verify(id);
        if report.is_satisfied() {
            self.mock_set.deactivate(id);
            None
        } else {
            let mut out: Vec<char> = Vec::new();
            push_str(&mut out, "Verification failed for a scoped mock:\n");
            push_str(&mut out, "- ");
            report.push_error_message(&mut out);
            push_str(&mut out, "\n");
            push_str(&mut out, "\n");
            push_received_text(&mut out, &self.received_requests, self.body_print_limit);
            proof {
                assert(out@ =~= scoped_message(report, self@.received, self@.limit));
            }
            Some(string_of(&out))
        }
    }

    /// Whether `id` names a mock of the current generation.
    pub fn is_valid_id(&self, id: MockId) -> (r: bool)
        ensures
            r == self.valid_id(id),
    {
        self.mock_set.is_valid_id(id)
    }

    /// Whether one mock's expectation has been met at some point.
    pub fn is_satisfied(&self, id: MockId) -> (r: bool)
        requires
            self.valid_id(id),
        ensures
            r == self@.set.entries[id.spec_index() as int].0.satisfied,
    {
        self.mock_set.is_satisfied(id)
    }

    /// Copies of the requests one mock matched, in order.
    pub fn mock_received_requests(&self, id: MockId) -> (r: Vec<Request>)
        requires
            self.valid_id(id),
        ensures
            request_views(r@) == self@.set.entries[id.spec_index() as int].0.matched,
    {
        self.mock_set.received_requests(id)
    }

    /// Copies of every recorded request, or `None` when recording is off.
    pub fn received_requests(&self) -> (r: Option<Vec<Request>>)
        ensures
            match r {
                Some(v) => self@.received == Some(request_views(v@)),
                None => self@.received is None,
            },
    {
        match &self.received_requests {
            Some(v) => Some(copy_requests(v)),
            None => None,
        }
    }
}

} // verus!
