//! The set of mounted mocks: registration with stable identifiers, request
//! dispatch by priority and registration order, verification, reset.
use vstd::prelude::*;
use crate::mock::{Mock, Reply, all_accept, is_not_found, not_found, reply_of};
use crate::mounted_mock::{MountedMock, MountedView, after_match, capped, report_of, request_views};
use crate::request::{BodyPrintLimit, Request, RequestView};
use crate::verification::{VerificationOutcome, VerificationReport};

verus! {

/// Whether a mounted mock takes part in matching.
#[derive(Debug, PartialEq, Eq, Structural, Clone, Copy)]
pub enum MountedMockState {
    InScope,
    OutOfScope,
}

/// Identifies a mounted mock within one generation of its set.
#[derive(Debug, Clone, Copy)]
pub struct MockId {
    index: usize,
    generation: u64,
}

impl MockId {
    pub closed spec fn spec_index(self) -> usize {
        self.index
    }

    pub closed spec fn spec_generation(self) -> u64 {
        self.generation
    }
}

/// The entries of a set, in registration order.
pub type Entries = Seq<(MountedView, MountedMockState)>;

/// The abstract value of a mock set.
pub struct SetView {
    pub entries: Entries,
    pub generation: u64,
    pub limit: BodyPrintLimit,
}

/// Entry `i` may answer `q`: it is in scope, not capped, and all its
/// matchers accept.
pub open spec fn eligible(es: Entries, i: int, q: RequestView) -> bool {
    &&& es[i].1 == MountedMockState::InScope
    &&& !capped(es[i].0)
    &&& all_accept(es[i].0.spec.matchers@, q)
}

/// Entry `i` comes before entry `j` in the scan: a higher priority (a lower
/// number), or the same priority and an earlier registration.
pub open spec fn precedes(es: Entries, i: int, j: int) -> bool {
    es[i].0.spec.priority < es[j].0.spec.priority || (es[i].0.spec.priority
        == es[j].0.spec.priority && i < j)
}

/// Entry `i` is the first eligible entry in scan order.
pub open spec fn is_winner(es: Entries, q: RequestView, i: int) -> bool {
    &&& 0 <= i < es.len()
    &&& eligible(es, i, q)
    &&& forall|j: int| 0 <= j < es.len() && j != i && #[trigger] eligible(es, j, q) ==> precedes(es, i, j)
}

/// The entry that answers `q`, if any.
pub open spec fn winner(es: Entries, q: RequestView) -> Option<int> {
    if exists|i: int| is_winner(es, q, i) {
        Some(choose|i: int| is_winner(es, q, i))
    } else {
        None
    }
}

/// The entries after the set answers `q`, as `MountedMockSet::handle_request`
/// leaves them: the winner, if any, counts and records `q`.
pub open spec fn dispatched(es: Entries, q: RequestView) -> Entries {
    match winner(es, q) {
        Some(i) => es.update(i, (after_match(es[i].0, q), es[i].1)),
        None => es,
    }
}

/// The reports of the entries in scope whose expectation is not met, in
/// registration order.
pub open spec fn failed_reports(es: Entries) -> Seq<VerificationReport>
    decreases es.len(),
{
    if es.len() == 0 {
        seq![]
    } else {
        let rest = failed_reports(es.drop_last());
        let e = es.last();
        if e.1 == MountedMockState::InScope && !report_of(e.0).spec_is_satisfied() {
            rest.push(report_of(e.0))
        } else {
            rest
        }
    }
}

/// Every entry's counter equals the number of requests it recorded and
/// never passes its cap, and its display position is its index.
pub open spec fn entries_wf(es: Entries) -> bool {
    forall|i: int|
        0 <= i < es.len() ==> {
            &&& (#[trigger] es[i]).0.n_matched == es[i].0.matched.len()
            &&& es[i].0.position == i
            &&& (es[i].0.spec.max_n_matches matches Some(k) ==> es[i].0.n_matched <= k)
        }
}

/// The mocks of one server.
#[derive(Debug)]
pub struct MountedMockSet {
    mocks: Vec<(MountedMock, MountedMockState)>,
    generation: u64,
    body_print_limit: BodyPrintLimit,
}

impl View for MountedMockSet {
    type V = SetView;

    closed spec fn view(&self) -> SetView {
        SetView {
            entries: self.mocks@.map_values(
                |e: (MountedMock, MountedMockState)| (e.0@, e.1),
            ),
            generation: self.generation,
            limit: self.body_print_limit,
        }
    }
}

/// A winner comes first among the eligible entries, so there is one at most.
pub proof fn lemma_winner_unique(es: Entries, q: RequestView, i: int, j: int)
    requires
        is_winner(es, q, i),
        is_winner(es, q, j),
    ensures
        i == j,
{
    if i != j {
        assert(precedes(es, i, j));
        assert(precedes(es, j, i));
    }
}

/// `winner` names the winning entry whenever there is one.
pub proof fn lemma_winner_is_winner(es: Entries, q: RequestView, i: int)
    requires
        is_winner(es, q, i),
    ensures
        winner(es, q) == Some(i),
{
    let k = choose|k: int| is_winner(es, q, k);
    lemma_winner_unique(es, q, i, k);
}

impl MountedMockSet {
    pub open spec fn wf(&self) -> bool {
        entries_wf(self@.entries)
    }

    /// Whether `id` names a mock of the current generation.
    pub open spec fn valid_id(&self, id: MockId) -> bool {
        id.spec_generation() == self@.generation && id.spec_index() < self@.entries.len()
    }

    pub fn new(body_print_limit: BodyPrintLimit) -> (r: MountedMockSet)
        ensures
            r@.entries.len() == 0,
            r@.generation == 0,
            r@.limit == body_print_limit,
            r.wf(),
    {
        let r = MountedMockSet { mocks: Vec::new(), generation: 0, body_print_limit };
        proof {
            assert(r@.entries =~= Seq::<(MountedView, MountedMockState)>::empty());
        }
        r
    }

    pub fn generation(&self) -> (r: u64)
        ensures
            r == self@.generation,
    {
        self.generation
    }

    /// The limit on printed bodies the set was made with.
    pub fn body_print_limit(&self) -> (r: BodyPrintLimit)
        ensures
            r == self@.limit,
    {
        self.body_print_limit
    }

    pub fn len(&self) -> (r: usize)
        ensures
            r == self@.entries.len(),
    {
        self.mocks.len()
    }

    /// Finds the mock that answers `request`, counts and records the match
    /// on it, and gives its answer; with no such mock, the answer is a 404.
    pub fn handle_request(&mut self, request: Request) -> (r: Reply)
        requires
            old(self).wf(),
        ensures
            final(self).wf(),
            final(self)@.generation == old(self)@.generation,
            final(self)@.limit == old(self)@.limit,
            final(self)@.entries == dispatched(old(self)@.entries, request@),
            match winner(old(self)@.entries, request@) {
                Some(i) => reply_of(old(self)@.entries[i].0.spec.response, r),
                None => is_not_found(r),
            },
    {
        let ghost es = self@.entries;
        let mut best: Option<usize> = None;
        let mut i: usize = 0;
        while i < self.mocks.len()
            invariant
                i <= es.len(),
                es == self@.entries,
                best is None ==> forall|j: int| 0 <= j < i ==> !#[trigger] eligible(es, j, request@),
                best matches Some(b) ==> {
                    &&& b < i
                    &&& eligible(es, b as int, request@)
                    &&& forall|j: int|
                        0 <= j < i && j != b && #[trigger] eligible(es, j, request@) ==> precedes(
                            es,
                            b as int,
                            j,
                        )
                },
            decreases es.len() - i,
        {
            let entry = &self.mocks[i];
            proof {
                assert(es[i as int] == (entry.0@, entry.1));
            }
            if entry.1 == MountedMockState::InScope && entry.0.would_match(&request) {
                match best {
                    None => {
                        best = Some(i);
                    },
                    Some(b) => {
                        if entry.0.specification().priority < self.mocks[b].0.specification().priority {
                            proof {
                                assert(es[b as int] == (self.mocks@[b as int].0@, self.mocks@[b as int].1));
                            }
                            best = Some(i);
                        } else {
                            proof {
                                assert(es[b as int] == (self.mocks@[b as int].0@, self.mocks@[b as int].1));
                            }
                        }
                    },
                }
            }
            i += 1;
        }
        match best {
            None => {
                proof {
                    if exists|k: int| is_winner(es, request@, k) {
                        let k = choose|k: int| is_winner(es, request@, k);
                        assert(eligible(es, k, request@));
                    }
                }
                not_found()
            },
            Some(b) => {
                proof {
                    lemma_winner_is_winner(es, request@, b as int);
                }
                let (mut m, st) = self.mocks.remove(b);
                proof {
                    assert(es[b as int] == (m@, st));
                }
                let reply = m.specification().response.reply();
                m.record_match(request);
                let ghost new_entry = (m@, st);
                self.mocks.insert(b, (m, st));
                proof {
                    assert(self@.entries =~= es.update(b as int, new_entry));
                }
                reply
            },
        }
    }

    /// Adds a mock, in scope, at the end; its display position is its index.
    pub fn register(&mut self, mock: Mock) -> (id: MockId)
        requires
            old(self).wf(),
        ensures
            final(self).wf(),
            final(self)@.generation == old(self)@.generation,
            final(self)@.limit == old(self)@.limit,
            final(self)@.entries == old(self)@.entries.push(
                (
                    MountedView {
                        spec: mock,
                        n_matched: 0,
                        position: old(self)@.entries.len() as usize,
                        matched: seq![],
                        satisfied: false,
                    },
                    MountedMockState::InScope,
                ),
            ),
            id.spec_index() == old(self)@.entries.len(),
            id.spec_generation() == old(self)@.generation,
            final(self).valid_id(id),
    {
        let n = self.mocks.len();
        let m = MountedMock::new(mock, n);
        self.mocks.push((m, MountedMockState::InScope));
        proof {
            assert(self@.entries =~= old(self)@.entries.push((m@, MountedMockState::InScope)));
        }
        MockId { index: n, generation: self.generation }
    }

    /// Drops every mock and starts a new generation: earlier ids are no
    /// longer valid.
    pub fn reset(&mut self)
        requires
            old(self)@.generation < u64::MAX,
        ensures
            final(self).wf(),
            final(self)@.entries.len() == 0,
            final(self)@.generation == old(self)@.generation + 1,
            final(self)@.limit == old(self)@.limit,
    {
        self.mocks = Vec::new();
        self.generation = self.generation + 1;
        proof {
            assert(self@.entries =~= Seq::<(MountedView, MountedMockState)>::empty());
        }
    }

    /// Whether `id` names a mock of the current generation.
    pub fn is_valid_id(&self, id: MockId) -> (r: bool)
        ensures
            r == self.valid_id(id),
    {
        id.generation == self.generation && id.index < self.mocks.len()
    }

    /// Takes a mock out of matching; it keeps its place, so other ids stay
    /// valid.
    pub fn deactivate(&mut self, id: MockId)
        requires
            old(self).wf(),
            old(self).valid_id(id),
        ensures
            final(self).wf(),
            final(self)@.generation == old(self)@.generation,
            final(self)@.limit == old(self)@.limit,
            final(self)@.entries == old(self)@.entries.update(
                id.spec_index() as int,
                (old(self)@.entries[id.spec_index() as int].0, MountedMockState::OutOfScope),
            ),
    {
        let (m, _) = self.mocks.remove(id.index);
        let ghost e = (m@, MountedMockState::OutOfScope);
        self.mocks.insert(id.index, (m, MountedMockState::OutOfScope));
        proof {
            assert(self@.entries =~= old(self)@.entries.update(id.index as int, e));
        }
    }

    /// The report on one mock.
    pub fn verify(&self, id: MockId) -> (r: VerificationReport)
        requires
            self.valid_id(id),
        ensures
            r == report_of(self@.entries[id.spec_index() as int].0),
    {
        self.mocks[id.index].0.verify()
    }

    /// Whether one mock is in scope.
    pub fn state(&self, id: MockId) -> (r: MountedMockState)
        requires
            self.valid_id(id),
        ensures
            r == self@.entries[id.spec_index() as int].1,
    {
        self.mocks[id.index].1
    }

    /// Whether one mock's expectation has been met at some point.
    pub fn is_satisfied(&self, id: MockId) -> (r: bool)
        requires
            self.valid_id(id),
        ensures
            r == self@.entries[id.spec_index() as int].0.satisfied,
    {
        self.mocks[id.index].0.is_satisfied()
    }

    /// Copies of the requests one mock matched.
    pub fn received_requests(&self, id: MockId) -> (r: Vec<Request>)
        requires
            self.valid_id(id),
        ensures
            request_views(r@) == self@.entries[id.spec_index() as int].0.matched,
    {
        self.mocks[id.index].0.received_requests()
    }

    /// Verifies every mock in scope: success, or the reports of those whose
    /// expectation is not met.
    pub fn verify_all(&self) -> (r: VerificationOutcome)
        ensures
            failed_reports(self@.entries).len() == 0 ==> r is Success,
            failed_reports(self@.entries).len() > 0 ==> (r matches VerificationOutcome::Failure(v)
                && v@ == failed_reports(self@.entries)),
    {
        let ghost es = self@.entries;
        let mut failed: Vec<VerificationReport> = Vec::new();
        let mut i: usize = 0;
        while i < self.mocks.len()
            invariant
                i <= es.len(),
                es == self@.entries,
                failed@ == failed_reports(es.take(i as int)),
            decreases es.len() - i,
        {
            proof {
                assert(es.take(i + 1).drop_last() =~= es.take(i as int));
                assert(es[i as int] == (self.mocks@[i as int].0@, self.mocks@[i as int].1));
            }
            if self.mocks[i].1 == MountedMockState::InScope {
                let report = self.mocks[i].0.verify();
                if !report.is_satisfied() {
                    failed.push(report);
                }
            }
            i += 1;
        }
        proof {
            assert(es.take(i as int) =~= es);
        }
        if failed.len() == 0 {
            VerificationOutcome::Success
        } else {
            VerificationOutcome::Failure(failed)
        }
    }
}

} // verus!
