//! Properties of dispatch, verification and diagnostics, proved over the
//! abstract values that the operations' contracts speak of.
use vstd::prelude::*;
use crate::mock_set::{Entries, dispatched, entries_wf, eligible, failed_reports, is_winner, precedes, winner};
use crate::mounted_mock::capped;
use crate::request::{BodyPrintLimit, RequestView, request_text};
use crate::server_state::{report_lines, request_list, verification_message, received_text};
use crate::text::is_infix;
use crate::verification::{VerificationReport, report_text};

verus! {

/// With no mock registered, no mock answers: every request gets the 404.
pub proof fn lemma_no_mocks_no_winner(es: Entries, q: RequestView)
    requires
        es.len() == 0,
    ensures
        winner(es, q) is None,
{
}

/// The answering mock is the first eligible one in the order of priority,
/// then registration: every other eligible mock has a lower priority, or the
/// same priority and a later registration.
pub proof fn lemma_first_match_wins(es: Entries, q: RequestView)
    ensures
        winner(es, q) matches Some(i) ==> {
            &&& eligible(es, i, q)
            &&& forall|j: int|
                0 <= j < es.len() && j != i && #[trigger] eligible(es, j, q) ==> es[i].0.spec.priority
                    < es[j].0.spec.priority || (es[i].0.spec.priority == es[j].0.spec.priority && i
                    < j)
        },
        winner(es, q) is None ==> forall|j: int| 0 <= j < es.len() ==> !#[trigger] eligible(es, j, q),
{
    if winner(es, q) is None {
        assert forall|j: int| 0 <= j < es.len() implies !#[trigger] eligible(es, j, q) by {
            if eligible(es, j, q) {
                // The eligible entry that comes first in scan order is a winner.
                lemma_some_winner(es, q, j);
            }
        }
    }
}

/// Among the eligible entries there is one that precedes all others.
proof fn lemma_some_winner(es: Entries, q: RequestView, j: int)
    requires
        0 <= j < es.len(),
        eligible(es, j, q),
    ensures
        exists|i: int| is_winner(es, q, i),
    decreases es.len(),
{
    let n = es.len() - 1;
    let front = es.drop_last();
    assert forall|x: int| 0 <= x < n implies #[trigger] eligible(front, x, q) == eligible(es, x, q)
        && front[x] == es[x] by {}
    if exists|m: int| 0 <= m < n && #[trigger] eligible(front, m, q) {
        let m = choose|m: int| 0 <= m < n && #[trigger] eligible(front, m, q);
        lemma_some_winner(front, q, m);
        let w = choose|w: int| is_winner(front, q, w);
        assert(front[w] == es[w]);
        if eligible(es, n, q) && es[n].0.spec.priority < es[w].0.spec.priority {
            assert forall|x: int|
                0 <= x < es.len() && x != n && #[trigger] eligible(es, x, q) implies precedes(
                es,
                n,
                x,
            ) by {
                assert(eligible(front, x, q));
                if x != w {
                    assert(precedes(front, w, x));
                }
            }
            assert(is_winner(es, q, n));
        } else {
            assert forall|x: int|
                0 <= x < es.len() && x != w && #[trigger] eligible(es, x, q) implies precedes(
                es,
                w,
                x,
            ) by {
                if x < n {
                    assert(eligible(front, x, q));
                    assert(precedes(front, w, x));
                }
            }
            assert(is_winner(es, q, w));
        }
    } else {
        if j < n {
            assert(eligible(front, j, q));
        }
        assert forall|x: int|
            0 <= x < es.len() && x != n && #[trigger] eligible(es, x, q) implies precedes(
            es,
            n,
            x,
        ) by {
            assert(eligible(front, x, q));
        }
        assert(is_winner(es, q, n));
    }
}

/// A mock that has matched as many requests as its cap allows is not
/// eligible, so it answers no further request.
pub proof fn lemma_cap_exhaustion(es: Entries, q: RequestView, i: int, k: u64)
    requires
        0 <= i < es.len(),
        es[i].0.spec.max_n_matches == Some(k),
        es[i].0.n_matched == k,
    ensures
        !eligible(es, i, q),
        winner(es, q) != Some(i),
        dispatched(es, q)[i] == es[i],
{
    if winner(es, q) == Some(i) {
        let w = choose|w: int| is_winner(es, q, w);
        assert(is_winner(es, q, w));
    }
}

/// A count never passes its cap: if no count is above its cap before a
/// request, none is after.
pub proof fn lemma_cap_never_exceeded(es: Entries, q: RequestView)
    requires
        forall|i: int|
            0 <= i < es.len() ==> ((#[trigger] es[i]).0.spec.max_n_matches matches Some(k)
                ==> es[i].0.n_matched <= k),
    ensures
        forall|i: int|
            0 <= i < es.len() ==> ((#[trigger] dispatched(es, q)[i]).0.spec.max_n_matches matches Some(
                k,
            ) ==> dispatched(es, q)[i].0.n_matched <= k),
{
    if winner(es, q) is Some {
        let w = choose|w: int| is_winner(es, q, w);
        assert(is_winner(es, q, w));
    }
}

/// Each counter equals the number of requests its mock answered: the winner
/// counts one more and records the request, every other entry is unchanged,
/// and counters stay equal to the number of recorded requests.
pub proof fn lemma_counter_accuracy(es: Entries, q: RequestView)
    requires
        entries_wf(es),
    ensures
        entries_wf(dispatched(es, q)),
        dispatched(es, q).len() == es.len(),
        forall|i: int|
            0 <= i < es.len() ==> (#[trigger] dispatched(es, q)[i]).0.n_matched == if winner(es, q)
                == Some(i) {
                es[i].0.n_matched + 1
            } else {
                es[i].0.n_matched as int
            },
{
    if winner(es, q) is Some {
        let w = choose|w: int| is_winner(es, q, w);
        assert(is_winner(es, q, w));
        assert(!capped(es[w].0));
    }
}

/// In a well-formed set, an entry whose counter is below the counter's
/// largest value is capped exactly when its cap is set and reached.
pub proof fn lemma_capped_is_cap_reached(es: Entries, i: int)
    requires
        entries_wf(es),
        0 <= i < es.len(),
        es[i].0.n_matched < u64::MAX,
    ensures
        capped(es[i].0) <==> (es[i].0.spec.max_n_matches matches Some(k) && es[i].0.n_matched >= k),
{
}

/// After a reset no mock is left, so verification succeeds.
pub proof fn lemma_reset_verifies(es: Entries)
    requires
        es.len() == 0,
    ensures
        failed_reports(es).len() == 0,
{
}

/// Once raised, a mock's satisfaction flag stays raised; and it is raised
/// when the mock's new count enters the expected range.
pub proof fn lemma_satisfaction_flag(es: Entries, q: RequestView, i: int)
    requires
        0 <= i < es.len(),
    ensures
        es[i].0.satisfied ==> dispatched(es, q)[i].0.satisfied,
        winner(es, q) == Some(i) && es[i].0.spec.expectation_range.spec_contains(
            (es[i].0.n_matched + 1) as u64,
        ) ==> dispatched(es, q)[i].0.satisfied,
{
}

proof fn lemma_infix_middle<T>(a: Seq<T>, t: Seq<T>, b: Seq<T>)
    ensures
        is_infix(t, a + t + b),
{
    assert((a + t + b).subrange(a.len() as int, (a.len() + t.len()) as int) =~= t);
}

proof fn lemma_infix_grow<T>(t: Seq<T>, s: Seq<T>, a: Seq<T>, b: Seq<T>)
    requires
        is_infix(t, s),
    ensures
        is_infix(t, a + s + b),
{
    let i = choose|i: int|
        0 <= i && i + t.len() <= s.len() && #[trigger] s.subrange(i, i + t.len()) == t;
    assert((a + s + b).subrange(a.len() + i, a.len() + i + t.len()) =~= s.subrange(i, i + t.len()));
}

proof fn lemma_report_lines_hold(rs: Seq<VerificationReport>, k: int)
    requires
        0 <= k < rs.len(),
    ensures
        is_infix(report_text(rs[k]), report_lines(rs)),
    decreases rs.len(),
{
    if k == rs.len() - 1 {
        lemma_infix_middle(report_lines(rs.drop_last()) + "- "@, report_text(rs[k]), "\n"@);
        assert(report_lines(rs) =~= report_lines(rs.drop_last()) + "- "@ + report_text(rs[k])
            + "\n"@);
    } else {
        lemma_report_lines_hold(rs.drop_last(), k);
        lemma_infix_grow(
            report_text(rs[k]),
            report_lines(rs.drop_last()),
            seq![],
            "- "@ + report_text(rs.last()) + "\n"@,
        );
        assert(report_lines(rs) =~= Seq::<char>::empty() + report_lines(rs.drop_last()) + (
        "- "@ + report_text(rs.last()) + "\n"@));
    }
}

proof fn lemma_request_list_holds(rs: Seq<RequestView>, limit: BodyPrintLimit, k: int)
    requires
        0 <= k < rs.len(),
    ensures
        is_infix(request_text(rs[k], limit), request_list(rs, limit)),
    decreases rs.len(),
{
    let tail = "- Request #"@ + crate::text::decimal(rs.len()) + "\n\t"@;
    if k == rs.len() - 1 {
        lemma_infix_middle(
            request_list(rs.drop_last(), limit) + tail,
            request_text(rs[k], limit),
            seq![],
        );
        assert(request_list(rs, limit) =~= request_list(rs.drop_last(), limit) + tail
            + request_text(rs[k], limit) + Seq::<char>::empty());
    } else {
        lemma_request_list_holds(rs.drop_last(), limit, k);
        lemma_infix_grow(
            request_text(rs[k], limit),
            request_list(rs.drop_last(), limit),
            seq![],
            tail + request_text(rs.last(), limit),
        );
        assert(request_list(rs, limit) =~= Seq::<char>::empty() + request_list(
            rs.drop_last(),
            limit,
        ) + (tail + request_text(rs.last(), limit)));
    }
}

/// The diagnostic of a failed verification holds the message of every
/// failed report, and, when requests were recorded, the rendering of every
/// one of them.
pub proof fn lemma_diagnostic_fidelity(
    failed: Seq<VerificationReport>,
    received: Option<Seq<RequestView>>,
    limit: BodyPrintLimit,
)
    ensures
        forall|k: int|
            0 <= k < failed.len() ==> is_infix(
                report_text(#[trigger] failed[k]),
                verification_message(failed, received, limit),
            ),
        received matches Some(rs) ==> forall|k: int|
            0 <= k < rs.len() ==> is_infix(
                request_text(#[trigger] rs[k], limit),
                verification_message(failed, received, limit),
            ),
{
    let head = "Verifications failed:\n"@;
    let rest = "\n"@ + received_text(received, limit);
    assert forall|k: int| 0 <= k < failed.len() implies is_infix(
        report_text(#[trigger] failed[k]),
        verification_message(failed, received, limit),
    ) by {
        lemma_report_lines_hold(failed, k);
        lemma_infix_grow(report_text(failed[k]), report_lines(failed), head, rest);
        assert(verification_message(failed, received, limit) =~= head + report_lines(failed)
            + rest);
    }
    if received is Some {
        let rs = received->0;
        let front = head + report_lines(failed) + "\n"@ + "Received requests:\n"@;
        assert forall|k: int| 0 <= k < rs.len() implies is_infix(
            request_text(#[trigger] rs[k], limit),
            verification_message(failed, received, limit),
        ) by {
            lemma_request_list_holds(rs, limit, k);
            lemma_infix_grow(request_text(rs[k], limit), request_list(rs, limit), front, seq![]);
            assert(verification_message(failed, received, limit) =~= front + request_list(rs, limit)
                + Seq::<char>::empty());
        }
    }
}

} // verus!
