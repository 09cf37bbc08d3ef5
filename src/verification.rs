//! What verification of a mock finds, and how it is reported.
use vstd::prelude::*;
use crate::text::{decimal, push_decimal, push_str, string_of};
use crate::times::Times;

verus! {

/// How one mock fared against its expectation.
#[derive(Debug)]
pub struct VerificationReport {
    /// The name the user gave the mock.
    pub mock_name: Option<String>,
    /// What the user expected.
    pub expectation_range: Times,
    /// How many requests the mock matched.
    pub n_matched_requests: u64,
    /// Where the mock was registered in its set: 0 for the first.
    pub position_in_set: usize,
}

/// The name of a mock in diagnostics: its own name, or `Mock #<position>`.
pub open spec fn mock_label(name: Option<String>, position: usize) -> Seq<char> {
    match name {
        Some(n) => n@,
        None => "Mock #"@ + decimal(position as nat),
    }
}

/// The error message of a report.
pub open spec fn report_text(r: VerificationReport) -> Seq<char> {
    mock_label(r.mock_name, r.position_in_set) + ".\n\tExpected range of matching incoming requests: "@
        + r.expectation_range.text() + "\n\tNumber of matched incoming requests: "@ + decimal(
        r.n_matched_requests as nat,
    )
}

impl VerificationReport {
    /// Whether the count lies in the expected range.
    pub open spec fn spec_is_satisfied(&self) -> bool {
        self.expectation_range.spec_contains(self.n_matched_requests)
    }

    pub fn is_satisfied(&self) -> (r: bool)
        ensures
            r == self.spec_is_satisfied(),
    {
        self.expectation_range.contains(self.n_matched_requests)
    }

    /// Appends the error message.
    pub fn push_error_message(&self, out: &mut Vec<char>)
        ensures
            final(out)@ == old(out)@ + report_text(*self),
    {
        let ghost start = out@;
        match &self.mock_name {
            Some(n) => {
                push_str(out, n.as_str());
            },
            None => {
                push_str(out, "Mock #");
                push_decimal(out, self.position_in_set as u64);
            },
        }
        push_str(out, ".\n\tExpected range of matching incoming requests: ");
        self.expectation_range.push_text(out);
        push_str(out, "\n\tNumber of matched incoming requests: ");
        push_decimal(out, self.n_matched_requests);
        proof {
            assert(out@ =~= start + report_text(*self));
        }
    }

    /// The error message: the mock's label, the expected range and the count.
    pub fn error_message(&self) -> (r: String)
        ensures
            r@ == report_text(*self),
    {
        let mut out: Vec<char> = Vec::new();
        self.push_error_message(&mut out);
        proof {
            assert(out@ =~= report_text(*self));
        }
        string_of(&out)
    }
}

/// The outcome of verifying every mock of a set.
#[derive(Debug)]
pub enum VerificationOutcome {
    /// Every mock in scope met its expectation.
    Success,
    /// These mocks in scope did not.
    Failure(Vec<VerificationReport>),
}

} // verus!
