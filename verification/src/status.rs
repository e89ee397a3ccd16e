//! Exit-status aggregation. Every stream element reduces to one of three
//! mutually exclusive severities, and a run's status is the worst severity
//! it saw: an error beats a mismatch, a mismatch beats success. The fold is
//! associative, so a consumer may reduce the stream one element at a time
//! without buffering it.

use vstd::prelude::*;
use crate::digest::{Outcome, OutcomeView};
use crate::records::{
    element_view, elements_view, outcome_result_view, ChecksumError, ChecksumResult, ErrorView,
    ResultView,
};

verus! {

/// The severity of a verification run, from best to worst. As a process
/// exit code: success 0, mismatch 1, error 2.
#[derive(Clone, Copy, Debug, PartialEq, Eq, Structural)]
pub enum ReturnCode {
    Success,
    Mismatch,
    Error,
}

impl ReturnCode {
    /// How bad the code is: its place in the severity order.
    pub open spec fn rank(self) -> int {
        match self {
            ReturnCode::Success => 0,
            ReturnCode::Mismatch => 1,
            ReturnCode::Error => 2,
        }
    }

    /// The worse of two codes: the one of higher rank.
    pub open spec fn worse_spec(self, other: ReturnCode) -> ReturnCode {
        if other.rank() > self.rank() {
            other
        } else {
            self
        }
    }

    /// The process exit code: match 0, mismatch 1, any error 2.
    pub fn code(self) -> (c: u8)
        ensures
            c as int == self.rank(),
    {
        match self {
            ReturnCode::Success => 0,
            ReturnCode::Mismatch => 1,
            ReturnCode::Error => 2,
        }
    }

    /// Folds one more observation into a running status: the worse one wins.
    pub fn worse(self, other: ReturnCode) -> (r: ReturnCode)
        ensures
            r == self.worse_spec(other),
    {
        if other.code() > self.code() {
            other
        } else {
            self
        }
    }
}

/// The severity of a completed single-file verification: a match is
/// success, a mismatch is a mismatch, failing to compute a digest at all is
/// an error.
pub open spec fn outcome_severity(result: Result<OutcomeView, ErrorView>) -> ReturnCode {
    match result {
        Ok(OutcomeView::Match) => ReturnCode::Success,
        Ok(OutcomeView::Mismatch { .. }) => ReturnCode::Mismatch,
        Err(_) => ReturnCode::Error,
    }
}

/// The severity of one stream element: a parse failure is an error, and a
/// record's own result slot decides otherwise.
pub open spec fn element_severity(el: Result<ResultView, ErrorView>) -> ReturnCode {
    match el {
        Ok(res) => outcome_severity(res.result),
        Err(_) => ReturnCode::Error,
    }
}

/// The worst severity over a whole element list, folded in order from
/// `Success`.
pub open spec fn aggregate_severity(els: Seq<Result<ResultView, ErrorView>>) -> ReturnCode
    decreases els.len(),
{
    if els.len() == 0 {
        ReturnCode::Success
    } else {
        aggregate_severity(els.drop_last()).worse_spec(element_severity(els.last()))
    }
}

/// Severity of a single-file verification result (the `file` command).
pub fn severity_of_result(result: &Result<Outcome, ChecksumError>) -> (r: ReturnCode)
    ensures
        r == outcome_severity(outcome_result_view(*result)),
{
    match result {
        Ok(Outcome::Match) => ReturnCode::Success,
        Ok(Outcome::Mismatch { .. }) => ReturnCode::Mismatch,
        Err(_) => ReturnCode::Error,
    }
}

/// Severity of one stream element (the `manifest` command).
pub fn severity_of_element(el: &Result<ChecksumResult, ChecksumError>) -> (r: ReturnCode)
    ensures
        r == element_severity(element_view(*el)),
{
    match el {
        Ok(cr) => severity_of_result(&cr.result),
        Err(_) => ReturnCode::Error,
    }
}

/// The status of a whole collected run: the worst element severity.
pub fn aggregate_code(els: &Vec<Result<ChecksumResult, ChecksumError>>) -> (r: ReturnCode)
    ensures
        r == aggregate_severity(elements_view(els@)),
{
    let mut r = ReturnCode::Success;
    let mut i: usize = 0;
    proof {
        assert(elements_view(els@).subrange(0, 0) =~= Seq::<Result<ResultView, ErrorView>>::empty());
    }
    while i < els.len()
        invariant
            i <= els.len(),
            r == aggregate_severity(elements_view(els@).subrange(0, i as int)),
        decreases els.len() - i,
    {
        let s = severity_of_element(&els[i]);
        proof {
            let views = elements_view(els@);
            assert(views.subrange(0, i + 1).drop_last() =~= views.subrange(0, i as int));
            assert(views.subrange(0, i + 1).last() == element_view(els@[i as int]));
        }
        r = r.worse(s);
        i = i + 1;
    }
    proof {
        assert(elements_view(els@).subrange(0, els@.len() as int) =~= elements_view(els@));
    }
    r
}

/// Folding is insensitive to grouping: `worse` is associative, so a
/// consumer may reduce the stream in order, one element at a time, without
/// buffering it.
pub proof fn lemma_worse_associative(a: ReturnCode, b: ReturnCode, c: ReturnCode)
    ensures
        a.worse_spec(b).worse_spec(c) == a.worse_spec(b.worse_spec(c)),
{
}

/// `worse` does not care which side an observation arrives on.
pub proof fn lemma_worse_commutative(a: ReturnCode, b: ReturnCode)
    ensures
        a.worse_spec(b) == b.worse_spec(a),
{
}

/// The worst severity wins: a run's status is `Error` exactly when some
/// element is an error; `Mismatch` exactly when no element is an error but
/// some comparison mismatched; `Success` exactly when every element
/// matched.
pub proof fn lemma_aggregate_worst(els: Seq<Result<ResultView, ErrorView>>)
    ensures
        (aggregate_severity(els) == ReturnCode::Error) <==> exists|i: int|
            0 <= i < els.len() && element_severity(#[trigger] els[i]) == ReturnCode::Error,
        (aggregate_severity(els) == ReturnCode::Mismatch) <==> ((forall|i: int|
            0 <= i < els.len() ==> element_severity(#[trigger] els[i]) != ReturnCode::Error)
            && exists|i: int|
            0 <= i < els.len() && element_severity(#[trigger] els[i]) == ReturnCode::Mismatch),
        (aggregate_severity(els) == ReturnCode::Success) <==> forall|i: int|
            0 <= i < els.len() ==> element_severity(#[trigger] els[i]) == ReturnCode::Success,
    decreases els.len(),
{
    if els.len() == 0 {
    } else {
        lemma_aggregate_worst(els.drop_last());
        assert forall|i: int| 0 <= i < els.len() - 1 implies #[trigger] els[i]
            == els.drop_last()[i] by {}
        assert(els.last() == els[els.len() - 1]);
    }
}

} // verus!
