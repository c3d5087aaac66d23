//! Why a job failed.

use vstd::prelude::*;

verus! {

/// A failure: the message recorded for the job, and the report printed for the
/// operator, which goes on with the causes.
#[derive(Debug)]
pub struct Fault {
    pub message: String,
    pub report: String,
}

pub struct FaultView {
    pub message: Seq<char>,
    pub report: Seq<char>,
}

impl View for Fault {
    type V = FaultView;

    open spec fn view(&self) -> FaultView {
        FaultView { message: self.message@, report: self.report@ }
    }
}

impl FaultView {
    /// A failure without a cause.
    pub open spec fn plain(message: Seq<char>) -> FaultView {
        FaultView { message, report: message }
    }

    /// The failure `message`, caused by this one.
    pub open spec fn under(self, message: Seq<char>) -> FaultView {
        FaultView { message, report: message + ": "@ + self.report }
    }
}

impl Fault {
    /// A failure that nothing else caused.
    pub fn new(message: String) -> (fault: Fault)
        ensures
            fault@ == FaultView::plain(message@),
    {
        let report = message.clone();
        Fault { message, report }
    }

    /// The failure `message`, with this one as its cause.
    pub fn context(self, message: &str) -> (fault: Fault)
        ensures
            fault@ == self@.under(message@),
    {
        let report = message.to_owned().concat(": ").concat(self.report.as_str());
        Fault { message: message.to_owned(), report }
    }
}

/// A failure keeps its message, and one without a cause reports no more than that. With a
/// cause, the report goes on after a colon and a space with all that the cause reported.
pub proof fn law_faults_keep_their_causes(cause: FaultView, message: Seq<char>)
    ensures
        FaultView::plain(message).message == message,
        FaultView::plain(message).report == message,
        cause.under(message).message == message,
        ({
            let report = cause.under(message).report;
            &&& (message + ": "@).is_prefix_of(report)
            &&& report.skip(message.len() as int + 2) == cause.report
        }),
{
    reveal_strlit(": ");
    let report = cause.under(message).report;
    assert(report.subrange(0, message.len() as int + 2) =~= message + ": "@);
    assert(report.skip(message.len() as int + 2) =~= cause.report);
}

} // verus!
