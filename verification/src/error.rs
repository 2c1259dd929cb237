use vstd::prelude::*;
use vstd::string::*;

verus! {

/// The step of a synchronisation run in which a failure arose.
#[derive(Clone, Copy, Debug, PartialEq, Eq, Structural)]
pub enum Phase {
    /// Submitting the bulk export query.
    Submission,
    /// Waiting for the export to offer its download address.
    Poll,
    /// Asking the platform for a staged upload target.
    Negotiation,
    /// Sending the batch file to the staged target.
    Upload,
    /// Submitting the bulk update mutation.
    Update,
}

/// Why a step failed.
#[derive(Clone, Copy, Debug, PartialEq, Eq, Structural)]
pub enum Cause {
    /// The request was not delivered, or its reply could not be decoded.
    Transport,
    /// The reply is not JSON, or holds a value of an unexpected shape.
    Parse,
    /// A field that the step needs is absent from the reply.
    Missing,
    /// The platform answered, and did not accept the job.
    Rejected,
    /// The batch file could not be read.
    File,
    /// The upload form could not be built.
    Form,
    /// The wait was given up: the attempts that it may spend are spent.
    Timeout,
}

/// A failure of one step. A run halts on the first one.
#[derive(Clone, Copy, Debug, PartialEq, Eq, Structural)]
pub struct BulkError {
    pub phase: Phase,
    pub cause: Cause,
}

/// The name of a phase as diagnostics print it.
pub open spec fn phase_name(phase: Phase) -> Seq<char> {
    match phase {
        Phase::Submission => "bulk export submission"@,
        Phase::Poll => "bulk export poll"@,
        Phase::Negotiation => "staged upload negotiation"@,
        Phase::Upload => "staged upload"@,
        Phase::Update => "bulk update"@,
    }
}

/// What diagnostics say of a cause.
pub open spec fn cause_text(cause: Cause) -> Seq<char> {
    match cause {
        Cause::Transport => "the request failed in transport"@,
        Cause::Parse => "the reply could not be parsed"@,
        Cause::Missing => "an expected field is missing from the reply"@,
        Cause::Rejected => "the platform did not accept the job"@,
        Cause::File => "the batch file could not be read"@,
        Cause::Form => "the upload form could not be built"@,
        Cause::Timeout => "the wait ran out of attempts"@,
    }
}

impl BulkError {
    /// The failure `cause` in `phase`.
    pub fn new(phase: Phase, cause: Cause) -> (error: BulkError)
        ensures
            error == (BulkError { phase, cause }),
    {
        BulkError { phase, cause }
    }

    /// The diagnostic text: the phase, a colon, and the cause.
    pub open spec fn spec_message(self) -> Seq<char> {
        phase_name(self.phase) + ": "@ + cause_text(self.cause)
    }

    /// A short diagnostic that names the failing phase.
    pub fn message(&self) -> (text: String)
        ensures
            text@ == self.spec_message(),
    {
        let phase = match self.phase {
            Phase::Submission => "bulk export submission",
            Phase::Poll => "bulk export poll",
            Phase::Negotiation => "staged upload negotiation",
            Phase::Upload => "staged upload",
            Phase::Update => "bulk update",
        };
        let cause = match self.cause {
            Cause::Transport => "the request failed in transport",
            Cause::Parse => "the reply could not be parsed",
            Cause::Missing => "an expected field is missing from the reply",
            Cause::Rejected => "the platform did not accept the job",
            Cause::File => "the batch file could not be read",
            Cause::Form => "the upload form could not be built",
            Cause::Timeout => "the wait ran out of attempts",
        };
        let mut text = String::from_str(phase);
        text.append(": ");
        text.append(cause);
        text
    }
}

} // verus!
