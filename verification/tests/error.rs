use price_sync::error::{BulkError, Cause, Phase};

#[test]
fn new_error_holds_phase_and_cause() {
    let error = BulkError::new(Phase::Poll, Cause::Parse);
    assert_eq!(error, BulkError { phase: Phase::Poll, cause: Cause::Parse });
    assert_ne!(error, BulkError { phase: Phase::Poll, cause: Cause::Transport });
}

#[test]
fn message_names_the_phase_and_the_cause() {
    assert_eq!(
        BulkError::new(Phase::Submission, Cause::Transport).message(),
        "bulk export submission: the request failed in transport"
    );
    assert_eq!(
        BulkError::new(Phase::Poll, Cause::Parse).message(),
        "bulk export poll: the reply could not be parsed"
    );
    assert_eq!(
        BulkError::new(Phase::Negotiation, Cause::Missing).message(),
        "staged upload negotiation: an expected field is missing from the reply"
    );
    assert_eq!(
        BulkError::new(Phase::Upload, Cause::File).message(),
        "staged upload: the batch file could not be read"
    );
    assert_eq!(
        BulkError::new(Phase::Upload, Cause::Form).message(),
        "staged upload: the upload form could not be built"
    );
    assert_eq!(
        BulkError::new(Phase::Poll, Cause::Timeout).message(),
        "bulk export poll: the wait ran out of attempts"
    );
    assert_eq!(
        BulkError::new(Phase::Update, Cause::Rejected).message(),
        "bulk update: the platform did not accept the job"
    );
}
