use sensor_hub::lifecycle::{exit_outcome, fatal_message, Completion, FatalError};

#[test]
fn interrupt_and_orderly_ends_are_clean() {
    assert_eq!(exit_outcome(Completion::Interrupted), Ok(()));
    assert_eq!(exit_outcome(Completion::IngestionEnded), Ok(()));
    assert_eq!(exit_outcome(Completion::HttpEnded), Ok(()));
}

#[test]
fn a_failure_of_either_server_is_fatal() {
    assert_eq!(exit_outcome(Completion::IngestionBindFailed), Err(FatalError::Ingestion));
    assert_eq!(exit_outcome(Completion::IngestionFailed), Err(FatalError::Ingestion));
    assert_eq!(exit_outcome(Completion::HttpBindFailed), Err(FatalError::Http));
    assert_eq!(exit_outcome(Completion::HttpFailed), Err(FatalError::Http));
}

#[test]
fn fatal_errors_have_their_message() {
    assert_eq!(fatal_message(FatalError::Ingestion), "TCP Server Error");
    assert_eq!(fatal_message(FatalError::Http), "HTTP Server Error");
}
