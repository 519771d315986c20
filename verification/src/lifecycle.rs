//! How the controller ends: its two servers run side by side with the
//! interrupt signal, and whichever of the three is over first settles the
//! outcome of the whole program.

use vstd::prelude::*;

verus! {

/// What was over first.
#[derive(Clone, Copy, Debug, PartialEq, Eq, Structural)]
pub enum Completion {
    /// The port for sensors could not be bound.
    IngestionBindFailed,
    /// The task that accepts sensors ended with a failure.
    IngestionFailed,
    /// The task that accepts sensors ended by itself.
    IngestionEnded,
    /// The port for observers could not be bound.
    HttpBindFailed,
    /// The HTTP server ended with a failure.
    HttpFailed,
    /// The HTTP server ended by itself.
    HttpEnded,
    /// The interrupt signal came.
    Interrupted,
}

/// A failure that ends the controller.
#[derive(Clone, Copy, Debug, PartialEq, Eq, Structural)]
pub enum FatalError {
    /// The side that takes sensor connections failed.
    Ingestion,
    /// The side that serves observers failed.
    Http,
}

/// The outcome that a completion settles: a failure of either server, at
/// binding or later, is fatal; anything else is an orderly end.
pub open spec fn outcome_of(first: Completion) -> Result<(), FatalError> {
    match first {
        Completion::IngestionBindFailed | Completion::IngestionFailed => Err(
            FatalError::Ingestion,
        ),
        Completion::HttpBindFailed | Completion::HttpFailed => Err(FatalError::Http),
        Completion::IngestionEnded | Completion::HttpEnded | Completion::Interrupted => Ok(()),
    }
}

/// Settles how the controller exits.
pub fn exit_outcome(first: Completion) -> (outcome: Result<(), FatalError>)
    ensures
        outcome == outcome_of(first),
{
    match first {
        Completion::IngestionBindFailed => Err(FatalError::Ingestion),
        Completion::IngestionFailed => Err(FatalError::Ingestion),
        Completion::HttpBindFailed => Err(FatalError::Http),
        Completion::HttpFailed => Err(FatalError::Http),
        Completion::IngestionEnded => Ok(()),
        Completion::HttpEnded => Ok(()),
        Completion::Interrupted => Ok(()),
    }
}

/// The message that goes with a fatal error.
pub fn fatal_message(error: FatalError) -> (message: &'static str)
    ensures
        error == FatalError::Ingestion ==> message@ == "TCP Server Error"@,
        error == FatalError::Http ==> message@ == "HTTP Server Error"@,
{
    match error {
        FatalError::Ingestion => "TCP Server Error",
        FatalError::Http => "HTTP Server Error",
    }
}

} // verus!
