//! Errors of a run as a whole, as opposed to those of a single transaction.

use vstd::prelude::*;

verus! {

/// Where a run failed.
#[derive(Debug, Clone, Copy, PartialEq, Eq, Structural)]
pub enum ErrorType {
    CliParseError,
    IO,
    CsvRead,
    CsvWrite,
    CsvOther,
}

/// The mathematical content of a [`CliError`].
pub struct CliErrorView {
    pub message: Seq<char>,
    pub error_type: ErrorType,
}

/// A failure of the run, with a message for the user.
pub struct CliError {
    message: String,
    error_type: ErrorType,
}

impl View for CliError {
    type V = CliErrorView;

    closed spec fn view(&self) -> CliErrorView {
        CliErrorView { message: self.message@, error_type: self.error_type }
    }
}

impl CliError {
    pub fn new(error_type: ErrorType, message: &str) -> (error: Self)
        ensures
            error@ == (CliErrorView { message: message@, error_type }),
    {
        CliError { error_type, message: message.to_owned() }
    }

    pub fn message(&self) -> (message: &str)
        ensures
            message@ == self@.message,
    {
        self.message.as_str()
    }

    pub fn error_type(&self) -> (error_type: &ErrorType)
        ensures
            *error_type == self@.error_type,
    {
        &self.error_type
    }
}

} // verus!
