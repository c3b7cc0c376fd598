//! The CLI's error type.

use vstd::prelude::*;
use crate::text::concat_text;

verus! {

/// The error type of the `bcs` crate.
#[verifier::external_type_specification]
#[verifier::external_body]
pub struct ExBcsError(bcs::Error);

/// The error type of `std::io`.
#[verifier::external_type_specification]
#[verifier::external_body]
pub struct ExIoError(std::io::Error);

/// CLI errors for reporting through telemetry and outputs.
#[derive(Debug)]
pub enum CliError {
    AbortedError,
    ApiError(String),
    BCS(&'static str, bcs::Error),
    CommandArgumentError(String),
    ConfigLoadError(String, String),
    ConfigNotFoundError(String),
    IO(String, std::io::Error),
    MoveCompilationError(String),
    MoveTestError,
    MoveProverError(String),
    UnableToParse(&'static str, String),
    UnableToReadFile(String, String),
    UnexpectedError(String),
    SimulationError(String),
    CoverageError(String),
}

/// The name of the variant of `e`.
pub open spec fn error_name(e: CliError) -> Seq<char> {
    match e {
        CliError::AbortedError => "AbortedError"@,
        CliError::ApiError(_) => "ApiError"@,
        CliError::BCS(_, _) => "BCS"@,
        CliError::CommandArgumentError(_) => "CommandArgumentError"@,
        CliError::ConfigLoadError(_, _) => "ConfigLoadError"@,
        CliError::ConfigNotFoundError(_) => "ConfigNotFoundError"@,
        CliError::IO(_, _) => "IO"@,
        CliError::MoveCompilationError(_) => "MoveCompilationError"@,
        CliError::MoveTestError => "MoveTestError"@,
        CliError::MoveProverError(_) => "MoveProverError"@,
        CliError::UnableToParse(_, _) => "UnableToParse"@,
        CliError::UnableToReadFile(_, _) => "UnableToReadFile"@,
        CliError::UnexpectedError(_) => "UnexpectedError"@,
        CliError::SimulationError(_) => "SimulationError"@,
        CliError::CoverageError(_) => "CoverageError"@,
    }
}

impl CliError {
    /// The name of the error's variant, for telemetry.
    pub fn to_str(&self) -> (r: &'static str)
        ensures
            r@ == error_name(*self),
    {
        match self {
            CliError::AbortedError => "AbortedError",
            CliError::ApiError(_) => "ApiError",
            CliError::BCS(_, _) => "BCS",
            CliError::CommandArgumentError(_) => "CommandArgumentError",
            CliError::ConfigLoadError(_, _) => "ConfigLoadError",
            CliError::ConfigNotFoundError(_) => "ConfigNotFoundError",
            CliError::IO(_, _) => "IO",
            CliError::MoveCompilationError(_) => "MoveCompilationError",
            CliError::MoveTestError => "MoveTestError",
            CliError::MoveProverError(_) => "MoveProverError",
            CliError::UnableToParse(_, _) => "UnableToParse",
            CliError::UnableToReadFile(_, _) => "UnableToReadFile",
            CliError::UnexpectedError(_) => "UnexpectedError",
            CliError::SimulationError(_) => "SimulationError",
            CliError::CoverageError(_) => "CoverageError",
        }
    }
}


/// Calls `bcs::Error`'s `to_string`; nothing is claimed of the text.
#[verifier::external_body]
fn bcs_error_text(e: &bcs::Error) -> (r: String) {
    e.to_string()
}

/// Calls `std::io::Error`'s `to_string`; nothing is claimed of the text.
#[verifier::external_body]
fn io_error_text(e: &std::io::Error) -> (r: String) {
    e.to_string()
}

/// The message shown for `e`; for the errors that wrap a `bcs` or I/O
/// error, the part before that error's own text.
pub open spec fn error_message(e: CliError) -> Seq<char> {
    match e {
        CliError::AbortedError => "Aborted command"@,
        CliError::ApiError(m) => "API error: "@ + m@,
        CliError::BCS(l, _) => "Error (de)serializing '"@ + l@ + "': "@,
        CliError::CommandArgumentError(m) => "Invalid arguments: "@ + m@,
        CliError::ConfigLoadError(a, b) => "Unable to load config: "@ + a@ + " "@ + b@,
        CliError::ConfigNotFoundError(m) => "Unable to find config "@ + m@
            + ", have you run `movement init`?"@,
        CliError::IO(p, _) => "Error accessing '"@ + p@ + "': "@,
        CliError::MoveCompilationError(m) => "Move compilation failed: "@ + m@,
        CliError::MoveTestError => "Move unit tests failed"@,
        CliError::MoveProverError(m) => "Move Prover failed: "@ + m@,
        CliError::UnableToParse(l, m) => "Unable to parse '"@ + l@ + "': error: "@ + m@,
        CliError::UnableToReadFile(f, m) => "Unable to read file '"@ + f@ + "', error: "@ + m@,
        CliError::UnexpectedError(m) => "Unexpected error: "@ + m@,
        CliError::SimulationError(m) => "Simulation failed with status: "@ + m@,
        CliError::CoverageError(m) => "Coverage failed with status: "@ + m@,
    }
}

impl CliError {
    /// The error's message, as the CLI shows it. For the errors that wrap
    /// a `bcs` or I/O error, that error's own text follows the message.
    pub fn to_message(&self) -> (r: String)
        ensures
            match *self {
                CliError::BCS(_, _) | CliError::IO(_, _) => r@.len() >= error_message(*self).len()
                    && r@.subrange(0, error_message(*self).len() as int) == error_message(*self),
                _ => r@ == error_message(*self),
            },
    {
        match self {
            CliError::AbortedError => String::from_str("Aborted command"),
            CliError::ApiError(m) => concat_text("API error: ", m.as_str()),
            CliError::BCS(l, e) => {
                let a = concat_text("Error (de)serializing '", l);
                let b = concat_text(a.as_str(), "': ");
                let t = bcs_error_text(e);
                let r = concat_text(b.as_str(), t.as_str());
                proof {
                    assert(r@.subrange(0, b@.len() as int) =~= b@);
                }
                r
            },
            CliError::CommandArgumentError(m) => concat_text("Invalid arguments: ", m.as_str()),
            CliError::ConfigLoadError(a, b) => {
                let x = concat_text("Unable to load config: ", a.as_str());
                let y = concat_text(x.as_str(), " ");
                concat_text(y.as_str(), b.as_str())
            },
            CliError::ConfigNotFoundError(m) => {
                let x = concat_text("Unable to find config ", m.as_str());
                concat_text(x.as_str(), ", have you run `movement init`?")
            },
            CliError::IO(p, e) => {
                let a = concat_text("Error accessing '", p.as_str());
                let b = concat_text(a.as_str(), "': ");
                let t = io_error_text(e);
                let r = concat_text(b.as_str(), t.as_str());
                proof {
                    assert(r@.subrange(0, b@.len() as int) =~= b@);
                }
                r
            },
            CliError::MoveCompilationError(m) => concat_text("Move compilation failed: ", m.as_str()),
            CliError::MoveTestError => String::from_str("Move unit tests failed"),
            CliError::MoveProverError(m) => concat_text("Move Prover failed: ", m.as_str()),
            CliError::UnableToParse(l, m) => {
                let a = concat_text("Unable to parse '", l);
                let b = concat_text(a.as_str(), "': error: ");
                concat_text(b.as_str(), m.as_str())
            },
            CliError::UnableToReadFile(f, m) => {
                let a = concat_text("Unable to read file '", f.as_str());
                let b = concat_text(a.as_str(), "', error: ");
                concat_text(b.as_str(), m.as_str())
            },
            CliError::UnexpectedError(m) => concat_text("Unexpected error: ", m.as_str()),
            CliError::SimulationError(m) => concat_text("Simulation failed with status: ", m.as_str()),
            CliError::CoverageError(m) => concat_text("Coverage failed with status: ", m.as_str()),
        }
    }
}

} // verus!
