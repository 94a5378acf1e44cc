//! The fatal errors of a packaging run and the exit status of each.

use vstd::prelude::*;
use vstd::string::*;

verus! {

/// A failure that ends the whole run.
#[derive(Debug, Clone, PartialEq, Eq)]
pub enum PackError {
    /// A declared source path does not exist.
    MissingInput { path: String },
    /// The output container could not be created.
    OutputCreateFailure { path: String, reason: String },
}

/// Exit status for a missing input, as the `exitcode` crate names it.
pub open spec fn status_no_input() -> int {
    66
}

/// Exit status for an output file that cannot be created, as the `exitcode`
/// crate names it.
pub open spec fn status_cant_create() -> int {
    73
}

/// `exitcode::NOINPUT`. The crate defines this constant as 66; the contract
/// says so.
#[verifier::external_body]
fn no_input_status() -> (code: i32)
    ensures
        code == status_no_input(),
{
    exitcode::NOINPUT
}

/// `exitcode::CANTCREAT`. The crate defines this constant as 73; the contract
/// says so.
#[verifier::external_body]
fn cant_create_status() -> (code: i32)
    ensures
        code == status_cant_create(),
{
    exitcode::CANTCREAT
}

impl PackError {
    /// The exit status that stands for this error.
    pub open spec fn spec_exit_code(&self) -> int {
        match self {
            PackError::MissingInput { .. } => status_no_input(),
            PackError::OutputCreateFailure { .. } => status_cant_create(),
        }
    }

    /// The text that reports this error.
    pub open spec fn spec_message(&self) -> Seq<char> {
        match self {
            PackError::MissingInput { path } => "[ERR] Given file or folder doesn't exists: "@
                + path@,
            PackError::OutputCreateFailure { path, reason } => "error: Unable to make the "@ + path@
                + " file : "@ + reason@,
        }
    }

    /// The status with which a process that met this error exits.
    pub fn exit_code(&self) -> (code: i32)
        ensures
            code == self.spec_exit_code(),
            code != 0,
    {
        match self {
            PackError::MissingInput { .. } => no_input_status(),
            PackError::OutputCreateFailure { .. } => cant_create_status(),
        }
    }

    /// One line for the user, naming the path at fault.
    pub fn message(&self) -> (text: String)
        ensures
            text@ == self.spec_message(),
    {
        match self {
            PackError::MissingInput { path } => {
                String::from_str("[ERR] Given file or folder doesn't exists: ").concat(
                    path.as_str(),
                )
            },
            PackError::OutputCreateFailure { path, reason } => {
                String::from_str("error: Unable to make the ").concat(path.as_str()).concat(
                    " file : ",
                ).concat(reason.as_str())
            },
        }
    }
}

/// Errors of different kinds exit with different statuses, and none of them
/// with the status of success.
pub proof fn lemma_exit_codes_distinct(a: PackError, b: PackError)
    ensures
        a.spec_exit_code() != 0,
        (a is MissingInput) != (b is MissingInput) ==> a.spec_exit_code() != b.spec_exit_code(),
        (a is MissingInput) == (b is MissingInput) ==> a.spec_exit_code() == b.spec_exit_code(),
{
}

} // verus!
