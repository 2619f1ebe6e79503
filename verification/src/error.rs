//! Errors of the library, and helpers that raise the internal ones.
use vstd::prelude::*;
use crate::text::decimal_string;

verus! {

/// `regex::Error`, the error of compiling a regular expression.
#[verifier::external_type_specification]
#[verifier::external_body]
pub struct ExRegexError(regex::Error);

/// What can go wrong while managing snapshots.
#[derive(Debug)]
pub enum AppError {
    /// A child process failed; `err_msg` is what it wrote to standard error.
    ChildProcess { command: String, err_msg: String },
    /// The operation was refused by the system.
    Permission,
    /// The program does not run with root permission.
    NoRootPermission,
    /// The named device does not hold a btrfs file system.
    NotBtrfs(String),
    /// The configuration file is wrong.
    InvalidConfig,
    /// Subvolumes named in the configuration do not exist on the partition.
    ConfigErrSubvolumeNotExist(Vec<String>),
    /// A regular expression could not be compiled.
    Regex(regex::Error),
    /// An internal inconsistency, with a description.
    Bug(String),
}

/// The message of an invalid index found while doing `period`.
pub open spec fn invalid_index_message(index: nat, period: Seq<char>) -> Seq<char> {
    "Invalid index("@ + crate::text::decimal_spec(index) + ") occurs when "@ + period
}

/// Fails with an internal error carrying `msg`.
pub fn throw_bug<E>(msg: String) -> (r: Result<E, AppError>)
    ensures
        r matches Err(AppError::Bug(m)) && m@ == msg@,
{
    Err(AppError::Bug(msg))
}

/// Fails with the internal error of an invalid `index` met while doing `period`.
pub fn throw_invalid_index<E>(index: usize, period: &str) -> (r: Result<E, AppError>)
    ensures
        r matches Err(AppError::Bug(m)) && m@ == invalid_index_message(index as nat, period@),
{
    let mut msg = String::from_str("Invalid index(");
    let digits = decimal_string(index);
    msg.append(digits.as_str());
    msg.append(") occurs when ");
    msg.append(period);
    throw_bug(msg)
}

} // verus!
