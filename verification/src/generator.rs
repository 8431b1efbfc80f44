//! Calling the metadata generator, and judging how it ended.
//!
//! The generator is an outside program. The caller starts it with the
//! arguments given here, waits for it, and reports how it ended.

use vstd::prelude::*;
use vstd::string::*;

verus! {

/// The program that writes the descriptors of a package.
pub const GENERATOR: &'static str = "acbs-build";

/// The flag that asks the generator for metadata only.
pub const METADATA_FLAG: &'static str = "--generate-package-metadata";

/// How a call of the generator ended.
#[derive(Debug, Clone, Copy, PartialEq, Eq)]
pub enum Exit {
    /// The program could not be started.
    NotLaunched,
    /// The program ran and ended.
    Ended {
        /// Whether it reported success.
        success: bool,
        /// Its exit code, where it left one.
        code: Option<i32>,
    },
}

/// Why a call of the generator counts as failed.
#[derive(Debug, Clone, Copy, PartialEq, Eq)]
pub enum InvokeError {
    /// The program could not be started.
    NotLaunched,
    /// The program ended without success, with this code; 1 stands for a code
    /// that it did not leave.
    NonZero(i32),
}

/// What a way of ending counts as.
pub open spec fn verdict(exit: Exit) -> Result<(), InvokeError> {
    match exit {
        Exit::NotLaunched => Err(InvokeError::NotLaunched),
        Exit::Ended { success, code } => if success {
            Ok(())
        } else {
            Err(
                InvokeError::NonZero(
                    match code {
                        Some(c) => c,
                        None => 1i32,
                    },
                ),
            )
        },
    }
}

/// The arguments to start the generator with for the package `pkg_name`.
pub fn generator_arguments(pkg_name: &str) -> (arguments: Vec<String>)
    ensures
        arguments@.len() == 2,
        arguments@[0]@ == METADATA_FLAG@,
        arguments@[1]@ == pkg_name@,
{
    let mut arguments: Vec<String> = Vec::new();
    arguments.push(String::from_str(METADATA_FLAG));
    arguments.push(String::from_str(pkg_name));
    arguments
}

/// Judges how a call of the generator ended: it succeeded only if the
/// program ran and reported success.
pub fn judge(exit: Exit) -> (outcome: Result<(), InvokeError>)
    ensures
        outcome == verdict(exit),
{
    match exit {
        Exit::NotLaunched => Err(InvokeError::NotLaunched),
        Exit::Ended { success, code } => {
            if success {
                Ok(())
            } else {
                match code {
                    Some(c) => Err(InvokeError::NonZero(c)),
                    None => Err(InvokeError::NonZero(1)),
                }
            }
        },
    }
}

impl InvokeError {
    /// The exit code to report for the failure: the program's own where it
    /// left one, else 1.
    pub open spec fn spec_code(&self) -> i32 {
        match *self {
            InvokeError::NotLaunched => 1i32,
            InvokeError::NonZero(c) => c,
        }
    }

    /// The exit code to report for the failure.
    pub fn code(&self) -> (c: i32)
        ensures
            c == self.spec_code(),
    {
        match *self {
            InvokeError::NotLaunched => 1,
            InvokeError::NonZero(c) => c,
        }
    }
}

} // verus!
