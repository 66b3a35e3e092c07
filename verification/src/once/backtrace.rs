//! Backtraces of the receivers that wait.
use std::backtrace::Backtrace;
use vstd::prelude::*;

verus! {

/// `std::backtrace::Backtrace`, carried through the library as an opaque value.
#[verifier::external_type_specification]
#[verifier::external_body]
pub struct ExBacktrace(std::backtrace::Backtrace);

/// Calls `std::backtrace::Backtrace::capture`. Nothing is claimed of the backtrace: what it
/// holds depends on the machine and on whether backtraces are enabled.
#[verifier::external_body]
pub(crate) fn capture_backtrace() -> (r: Backtrace)
{
    Backtrace::capture()
}

} // verus!
