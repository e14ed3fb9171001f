//! The error raised when an indicator is configured out of its domain.

use vstd::prelude::*;

verus! {

/// What can go wrong when an indicator is built. Updates and resets never fail.
#[derive(Debug, Clone, Copy, PartialEq, Eq, Structural)]
pub enum TaError {
    /// A static parameter lies outside its domain, such as a period of zero.
    InvalidParameter,
}

} // verus!
