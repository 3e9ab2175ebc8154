use vstd::prelude::*;

verus! {

/// Why a plan was refused.
#[derive(Clone, Copy, Debug, PartialEq, Eq, Structural)]
pub enum Error {
    /// An order lies outside the range that the degree allows.
    InvalidArgument,
}

} // verus!
