//! Why a system query failed.
use vstd::prelude::*;

verus! {

#[derive(Debug, Clone, Copy, PartialEq, Eq, Structural)]
pub enum NtApiError {
    BufferTooSmall { needed: usize, available: usize },
    QueryFailed(i32),
}

} // verus!
