//! What can go wrong when the native asset is sent.

use vstd::prelude::*;

verus! {

/// Why a transfer of the native asset failed.
#[derive(Clone, Copy, Debug, PartialEq, Eq, Structural)]
pub enum TransferHelperError {
    TransferFailed,
}

} // verus!
