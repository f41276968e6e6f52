//! Why a layer could not be decoded.

use crate::read::UntilReadError;
use vstd::prelude::*;

verus! {

/// Why a layer could not be decoded.
#[derive(Debug, Clone, Copy, PartialEq, Eq, Structural)]
pub enum L3dataError {
    /// The bytes handed to the layer ended inside it.
    Io(UntilReadError),
    /// An IPv4 header declares a length under the twenty bytes of its fixed part.
    HeaderLength,
}

} // verus!
