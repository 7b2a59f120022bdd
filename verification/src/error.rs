//! The failures that the registry answers with.

use vstd::prelude::*;

verus! {

/// Why an operation on the registry was turned down.
#[derive(Debug, PartialEq, Eq, Structural)]
pub enum Error {
    /// The caller already owns a layer of that name.
    LayerAlreadyExists,
    /// The user owns no layer of that name.
    LayerNotFound,
}

} // verus!
