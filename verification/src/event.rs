//! The notice that goes out when a layer is created.

use vstd::prelude::*;

use crate::account::AccountId;

verus! {

/// Tells observers that `user` bound `layer_name` to `ipfs_link`.
///
/// A notice tells of a change that has already happened. Nothing the registry
/// answers later depends on whether anyone received it.
#[derive(Debug)]
pub struct LayerCreated {
    /// The account that created the layer.
    pub user: AccountId,
    /// The layer's name, as the account gave it.
    pub layer_name: String,
    /// The link that the layer resolves to.
    pub ipfs_link: String,
}

} // verus!
