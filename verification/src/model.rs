//! The registry as a mathematical value: what it holds, when it is
//! consistent, and what each operation answers and leaves behind.

use vstd::prelude::*;

use crate::account::AccountId;
use crate::error::Error;

verus! {

/// Everything the registry knows.
#[verifier::ext_equal]
pub struct Registry {
    /// For each user who has one, the list of layer names they own, oldest
    /// first.
    pub user_layers: Map<AccountId, Seq<Seq<char>>>,
    /// The link of every layer, found by its owner and name.
    pub layer_links: Map<(AccountId, Seq<char>), Seq<char>>,
}

/// A request to create a layer.
pub struct Creation {
    /// The account that asks.
    pub caller: AccountId,
    /// The name of the new layer.
    pub layer_name: Seq<char>,
    /// The link to bind the name to.
    pub ipfs_link: Seq<char>,
}

/// Whether some request in `calls` is `user`'s and asks for `layer_name`.
pub open spec fn asked_for(calls: Seq<Creation>, user: AccountId, layer_name: Seq<char>) -> bool {
    exists|i: int|
        0 <= i < calls.len() && (#[trigger] calls[i]).caller == user && calls[i].layer_name
            == layer_name
}

/// The names that `user` asks for in `calls`, each counted once.
pub open spec fn names_asked_for(calls: Seq<Creation>, user: AccountId) -> Set<Seq<char>> {
    Set::new(|layer_name: Seq<char>| asked_for(calls, user, layer_name))
}

impl Registry {
    /// The registry before anyone has created a layer.
    pub open spec fn empty() -> Registry {
        Registry { user_layers: Map::empty(), layer_links: Map::empty() }
    }

    /// The names `user` owns, oldest first. A user without a list owns none.
    pub open spec fn layers(self, user: AccountId) -> Seq<Seq<char>> {
        if self.user_layers.dom().contains(user) {
            self.user_layers[user]
        } else {
            Seq::empty()
        }
    }

    /// Whether `user` owns a layer called `layer_name`.
    pub open spec fn has_layer(self, user: AccountId, layer_name: Seq<char>) -> bool {
        self.layers(user).contains(layer_name)
    }

    /// No user's list names a layer twice.
    pub open spec fn names_distinct(self) -> bool {
        forall|user: AccountId| #[trigger] self.layers(user).no_duplicates()
    }

    /// A name is on its owner's list exactly when the link table has an entry
    /// for that owner and name.
    pub open spec fn in_lockstep(self) -> bool {
        forall|user: AccountId, layer_name: Seq<char>|
            #![trigger self.has_layer(user, layer_name)]
            #![trigger self.layer_links.dom().contains((user, layer_name))]
            self.has_layer(user, layer_name) <==> self.layer_links.dom().contains(
                (user, layer_name),
            )
    }

    /// The registry is consistent.
    pub open spec fn wf(self) -> bool {
        self.names_distinct() && self.in_lockstep()
    }

    /// What `create_layer` answers: a name may be created once per owner.
    pub open spec fn create_outcome(self, caller: AccountId, layer_name: Seq<char>) -> Result<
        (),
        Error,
    > {
        if self.has_layer(caller, layer_name) {
            Err(Error::LayerAlreadyExists)
        } else {
            Ok(())
        }
    }

    /// The registry with `layer_name` appended to `caller`'s list and bound to
    /// `ipfs_link`.
    pub open spec fn with_layer(
        self,
        caller: AccountId,
        layer_name: Seq<char>,
        ipfs_link: Seq<char>,
    ) -> Registry {
        Registry {
            user_layers: self.user_layers.insert(caller, self.layers(caller).push(layer_name)),
            layer_links: self.layer_links.insert((caller, layer_name), ipfs_link),
        }
    }

    /// What `create_layer` leaves behind: the new layer where the name was
    /// free, and the registry as it was where the name was taken.
    pub open spec fn after_create(
        self,
        caller: AccountId,
        layer_name: Seq<char>,
        ipfs_link: Seq<char>,
    ) -> Registry {
        if self.has_layer(caller, layer_name) {
            self
        } else {
            self.with_layer(caller, layer_name, ipfs_link)
        }
    }

    /// What `resolve_link` answers: the link of a layer that `user` owns.
    pub open spec fn resolve_link(self, user: AccountId, layer_name: Seq<char>) -> Result<
        Seq<char>,
        Error,
    > {
        if self.has_layer(user, layer_name) {
            Ok(self.layer_links[(user, layer_name)])
        } else {
            Err(Error::LayerNotFound)
        }
    }

    /// The registry after the requests in `calls` have been made in order.
    pub open spec fn after_all(self, calls: Seq<Creation>) -> Registry
        decreases calls.len(),
    {
        if calls.len() == 0 {
            self
        } else {
            let call = calls.last();
            self.after_all(calls.drop_last()).after_create(
                call.caller,
                call.layer_name,
                call.ipfs_link,
            )
        }
    }

    /// How many of the requests in `calls`, made in order, were `user`'s and
    /// were accepted.
    pub open spec fn accepted(self, calls: Seq<Creation>, user: AccountId) -> nat
        decreases calls.len(),
    {
        if calls.len() == 0 {
            0
        } else {
            let call = calls.last();
            let before = self.after_all(calls.drop_last());
            let earlier = self.accepted(calls.drop_last(), user);
            if call.caller == user && before.create_outcome(call.caller, call.layer_name) is Ok {
                earlier + 1
            } else {
                earlier
            }
        }
    }
}

} // verus!
