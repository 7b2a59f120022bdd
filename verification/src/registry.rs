//! The registry itself: creating a layer, and resolving one to its link.

use ink_prelude::vec::Vec;
use vstd::prelude::*;

use crate::account::AccountId;
use crate::error::Error;
use crate::event::LayerCreated;
use crate::laws::law_creation_keeps_consistency;
use crate::model::Registry;
use crate::table::Table;

verus! {

/// Whether `layer_name` is one of `names`, letter for letter.
fn contains_name(names: &Vec<String>, layer_name: &String) -> (found: bool)
    ensures
        found == names.deep_view().contains(layer_name@),
{
    let mut i: usize = 0;
    while i < names.len()
        invariant
            i <= names.len(),
            forall|j: int| 0 <= j < i ==> names.deep_view()[j] != layer_name@,
        decreases names.len() - i,
    {
        if names[i] == *layer_name {
            assert(names.deep_view()[i as int] == layer_name@);
            return true;
        }
        i += 1;
    }
    false
}

/// A registry in which every user keeps a namespace of their own: a list of
/// layer names, each bound to one link.
///
/// A layer is created once and then stays as it is. No operation renames,
/// rebinds or removes it.
pub struct GalaxyContract {
    user_layers: Table<AccountId, Vec<String>>,
    layer_links: Table<(AccountId, String), String>,
}

impl View for GalaxyContract {
    type V = Registry;

    closed spec fn view(&self) -> Registry {
        Registry { user_layers: self.user_layers@, layer_links: self.layer_links@ }
    }
}

impl GalaxyContract {
    #[verifier::type_invariant]
    spec fn consistent(&self) -> bool {
        self.user_layers.wf() && self.layer_links.wf() && self@.wf()
    }

    /// A registry without layers.
    pub fn new() -> (contract: GalaxyContract)
        ensures
            contract@ == Registry::empty(),
            contract@.wf(),
    {
        GalaxyContract { user_layers: Table::new(), layer_links: Table::new() }
    }

    /// Creates the layer `layer_name` in `caller`'s namespace and binds it to
    /// `ipfs_link`.
    ///
    /// `caller` is the account on whose behalf the call is made: an account
    /// only ever adds to its own namespace. Where `caller` already owns a
    /// layer of that name the call fails with `LayerAlreadyExists` and changes
    /// nothing. Otherwise the name goes to the end of `caller`'s list, the
    /// link is recorded with it, and one notice of the creation is appended to
    /// `events` for whoever delivers them.
    pub fn create_layer(
        &mut self,
        caller: AccountId,
        layer_name: String,
        ipfs_link: String,
        events: &mut Vec<LayerCreated>,
    ) -> (result: Result<(), Error>)
        ensures
            result == old(self)@.create_outcome(caller, layer_name@),
            final(self)@ == old(self)@.after_create(caller, layer_name@, ipfs_link@),
            final(self)@.wf(),
            result is Ok ==> final(events)@ == old(events)@.push(
                (LayerCreated { user: caller, layer_name: layer_name, ipfs_link: ipfs_link }),
            ),
            result is Err ==> final(events)@ == old(events)@,
    {
        proof {
            use_type_invariant(&*self);
        }
        let mut layers = match self.user_layers.get(&caller) {
            Some(names) => names.clone(),
            None => Vec::new(),
        };
        if contains_name(&layers, &layer_name) {
            return Err(Error::LayerAlreadyExists);
        }
        layers.push(layer_name.clone());
        assert(layers.deep_view() == old(self)@.layers(caller).push(layer_name@));

        let mut taken = GalaxyContract::new();
        std::mem::swap(self, &mut taken);
        let GalaxyContract { mut user_layers, mut layer_links } = taken;
        user_layers.insert(caller, layers);
        layer_links.insert((caller, layer_name.clone()), ipfs_link.clone());
        proof {
            law_creation_keeps_consistency(old(self)@, caller, layer_name@, ipfs_link@);
        }
        *self = GalaxyContract { user_layers, layer_links };

        events.push(LayerCreated { user: caller, layer_name, ipfs_link });
        Ok(())
    }

    /// The link that `user`'s layer `layer_name` is bound to.
    ///
    /// Any account's layers may be looked up. The call fails with
    /// `LayerNotFound` where `user` owns no layer of that name, and changes
    /// nothing either way.
    pub fn resolve_link(&self, user: AccountId, layer_name: String) -> (result: Result<
        String,
        Error,
    >)
        ensures
            self@.wf(),
            match result {
                Ok(link) => self@.resolve_link(user, layer_name@) == Ok::<Seq<char>, Error>(link@),
                Err(error) => self@.resolve_link(user, layer_name@) == Err::<Seq<char>, Error>(
                    error,
                ),
            },
    {
        proof {
            use_type_invariant(self);
        }
        let listed = match self.user_layers.get(&user) {
            Some(names) => contains_name(names, &layer_name),
            None => false,
        };
        if !listed {
            return Err(Error::LayerNotFound);
        }
        let link = self.layer_links.get(&(user, layer_name)).unwrap();
        Ok(link.clone())
    }

    /// The list of layer names that `user` owns, oldest first, or `None`
    /// where `user` has never created a layer.
    pub fn user_layers(&self, user: AccountId) -> (layers: Option<Vec<String>>)
        ensures
            self@.wf(),
            match layers {
                Some(names) => self@.user_layers.dom().contains(user) && names.deep_view()
                    == self@.user_layers[user],
                None => !self@.user_layers.dom().contains(user),
            },
    {
        proof {
            use_type_invariant(self);
        }
        match self.user_layers.get(&user) {
            Some(names) => Some(names.clone()),
            None => None,
        }
    }

    /// The link table's entry for `user` and `layer_name`, or `None` where it
    /// has none.
    pub fn layer_link(&self, user: AccountId, layer_name: String) -> (link: Option<String>)
        ensures
            self@.wf(),
            match link {
                Some(bound) => self@.layer_links.dom().contains((user, layer_name@)) && bound@
                    == self@.layer_links[(user, layer_name@)],
                None => !self@.layer_links.dom().contains((user, layer_name@)),
            },
    {
        proof {
            use_type_invariant(self);
        }
        match self.layer_links.get(&(user, layer_name)) {
            Some(bound) => Some(bound.clone()),
            None => None,
        }
    }
}

} // verus!
