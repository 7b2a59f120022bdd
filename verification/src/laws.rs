//! What holds of the registry whatever is asked of it.

use vstd::prelude::*;

use crate::account::AccountId;
use crate::error::Error;
use crate::model::{asked_for, names_asked_for, Creation, Registry};

verus! {

/// After a layer has been added, its owner's list is the old list followed by
/// the new name, and every other user's list is as it was.
pub proof fn lemma_layers_with_layer(
    registry: Registry,
    caller: AccountId,
    layer_name: Seq<char>,
    ipfs_link: Seq<char>,
    user: AccountId,
)
    ensures
        registry.with_layer(caller, layer_name, ipfs_link).layers(user) == if user == caller {
            registry.layers(caller).push(layer_name)
        } else {
            registry.layers(user)
        },
{
}

/// Creation keeps the registry consistent: granted or refused, it leaves
/// every list free of repeated names and the lists in lockstep with the link
/// table.
pub proof fn law_creation_keeps_consistency(
    registry: Registry,
    caller: AccountId,
    layer_name: Seq<char>,
    ipfs_link: Seq<char>,
)
    requires
        registry.wf(),
    ensures
        registry.after_create(caller, layer_name, ipfs_link).wf(),
{
    if !registry.has_layer(caller, layer_name) {
        let after = registry.with_layer(caller, layer_name, ipfs_link);
        assert forall|user: AccountId| #[trigger] after.layers(user).no_duplicates() by {
            lemma_layers_with_layer(registry, caller, layer_name, ipfs_link, user);
            assert(registry.layers(user).no_duplicates());
        }
        assert forall|user: AccountId, name: Seq<char>|
            after.has_layer(user, name) <==> after.layer_links.dom().contains((user, name)) by {
            lemma_layers_with_layer(registry, caller, layer_name, ipfs_link, user);
            assert(registry.has_layer(user, name) <==> registry.layer_links.dom().contains(
                (user, name),
            ));
            if user == caller {
                let before = registry.layers(caller);
                if before.contains(name) {
                    let i: int = choose|i: int| 0 <= i < before.len() && before[i] == name;
                    assert(before.push(layer_name)[i] == name);
                }
                if name == layer_name {
                    assert(before.push(layer_name)[before.len() as int] == name);
                }
            }
        }
    }
}

/// Once a name has been asked for, it is taken: whether the request was
/// granted or refused, the same owner's next request for that name is refused
/// and changes nothing.
pub proof fn law_name_is_taken_after_creation(
    registry: Registry,
    user: AccountId,
    layer_name: Seq<char>,
    first_link: Seq<char>,
    second_link: Seq<char>,
)
    ensures
        ({
            let once = registry.after_create(user, layer_name, first_link);
            &&& once.has_layer(user, layer_name)
            &&& once.create_outcome(user, layer_name) == Err::<(), Error>(Error::LayerAlreadyExists)
            &&& once.after_create(user, layer_name, second_link) == once
        }),
{
    lemma_layers_with_layer(registry, user, layer_name, first_link, user);
    let before = registry.layers(user);
    assert(before.push(layer_name)[before.len() as int] == layer_name);
}

/// Creating a free name twice succeeds the first time and fails the second
/// time with `LayerAlreadyExists`, and the name still resolves to the link of
/// the first request: the second link is never applied.
pub proof fn law_duplicate_creation_is_refused(
    registry: Registry,
    user: AccountId,
    layer_name: Seq<char>,
    first_link: Seq<char>,
    second_link: Seq<char>,
)
    requires
        !registry.has_layer(user, layer_name),
    ensures
        registry.create_outcome(user, layer_name) == Ok::<(), Error>(()),
        ({
            let once = registry.after_create(user, layer_name, first_link);
            let twice = once.after_create(user, layer_name, second_link);
            &&& once.create_outcome(user, layer_name) == Err::<(), Error>(Error::LayerAlreadyExists)
            &&& twice == once
            &&& twice.resolve_link(user, layer_name) == Ok::<Seq<char>, Error>(first_link)
        }),
{
    law_name_is_taken_after_creation(registry, user, layer_name, first_link, second_link);
}

/// Creating a free name succeeds, and the name then resolves to the link it
/// was created with.
pub proof fn law_created_layer_resolves(
    registry: Registry,
    user: AccountId,
    layer_name: Seq<char>,
    ipfs_link: Seq<char>,
)
    requires
        !registry.has_layer(user, layer_name),
    ensures
        registry.create_outcome(user, layer_name) == Ok::<(), Error>(()),
        registry.after_create(user, layer_name, ipfs_link).resolve_link(user, layer_name) == Ok::<
            Seq<char>,
            Error,
        >(ipfs_link),
{
    law_name_is_taken_after_creation(registry, user, layer_name, ipfs_link, ipfs_link);
}

/// Namespaces are separate: what one user creates changes neither the list
/// of another user nor what any of that user's names resolves to. A name
/// that only `creator` has made does not resolve for `other`.
pub proof fn law_namespaces_are_separate(
    registry: Registry,
    creator: AccountId,
    layer_name: Seq<char>,
    ipfs_link: Seq<char>,
    other: AccountId,
    name: Seq<char>,
)
    requires
        creator != other,
    ensures
        ({
            let after = registry.after_create(creator, layer_name, ipfs_link);
            &&& after.layers(other) == registry.layers(other)
            &&& after.resolve_link(other, name) == registry.resolve_link(other, name)
            &&& !registry.has_layer(other, layer_name) ==> after.resolve_link(other, layer_name)
                == Err::<Seq<char>, Error>(Error::LayerNotFound)
        }),
{
    lemma_layers_with_layer(registry, creator, layer_name, ipfs_link, other);
}

/// A binding is for good: a later creation, by anyone and of any name, leaves
/// every layer that exists bound to the link it had.
pub proof fn law_bindings_never_change(
    registry: Registry,
    caller: AccountId,
    layer_name: Seq<char>,
    ipfs_link: Seq<char>,
    user: AccountId,
    name: Seq<char>,
)
    requires
        registry.has_layer(user, name),
    ensures
        registry.after_create(caller, layer_name, ipfs_link).resolve_link(user, name)
            == registry.resolve_link(user, name),
{
    lemma_layers_with_layer(registry, caller, layer_name, ipfs_link, user);
    if user == caller && !registry.has_layer(caller, layer_name) {
        let before = registry.layers(caller);
        let i: int = choose|i: int| 0 <= i < before.len() && before[i] == name;
        assert(before.push(layer_name)[i] == name);
    }
}

/// After any run of requests a user owns the names they owned before and the
/// names they asked for, and no others.
pub proof fn lemma_names_after_all(
    registry: Registry,
    calls: Seq<Creation>,
    user: AccountId,
    layer_name: Seq<char>,
)
    ensures
        registry.after_all(calls).has_layer(user, layer_name) <==> registry.has_layer(
            user,
            layer_name,
        ) || asked_for(calls, user, layer_name),
    decreases calls.len(),
{
    if calls.len() > 0 {
        let earlier = calls.drop_last();
        let call = calls.last();
        let before = registry.after_all(earlier);
        lemma_names_after_all(registry, earlier, user, layer_name);
        lemma_layers_with_layer(before, call.caller, call.layer_name, call.ipfs_link, user);
        if asked_for(calls, user, layer_name) {
            let i: int = choose|i: int|
                0 <= i < calls.len() && (#[trigger] calls[i]).caller == user && calls[i].layer_name
                    == layer_name;
            if i < earlier.len() {
                assert(earlier[i] == calls[i]);
            }
        }
        let listed = before.layers(user);
        if before.has_layer(user, layer_name) {
            let i: int = choose|i: int| 0 <= i < listed.len() && listed[i] == layer_name;
            assert(listed.push(call.layer_name)[i] == layer_name);
        }
        if call.caller == user && !before.has_layer(user, call.layer_name) {
            assert(listed.push(call.layer_name)[listed.len() as int] == call.layer_name);
        }
    }
}

/// A name that its owner never asked for does not resolve: in a registry that
/// began empty, looking up a user and name that no request named fails with
/// `LayerNotFound`.
pub proof fn law_unknown_layer_is_not_found(
    calls: Seq<Creation>,
    user: AccountId,
    layer_name: Seq<char>,
)
    requires
        !asked_for(calls, user, layer_name),
    ensures
        Registry::empty().after_all(calls).resolve_link(user, layer_name) == Err::<
            Seq<char>,
            Error,
        >(Error::LayerNotFound),
{
    lemma_names_after_all(Registry::empty(), calls, user, layer_name);
}

/// Any run of requests keeps a consistent registry consistent, and lengthens
/// a user's list by one name for each of that user's requests that was
/// granted.
pub proof fn lemma_after_all(registry: Registry, calls: Seq<Creation>, user: AccountId)
    requires
        registry.wf(),
    ensures
        registry.after_all(calls).wf(),
        registry.after_all(calls).layers(user).len() == registry.layers(user).len()
            + registry.accepted(calls, user),
    decreases calls.len(),
{
    if calls.len() > 0 {
        let call = calls.last();
        let before = registry.after_all(calls.drop_last());
        lemma_after_all(registry, calls.drop_last(), user);
        law_creation_keeps_consistency(before, call.caller, call.layer_name, call.ipfs_link);
        lemma_layers_with_layer(before, call.caller, call.layer_name, call.ipfs_link, user);
    }
}

/// The first request for a name decides its link: in a registry that began
/// empty, a name resolves to the link of the earliest request that its owner
/// made for it, whatever was asked afterwards.
pub proof fn law_first_request_wins(calls: Seq<Creation>, first: int)
    requires
        0 <= first < calls.len(),
        forall|j: int|
            0 <= j < first ==> !((#[trigger] calls[j]).caller == calls[first].caller
                && calls[j].layer_name == calls[first].layer_name),
    ensures
        Registry::empty().after_all(calls).resolve_link(
            calls[first].caller,
            calls[first].layer_name,
        ) == Ok::<Seq<char>, Error>(calls[first].ipfs_link),
    decreases calls.len(),
{
    let request = calls[first];
    let last = calls.last();
    let earlier = calls.drop_last();
    let before = Registry::empty().after_all(earlier);
    if first == calls.len() - 1 {
        lemma_names_after_all(Registry::empty(), earlier, request.caller, request.layer_name);
        law_created_layer_resolves(before, request.caller, request.layer_name, request.ipfs_link);
    } else {
        assert(earlier[first] == request);
        assert forall|j: int| 0 <= j < first implies !((#[trigger] earlier[j]).caller
            == earlier[first].caller && earlier[j].layer_name == earlier[first].layer_name) by {
            assert(earlier[j] == calls[j]);
        }
        law_first_request_wins(earlier, first);
        law_bindings_never_change(
            before,
            last.caller,
            last.layer_name,
            last.ipfs_link,
            request.caller,
            request.layer_name,
        );
    }
}

/// In a registry that began empty, after any run of requests, some granted
/// and some refused as duplicates: the registry is consistent; a user's list
/// has as many names as that user's requests were granted, which is the
/// number of distinct names that user asked for; the names on it are those
/// names, each once; and every name on it resolves to the link that the link
/// table holds for it.
pub proof fn law_list_counts_granted_requests(calls: Seq<Creation>, user: AccountId)
    ensures
        ({
            let registry = Registry::empty().after_all(calls);
            &&& registry.wf()
            &&& registry.layers(user).len() == Registry::empty().accepted(calls, user)
            &&& registry.layers(user).len() == names_asked_for(calls, user).len()
            &&& registry.layers(user).no_duplicates()
            &&& registry.layers(user).to_set() == names_asked_for(calls, user)
            &&& forall|layer_name: Seq<char>| #[trigger]
                registry.has_layer(user, layer_name) ==> registry.layer_links.dom().contains(
                    (user, layer_name),
                ) && registry.resolve_link(user, layer_name) == Ok::<Seq<char>, Error>(
                    registry.layer_links[(user, layer_name)],
                )
        }),
{
    let registry = Registry::empty().after_all(calls);
    lemma_after_all(Registry::empty(), calls, user);
    assert forall|layer_name: Seq<char>|
        registry.layers(user).to_set().contains(layer_name) <==> names_asked_for(
            calls,
            user,
        ).contains(layer_name) by {
        lemma_names_after_all(Registry::empty(), calls, user, layer_name);
    }
    assert(registry.layers(user).to_set() =~= names_asked_for(calls, user));
    registry.layers(user).unique_seq_to_set();
}

} // verus!
