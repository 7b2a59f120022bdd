use galaxy_contract::{AccountId, Error, GalaxyContract, LayerCreated};

fn alice() -> AccountId {
    AccountId::from([0x1; 32])
}

fn bob() -> AccountId {
    AccountId::from([0x2; 32])
}

#[test]
fn test_create_layer() {
    let mut contract = GalaxyContract::new();
    let mut events = Vec::new();

    assert_eq!(
        contract.create_layer(
            alice(),
            "Layer1".to_string(),
            "ipfs://link1".to_string(),
            &mut events
        ),
        Ok(())
    );
    assert_eq!(
        contract.create_layer(
            alice(),
            "Layer1".to_string(),
            "ipfs://link2".to_string(),
            &mut events
        ),
        Err(Error::LayerAlreadyExists)
    );
}

#[test]
fn test_resolve_link() {
    let mut contract = GalaxyContract::new();
    let mut events = Vec::new();

    let caller = AccountId::from([0x1; 32]);

    assert_eq!(
        contract.resolve_link(caller, "Layer1".to_string()),
        Err(Error::LayerNotFound)
    );

    let creation_result = contract.create_layer(
        caller,
        "Layer1".to_string(),
        "ipfs://link1".to_string(),
        &mut events,
    );
    assert_eq!(creation_result, Ok(()));

    let user_layers = contract.user_layers(caller);
    println!("User layers: {:?}", user_layers);

    let link = contract.layer_link(caller.clone(), "Layer1".to_string());
    println!("Layer1 link: {:?}", link);

    let resolve_result = contract.resolve_link(caller.clone(), "Layer1".to_string());
    assert_eq!(resolve_result, Ok("ipfs://link1".to_string()));
}

#[test]
fn create_then_duplicate_then_resolve() {
    let mut contract = GalaxyContract::new();
    let mut events = Vec::new();
    let caller = alice();

    assert_eq!(
        contract.create_layer(
            caller,
            "Layer1".to_string(),
            "ipfs://link1".to_string(),
            &mut events
        ),
        Ok(())
    );
    assert_eq!(
        contract.create_layer(
            caller,
            "Layer1".to_string(),
            "ipfs://link2".to_string(),
            &mut events
        ),
        Err(Error::LayerAlreadyExists)
    );
    assert_eq!(
        contract.resolve_link(caller, "Layer1".to_string()),
        Ok("ipfs://link1".to_string())
    );
    assert_eq!(
        contract.resolve_link(caller, "Layer2".to_string()),
        Err(Error::LayerNotFound)
    );
}

#[test]
fn new_registry_holds_nothing() {
    let contract = GalaxyContract::new();
    assert_eq!(contract.user_layers(alice()), None);
    assert_eq!(contract.layer_link(alice(), "Layer1".to_string()), None);
    assert_eq!(
        contract.resolve_link(alice(), "Layer1".to_string()),
        Err(Error::LayerNotFound)
    );
}

#[test]
fn duplicate_leaves_first_link_in_place() {
    let mut contract = GalaxyContract::new();
    let mut events = Vec::new();
    let user = bob();

    assert_eq!(
        contract.create_layer(user, "base".to_string(), "ipfs://first".to_string(), &mut events),
        Ok(())
    );
    assert_eq!(
        contract.create_layer(user, "base".to_string(), "ipfs://second".to_string(), &mut events),
        Err(Error::LayerAlreadyExists)
    );
    assert_eq!(
        contract.resolve_link(user, "base".to_string()),
        Ok("ipfs://first".to_string())
    );
    assert_eq!(contract.user_layers(user), Some(vec!["base".to_string()]));
    assert_eq!(
        contract.layer_link(user, "base".to_string()),
        Some("ipfs://first".to_string())
    );
}

#[test]
fn created_layer_resolves_to_its_link() {
    let mut contract = GalaxyContract::new();
    let mut events = Vec::new();

    assert_eq!(
        contract.create_layer(
            alice(),
            "terrain".to_string(),
            "ipfs://QmTerrain".to_string(),
            &mut events
        ),
        Ok(())
    );
    assert_eq!(
        contract.resolve_link(alice(), "terrain".to_string()),
        Ok("ipfs://QmTerrain".to_string())
    );
}

#[test]
fn namespaces_are_separate() {
    let mut contract = GalaxyContract::new();
    let mut events = Vec::new();

    assert_eq!(
        contract.create_layer(alice(), "Layer1".to_string(), "ipfs://a".to_string(), &mut events),
        Ok(())
    );
    assert_eq!(
        contract.resolve_link(bob(), "Layer1".to_string()),
        Err(Error::LayerNotFound)
    );
    assert_eq!(contract.user_layers(bob()), None);

    assert_eq!(
        contract.create_layer(bob(), "Layer1".to_string(), "ipfs://b".to_string(), &mut events),
        Ok(())
    );
    assert_eq!(
        contract.resolve_link(alice(), "Layer1".to_string()),
        Ok("ipfs://a".to_string())
    );
    assert_eq!(
        contract.resolve_link(bob(), "Layer1".to_string()),
        Ok("ipfs://b".to_string())
    );
}

#[test]
fn accounts_differing_in_one_byte_are_distinct() {
    let mut contract = GalaxyContract::new();
    let mut events = Vec::new();
    let mut bytes = [0x7; 32];
    let first = AccountId::from(bytes);
    bytes[31] = 0x8;
    let second = AccountId::from(bytes);

    assert_ne!(first, second);
    assert_eq!(first, AccountId([0x7; 32]));
    assert_eq!(
        contract.create_layer(first, "n".to_string(), "l".to_string(), &mut events),
        Ok(())
    );
    assert_eq!(
        contract.resolve_link(second, "n".to_string()),
        Err(Error::LayerNotFound)
    );
    assert_eq!(
        contract.resolve_link(first, "n".to_string()),
        Ok("l".to_string())
    );
}

#[test]
fn unknown_lookups_are_not_found() {
    let mut contract = GalaxyContract::new();
    let mut events = Vec::new();

    assert_eq!(
        contract.create_layer(alice(), "Layer1".to_string(), "ipfs://a".to_string(), &mut events),
        Ok(())
    );
    assert_eq!(
        contract.resolve_link(alice(), "layer1".to_string()),
        Err(Error::LayerNotFound)
    );
    assert_eq!(
        contract.resolve_link(alice(), "Layer1 ".to_string()),
        Err(Error::LayerNotFound)
    );
    assert_eq!(
        contract.resolve_link(alice(), "".to_string()),
        Err(Error::LayerNotFound)
    );
    assert_eq!(
        contract.resolve_link(AccountId::from([0; 32]), "Layer1".to_string()),
        Err(Error::LayerNotFound)
    );
}

#[test]
fn list_counts_the_names_accepted() {
    let mut contract = GalaxyContract::new();
    let mut events = Vec::new();
    let requests = [
        (alice(), "a", "ipfs://1"),
        (alice(), "b", "ipfs://2"),
        (bob(), "a", "ipfs://3"),
        (alice(), "a", "ipfs://4"),
        (alice(), "c", "ipfs://5"),
        (bob(), "a", "ipfs://6"),
        (alice(), "b", "ipfs://7"),
    ];
    let expected = [
        Ok(()),
        Ok(()),
        Ok(()),
        Err(Error::LayerAlreadyExists),
        Ok(()),
        Err(Error::LayerAlreadyExists),
        Err(Error::LayerAlreadyExists),
    ];
    for (request, outcome) in requests.iter().zip(expected.iter()) {
        let (user, name, link) = request;
        assert_eq!(
            &contract.create_layer(*user, name.to_string(), link.to_string(), &mut events),
            outcome
        );
    }

    let alices = contract.user_layers(alice()).unwrap();
    assert_eq!(alices, vec!["a".to_string(), "b".to_string(), "c".to_string()]);
    let bobs = contract.user_layers(bob()).unwrap();
    assert_eq!(bobs, vec!["a".to_string()]);

    assert_eq!(contract.resolve_link(alice(), "a".to_string()), Ok("ipfs://1".to_string()));
    assert_eq!(contract.resolve_link(alice(), "b".to_string()), Ok("ipfs://2".to_string()));
    assert_eq!(contract.resolve_link(alice(), "c".to_string()), Ok("ipfs://5".to_string()));
    assert_eq!(contract.resolve_link(bob(), "a".to_string()), Ok("ipfs://3".to_string()));
    for name in alices {
        assert!(contract.resolve_link(alice(), name).is_ok());
    }
    assert_eq!(events.len(), 4);
}

#[test]
fn one_notice_for_each_layer_created() {
    let mut contract = GalaxyContract::new();
    let mut events: Vec<LayerCreated> = Vec::new();

    assert_eq!(
        contract.create_layer(
            alice(),
            "Layer1".to_string(),
            "ipfs://link1".to_string(),
            &mut events
        ),
        Ok(())
    );
    assert_eq!(events.len(), 1);
    assert_eq!(events[0].user, alice());
    assert_eq!(events[0].layer_name, "Layer1");
    assert_eq!(events[0].ipfs_link, "ipfs://link1");

    assert_eq!(
        contract.create_layer(
            alice(),
            "Layer1".to_string(),
            "ipfs://link2".to_string(),
            &mut events
        ),
        Err(Error::LayerAlreadyExists)
    );
    assert_eq!(events.len(), 1);

    assert_eq!(
        contract.create_layer(bob(), "Layer9".to_string(), "ipfs://link9".to_string(), &mut events),
        Ok(())
    );
    assert_eq!(events.len(), 2);
    assert_eq!(events[0].layer_name, "Layer1");
    assert_eq!(events[1].user, bob());
    assert_eq!(events[1].layer_name, "Layer9");
    assert_eq!(events[1].ipfs_link, "ipfs://link9");
}

#[test]
fn resolving_changes_nothing() {
    let mut contract = GalaxyContract::new();
    let mut events = Vec::new();

    assert_eq!(
        contract.create_layer(alice(), "a".to_string(), "ipfs://1".to_string(), &mut events),
        Ok(())
    );
    for _ in 0..3 {
        assert_eq!(
            contract.resolve_link(alice(), "a".to_string()),
            Ok("ipfs://1".to_string())
        );
        assert_eq!(
            contract.resolve_link(alice(), "b".to_string()),
            Err(Error::LayerNotFound)
        );
    }
    assert_eq!(contract.user_layers(alice()), Some(vec!["a".to_string()]));
    assert_eq!(
        contract.create_layer(alice(), "b".to_string(), "ipfs://2".to_string(), &mut events),
        Ok(())
    );
    assert_eq!(
        contract.user_layers(alice()),
        Some(vec!["a".to_string(), "b".to_string()])
    );
}

#[test]
fn links_are_not_validated_and_may_repeat() {
    let mut contract = GalaxyContract::new();
    let mut events = Vec::new();

    assert_eq!(
        contract.create_layer(alice(), "a".to_string(), "not a uri".to_string(), &mut events),
        Ok(())
    );
    assert_eq!(
        contract.create_layer(alice(), "b".to_string(), "not a uri".to_string(), &mut events),
        Ok(())
    );
    assert_eq!(
        contract.create_layer(alice(), "c".to_string(), "".to_string(), &mut events),
        Ok(())
    );
    assert_eq!(contract.resolve_link(alice(), "a".to_string()), Ok("not a uri".to_string()));
    assert_eq!(contract.resolve_link(alice(), "b".to_string()), Ok("not a uri".to_string()));
    assert_eq!(contract.resolve_link(alice(), "c".to_string()), Ok("".to_string()));
}

#[test]
fn names_match_letter_for_letter() {
    let mut contract = GalaxyContract::new();
    let mut events = Vec::new();

    assert_eq!(
        contract.create_layer(alice(), "Layer".to_string(), "ipfs://1".to_string(), &mut events),
        Ok(())
    );
    assert_eq!(
        contract.create_layer(alice(), "layer".to_string(), "ipfs://2".to_string(), &mut events),
        Ok(())
    );
    assert_eq!(
        contract.create_layer(alice(), "Layer".to_string(), "ipfs://3".to_string(), &mut events),
        Err(Error::LayerAlreadyExists)
    );
    assert_eq!(contract.resolve_link(alice(), "Layer".to_string()), Ok("ipfs://1".to_string()));
    assert_eq!(contract.resolve_link(alice(), "layer".to_string()), Ok("ipfs://2".to_string()));
}
