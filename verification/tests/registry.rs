use lamport::{ActorId, Registry, RegistryError};

#[test]
fn registry_rejects_duplicate_names() {
    let actor_a = ActorId::new(1, 0);
    let actor_b = ActorId::new(2, 0);
    let mut registry = Registry::new();

    registry.register(actor_a, "worker".into()).unwrap();
    let error = registry.register(actor_b, "worker".into()).unwrap_err();

    assert_eq!(
        error,
        RegistryError::NameTaken {
            name: "worker".into(),
            actor: actor_a,
        }
    );
}

#[test]
fn registry_unregisters_actor_names() {
    let actor = ActorId::new(3, 0);
    let mut registry = Registry::new();

    registry.register(actor, "cache".into()).unwrap();
    assert_eq!(registry.resolve("cache"), Some(actor));
    assert_eq!(registry.unregister(actor).as_deref(), Some("cache"));
    assert_eq!(registry.resolve("cache"), None);
}

#[test]
fn actor_keeps_its_first_name() {
    let actor = ActorId::new(1, 0);
    let mut registry = Registry::new();
    registry.register(actor, "first".into()).unwrap();

    assert_eq!(registry.register(actor, "first".into()), Ok(()));
    assert_eq!(
        registry.register(actor, "second".into()),
        Err(RegistryError::AlreadyRegistered { actor, name: "first".into() })
    );
    assert_eq!(registry.resolve("second"), None);
    assert_eq!(registry.resolve("first"), Some(actor));
}

#[test]
fn given_up_name_is_free_for_another_actor() {
    let first = ActorId::new(1, 0);
    let second = ActorId::new(1, 1);
    let mut registry = Registry::default();
    registry.register(first, "shared".into()).unwrap();
    assert_eq!(registry.unregister(second), None);
    assert_eq!(registry.unregister(first).as_deref(), Some("shared"));
    registry.register(second, "shared".into()).unwrap();
    assert_eq!(registry.resolve("shared"), Some(second));
}

#[test]
fn registries_with_the_same_names_are_equal() {
    let (first, second) = (ActorId::new(1, 0), ActorId::new(2, 0));
    let mut names = Registry::new();
    names.register(first, "cache".into()).unwrap();
    names.register(second, "queue".into()).unwrap();

    let mut reordered = Registry::new();
    reordered.register(second, "queue".into()).unwrap();
    reordered.register(first, "cache".into()).unwrap();
    assert!(names == reordered);

    let mut copy = names.clone();
    assert!(copy == names);
    copy.unregister(second);
    assert!(copy != names);
    copy.register(second, "other".into()).unwrap();
    assert!(copy != names);
    assert_eq!(names.resolve("queue"), Some(second));
}
