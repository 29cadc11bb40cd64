use rexie::{Catalog, Error, HostError, Index, KeyPath, ObjectStore, SchemaChange};

fn employees() -> ObjectStore {
    ObjectStore::new("employees")
        .key_path("id")
        .auto_increment(true)
        .add_index(Index::new("email", "email").unique(true))
}

fn departments() -> ObjectStore {
    ObjectStore::new("departments").auto_increment(true)
}

fn invoices() -> ObjectStore {
    ObjectStore::new("invoices")
        .key_path_array(&["id", "year"])
        .add_index(Index::new_array("agent_customer", &["agent", "customer"]))
}

fn name(text: &str) -> String {
    text.to_string()
}

#[test]
fn descriptors_hold_what_was_declared() {
    let store = employees();
    assert_eq!(store.name, "employees");
    assert_eq!(store.key_path, Some(KeyPath::Single(name("id"))));
    assert!(store.auto_increment);
    assert_eq!(store.indexes.len(), 1);
    assert_eq!(store.indexes[0].name, "email");
    assert_eq!(store.indexes[0].key_path, KeyPath::new_str("email"));
    assert!(store.indexes[0].unique);
    assert!(!store.indexes[0].multi_entry);

    let plain = ObjectStore::new("plain");
    assert_eq!(plain.key_path, None);
    assert!(!plain.auto_increment);
    assert!(plain.indexes.is_empty());

    let tags = Index::new("tags", "tags").multi_entry(true);
    assert!(tags.multi_entry);
    assert!(!tags.unique);

    let compound = invoices();
    assert_eq!(compound.key_path, Some(KeyPath::Array(vec![name("id"), name("year")])));
    assert_eq!(
        compound.indexes[0].key_path,
        KeyPath::new_array(&["agent", "customer"])
    );
    assert_eq!(compound.clone(), compound);
    assert_eq!(KeyPath::new_array(&[]), KeyPath::Array(vec![]));
}

#[test]
fn new_database_gets_its_declared_stores_and_indexes() {
    let mut catalog = Catalog::new();
    let changes = catalog.reconcile(&vec![employees()]);
    assert_eq!(
        changes,
        vec![
            SchemaChange::CreateStore {
                name: name("employees"),
                key_path: Some(KeyPath::new_str("id")),
                auto_increment: true,
            },
            SchemaChange::CreateIndex {
                store: name("employees"),
                index: Index::new("email", "email").unique(true),
            },
        ]
    );
    assert_eq!(catalog.store_names(), vec!["employees"]);
    assert_eq!(catalog.store(&name("employees")), Some(&employees()));
    assert_eq!(catalog.len(), 1);
}

#[test]
fn reconcile_creates_stores_in_the_order_of_their_declaration() {
    let mut catalog = Catalog::new();
    let changes = catalog.reconcile(&vec![employees(), departments(), invoices()]);
    assert_eq!(changes.len(), 5);
    assert_eq!(
        changes[2],
        SchemaChange::CreateStore { name: name("departments"), key_path: None, auto_increment: true }
    );
    assert_eq!(
        changes[3],
        SchemaChange::CreateStore {
            name: name("invoices"),
            key_path: Some(KeyPath::new_array(&["id", "year"])),
            auto_increment: false,
        }
    );
    assert_eq!(
        changes[4],
        SchemaChange::CreateIndex {
            store: name("invoices"),
            index: Index::new_array("agent_customer", &["agent", "customer"]),
        }
    );
    assert_eq!(catalog.store_names(), vec!["employees", "departments", "invoices"]);
}

#[test]
fn upgrade_adds_the_new_store_and_drops_the_undeclared_one() {
    let mut catalog = Catalog::new();
    catalog.reconcile(&vec![employees(), departments()]);

    let changes = catalog.reconcile(&vec![employees(), invoices().add_index(Index::new("year", "year"))]);
    assert_eq!(
        changes,
        vec![
            SchemaChange::CreateStore {
                name: name("invoices"),
                key_path: Some(KeyPath::Array(vec![name("id"), name("year")])),
                auto_increment: false,
            },
            SchemaChange::CreateIndex {
                store: name("invoices"),
                index: Index::new_array("agent_customer", &["agent", "customer"]),
            },
            SchemaChange::CreateIndex { store: name("invoices"), index: Index::new("year", "year") },
            SchemaChange::DeleteStore { name: name("departments") },
        ]
    );
    assert_eq!(catalog.store(&name("departments")), None);
    assert_eq!(catalog.store_names(), vec!["employees", "invoices"]);
    let invoices = catalog.store(&name("invoices")).unwrap();
    assert_eq!(invoices.key_path, Some(KeyPath::new_array(&["id", "year"])));
    let employees = catalog.store(&name("employees")).unwrap();
    assert_eq!(employees.indexes.len(), 1);
    assert_eq!(employees.indexes[0].name, "email");
    assert!(employees.indexes[0].unique);
}

#[test]
fn reconcile_twice_changes_nothing_the_second_time() {
    let desired = vec![employees(), invoices()];
    let mut catalog = Catalog::new();
    catalog.reconcile(&vec![departments(), employees().add_index(Index::new("name", "name"))]);

    let first = catalog.reconcile(&desired);
    assert!(!first.is_empty());
    let names = catalog.store_names();
    let second = catalog.reconcile(&desired);
    assert_eq!(second, vec![]);
    assert_eq!(catalog.store_names(), names);
    assert_eq!(catalog.store(&name("employees")), Some(&employees()));
    assert_eq!(catalog.store(&name("invoices")), Some(&invoices()));
    assert_eq!(catalog.reconcile(&desired), vec![]);
}

#[test]
fn reconcile_drops_the_indexes_that_are_no_longer_declared() {
    let mut catalog = Catalog::new();
    catalog.reconcile(&vec![ObjectStore::new("people")
        .add_index(Index::new("email", "email"))
        .add_index(Index::new("name", "name"))
        .add_index(Index::new("age", "age"))]);

    let changes = catalog.reconcile(&vec![ObjectStore::new("people")
        .add_index(Index::new("phone", "phone"))
        .add_index(Index::new("name", "name"))]);
    assert_eq!(
        changes,
        vec![
            SchemaChange::CreateIndex { store: name("people"), index: Index::new("phone", "phone") },
            SchemaChange::DeleteIndex { store: name("people"), name: name("email") },
            SchemaChange::DeleteIndex { store: name("people"), name: name("age") },
        ]
    );
    let people = catalog.store(&name("people")).unwrap();
    assert_eq!(people.indexes, vec![Index::new("name", "name"), Index::new("phone", "phone")]);
}

#[test]
fn reconcile_compares_names_only() {
    let mut catalog = Catalog::new();
    catalog.reconcile(&vec![employees()]);

    let changed = ObjectStore::new("employees")
        .key_path("number")
        .auto_increment(false)
        .add_index(Index::new("email", "address").unique(false).multi_entry(true));
    assert_eq!(catalog.reconcile(&vec![changed]), vec![]);
    assert_eq!(catalog.store(&name("employees")), Some(&employees()));
}

#[test]
fn reconcile_with_no_declaration_drops_every_store() {
    let mut catalog = Catalog::new();
    catalog.reconcile(&vec![employees(), departments()]);
    assert_eq!(
        catalog.reconcile(&vec![]),
        vec![
            SchemaChange::DeleteStore { name: name("employees") },
            SchemaChange::DeleteStore { name: name("departments") },
        ]
    );
    assert_eq!(catalog.len(), 0);
    assert_eq!(Catalog::new().reconcile(&vec![]), vec![]);
}

#[test]
fn reconcile_creates_an_index_declared_twice_only_once() {
    let mut catalog = Catalog::new();
    let changes = catalog.reconcile(&vec![ObjectStore::new("people")
        .add_index(Index::new("email", "email"))
        .add_index(Index::new("email", "other").unique(true))]);
    assert_eq!(
        changes,
        vec![
            SchemaChange::CreateStore { name: name("people"), key_path: None, auto_increment: false },
            SchemaChange::CreateIndex { store: name("people"), index: Index::new("email", "email") },
        ]
    );
    assert_eq!(catalog.store(&name("people")).unwrap().indexes, vec![Index::new("email", "email")]);
}

#[test]
fn catalog_takes_the_stores_that_the_host_reports() {
    let mut catalog = Catalog::new();
    assert!(catalog.insert(employees()));
    assert!(catalog.insert(departments()));
    assert!(!catalog.insert(ObjectStore::new("employees")));
    let twice = ObjectStore::new("twice")
        .add_index(Index::new("a", "a"))
        .add_index(Index::new("b", "b"))
        .add_index(Index::new("a", "c"));
    assert!(!catalog.insert(twice));
    assert_eq!(catalog.store_names(), vec!["employees", "departments"]);
    assert_eq!(catalog.store(&name("employees")), Some(&employees()));
    assert_eq!(catalog.store(&name("twice")), None);

    let changes = catalog.reconcile(&vec![employees(), invoices()]);
    assert_eq!(changes.len(), 3);
    assert_eq!(changes[2], SchemaChange::DeleteStore { name: name("departments") });
}

#[test]
fn failed_change_is_reported_by_its_kind() {
    let report = || HostError::new("ConstraintError", "exists");
    let create_store =
        SchemaChange::CreateStore { name: name("a"), key_path: None, auto_increment: false };
    let create_index = SchemaChange::CreateIndex { store: name("a"), index: Index::new("i", "i") };
    let delete_index = SchemaChange::DeleteIndex { store: name("a"), name: name("i") };
    let delete_store = SchemaChange::DeleteStore { name: name("a") };
    assert_eq!(create_store.failed(report()), Error::ObjectStoreCreationFailed(report()));
    assert_eq!(create_index.failed(report()), Error::IndexCreationFailed(report()));
    assert_eq!(delete_index.failed(report()), Error::IndexDeletionFailed(report()));
    assert_eq!(delete_store.failed(report()), Error::ObjectStoreDeletionFailed(report()));
}

/// Plays the host: performs one change on the stores that it has.
fn perform(stores: &mut Vec<ObjectStore>, change: &SchemaChange) {
    match change {
        SchemaChange::CreateStore { name, key_path, auto_increment } => stores.push(ObjectStore {
            name: name.clone(),
            key_path: key_path.clone(),
            auto_increment: *auto_increment,
            indexes: Vec::new(),
        }),
        SchemaChange::CreateIndex { store, index } => {
            let at = stores.iter().position(|candidate| &candidate.name == store).unwrap();
            assert!(stores[at].indexes.iter().all(|existing| existing.name != index.name));
            stores[at].indexes.push(index.clone());
        }
        SchemaChange::DeleteIndex { store, name } => {
            let at = stores.iter().position(|candidate| &candidate.name == store).unwrap();
            assert!(stores[at].indexes.iter().any(|existing| &existing.name == name));
            stores[at].indexes.retain(|existing| &existing.name != name);
        }
        SchemaChange::DeleteStore { name } => {
            assert!(stores.iter().any(|existing| &existing.name == name));
            stores.retain(|existing| &existing.name != name);
        }
    }
}

#[test]
fn changes_performed_in_order_give_the_reconciled_catalog() {
    let first = vec![
        employees().add_index(Index::new("name", "name")),
        departments().add_index(Index::new("floor", "floor")),
    ];
    let second = vec![
        invoices(),
        employees().add_index(Index::new("phone", "phone")),
        ObjectStore::new("rooms").add_index(Index::new("floor", "floor").multi_entry(true)),
    ];
    let mut catalog = Catalog::new();
    let mut host: Vec<ObjectStore> = Vec::new();
    for desired in [first, second, Vec::new()] {
        for change in catalog.reconcile(&desired) {
            perform(&mut host, &change);
        }
        assert_eq!(catalog.len(), host.len());
        assert_eq!(
            catalog.store_names(),
            host.iter().map(|store| store.name.clone()).collect::<Vec<String>>()
        );
        for store in &host {
            assert_eq!(catalog.store(&store.name), Some(store));
        }
        let mut declared: Vec<String> =
            desired.iter().map(|store| store.name.clone()).collect();
        let mut present = catalog.store_names();
        declared.sort();
        present.sort();
        assert_eq!(declared, present);
    }
}

#[test]
fn reconcile_follows_each_declaration_of_a_name_in_turn() {
    let twice = vec![
        ObjectStore::new("people").add_index(Index::new("email", "email")),
        ObjectStore::new("people").add_index(Index::new("phone", "phone")),
    ];
    let mut catalog = Catalog::new();
    assert_eq!(
        catalog.reconcile(&twice),
        vec![
            SchemaChange::CreateStore { name: name("people"), key_path: None, auto_increment: false },
            SchemaChange::CreateIndex { store: name("people"), index: Index::new("email", "email") },
            SchemaChange::CreateIndex { store: name("people"), index: Index::new("phone", "phone") },
            SchemaChange::DeleteIndex { store: name("people"), name: name("email") },
        ]
    );
    assert_eq!(catalog.store(&name("people")).unwrap().indexes, vec![Index::new("phone", "phone")]);
    assert_eq!(
        catalog.reconcile(&twice),
        vec![
            SchemaChange::CreateIndex { store: name("people"), index: Index::new("email", "email") },
            SchemaChange::DeleteIndex { store: name("people"), name: name("phone") },
            SchemaChange::CreateIndex { store: name("people"), index: Index::new("phone", "phone") },
            SchemaChange::DeleteIndex { store: name("people"), name: name("email") },
        ]
    );
}
