use rexie::{
    Catalog, Direction, Error, HostError, Index, KeyPath, ObjectStore, Rexie, RexieBuilder,
    SchemaChange, Transaction, TransactionMode, TransactionResult, TransactionState,
};

fn employees() -> ObjectStore {
    ObjectStore::new("employees")
        .key_path("id")
        .auto_increment(true)
        .add_index(Index::new("email", "email").unique(true))
}

fn builder() -> RexieBuilder {
    Rexie::builder("test")
        .version(1)
        .add_object_store(employees())
        .add_object_store(ObjectStore::new("departments").auto_increment(true))
        .add_object_store(
            ObjectStore::new("invoices")
                .key_path_array(&["id", "year"])
                .add_index(Index::new_array("agent_customer", &["agent", "customer"])),
        )
}

fn database() -> Rexie {
    let builder = builder();
    let mut catalog = Catalog::new();
    builder.upgrade(&mut catalog);
    builder.build(Ok((1, catalog))).unwrap()
}

fn read_write() -> Transaction {
    database().transaction(&["employees"], TransactionMode::ReadWrite).unwrap()
}

#[test]
fn builder_keeps_name_version_and_stores() {
    let builder = builder();
    assert_eq!(builder.name(), "test");
    assert_eq!(builder.requested_version(), Some(1));
    assert_eq!(builder.object_stores().len(), 3);
    assert_eq!(builder.object_stores()[0], employees());

    let plain = RexieBuilder::new("plain");
    assert_eq!(plain.name(), "plain");
    assert_eq!(plain.requested_version(), None);
    assert!(plain.object_stores().is_empty());
}

#[test]
fn builder_replaces_an_earlier_declaration_of_the_same_name() {
    let builder = Rexie::builder("test")
        .add_object_store(ObjectStore::new("a").key_path("old"))
        .add_object_store(ObjectStore::new("b"))
        .add_object_store(ObjectStore::new("a").key_path("new"));
    assert_eq!(
        builder.object_stores(),
        &vec![ObjectStore::new("a").key_path("new"), ObjectStore::new("b")]
    );
}

#[test]
fn upgrade_plans_the_declared_schema() {
    let builder = builder();
    let mut catalog = Catalog::new();
    let changes = builder.upgrade(&mut catalog);
    assert_eq!(changes.len(), 5);
    assert_eq!(
        changes[0],
        SchemaChange::CreateStore {
            name: "employees".to_string(),
            key_path: Some(KeyPath::new_str("id")),
            auto_increment: true,
        }
    );
    assert_eq!(catalog.store_names(), vec!["employees", "departments", "invoices"]);
    assert_eq!(builder.upgrade(&mut catalog), vec![]);
}

#[test]
fn opened_database_reports_name_version_and_stores() {
    let rexie = database();
    assert_eq!(rexie.name(), "test");
    assert_eq!(rexie.version(), 1);
    assert_eq!(rexie.store_names(), vec!["employees", "departments", "invoices"]);
    assert_eq!(rexie.catalog().len(), 3);
}

#[test]
fn failed_open_is_reported_as_such() {
    let failure = builder().build(Err(HostError::new("VersionError", "version is lower")));
    assert_eq!(
        failure.unwrap_err(),
        Error::IndexedDbOpenFailed(HostError::new("VersionError", "version is lower"))
    );
}

#[test]
fn delete_reports_what_the_host_answered() {
    assert_eq!(RexieBuilder::new("test").delete(Ok(())), Ok(()));
    assert_eq!(
        RexieBuilder::new("test").delete(Err(HostError::new("UnknownError", "blocked"))),
        Err(Error::IndexedDbDeleteFailed(HostError::new("UnknownError", "blocked")))
    );
}

#[test]
fn factory_lookup_tells_missing_from_refused() {
    assert_eq!(RexieBuilder::factory(Ok(Some(5))), Ok(5));
    assert_eq!(RexieBuilder::factory(Ok(None::<u8>)), Err(Error::IndexedDbNotFound));
    assert_eq!(
        RexieBuilder::factory::<u8>(Err(HostError::new("SecurityError", "denied"))),
        Err(Error::IndexedDbNotSupported(HostError::new("SecurityError", "denied")))
    );
}

#[test]
fn transaction_is_active_over_the_named_stores() {
    let rexie = database();
    let transaction = rexie.transaction(&["employees"], TransactionMode::ReadOnly).unwrap();
    assert_eq!(transaction.mode(), TransactionMode::ReadOnly);
    assert_eq!(transaction.state(), TransactionState::Active);
    assert_eq!(transaction.store_names(), vec!["employees"]);

    let both = rexie
        .transaction(&["invoices", "employees", "invoices"], TransactionMode::ReadWrite)
        .unwrap();
    assert_eq!(both.mode(), TransactionMode::ReadWrite);
    assert_eq!(both.store_names(), vec!["invoices", "employees"]);
}

#[test]
fn transaction_needs_a_store_and_a_mode_of_its_own() {
    let rexie = database();
    let none: [&str; 0] = [];
    assert_eq!(
        rexie.transaction(&none, TransactionMode::ReadOnly).unwrap_err(),
        Error::TransactionOpenFailed
    );
    assert_eq!(
        rexie.transaction(&["employees"], TransactionMode::VersionChange).unwrap_err(),
        Error::TransactionOpenFailed
    );
}

#[test]
fn transaction_over_an_unknown_store_is_refused() {
    let rexie = database();
    assert_eq!(
        rexie
            .transaction(&["employees", "salaries", "bonuses"], TransactionMode::ReadOnly)
            .unwrap_err(),
        Error::ObjectStoreNotFound("salaries".to_string())
    );
}

#[test]
fn store_accessor_describes_the_store() {
    let transaction = read_write();
    let employees = transaction.store("employees").unwrap();
    assert_eq!(employees.name(), "employees");
    assert!(employees.auto_increment());
    assert_eq!(employees.key_path(), Some(KeyPath::new_str("id")));
    assert_eq!(employees.index_names(), vec!["email"]);

    let email = employees.index("email").unwrap();
    assert_eq!(email.name(), "email");
    assert!(email.unique());
    assert!(!email.multi_entry());
    assert_eq!(
        employees.index("phone").unwrap_err(),
        Error::IndexNotFound("phone".to_string())
    );
}

#[test]
fn store_outside_the_scope_is_not_found() {
    let transaction = read_write();
    assert_eq!(
        transaction.store("invoices").unwrap_err(),
        Error::ObjectStoreNotFound("invoices".to_string())
    );
}

#[test]
fn accessors_start_scans() {
    let transaction = read_write();
    let employees = transaction.store("employees").unwrap();
    let cursor = employees.scan(Some(3), Some(2), Some(Direction::Prev));
    assert_eq!(cursor.direction(), Direction::Prev);
    assert_eq!(cursor.remaining(), Some(3));
    assert_eq!(cursor.pending_offset(), 2);
    let cursor = employees.index("email").unwrap().scan(None, None, None);
    assert_eq!(cursor.direction(), Direction::Next);
    assert_eq!(cursor.remaining(), None);
    assert_eq!(cursor.pending_offset(), 0);
}

#[test]
fn commit_succeeds_when_the_host_confirms_it() {
    let mut transaction = read_write();
    assert_eq!(transaction.commit(), Ok(()));
    assert_eq!(transaction.state(), TransactionState::Committing);
    assert_eq!(transaction.done(Ok(TransactionResult::Committed)), Ok(TransactionResult::Committed));
    assert_eq!(transaction.state(), TransactionState::Committed);
}

#[test]
fn commit_fails_unless_the_host_says_committed() {
    let mut transaction = read_write();
    assert_eq!(transaction.commit(), Ok(()));
    assert_eq!(
        transaction.done(Ok(TransactionResult::Aborted)),
        Err(Error::TransactionCommitFailed)
    );
    assert_eq!(transaction.state(), TransactionState::Errored);
}

#[test]
fn abort_succeeds_when_the_host_confirms_it() {
    let mut transaction = read_write();
    assert_eq!(transaction.abort(), Ok(()));
    assert_eq!(transaction.state(), TransactionState::Aborting);
    assert_eq!(transaction.done(Ok(TransactionResult::Aborted)), Ok(TransactionResult::Aborted));
    assert_eq!(transaction.state(), TransactionState::Aborted);
}

#[test]
fn abort_fails_unless_the_host_says_aborted() {
    let mut transaction = read_write();
    assert_eq!(transaction.abort(), Ok(()));
    assert_eq!(
        transaction.done(Ok(TransactionResult::Committed)),
        Err(Error::TransactionAbortFailed)
    );
    assert_eq!(transaction.state(), TransactionState::Errored);
}

#[test]
fn transaction_left_alone_ends_as_the_host_says() {
    let mut transaction = read_write();
    assert_eq!(transaction.done(Ok(TransactionResult::Committed)), Ok(TransactionResult::Committed));
    assert_eq!(transaction.state(), TransactionState::Committed);

    let mut transaction = read_write();
    assert_eq!(transaction.done(Ok(TransactionResult::Aborted)), Ok(TransactionResult::Aborted));
    assert_eq!(transaction.state(), TransactionState::Aborted);
}

#[test]
fn failure_of_the_host_ends_the_transaction_in_error() {
    let failure = || Error::RequestFailed(HostError::new("QuotaExceededError", "disk full"));
    let mut transaction = read_write();
    assert_eq!(transaction.commit(), Ok(()));
    assert_eq!(transaction.done(Err(failure())), Err(failure()));
    assert_eq!(transaction.state(), TransactionState::Errored);

    let mut transaction = read_write();
    assert_eq!(transaction.done(Err(Error::AsyncChannelError)), Err(Error::AsyncChannelError));
    assert_eq!(transaction.state(), TransactionState::Errored);
}

#[test]
fn unhandled_failure_of_an_operation_ends_in_error() {
    let mut transaction = read_write();
    transaction.fail();
    assert_eq!(transaction.state(), TransactionState::Erroring);
    assert_eq!(transaction.commit(), Err(Error::TransactionInactive));
    assert_eq!(transaction.done(Ok(TransactionResult::Aborted)), Ok(TransactionResult::Aborted));
    assert_eq!(transaction.state(), TransactionState::Errored);
}

#[test]
fn transaction_that_is_over_takes_nothing_more() {
    let mut transaction = read_write();
    assert_eq!(transaction.commit(), Ok(()));
    assert_eq!(transaction.commit(), Err(Error::TransactionInactive));
    assert_eq!(transaction.abort(), Err(Error::TransactionInactive));
    assert_eq!(transaction.store("employees").unwrap_err(), Error::TransactionInactive);
    assert_eq!(transaction.state(), TransactionState::Committing);
    assert_eq!(transaction.done(Ok(TransactionResult::Committed)), Ok(TransactionResult::Committed));

    assert_eq!(transaction.commit(), Err(Error::TransactionInactive));
    assert_eq!(transaction.abort(), Err(Error::TransactionInactive));
    transaction.fail();
    assert_eq!(transaction.store("employees").unwrap_err(), Error::TransactionInactive);
    assert_eq!(
        transaction.done(Ok(TransactionResult::Committed)),
        Err(Error::TransactionInactive)
    );
    assert_eq!(transaction.state(), TransactionState::Committed);
    assert_eq!(transaction.store_names(), vec!["employees"]);
    assert_eq!(transaction.mode(), TransactionMode::ReadWrite);
}

#[test]
fn transaction_can_be_opened_over_given_stores() {
    let transaction = Transaction::new(TransactionMode::VersionChange, vec![employees()]);
    assert_eq!(transaction.mode(), TransactionMode::VersionChange);
    assert_eq!(transaction.state(), TransactionState::Active);
    assert_eq!(transaction.store("employees").unwrap().name(), "employees");
}

#[test]
fn builder_can_be_copied() {
    let builder = builder();
    let copy = builder.clone();
    assert_eq!(copy.name(), builder.name());
    assert_eq!(copy.requested_version(), builder.requested_version());
    assert_eq!(copy.object_stores(), builder.object_stores());
}
