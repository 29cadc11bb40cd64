use vstd::prelude::*;

use crate::error::{Error, HostError};
use crate::object_store::{
    cloned_stores, store_names, store_views, ObjectStore, ObjectStoreView,
};
use crate::rexie::{Rexie, RexieView};
use crate::schema::{
    change_views, distinct_store_names, position_of_store, reconciliation,
    Catalog, SchemaChange,
};
use crate::schema_effects::performed_all;
use crate::schema_laws::{lemma_reconciliation_agrees, reconciled};

verus! {

/// What is asked of the host when a database is opened: its name, the version
/// wanted, and the stores that it is to have from that version on.
#[derive(Debug)]
pub struct RexieBuilder {
    name: String,
    version: Option<u32>,
    object_stores: Vec<ObjectStore>,
}

/// A builder as contracts see it.
pub struct RexieBuilderView {
    pub name: Seq<char>,
    pub version: Option<u32>,
    pub object_stores: Seq<ObjectStoreView>,
}

impl View for RexieBuilder {
    type V = RexieBuilderView;

    closed spec fn view(&self) -> RexieBuilderView {
        RexieBuilderView {
            name: self.name@,
            version: self.version,
            object_stores: store_views(self.object_stores@),
        }
    }
}

/// The declared stores after one more declaration: it takes the place of an earlier
/// one of the same name, or else comes last.
pub open spec fn declared(stores: Seq<ObjectStoreView>, store: ObjectStoreView) -> Seq<
    ObjectStoreView,
> {
    if store_names(stores).contains(store.name) {
        stores.update(store_names(stores).index_of(store.name), store)
    } else {
        stores.push(store)
    }
}

impl RexieBuilder {
    /// No two declared stores share a name. Every builder that this library hands
    /// out is well-formed.
    pub open spec fn well_formed(&self) -> bool {
        distinct_store_names(self@.object_stores)
    }

    /// A builder for the database of that name, with no version and no store.
    pub fn new(name: &str) -> (builder: RexieBuilder)
        ensures
            builder.well_formed(),
            builder@ == (RexieBuilderView {
                name: name@,
                version: None,
                object_stores: Seq::empty(),
            }),
    {
        let builder = RexieBuilder {
            name: name.to_owned(),
            version: None,
            object_stores: Vec::new(),
        };
        assert(builder@.object_stores =~= Seq::empty());
        builder
    }

    /// Asks for this version of the database.
    pub fn version(self, version: u32) -> (builder: RexieBuilder)
        requires
            self.well_formed(),
        ensures
            builder.well_formed(),
            builder@ == (RexieBuilderView { version: Some(version), ..self@ }),
    {
        let mut builder = self;
        builder.version = Some(version);
        builder
    }

    /// Declares an object store. A declaration of the same name that came before is
    /// replaced where it stands.
    pub fn add_object_store(self, object_store: ObjectStore) -> (builder: RexieBuilder)
        requires
            self.well_formed(),
        ensures
            builder.well_formed(),
            builder@ == (RexieBuilderView {
                object_stores: declared(self@.object_stores, object_store@),
                ..self@
            }),
    {
        let mut builder = self;
        let ghost before = builder@.object_stores;
        let ghost added = object_store@;
        match position_of_store(&builder.object_stores, &object_store.name) {
            Some(at) => {
                proof {
                    let chosen = store_names(before).index_of(added.name);
                    assert(store_names(before)[chosen] == before[chosen].name);
                    assert(before[at as int].name == added.name);
                    assert(chosen == at);
                }
                builder.object_stores[at] = object_store;
                assert(builder@.object_stores =~= before.update(at as int, added));
            },
            None => {
                builder.object_stores.push(object_store);
                assert(builder@.object_stores =~= before.push(added));
                assert forall|i: int, j: int|
                    0 <= i < j < builder@.object_stores.len() implies (
                #[trigger] builder@.object_stores[i]).name != (
                #[trigger] builder@.object_stores[j]).name by {
                    if j == before.len() {
                        assert(store_names(before)[i] == before[i].name);
                    } else {
                        assert(before[i].name != before[j].name);
                    }
                }
            },
        }
        builder
    }

    /// The name of the database to open.
    pub fn name(&self) -> (name: String)
        ensures
            name@ == self@.name,
    {
        self.name.clone()
    }

    /// The version to open, `None` for the one that the host has.
    pub fn requested_version(&self) -> (version: Option<u32>)
        ensures
            version == self@.version,
    {
        self.version
    }

    /// The declared stores, in order.
    pub fn object_stores(&self) -> (stores: &Vec<ObjectStore>)
        ensures
            store_views(stores@) == self@.object_stores,
    {
        &self.object_stores
    }

    /// The upgrade step. The host announces that the stored version is lower than
    /// the requested one, or that the database is new; `catalog` is what it has. The
    /// catalog is brought to the declared stores, and the result is the changes that
    /// the host has to perform inside the upgrade transaction, in order.
    pub fn upgrade(&self, catalog: &mut Catalog) -> (changes: Vec<SchemaChange>)
        requires
            self.well_formed(),
            old(catalog).well_formed(),
        ensures
            final(catalog).well_formed(),
            (change_views(changes@), final(catalog)@) == reconciliation(
                old(catalog)@,
                self@.object_stores,
            ),
            reconciled(final(catalog)@, self@.object_stores),
            final(catalog)@ == performed_all(old(catalog)@, change_views(changes@)),
    {
        proof {
            lemma_reconciliation_agrees(catalog@, self@.object_stores);
        }
        catalog.reconcile(&self.object_stores)
    }

    /// Reads the host's answer to the question for its database factory.
    pub fn factory<F>(lookup: Result<Option<F>, HostError>) -> (found: Result<F, Error>)
        ensures
            found == match lookup {
                Ok(Some(factory)) => Ok::<F, Error>(factory),
                Ok(None) => Err::<F, Error>(Error::IndexedDbNotFound),
                Err(report) => Err::<F, Error>(Error::IndexedDbNotSupported(report)),
            },
    {
        match lookup {
            Ok(Some(factory)) => Ok(factory),
            Ok(None) => Err(Error::IndexedDbNotFound),
            Err(report) => Err(Error::IndexedDbNotSupported(report)),
        }
    }

    /// Ends the opening. `opened` is the host's answer to the open request: the
    /// version and the catalog of the database that it opened, or its report of a
    /// failure, which an upgrade that failed ends in too.
    pub fn build(self, opened: Result<(u32, Catalog), HostError>) -> (database: Result<
        Rexie,
        Error,
    >)
        requires
            opened matches Ok(answer) ==> answer.1.well_formed(),
        ensures
            match opened {
                Ok(answer) => database matches Ok(rexie) && rexie.well_formed() && rexie@ == (
                RexieView { name: self@.name, version: answer.0, catalog: answer.1@ }),
                Err(report) => database == Err::<Rexie, Error>(Error::IndexedDbOpenFailed(report)),
            },
    {
        match opened {
            Ok((version, catalog)) => Ok(Rexie::new(self.name, version, catalog)),
            Err(report) => Err(Error::IndexedDbOpenFailed(report)),
        }
    }

    /// Ends the deletion of the database. `deleted` is the host's answer to the
    /// delete request.
    pub fn delete(self, deleted: Result<(), HostError>) -> (done: Result<(), Error>)
        ensures
            done == match deleted {
                Ok(()) => Ok::<(), Error>(()),
                Err(report) => Err::<(), Error>(Error::IndexedDbDeleteFailed(report)),
            },
    {
        match deleted {
            Ok(()) => Ok(()),
            Err(report) => Err(Error::IndexedDbDeleteFailed(report)),
        }
    }
}

impl Clone for RexieBuilder {
    fn clone(&self) -> (copy: RexieBuilder)
        ensures
            copy@ == self@,
    {
        RexieBuilder {
            name: self.name.clone(),
            version: self.version,
            object_stores: cloned_stores(&self.object_stores),
        }
    }
}

} // verus!
