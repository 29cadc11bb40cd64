use vstd::prelude::*;

use crate::error::Error;
use crate::object_store::{store_names, store_views, ObjectStore, ObjectStoreView};
use crate::rexie_builder::{RexieBuilder, RexieBuilderView};
use crate::schema::{catalog_well_formed, position_of_store, Catalog};
use crate::transaction::{Transaction, TransactionMode, TransactionState, TransactionView};

verus! {

/// An open database: its name, its version and its catalog of object stores.
#[derive(Debug)]
pub struct Rexie {
    name: String,
    version: u32,
    catalog: Catalog,
}

/// A database as contracts see it.
pub struct RexieView {
    pub name: Seq<char>,
    pub version: u32,
    pub catalog: Seq<ObjectStoreView>,
}

impl View for Rexie {
    type V = RexieView;

    closed spec fn view(&self) -> RexieView {
        RexieView { name: self.name@, version: self.version, catalog: self.catalog@ }
    }
}

/// The stores that a transaction over `names` has in scope: for each name, in the
/// order given and once only, the store that the catalog has under it.
pub open spec fn scope(catalog: Seq<ObjectStoreView>, names: Seq<Seq<char>>) -> Seq<
    ObjectStoreView,
>
    decreases names.len(),
{
    if names.len() == 0 {
        Seq::empty()
    } else {
        let before = scope(catalog, names.drop_last());
        let name = names.last();
        if store_names(before).contains(name) || !store_names(catalog).contains(name) {
            before
        } else {
            before.push(catalog[store_names(catalog).index_of(name)])
        }
    }
}

/// The first of the names that the catalog has no store for, if there is one.
pub open spec fn first_missing(catalog: Seq<ObjectStoreView>, names: Seq<Seq<char>>) -> Option<
    Seq<char>,
>
    decreases names.len(),
{
    if names.len() == 0 {
        None
    } else {
        match first_missing(catalog, names.drop_last()) {
            Some(name) => Some(name),
            None => if store_names(catalog).contains(names.last()) {
                None
            } else {
                Some(names.last())
            },
        }
    }
}

impl Rexie {
    /// The catalog has unique store names and unique index names within each store.
    /// Every database that this library hands out is well-formed.
    pub open spec fn well_formed(&self) -> bool {
        catalog_well_formed(self@.catalog)
    }

    /// A builder for the database of that name.
    pub fn builder(name: &str) -> (builder: RexieBuilder)
        ensures
            builder.well_formed(),
            builder@ == (RexieBuilderView { name: name@, version: None, object_stores: Seq::empty() }),
    {
        RexieBuilder::new(name)
    }

    /// The database that the host opened, as it described it.
    pub fn new(name: String, version: u32, catalog: Catalog) -> (rexie: Rexie)
        requires
            catalog.well_formed(),
        ensures
            rexie.well_formed(),
            rexie@ == (RexieView { name: name@, version, catalog: catalog@ }),
    {
        Rexie { name, version, catalog }
    }

    /// The name of the database.
    pub fn name(&self) -> (name: String)
        ensures
            name@ == self@.name,
    {
        self.name.clone()
    }

    /// The version of the database.
    pub fn version(&self) -> (version: u32)
        ensures
            version == self@.version,
    {
        self.version
    }

    /// The names of the stores of the database, in the order of its catalog.
    pub fn store_names(&self) -> (names: Vec<String>)
        ensures
            names@.map_values(|name: String| name@) == store_names(self@.catalog),
    {
        self.catalog.store_names()
    }

    /// The catalog of the database.
    pub fn catalog(&self) -> (catalog: &Catalog)
        ensures
            catalog@ == self@.catalog,
            catalog.well_formed() == self.well_formed(),
    {
        &self.catalog
    }

    /// Opens a transaction over the named stores. The scope is fixed here: no store
    /// can be added later.
    ///
    /// A transaction needs at least one store, and only the host opens one that
    /// changes the version. Every name must be that of a store of the database.
    pub fn transaction(&self, store_names: &[&str], mode: TransactionMode) -> (opened: Result<
        Transaction,
        Error,
    >)
        requires
            self.well_formed(),
        ensures
            match opened {
                Ok(transaction) => {
                    &&& store_names@.len() > 0
                    &&& mode != TransactionMode::VersionChange
                    &&& first_missing(self@.catalog, store_names@.map_values(|name: &str| name@))
                        is None
                    &&& transaction@ == (TransactionView {
                        mode,
                        stores: scope(self@.catalog, store_names@.map_values(|name: &str| name@)),
                        state: TransactionState::Active,
                    })
                },
                Err(Error::TransactionOpenFailed) => store_names@.len() == 0 || mode
                    == TransactionMode::VersionChange,
                Err(Error::ObjectStoreNotFound(name)) => {
                    &&& store_names@.len() > 0
                    &&& mode != TransactionMode::VersionChange
                    &&& first_missing(self@.catalog, store_names@.map_values(|name: &str| name@))
                        == Some(name@)
                },
                Err(_) => false,
            },
    {
        if store_names.len() == 0 || mode == TransactionMode::VersionChange {
            return Err(Error::TransactionOpenFailed);
        }
        let ghost catalog = self@.catalog;
        let ghost names = store_names@.map_values(|name: &str| name@);
        let mut stores: Vec<ObjectStore> = Vec::new();
        let mut i: usize = 0;
        assert(names.take(0) =~= Seq::empty());
        assert(store_views(stores@) =~= Seq::empty());
        while i < store_names.len()
            invariant
                i <= store_names.len(),
                store_names@.len() > 0,
                mode != TransactionMode::VersionChange,
                catalog == self@.catalog,
                catalog_well_formed(catalog),
                names == store_names@.map_values(|name: &str| name@),
                first_missing(catalog, names.take(i as int)) is None,
                store_views(stores@) == scope(catalog, names.take(i as int)),
            decreases store_names.len() - i,
        {
            let ghost before = store_views(stores@);
            proof {
                assert(names.take(i + 1).drop_last() =~= names.take(i as int));
                assert(names.take(i + 1).last() == names[i as int]);
            }
            let name = store_names[i].to_owned();
            match self.catalog.store(&name) {
                None => {
                    proof {
                        assert(first_missing(catalog, names.take(i + 1)) == Some(names[i as int]));
                        lemma_first_missing_extends(catalog, names, i + 1);
                    }
                    return Err(Error::ObjectStoreNotFound(name));
                },
                Some(store) => {
                    if position_of_store(&stores, &name).is_none() {
                        proof {
                            let found = choose|at: int|
                                0 <= at < catalog.len() && catalog[at] == store@;
                            let chosen = crate::object_store::store_names(catalog).index_of(name@);
                            assert(crate::object_store::store_names(catalog)[chosen] == catalog[chosen].name);
                            assert(found == chosen);
                        }
                        stores.push(store.clone());
                        assert(store_views(stores@) =~= before.push(store@));
                    }
                },
            }
            i += 1;
        }
        assert(names.take(store_names.len() as int) =~= names);
        Ok(Transaction::new(mode, stores))
    }
}

/// A name that is missing among the first `upto` names is the first missing name of
/// them all.
pub proof fn lemma_first_missing_extends(
    catalog: Seq<ObjectStoreView>,
    names: Seq<Seq<char>>,
    upto: int,
)
    requires
        0 <= upto <= names.len(),
        first_missing(catalog, names.take(upto)) is Some,
    ensures
        first_missing(catalog, names) == first_missing(catalog, names.take(upto)),
    decreases names.len() - upto,
{
    if upto < names.len() {
        assert(names.take(upto + 1).drop_last() =~= names.take(upto));
        lemma_first_missing_extends(catalog, names, upto + 1);
    } else {
        assert(names.take(upto) =~= names);
    }
}

} // verus!
