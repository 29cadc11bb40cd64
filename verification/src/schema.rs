use vstd::prelude::*;

use crate::error::{Error, HostError};
use crate::index::{index_names, index_views, Index, IndexView};
use crate::key_path::{KeyPath, KeyPathView};
use crate::schema_effects::{lemma_changes_performed, performed_all};
use crate::object_store::{
    cloned_key_path, cloned_stores, key_path_view, store_names, store_views, ObjectStore, ObjectStoreView,
};

verus! {

/// One operation on the structure of the database. It can only be performed inside
/// the upgrade transaction.
#[derive(Debug, PartialEq, Eq)]
pub enum SchemaChange {
    /// Create the store, without indexes.
    CreateStore { name: String, key_path: Option<KeyPath>, auto_increment: bool },
    /// Create the index on the store.
    CreateIndex { store: String, index: Index },
    /// Delete the index of that name from the store.
    DeleteIndex { store: String, name: String },
    /// Delete the store of that name.
    DeleteStore { name: String },
}

/// A schema change as contracts see it.
pub enum SchemaChangeView {
    CreateStore { name: Seq<char>, key_path: Option<KeyPathView>, auto_increment: bool },
    CreateIndex { store: Seq<char>, index: IndexView },
    DeleteIndex { store: Seq<char>, name: Seq<char> },
    DeleteStore { name: Seq<char> },
}

impl View for SchemaChange {
    type V = SchemaChangeView;

    open spec fn view(&self) -> SchemaChangeView {
        match self {
            SchemaChange::CreateStore { name, key_path, auto_increment } => {
                SchemaChangeView::CreateStore {
                    name: name@,
                    key_path: key_path_view(*key_path),
                    auto_increment: *auto_increment,
                }
            },
            SchemaChange::CreateIndex { store, index } => SchemaChangeView::CreateIndex {
                store: store@,
                index: index@,
            },
            SchemaChange::DeleteIndex { store, name } => SchemaChangeView::DeleteIndex {
                store: store@,
                name: name@,
            },
            SchemaChange::DeleteStore { name } => SchemaChangeView::DeleteStore { name: name@ },
        }
    }
}

impl SchemaChange {
    /// The failure to report when the host could not perform this change.
    pub fn failed(&self, report: HostError) -> (error: Error)
        ensures
            error == match self {
                SchemaChange::CreateStore { .. } => Error::ObjectStoreCreationFailed(report),
                SchemaChange::CreateIndex { .. } => Error::IndexCreationFailed(report),
                SchemaChange::DeleteIndex { .. } => Error::IndexDeletionFailed(report),
                SchemaChange::DeleteStore { .. } => Error::ObjectStoreDeletionFailed(report),
            },
    {
        match self {
            SchemaChange::CreateStore { .. } => Error::ObjectStoreCreationFailed(report),
            SchemaChange::CreateIndex { .. } => Error::IndexCreationFailed(report),
            SchemaChange::DeleteIndex { .. } => Error::IndexDeletionFailed(report),
            SchemaChange::DeleteStore { .. } => Error::ObjectStoreDeletionFailed(report),
        }
    }
}

/// The changes as contracts see them, in order.
pub open spec fn change_views(changes: Seq<SchemaChange>) -> Seq<SchemaChangeView> {
    changes.map_values(|change: SchemaChange| change@)
}

/// Holds of the indexes whose name is among `names`.
pub open spec fn index_named_in(names: Seq<Seq<char>>) -> spec_fn(IndexView) -> bool {
    |index: IndexView| names.contains(index.name)
}

/// Holds of the indexes whose name is not among `names`.
pub open spec fn index_not_named_in(names: Seq<Seq<char>>) -> spec_fn(IndexView) -> bool {
    |index: IndexView| !names.contains(index.name)
}

/// Holds of the stores whose name is among `names`.
pub open spec fn store_named_in(names: Seq<Seq<char>>) -> spec_fn(ObjectStoreView) -> bool {
    |store: ObjectStoreView| names.contains(store.name)
}

/// Holds of the stores whose name is not among `names`.
pub open spec fn store_not_named_in(names: Seq<Seq<char>>) -> spec_fn(ObjectStoreView) -> bool {
    |store: ObjectStoreView| !names.contains(store.name)
}

/// Makes the change that creates an index on `store`.
pub open spec fn create_index(store: Seq<char>) -> spec_fn(IndexView) -> SchemaChangeView {
    |index: IndexView| SchemaChangeView::CreateIndex { store, index }
}

/// Makes the change that deletes an index from `store`.
pub open spec fn delete_index(store: Seq<char>) -> spec_fn(IndexView) -> SchemaChangeView {
    |index: IndexView| SchemaChangeView::DeleteIndex { store, name: index.name }
}

/// Makes the change that deletes a store.
pub open spec fn delete_store() -> spec_fn(ObjectStoreView) -> SchemaChangeView {
    |store: ObjectStoreView| SchemaChangeView::DeleteStore { name: store.name }
}

/// The change that creates the declared store, without its indexes.
pub open spec fn create_store(desired: ObjectStoreView) -> SchemaChangeView {
    SchemaChangeView::CreateStore {
        name: desired.name,
        key_path: desired.key_path,
        auto_increment: desired.auto_increment,
    }
}

/// The existing indexes that stay: those whose name is declared, as they are.
pub open spec fn retained_indexes(existing: Seq<IndexView>, desired: Seq<IndexView>) -> Seq<
    IndexView,
> {
    existing.filter(index_named_in(index_names(desired)))
}

/// The existing indexes that go: those whose name is not declared.
pub open spec fn dropped_indexes(existing: Seq<IndexView>, desired: Seq<IndexView>) -> Seq<
    IndexView,
> {
    existing.filter(index_not_named_in(index_names(desired)))
}

/// The declared indexes that are created, in the order of their declaration: those
/// whose name the store does not have and that no earlier declaration has taken.
pub open spec fn created_indexes(existing: Seq<IndexView>, desired: Seq<IndexView>) -> Seq<
    IndexView,
>
    decreases desired.len(),
{
    if desired.len() == 0 {
        Seq::empty()
    } else {
        let before = created_indexes(existing, desired.drop_last());
        let index = desired.last();
        if index_names(existing).contains(index.name) || index_names(before).contains(
            index.name,
        ) {
            before
        } else {
            before.push(index)
        }
    }
}

/// The indexes of a store once it has been brought to its declaration: what stays,
/// then what is created.
pub open spec fn reconciled_indexes(existing: Seq<IndexView>, desired: Seq<IndexView>) -> Seq<
    IndexView,
> {
    retained_indexes(existing, desired) + created_indexes(existing, desired)
}

/// The changes that bring the indexes of `store` to their declaration: first the
/// creations, then the deletions.
pub open spec fn index_changes(
    store: Seq<char>,
    existing: Seq<IndexView>,
    desired: Seq<IndexView>,
) -> Seq<SchemaChangeView> {
    created_indexes(existing, desired).map_values(create_index(store)) + dropped_indexes(
        existing,
        desired,
    ).map_values(delete_index(store))
}

/// Brings one declared store into the catalog. The result is the changes to perform
/// and the catalog after them.
///
/// A store of that name that exists is kept with its own key path and
/// auto-increment flag; one that does not is created as declared. Only the presence
/// of names is compared: an index that exists under a declared name is left as it is.
pub open spec fn reconcile_store(catalog: Seq<ObjectStoreView>, desired: ObjectStoreView) -> (
    Seq<SchemaChangeView>,
    Seq<ObjectStoreView>,
) {
    if store_names(catalog).contains(desired.name) {
        let at = store_names(catalog).index_of(desired.name);
        let store = catalog[at];
        (
            index_changes(desired.name, store.indexes, desired.indexes),
            catalog.update(
                at,
                ObjectStoreView {
                    indexes: reconciled_indexes(store.indexes, desired.indexes),
                    ..store
                },
            ),
        )
    } else {
        (
            seq![create_store(desired)] + index_changes(
                desired.name,
                Seq::empty(),
                desired.indexes,
            ),
            catalog.push(
                ObjectStoreView {
                    indexes: reconciled_indexes(Seq::empty(), desired.indexes),
                    ..desired
                },
            ),
        )
    }
}

/// Brings the declared stores into the catalog one after the other, in the order of
/// their declaration.
pub open spec fn reconcile_stores(
    catalog: Seq<ObjectStoreView>,
    desired: Seq<ObjectStoreView>,
) -> (Seq<SchemaChangeView>, Seq<ObjectStoreView>)
    decreases desired.len(),
{
    if desired.len() == 0 {
        (Seq::empty(), catalog)
    } else {
        let (changes, stores) = reconcile_stores(catalog, desired.drop_last());
        let (more, after) = reconcile_store(stores, desired.last());
        (changes + more, after)
    }
}

/// The whole reconciliation: the declared stores are brought in, then every store
/// whose name is not declared is deleted. The result is the changes to perform, in
/// order, and the catalog after them.
pub open spec fn reconciliation(catalog: Seq<ObjectStoreView>, desired: Seq<ObjectStoreView>) -> (
    Seq<SchemaChangeView>,
    Seq<ObjectStoreView>,
) {
    let (changes, stores) = reconcile_stores(catalog, desired);
    let names = store_names(desired);
    (
        changes + stores.filter(store_not_named_in(names)).map_values(delete_store()),
        stores.filter(store_named_in(names)),
    )
}

/// No two indexes share a name.
pub open spec fn distinct_index_names(indexes: Seq<IndexView>) -> bool {
    forall|i: int, j: int|
        0 <= i < j < indexes.len() ==> (#[trigger] indexes[i]).name != (#[trigger] indexes[j]).name
}

/// No two stores share a name.
pub open spec fn distinct_store_names(stores: Seq<ObjectStoreView>) -> bool {
    forall|i: int, j: int|
        0 <= i < j < stores.len() ==> (#[trigger] stores[i]).name != (#[trigger] stores[j]).name
}

/// What holds of every catalog: store names are unique, and so are the index names
/// within each store.
pub open spec fn catalog_well_formed(catalog: Seq<ObjectStoreView>) -> bool {
    &&& distinct_store_names(catalog)
    &&& forall|i: int|
        0 <= i < catalog.len() ==> distinct_index_names((#[trigger] catalog[i]).indexes)
}

/// The position of the first index of that name, if there is one.
pub(crate) fn position_of_index(indexes: &Vec<Index>, name: &String) -> (found: Option<usize>)
    ensures
        found is Some <==> index_names(index_views(indexes@)).contains(name@),
        match found {
            Some(at) => {
                &&& at < indexes.len()
                &&& indexes[at as int].name@ == name@
                &&& forall|j: int| 0 <= j < at ==> indexes[j].name@ != name@
            },
            None => true,
        },
{
    let ghost names = index_names(index_views(indexes@));
    let mut i: usize = 0;
    while i < indexes.len()
        invariant
            i <= indexes.len(),
            names == index_names(index_views(indexes@)),
            forall|j: int| 0 <= j < i ==> indexes[j].name@ != name@,
        decreases indexes.len() - i,
    {
        if indexes[i].name == *name {
            assert(names[i as int] == name@);
            return Some(i);
        }
        i += 1;
    }
    assert forall|j: int| 0 <= j < names.len() implies names[j] != name@ by {
        assert(names[j] == indexes[j].name@);
    }
    None
}

/// The position of the first store of that name, if there is one.
pub(crate) fn position_of_store(stores: &Vec<ObjectStore>, name: &String) -> (found: Option<usize>)
    ensures
        found is Some <==> store_names(store_views(stores@)).contains(name@),
        match found {
            Some(at) => {
                &&& at < stores.len()
                &&& stores[at as int].name@ == name@
                &&& forall|j: int| 0 <= j < at ==> stores[j].name@ != name@
            },
            None => true,
        },
{
    let ghost names = store_names(store_views(stores@));
    let mut i: usize = 0;
    while i < stores.len()
        invariant
            i <= stores.len(),
            names == store_names(store_views(stores@)),
            forall|j: int| 0 <= j < i ==> stores[j].name@ != name@,
        decreases stores.len() - i,
    {
        if stores[i].name == *name {
            assert(names[i as int] == name@);
            return Some(i);
        }
        i += 1;
    }
    assert forall|j: int| 0 <= j < names.len() implies names[j] != name@ by {
        assert(names[j] == stores[j].name@);
    }
    None
}

/// Brings the indexes of one store to their declaration. The changes are appended
/// to `changes`; the result is the indexes of the store after them.
pub(crate) fn reconcile_indexes(
    store: &String,
    existing: &Vec<Index>,
    desired: &Vec<Index>,
    changes: &mut Vec<SchemaChange>,
) -> (indexes: Vec<Index>)
    ensures
        index_views(indexes@) == reconciled_indexes(
            index_views(existing@),
            index_views(desired@),
        ),
        change_views(final(changes)@) == change_views(old(changes)@) + index_changes(
            store@,
            index_views(existing@),
            index_views(desired@),
        ),
{
    let ghost have = index_views(existing@);
    let ghost want = index_views(desired@);
    let ghost before = change_views(changes@);
    let mut indexes: Vec<Index> = Vec::new();
    let mut deletions: Vec<SchemaChange> = Vec::new();
    let mut i: usize = 0;
    proof {
        reveal(Seq::filter);
        assert(have.take(0) =~= Seq::empty());
    }
    while i < existing.len()
        invariant
            i <= existing.len(),
            have == index_views(existing@),
            want == index_views(desired@),
            index_views(indexes@) == retained_indexes(have.take(i as int), want),
            change_views(deletions@) == dropped_indexes(have.take(i as int), want).map_values(
                delete_index(store@),
            ),
        decreases existing.len() - i,
    {
        let ghost seen = have.take(i as int);
        proof {
            assert(have.take(i + 1) =~= seen.push(have[i as int]));
            seen.lemma_filter_push(have[i as int], index_named_in(index_names(want)));
            seen.lemma_filter_push(have[i as int], index_not_named_in(index_names(want)));
        }
        if position_of_index(desired, &existing[i].name).is_some() {
            let ghost kept = index_views(indexes@);
            indexes.push(existing[i].clone());
            assert(index_views(indexes@) =~= kept.push(have[i as int]));
        } else {
            let ghost dropped = change_views(deletions@);
            deletions.push(
                SchemaChange::DeleteIndex { store: store.clone(), name: existing[i].name.clone() },
            );
            assert(change_views(deletions@) =~= dropped.push(delete_index(store@)(have[i as int])));
            assert(dropped_indexes(seen, want).push(have[i as int]).map_values(
                delete_index(store@),
            ) =~= dropped.push(delete_index(store@)(have[i as int])));
        }
        i += 1;
    }
    assert(have.take(existing.len() as int) =~= have);
    let mut fresh: Vec<Index> = Vec::new();
    let mut k: usize = 0;
    proof {
        assert(want.take(0) =~= Seq::empty());
        assert(change_views(changes@) =~= before + created_indexes(have, want.take(0)).map_values(
            create_index(store@),
        ));
    }
    while k < desired.len()
        invariant
            k <= desired.len(),
            have == index_views(existing@),
            want == index_views(desired@),
            index_views(fresh@) == created_indexes(have, want.take(k as int)),
            change_views(changes@) == before + created_indexes(have, want.take(k as int)).map_values(
                create_index(store@),
            ),
        decreases desired.len() - k,
    {
        let ghost declared = want.take(k as int);
        proof {
            assert(want.take(k + 1).drop_last() =~= declared);
            assert(want.take(k + 1).last() == want[k as int]);
        }
        let on_store = position_of_index(existing, &desired[k].name).is_some();
        let taken = position_of_index(&fresh, &desired[k].name).is_some();
        if !on_store && !taken {
            let ghost made = index_views(fresh@);
            let ghost listed = change_views(changes@);
            fresh.push(desired[k].clone());
            changes.push(
                SchemaChange::CreateIndex { store: store.clone(), index: desired[k].clone() },
            );
            assert(index_views(fresh@) =~= made.push(want[k as int]));
            assert(change_views(changes@) =~= listed.push(create_index(store@)(want[k as int])));
            assert(made.push(want[k as int]).map_values(create_index(store@)) =~= made.map_values(
                create_index(store@),
            ).push(create_index(store@)(want[k as int])));
        }
        k += 1;
    }
    assert(want.take(desired.len() as int) =~= want);
    let ghost kept = index_views(indexes@);
    let ghost made = index_views(fresh@);
    let ghost listed = change_views(changes@);
    let ghost dropped = change_views(deletions@);
    indexes.append(&mut fresh);
    changes.append(&mut deletions);
    assert(index_views(indexes@) =~= kept + made);
    assert(change_views(changes@) =~= listed + dropped);
    indexes
}


/// Filtering keeps the names of the indexes distinct, and adds no index.
pub proof fn lemma_filter_keeps_indexes_distinct(
    indexes: Seq<IndexView>,
    pred: spec_fn(IndexView) -> bool,
)
    requires
        distinct_index_names(indexes),
    ensures
        distinct_index_names(indexes.filter(pred)),
        forall|i: int|
            0 <= i < indexes.filter(pred).len() ==> indexes.contains(
                #[trigger] indexes.filter(pred)[i],
            ),
    decreases indexes.len(),
{
    reveal(Seq::filter);
    if indexes.len() > 0 {
        let front = indexes.drop_last();
        let kept = front.filter(pred);
        assert forall|i: int, j: int| 0 <= i < j < front.len() implies (#[trigger] front[i]).name != (
        #[trigger] front[j]).name by {
            assert(front[i] == indexes[i] && front[j] == indexes[j]);
        }
        lemma_filter_keeps_indexes_distinct(front, pred);
        assert forall|i: int| 0 <= i < kept.len() implies indexes.contains(#[trigger] kept[i])
            && kept[i].name != indexes.last().name by {
            let at = choose|at: int| 0 <= at < front.len() && front[at] == kept[i];
            assert(indexes[at] == kept[i]);
        }
    }
}

/// Filtering keeps the names of the stores distinct, and adds no store.
pub proof fn lemma_filter_keeps_stores_distinct(
    stores: Seq<ObjectStoreView>,
    pred: spec_fn(ObjectStoreView) -> bool,
)
    requires
        distinct_store_names(stores),
    ensures
        distinct_store_names(stores.filter(pred)),
        forall|i: int|
            0 <= i < stores.filter(pred).len() ==> stores.contains(
                #[trigger] stores.filter(pred)[i],
            ),
    decreases stores.len(),
{
    reveal(Seq::filter);
    if stores.len() > 0 {
        let front = stores.drop_last();
        let kept = front.filter(pred);
        assert forall|i: int, j: int| 0 <= i < j < front.len() implies (#[trigger] front[i]).name != (
        #[trigger] front[j]).name by {
            assert(front[i] == stores[i] && front[j] == stores[j]);
        }
        lemma_filter_keeps_stores_distinct(front, pred);
        assert forall|i: int| 0 <= i < kept.len() implies stores.contains(#[trigger] kept[i])
            && kept[i].name != stores.last().name by {
            let at = choose|at: int| 0 <= at < front.len() && front[at] == kept[i];
            assert(stores[at] == kept[i]);
        }
    }
}

/// The created indexes are declared ones, bear names that the store does not have,
/// and no two of them share a name.
pub proof fn lemma_created_indexes(existing: Seq<IndexView>, desired: Seq<IndexView>)
    ensures
        distinct_index_names(created_indexes(existing, desired)),
        forall|i: int|
            0 <= i < created_indexes(existing, desired).len() ==> {
                &&& desired.contains(#[trigger] created_indexes(existing, desired)[i])
                &&& !index_names(existing).contains(created_indexes(existing, desired)[i].name)
            },
    decreases desired.len(),
{
    if desired.len() > 0 {
        let front = desired.drop_last();
        let before = created_indexes(existing, front);
        let made = created_indexes(existing, desired);
        lemma_created_indexes(existing, front);
        assert forall|i: int| 0 <= i < made.len() implies desired.contains(#[trigger] made[i])
            && !index_names(existing).contains(made[i].name) by {
            if i < before.len() {
                let at = choose|at: int| 0 <= at < front.len() && front[at] == before[i];
                assert(desired[at] == before[i]);
            } else {
                assert(made[i] == desired[desired.len() - 1]);
            }
        }
        assert forall|i: int, j: int| 0 <= i < j < made.len() implies (#[trigger] made[i]).name != (
        #[trigger] made[j]).name by {
            if j == before.len() {
                assert(index_names(before)[i] == before[i].name);
            }
        }
    }
}

/// Bringing the indexes of a store to their declaration keeps their names distinct.
pub proof fn lemma_reconciled_indexes_distinct(existing: Seq<IndexView>, desired: Seq<IndexView>)
    requires
        distinct_index_names(existing),
    ensures
        distinct_index_names(reconciled_indexes(existing, desired)),
{
    let kept = retained_indexes(existing, desired);
    let made = created_indexes(existing, desired);
    let all = reconciled_indexes(existing, desired);
    lemma_filter_keeps_indexes_distinct(existing, index_named_in(index_names(desired)));
    lemma_created_indexes(existing, desired);
    assert forall|i: int, j: int| 0 <= i < j < all.len() implies (#[trigger] all[i]).name != (
    #[trigger] all[j]).name by {
        if i < kept.len() && j >= kept.len() {
            let at = choose|at: int| 0 <= at < existing.len() && existing[at] == kept[i];
            assert(index_names(existing)[at] == kept[i].name);
            assert(all[j] == made[j - kept.len()]);
        } else if i < kept.len() {
            assert(all[i] == kept[i] && all[j] == kept[j]);
        } else {
            assert(all[i] == made[i - kept.len()] && all[j] == made[j - kept.len()]);
        }
    }
}

/// Bringing one declared store into a well-formed catalog leaves it well-formed.
pub proof fn lemma_reconcile_store_well_formed(
    catalog: Seq<ObjectStoreView>,
    desired: ObjectStoreView,
)
    requires
        catalog_well_formed(catalog),
    ensures
        catalog_well_formed(reconcile_store(catalog, desired).1),
{
    let after = reconcile_store(catalog, desired).1;
    let names = store_names(catalog);
    if names.contains(desired.name) {
        let at = names.index_of(desired.name);
        lemma_reconciled_indexes_distinct(catalog[at].indexes, desired.indexes);
        assert forall|i: int, j: int| 0 <= i < j < after.len() implies (#[trigger] after[i]).name != (
        #[trigger] after[j]).name by {
            assert(after[i].name == catalog[i].name && after[j].name == catalog[j].name);
        }
        assert forall|i: int| 0 <= i < after.len() implies distinct_index_names(
            (#[trigger] after[i]).indexes,
        ) by {
            if i != at {
                assert(after[i] == catalog[i]);
            }
        }
    } else {
        lemma_reconciled_indexes_distinct(Seq::empty(), desired.indexes);
        assert forall|i: int, j: int| 0 <= i < j < after.len() implies (#[trigger] after[i]).name != (
        #[trigger] after[j]).name by {
            if j == catalog.len() {
                assert(names[i] == catalog[i].name);
            } else {
                assert(after[i] == catalog[i] && after[j] == catalog[j]);
            }
        }
        assert forall|i: int| 0 <= i < after.len() implies distinct_index_names(
            (#[trigger] after[i]).indexes,
        ) by {
            if i < catalog.len() {
                assert(after[i] == catalog[i]);
            }
        }
    }
}

/// Whether no two of the indexes share a name.
pub(crate) fn has_distinct_index_names(indexes: &Vec<Index>) -> (distinct: bool)
    ensures
        distinct == distinct_index_names(index_views(indexes@)),
{
    let ghost views = index_views(indexes@);
    let mut j: usize = 0;
    while j < indexes.len()
        invariant
            j <= indexes.len(),
            views == index_views(indexes@),
            forall|a: int, b: int| 0 <= a < b < j ==> (#[trigger] views[a]).name != (
            #[trigger] views[b]).name,
        decreases indexes.len() - j,
    {
        let mut i: usize = 0;
        while i < j
            invariant
                i <= j < indexes.len(),
                views == index_views(indexes@),
                forall|a: int| 0 <= a < i ==> (#[trigger] views[a]).name != views[j as int].name,
            decreases j - i,
        {
            if indexes[i].name == indexes[j].name {
                assert(views[i as int].name == views[j as int].name);
                return false;
            }
            i += 1;
        }
        j += 1;
    }
    true
}

/// The object stores of a database with their indexes, as the host has them. Store
/// names are unique, and so are the index names within each store.
#[derive(Debug)]
pub struct Catalog {
    stores: Vec<ObjectStore>,
}

impl View for Catalog {
    type V = Seq<ObjectStoreView>;

    closed spec fn view(&self) -> Seq<ObjectStoreView> {
        store_views(self.stores@)
    }
}

impl Catalog {
    /// Store names are unique, and so are the index names within each store. Every
    /// catalog that this library hands out is well-formed.
    pub open spec fn well_formed(&self) -> bool {
        catalog_well_formed(self@)
    }

    /// The catalog of a database that was just created: it has no store.
    pub fn new() -> (catalog: Catalog)
        ensures
            catalog.well_formed(),
            catalog@ == Seq::<ObjectStoreView>::empty(),
    {
        let catalog = Catalog { stores: Vec::new() };
        assert(catalog@ =~= Seq::empty());
        catalog
    }

    /// Enters a store as the host reports it. A store whose name the catalog has, or
    /// two of whose indexes share a name, is refused: the catalog is then unchanged.
    pub fn insert(&mut self, store: ObjectStore) -> (inserted: bool)
        requires
            old(self).well_formed(),
        ensures
            final(self).well_formed(),
            inserted == (!store_names(old(self)@).contains(store@.name) && distinct_index_names(
                store@.indexes,
            )),
            final(self)@ == if inserted {
                old(self)@.push(store@)
            } else {
                old(self)@
            },
    {
        if position_of_store(&self.stores, &store.name).is_some() || !has_distinct_index_names(
            &store.indexes,
        ) {
            return false;
        }
        let ghost before = self@;
        let ghost added = store@;
        self.stores.push(store);
        proof {
            assert(self@ =~= before.push(added));
            assert forall|i: int, j: int| 0 <= i < j < self@.len() implies (#[trigger] self@[i]).name
                != (#[trigger] self@[j]).name by {
                if j == before.len() {
                    assert(store_names(before)[i] == before[i].name);
                } else {
                    assert(self@[i] == before[i] && self@[j] == before[j]);
                }
            }
            assert forall|i: int| 0 <= i < self@.len() implies distinct_index_names(
                (#[trigger] self@[i]).indexes,
            ) by {
                if i < before.len() {
                    assert(self@[i] == before[i]);
                }
            }
        }
        true
    }

    /// The number of stores.
    pub fn len(&self) -> (len: usize)
        ensures
            len == self@.len(),
    {
        self.stores.len()
    }

    /// The names of the stores, in the order of the catalog.
    pub fn store_names(&self) -> (names: Vec<String>)
        ensures
            names@.map_values(|name: String| name@) == store_names(self@),
    {
        let mut names: Vec<String> = Vec::new();
        let mut i: usize = 0;
        while i < self.stores.len()
            invariant
                i <= self.stores.len(),
                names.len() == i,
                forall|j: int| 0 <= j < i ==> names[j]@ == self.stores[j].name@,
            decreases self.stores.len() - i,
        {
            names.push(self.stores[i].name.clone());
            i += 1;
        }
        assert(names@.map_values(|name: String| name@) =~= store_names(self@));
        names
    }

    /// The store of that name, if the catalog has one.
    pub fn store(&self, name: &String) -> (found: Option<&ObjectStore>)
        ensures
            found is Some <==> store_names(self@).contains(name@),
            match found {
                Some(store) => store@.name == name@ && self@.contains(store@),
                None => true,
            },
    {
        match position_of_store(&self.stores, name) {
            Some(at) => {
                assert(self@[at as int] == self.stores[at as int]@);
                Some(&self.stores[at])
            },
            None => None,
        }
    }

    /// Brings the catalog to the declared stores and returns the changes that the
    /// host has to perform for it, in order.
    ///
    /// Each declared store is created unless one of that name exists; each of its
    /// declared indexes is created unless the store has one of that name; then the
    /// indexes of the store that are not declared are deleted. At the end the stores
    /// that are not declared are deleted.
    pub fn reconcile(&mut self, desired: &Vec<ObjectStore>) -> (changes: Vec<SchemaChange>)
        requires
            old(self).well_formed(),
        ensures
            final(self).well_formed(),
            (change_views(changes@), final(self)@) == reconciliation(
                old(self)@,
                store_views(desired@),
            ),
            final(self)@ == performed_all(old(self)@, change_views(changes@)),
    {
        proof {
            lemma_changes_performed(self@, store_views(desired@));
        }
        let ghost start = self@;
        let ghost want = store_views(desired@);
        let mut changes: Vec<SchemaChange> = Vec::new();
        let mut stores: Vec<ObjectStore> = cloned_stores(&self.stores);
        assert(want.take(0) =~= Seq::empty());
        assert(change_views(changes@) =~= Seq::empty());
        let mut k: usize = 0;
        while k < desired.len()
            invariant
                k <= desired.len(),
                want == store_views(desired@),
                catalog_well_formed(store_views(stores@)),
                (change_views(changes@), store_views(stores@)) == reconcile_stores(
                    start,
                    want.take(k as int),
                ),
            decreases desired.len() - k,
        {
            let ghost current = store_views(stores@);
            let ghost listed = change_views(changes@);
            proof {
                assert(want.take(k + 1).drop_last() =~= want.take(k as int));
                assert(want.take(k + 1).last() == want[k as int]);
                lemma_reconcile_store_well_formed(current, want[k as int]);
            }
            match position_of_store(&stores, &desired[k].name) {
                Some(at) => {
                    proof {
                        let chosen = store_names(current).index_of(want[k as int].name);
                        assert(store_names(current)[chosen] == current[chosen].name);
                        assert(current[at as int].name == want[k as int].name);
                        assert(chosen == at);
                    }
                    let indexes = reconcile_indexes(
                        &desired[k].name,
                        &stores[at].indexes,
                        &desired[k].indexes,
                        &mut changes,
                    );
                    let updated = ObjectStore {
                        name: stores[at].name.clone(),
                        key_path: cloned_key_path(&stores[at].key_path),
                        auto_increment: stores[at].auto_increment,
                        indexes,
                    };
                    let ghost after = updated@;
                    stores[at] = updated;
                    assert(store_views(stores@) =~= current.update(at as int, after));
                },
                None => {
                    changes.push(
                        SchemaChange::CreateStore {
                            name: desired[k].name.clone(),
                            key_path: cloned_key_path(&desired[k].key_path),
                            auto_increment: desired[k].auto_increment,
                        },
                    );
                    assert(change_views(changes@) =~= listed + seq![create_store(want[k as int])]);
                    let none: Vec<Index> = Vec::new();
                    assert(index_views(none@) =~= Seq::empty());
                    let indexes = reconcile_indexes(
                        &desired[k].name,
                        &none,
                        &desired[k].indexes,
                        &mut changes,
                    );
                    let created = ObjectStore {
                        name: desired[k].name.clone(),
                        key_path: cloned_key_path(&desired[k].key_path),
                        auto_increment: desired[k].auto_increment,
                        indexes,
                    };
                    let ghost after = created@;
                    stores.push(created);
                    assert(store_views(stores@) =~= current.push(after));
                    assert(change_views(changes@) =~= listed + (seq![create_store(want[k as int])]
                        + index_changes(want[k as int].name, Seq::empty(), want[k as int].indexes)));
                },
            }
            k += 1;
        }
        assert(want.take(desired.len() as int) =~= want);
        let ghost brought = store_views(stores@);
        let ghost listed = change_views(changes@);
        let ghost names = store_names(want);
        let mut kept: Vec<ObjectStore> = Vec::new();
        let mut deletions: Vec<SchemaChange> = Vec::new();
        let mut i: usize = 0;
        proof {
            reveal(Seq::filter);
            assert(brought.take(0) =~= Seq::empty());
        }
        while i < stores.len()
            invariant
                i <= stores.len(),
                want == store_views(desired@),
                names == store_names(want),
                brought == store_views(stores@),
                store_views(kept@) == brought.take(i as int).filter(store_named_in(names)),
                change_views(deletions@) == brought.take(i as int).filter(
                    store_not_named_in(names),
                ).map_values(delete_store()),
            decreases stores.len() - i,
        {
            let ghost seen = brought.take(i as int);
            proof {
                assert(brought.take(i + 1) =~= seen.push(brought[i as int]));
                seen.lemma_filter_push(brought[i as int], store_named_in(names));
                seen.lemma_filter_push(brought[i as int], store_not_named_in(names));
            }
            if position_of_store(desired, &stores[i].name).is_some() {
                let ghost before = store_views(kept@);
                kept.push(stores[i].clone());
                assert(store_views(kept@) =~= before.push(brought[i as int]));
            } else {
                let ghost dropped = change_views(deletions@);
                deletions.push(SchemaChange::DeleteStore { name: stores[i].name.clone() });
                assert(change_views(deletions@) =~= dropped.push(delete_store()(brought[i as int])));
                assert(seen.filter(store_not_named_in(names)).push(brought[i as int]).map_values(
                    delete_store(),
                ) =~= dropped.push(delete_store()(brought[i as int])));
            }
            i += 1;
        }
        assert(brought.take(stores.len() as int) =~= brought);
        let ghost dropped = change_views(deletions@);
        changes.append(&mut deletions);
        assert(change_views(changes@) =~= listed + dropped);
        proof {
            lemma_filter_keeps_stores_distinct(brought, store_named_in(names));
            let after = brought.filter(store_named_in(names));
            assert forall|i: int| 0 <= i < after.len() implies distinct_index_names(
                (#[trigger] after[i]).indexes,
            ) by {
                let at = choose|at: int| 0 <= at < brought.len() && brought[at] == after[i];
                assert(distinct_index_names(brought[at].indexes));
            }
        }
        self.stores = kept;
        changes
    }
}

} // verus!
