use vstd::prelude::*;

use crate::index::{index_names, IndexView};
use crate::object_store::{store_names, ObjectStoreView};
use crate::schema::{
    catalog_well_formed, create_index, create_store, created_indexes, delete_index, delete_store,
    distinct_store_names, dropped_indexes, index_changes, index_named_in, index_not_named_in,
    lemma_created_indexes, lemma_reconcile_store_well_formed, reconcile_store, reconcile_stores,
    reconciled_indexes, reconciliation, store_named_in, store_not_named_in,
    SchemaChangeView,
};
use crate::schema_laws::lemma_filter_keeps_all;

verus! {

/// The catalog with the indexes of the store at `at` replaced.
pub open spec fn with_indexes(
    catalog: Seq<ObjectStoreView>,
    at: int,
    indexes: Seq<IndexView>,
) -> Seq<ObjectStoreView> {
    catalog.update(at, ObjectStoreView { indexes, ..catalog[at] })
}

/// The catalog once the host has performed the change. A change that names a store
/// which the catalog does not have leaves it as it is.
pub open spec fn performed(catalog: Seq<ObjectStoreView>, change: SchemaChangeView) -> Seq<
    ObjectStoreView,
> {
    match change {
        SchemaChangeView::CreateStore { name, key_path, auto_increment } => catalog.push(
            ObjectStoreView { name, key_path, auto_increment, indexes: Seq::empty() },
        ),
        SchemaChangeView::CreateIndex { store, index } => {
            if store_names(catalog).contains(store) {
                let at = store_names(catalog).index_of(store);
                with_indexes(catalog, at, catalog[at].indexes.push(index))
            } else {
                catalog
            }
        },
        SchemaChangeView::DeleteIndex { store, name } => {
            if store_names(catalog).contains(store) {
                let at = store_names(catalog).index_of(store);
                with_indexes(
                    catalog,
                    at,
                    catalog[at].indexes.filter(index_not_named_in(seq![name])),
                )
            } else {
                catalog
            }
        },
        SchemaChangeView::DeleteStore { name } => catalog.filter(store_not_named_in(seq![name])),
    }
}

/// The catalog once the host has performed the changes, one after the other.
pub open spec fn performed_all(catalog: Seq<ObjectStoreView>, changes: Seq<SchemaChangeView>) -> Seq<
    ObjectStoreView,
>
    decreases changes.len(),
{
    if changes.len() == 0 {
        catalog
    } else {
        performed(performed_all(catalog, changes.drop_last()), changes.last())
    }
}

/// Performing two lists of changes in a row is performing their concatenation.
pub proof fn lemma_performed_in_a_row(
    catalog: Seq<ObjectStoreView>,
    first: Seq<SchemaChangeView>,
    second: Seq<SchemaChangeView>,
)
    ensures
        performed_all(catalog, first + second) == performed_all(
            performed_all(catalog, first),
            second,
        ),
    decreases second.len(),
{
    if second.len() == 0 {
        assert(first + second =~= first);
    } else {
        lemma_performed_in_a_row(catalog, first, second.drop_last());
        assert((first + second).drop_last() =~= first + second.drop_last());
        assert((first + second).last() == second.last());
    }
}

/// Filtering twice is filtering once by both conditions.
pub proof fn lemma_filter_twice<A>(
    items: Seq<A>,
    first: spec_fn(A) -> bool,
    second: spec_fn(A) -> bool,
    both: spec_fn(A) -> bool,
)
    requires
        forall|i: int|
            0 <= i < items.len() ==> both(#[trigger] items[i]) == (first(items[i]) && second(
                items[i],
            )),
    ensures
        items.filter(first).filter(second) == items.filter(both),
    decreases items.len(),
{
    reveal(Seq::filter);
    if items.len() > 0 {
        let front = items.drop_last();
        let last = items.last();
        assert forall|i: int| 0 <= i < front.len() implies both(#[trigger] front[i]) == (first(
            front[i],
        ) && second(front[i])) by {
            assert(front[i] == items[i]);
        }
        lemma_filter_twice(front, first, second, both);
        if first(last) {
            front.filter(first).lemma_filter_push(last, second);
        }
    }
}

/// In a catalog with distinct store names, a store is found under its name where it
/// stands.
pub proof fn lemma_store_position(catalog: Seq<ObjectStoreView>, at: int)
    requires
        distinct_store_names(catalog),
        0 <= at < catalog.len(),
    ensures
        store_names(catalog).contains(catalog[at].name),
        store_names(catalog).index_of(catalog[at].name) == at,
{
    let names = store_names(catalog);
    assert(names[at] == catalog[at].name);
    let found = names.index_of(catalog[at].name);
    assert(names[found] == catalog[found].name);
    if found < at {
        assert(catalog[found].name != catalog[at].name);
    } else if at < found {
        assert(catalog[at].name != catalog[found].name);
    }
}

/// Replacing the indexes of a store keeps the store names, and so their distinctness.
pub proof fn lemma_with_indexes_keeps_names(
    catalog: Seq<ObjectStoreView>,
    at: int,
    indexes: Seq<IndexView>,
)
    requires
        distinct_store_names(catalog),
        0 <= at < catalog.len(),
    ensures
        distinct_store_names(with_indexes(catalog, at, indexes)),
        with_indexes(catalog, at, indexes)[at].name == catalog[at].name,
{
    let after = with_indexes(catalog, at, indexes);
    assert forall|i: int, j: int| 0 <= i < j < after.len() implies (#[trigger] after[i]).name != (
    #[trigger] after[j]).name by {
        assert(after[i].name == catalog[i].name && after[j].name == catalog[j].name);
    }
}

/// Creating indexes on a store appends them to its indexes.
pub proof fn lemma_indexes_created(catalog: Seq<ObjectStoreView>, at: int, made: Seq<IndexView>)
    requires
        distinct_store_names(catalog),
        0 <= at < catalog.len(),
    ensures
        performed_all(catalog, made.map_values(create_index(catalog[at].name))) == with_indexes(
            catalog,
            at,
            catalog[at].indexes + made,
        ),
    decreases made.len(),
{
    let name = catalog[at].name;
    let changes = made.map_values(create_index(name));
    if made.len() == 0 {
        assert(catalog[at].indexes + made =~= catalog[at].indexes);
        assert(with_indexes(catalog, at, catalog[at].indexes) =~= catalog);
    } else {
        let front = made.drop_last();
        lemma_indexes_created(catalog, at, front);
        assert(changes.drop_last() =~= front.map_values(create_index(name)));
        assert(changes.last() == create_index(name)(made.last()));
        let before = with_indexes(catalog, at, catalog[at].indexes + front);
        lemma_with_indexes_keeps_names(catalog, at, catalog[at].indexes + front);
        lemma_store_position(before, at);
        assert((catalog[at].indexes + front).push(made.last()) =~= catalog[at].indexes + made);
        assert(with_indexes(before, at, before[at].indexes.push(made.last())) =~= with_indexes(
            catalog,
            at,
            catalog[at].indexes + made,
        ));
    }
}

/// Deleting indexes from a store leaves the indexes that bear none of their names.
pub proof fn lemma_indexes_deleted(catalog: Seq<ObjectStoreView>, at: int, gone: Seq<IndexView>)
    requires
        distinct_store_names(catalog),
        0 <= at < catalog.len(),
    ensures
        performed_all(catalog, gone.map_values(delete_index(catalog[at].name))) == with_indexes(
            catalog,
            at,
            catalog[at].indexes.filter(index_not_named_in(index_names(gone))),
        ),
    decreases gone.len(),
{
    let name = catalog[at].name;
    let have = catalog[at].indexes;
    let changes = gone.map_values(delete_index(name));
    if gone.len() == 0 {
        lemma_filter_keeps_all(have, index_not_named_in(index_names(gone)));
        assert(with_indexes(catalog, at, have) =~= catalog);
    } else {
        let front = gone.drop_last();
        let last = gone.last();
        lemma_indexes_deleted(catalog, at, front);
        assert(changes.drop_last() =~= front.map_values(delete_index(name)));
        assert(changes.last() == delete_index(name)(last));
        let kept = have.filter(index_not_named_in(index_names(front)));
        let before = with_indexes(catalog, at, kept);
        lemma_with_indexes_keeps_names(catalog, at, kept);
        lemma_store_position(before, at);
        assert forall|i: int| 0 <= i < have.len() implies index_not_named_in(index_names(gone))(
            #[trigger] have[i],
        ) == (index_not_named_in(index_names(front))(have[i]) && index_not_named_in(
            seq![last.name],
        )(have[i])) by {
            let wanted = have[i].name;
            assert(index_names(gone) =~= index_names(front).push(last.name));
            if index_names(gone).contains(wanted) {
                let k = choose|k: int|
                    0 <= k < index_names(gone).len() && index_names(gone)[k] == wanted;
                if k < front.len() {
                    assert(index_names(front)[k] == wanted);
                } else {
                    assert(seq![last.name][0] == wanted);
                }
            }
            if index_names(front).contains(wanted) {
                let k = choose|k: int|
                    0 <= k < index_names(front).len() && index_names(front)[k] == wanted;
                assert(index_names(gone)[k] == wanted);
            }
            if seq![last.name].contains(wanted) {
                assert(index_names(gone)[gone.len() - 1] == wanted);
            }
        }
        lemma_filter_twice(
            have,
            index_not_named_in(index_names(front)),
            index_not_named_in(seq![last.name]),
            index_not_named_in(index_names(gone)),
        );
        assert(with_indexes(before, at, before[at].indexes.filter(
            index_not_named_in(seq![last.name]),
        )) =~= with_indexes(
            catalog,
            at,
            have.filter(index_not_named_in(index_names(gone))),
        ));
    }
}

/// Filters that agree on every item keep the same items.
pub proof fn lemma_filter_agrees<A>(
    items: Seq<A>,
    first: spec_fn(A) -> bool,
    second: spec_fn(A) -> bool,
)
    requires
        forall|i: int| 0 <= i < items.len() ==> first(#[trigger] items[i]) == second(items[i]),
    ensures
        items.filter(first) == items.filter(second),
    decreases items.len(),
{
    reveal(Seq::filter);
    if items.len() > 0 {
        let front = items.drop_last();
        assert forall|i: int| 0 <= i < front.len() implies first(#[trigger] front[i]) == second(
            front[i],
        ) by {
            assert(front[i] == items[i]);
        }
        lemma_filter_agrees(front, first, second);
    }
}

/// Once the indexes that are to go have been deleted from the indexes of a store
/// and those that were created, what is left is what stays and what was created.
pub proof fn lemma_reconciled_indexes_left(existing: Seq<IndexView>, desired: Seq<IndexView>)
    ensures
        (existing + created_indexes(existing, desired)).filter(
            index_not_named_in(index_names(dropped_indexes(existing, desired))),
        ) == reconciled_indexes(existing, desired),
{
    let made = created_indexes(existing, desired);
    let gone = dropped_indexes(existing, desired);
    let declared = index_named_in(index_names(desired));
    let undeclared = index_not_named_in(index_names(desired));
    let spared = index_not_named_in(index_names(gone));
    lemma_created_indexes(existing, desired);
    assert forall|name: Seq<char>| #[trigger]
        index_names(gone).contains(name) implies !index_names(desired).contains(name) by {
        let k = choose|k: int| 0 <= k < index_names(gone).len() && index_names(gone)[k] == name;
        assert(index_names(gone)[k] == gone[k].name);
        existing.lemma_filter_pred(undeclared, k);
    }
    assert forall|i: int| 0 <= i < existing.len() implies spared(#[trigger] existing[i])
        == declared(existing[i]) by {
        if !declared(existing[i]) {
            existing.lemma_filter_contains(undeclared, i);
            let k = choose|k: int| 0 <= k < gone.len() && gone[k] == existing[i];
            assert(index_names(gone)[k] == existing[i].name);
        }
    }
    lemma_filter_agrees(existing, spared, declared);
    assert forall|i: int| 0 <= i < made.len() implies spared(#[trigger] made[i]) by {
        let k = choose|k: int| 0 <= k < desired.len() && desired[k] == made[i];
        assert(index_names(desired)[k] == made[i].name);
    }
    lemma_filter_keeps_all(made, spared);
    Seq::filter_distributes_over_add(existing, made, spared);
}

/// Performing the index changes of a declared store on the store of that name
/// brings its indexes to their declaration.
pub proof fn lemma_index_changes_performed(
    catalog: Seq<ObjectStoreView>,
    at: int,
    desired: Seq<IndexView>,
)
    requires
        distinct_store_names(catalog),
        0 <= at < catalog.len(),
    ensures
        performed_all(catalog, index_changes(catalog[at].name, catalog[at].indexes, desired))
            == with_indexes(catalog, at, reconciled_indexes(catalog[at].indexes, desired)),
{
    let name = catalog[at].name;
    let have = catalog[at].indexes;
    let made = created_indexes(have, desired);
    let gone = dropped_indexes(have, desired);
    lemma_indexes_created(catalog, at, made);
    let grown = with_indexes(catalog, at, have + made);
    lemma_with_indexes_keeps_names(catalog, at, have + made);
    lemma_indexes_deleted(grown, at, gone);
    lemma_reconciled_indexes_left(have, desired);
    lemma_performed_in_a_row(
        catalog,
        made.map_values(create_index(name)),
        gone.map_values(delete_index(name)),
    );
    assert(with_indexes(grown, at, reconciled_indexes(have, desired)) =~= with_indexes(
        catalog,
        at,
        reconciled_indexes(have, desired),
    ));
}

/// Performing the one change that creates a store adds the store, without indexes.
pub proof fn lemma_store_created(catalog: Seq<ObjectStoreView>, desired: ObjectStoreView)
    ensures
        performed_all(catalog, seq![create_store(desired)]) == catalog.push(
            ObjectStoreView { indexes: Seq::empty(), ..desired },
        ),
{
    let opening = seq![create_store(desired)];
    assert(opening.drop_last() =~= Seq::<SchemaChangeView>::empty());
    assert(opening.last() == create_store(desired));
    assert(performed_all(catalog, opening.drop_last()) == catalog);
}

/// Performing the changes of one store on the catalog gives the catalog that the
/// reconciliation of that store names.
pub proof fn lemma_store_changes_performed(
    catalog: Seq<ObjectStoreView>,
    desired: ObjectStoreView,
)
    requires
        distinct_store_names(catalog),
    ensures
        performed_all(catalog, reconcile_store(catalog, desired).0) == reconcile_store(
            catalog,
            desired,
        ).1,
{
    let names = store_names(catalog);
    if names.contains(desired.name) {
        let at = names.index_of(desired.name);
        assert(names[at] == catalog[at].name);
        lemma_index_changes_performed(catalog, at, desired.indexes);
    } else {
        let start = catalog.push(ObjectStoreView { indexes: Seq::empty(), ..desired });
        let at = catalog.len() as int;
        assert forall|i: int, j: int| 0 <= i < j < start.len() implies (#[trigger] start[i]).name != (
        #[trigger] start[j]).name by {
            if j == catalog.len() {
                assert(names[i] == catalog[i].name);
            } else {
                assert(start[i] == catalog[i] && start[j] == catalog[j]);
            }
        }
        lemma_store_created(catalog, desired);
        lemma_index_changes_performed(start, at, desired.indexes);
        lemma_performed_in_a_row(
            catalog,
            seq![create_store(desired)],
            index_changes(desired.name, Seq::empty(), desired.indexes),
        );
        assert(reconcile_store(catalog, desired).1 =~= with_indexes(
            start,
            at,
            reconciled_indexes(Seq::empty(), desired.indexes),
        ));
    }
}

/// Performing the changes of the declared stores on a well-formed catalog gives the
/// catalog that their reconciliation names.
pub proof fn lemma_stores_changes_performed(
    catalog: Seq<ObjectStoreView>,
    desired: Seq<ObjectStoreView>,
)
    requires
        catalog_well_formed(catalog),
    ensures
        catalog_well_formed(reconcile_stores(catalog, desired).1),
        performed_all(catalog, reconcile_stores(catalog, desired).0) == reconcile_stores(
            catalog,
            desired,
        ).1,
    decreases desired.len(),
{
    if desired.len() > 0 {
        let (changes, stores) = reconcile_stores(catalog, desired.drop_last());
        lemma_stores_changes_performed(catalog, desired.drop_last());
        lemma_reconcile_store_well_formed(stores, desired.last());
        lemma_store_changes_performed(stores, desired.last());
        lemma_performed_in_a_row(catalog, changes, reconcile_store(stores, desired.last()).0);
    }
}

/// Deleting stores leaves the stores that bear none of their names.
pub proof fn lemma_stores_deleted(catalog: Seq<ObjectStoreView>, gone: Seq<ObjectStoreView>)
    ensures
        performed_all(catalog, gone.map_values(delete_store())) == catalog.filter(
            store_not_named_in(store_names(gone)),
        ),
    decreases gone.len(),
{
    let changes = gone.map_values(delete_store());
    if gone.len() == 0 {
        lemma_filter_keeps_all(catalog, store_not_named_in(store_names(gone)));
    } else {
        let front = gone.drop_last();
        let last = gone.last();
        lemma_stores_deleted(catalog, front);
        assert(changes.drop_last() =~= front.map_values(delete_store()));
        assert(changes.last() == delete_store()(last));
        assert forall|i: int| 0 <= i < catalog.len() implies store_not_named_in(store_names(gone))(
            #[trigger] catalog[i],
        ) == (store_not_named_in(store_names(front))(catalog[i]) && store_not_named_in(
            seq![last.name],
        )(catalog[i])) by {
            let wanted = catalog[i].name;
            assert(store_names(gone) =~= store_names(front).push(last.name));
            if store_names(gone).contains(wanted) {
                let k = choose|k: int|
                    0 <= k < store_names(gone).len() && store_names(gone)[k] == wanted;
                if k < front.len() {
                    assert(store_names(front)[k] == wanted);
                } else {
                    assert(seq![last.name][0] == wanted);
                }
            }
            if store_names(front).contains(wanted) {
                let k = choose|k: int|
                    0 <= k < store_names(front).len() && store_names(front)[k] == wanted;
                assert(store_names(gone)[k] == wanted);
            }
            if seq![last.name].contains(wanted) {
                assert(store_names(gone)[gone.len() - 1] == wanted);
            }
        }
        lemma_filter_twice(
            catalog,
            store_not_named_in(store_names(front)),
            store_not_named_in(seq![last.name]),
            store_not_named_in(store_names(gone)),
        );
    }
}

/// The changes that a reconciliation returns are what it takes: once the host has
/// performed them in order on the catalog, its catalog is the one that the
/// reconciliation names.
pub proof fn lemma_changes_performed(catalog: Seq<ObjectStoreView>, desired: Seq<ObjectStoreView>)
    requires
        catalog_well_formed(catalog),
    ensures
        performed_all(catalog, reconciliation(catalog, desired).0) == reconciliation(
            catalog,
            desired,
        ).1,
{
    let (changes, stores) = reconcile_stores(catalog, desired);
    let names = store_names(desired);
    let declared = store_named_in(names);
    let undeclared = store_not_named_in(names);
    let gone = stores.filter(undeclared);
    let spared = store_not_named_in(store_names(gone));
    lemma_stores_changes_performed(catalog, desired);
    lemma_stores_deleted(stores, gone);
    lemma_performed_in_a_row(catalog, changes, gone.map_values(delete_store()));
    assert forall|i: int| 0 <= i < stores.len() implies spared(#[trigger] stores[i]) == declared(
        stores[i],
    ) by {
        if declared(stores[i]) {
            if store_names(gone).contains(stores[i].name) {
                let k = choose|k: int|
                    0 <= k < store_names(gone).len() && store_names(gone)[k] == stores[i].name;
                assert(store_names(gone)[k] == gone[k].name);
                stores.lemma_filter_pred(undeclared, k);
            }
        } else {
            stores.lemma_filter_contains(undeclared, i);
            let k = choose|k: int| 0 <= k < gone.len() && gone[k] == stores[i];
            assert(store_names(gone)[k] == stores[i].name);
        }
    }
    lemma_filter_agrees(stores, spared, declared);
}

} // verus!
