use vstd::prelude::*;

use crate::index::{index_names, IndexView};
use crate::object_store::{store_names, ObjectStoreView};
use crate::schema::{
    catalog_well_formed, created_indexes, distinct_store_names, index_changes,
    index_named_in, index_not_named_in, lemma_created_indexes, lemma_filter_keeps_stores_distinct,
    lemma_reconcile_store_well_formed, reconcile_store, reconcile_stores, reconciled_indexes,
    reconciliation, retained_indexes, store_named_in, store_not_named_in, SchemaChangeView,
};

verus! {

/// The store has exactly the declared index names: each of its indexes is declared,
/// and each declared index is on it.
pub open spec fn same_index_names(have: Seq<IndexView>, want: Seq<IndexView>) -> bool {
    &&& forall|i: int| 0 <= i < have.len() ==> index_names(want).contains((#[trigger] have[i]).name)
    &&& forall|k: int| 0 <= k < want.len() ==> index_names(have).contains((#[trigger] want[k]).name)
}

/// Each declared store is in the catalog, with exactly the declared index names.
pub open spec fn declarations_met(
    catalog: Seq<ObjectStoreView>,
    desired: Seq<ObjectStoreView>,
) -> bool {
    &&& forall|k: int|
        0 <= k < desired.len() ==> store_names(catalog).contains((#[trigger] desired[k]).name)
    &&& forall|i: int, k: int|
        0 <= i < catalog.len() && 0 <= k < desired.len() && (#[trigger] catalog[i]).name == (
        #[trigger] desired[k]).name ==> same_index_names(catalog[i].indexes, desired[k].indexes)
}

/// The catalog agrees with the declaration by names: it has the declared stores and
/// no other, and each store has the declared indexes and no other.
pub open spec fn reconciled(catalog: Seq<ObjectStoreView>, desired: Seq<ObjectStoreView>) -> bool {
    &&& declarations_met(catalog, desired)
    &&& forall|i: int|
        0 <= i < catalog.len() ==> store_names(desired).contains((#[trigger] catalog[i]).name)
}

/// A filter that every item passes keeps the sequence as it is.
pub proof fn lemma_filter_keeps_all<A>(items: Seq<A>, pred: spec_fn(A) -> bool)
    requires
        forall|i: int| 0 <= i < items.len() ==> pred(#[trigger] items[i]),
    ensures
        items.filter(pred) == items,
    decreases items.len(),
{
    reveal(Seq::filter);
    if items.len() > 0 {
        let front = items.drop_last();
        assert forall|i: int| 0 <= i < front.len() implies pred(#[trigger] front[i]) by {
            assert(front[i] == items[i]);
        }
        lemma_filter_keeps_all(front, pred);
        assert(front.push(items.last()) =~= items);
    }
}

/// A filter that no item passes leaves nothing.
pub proof fn lemma_filter_keeps_none<A>(items: Seq<A>, pred: spec_fn(A) -> bool)
    requires
        forall|i: int| 0 <= i < items.len() ==> !pred(#[trigger] items[i]),
    ensures
        items.filter(pred) == Seq::<A>::empty(),
    decreases items.len(),
{
    reveal(Seq::filter);
    if items.len() > 0 {
        let front = items.drop_last();
        assert forall|i: int| 0 <= i < front.len() implies !pred(#[trigger] front[i]) by {
            assert(front[i] == items[i]);
        }
        lemma_filter_keeps_none(front, pred);
    }
}

/// Nothing is created where the store has every declared index name.
pub proof fn lemma_nothing_to_create(have: Seq<IndexView>, want: Seq<IndexView>)
    requires
        forall|k: int| 0 <= k < want.len() ==> index_names(have).contains((#[trigger] want[k]).name),
    ensures
        created_indexes(have, want) == Seq::<IndexView>::empty(),
    decreases want.len(),
{
    if want.len() > 0 {
        let front = want.drop_last();
        assert forall|k: int| 0 <= k < front.len() implies index_names(have).contains(
            (#[trigger] front[k]).name,
        ) by {
            assert(front[k] == want[k]);
        }
        lemma_nothing_to_create(have, front);
        assert(want.last() == want[want.len() - 1]);
    }
}

/// A store that has exactly the declared index names needs no change and stays as
/// it is.
pub proof fn lemma_indexes_settled(store: Seq<char>, have: Seq<IndexView>, want: Seq<IndexView>)
    requires
        same_index_names(have, want),
    ensures
        index_changes(store, have, want) == Seq::<SchemaChangeView>::empty(),
        reconciled_indexes(have, want) == have,
{
    lemma_nothing_to_create(have, want);
    lemma_filter_keeps_all(have, index_named_in(index_names(want)));
    lemma_filter_keeps_none(have, index_not_named_in(index_names(want)));
    assert(index_changes(store, have, want) =~= Seq::empty());
    assert(reconciled_indexes(have, want) =~= have);
}

/// Where the declarations are met, bringing the declared stores in changes nothing.
pub proof fn lemma_stores_settled(catalog: Seq<ObjectStoreView>, desired: Seq<ObjectStoreView>)
    requires
        declarations_met(catalog, desired),
    ensures
        reconcile_stores(catalog, desired) == (Seq::<SchemaChangeView>::empty(), catalog),
    decreases desired.len(),
{
    if desired.len() > 0 {
        let front = desired.drop_last();
        let last = desired.last();
        assert forall|k: int| 0 <= k < front.len() implies front[k] == desired[k] by {}
        assert(declarations_met(catalog, front)) by {
            assert forall|k: int| 0 <= k < front.len() implies store_names(catalog).contains(
                (#[trigger] front[k]).name,
            ) by {
                assert(front[k] == desired[k]);
            }
            assert forall|i: int, k: int|
                0 <= i < catalog.len() && 0 <= k < front.len() && (#[trigger] catalog[i]).name == (
                #[trigger] front[k]).name implies same_index_names(
                catalog[i].indexes,
                front[k].indexes,
            ) by {
                assert(front[k] == desired[k]);
            }
        }
        lemma_stores_settled(catalog, front);
        assert(last == desired[desired.len() - 1]);
        let names = store_names(catalog);
        assert(names.contains(last.name));
        let at = names.index_of(last.name);
        assert(names[at] == catalog[at].name);
        lemma_indexes_settled(last.name, catalog[at].indexes, last.indexes);
        assert(catalog.update(at, catalog[at]) =~= catalog);
        assert(reconcile_store(catalog, last) == (Seq::<SchemaChangeView>::empty(), catalog));
        assert(Seq::<SchemaChangeView>::empty() + Seq::<SchemaChangeView>::empty() =~= Seq::<
            SchemaChangeView,
        >::empty());
    }
}

/// A catalog that agrees with the declaration is left alone: reconciling it asks for
/// no create and no delete operation, and the catalog stays as it is.
pub proof fn lemma_reconciled_needs_no_change(
    catalog: Seq<ObjectStoreView>,
    desired: Seq<ObjectStoreView>,
)
    requires
        reconciled(catalog, desired),
    ensures
        reconciliation(catalog, desired) == (Seq::<SchemaChangeView>::empty(), catalog),
{
    lemma_stores_settled(catalog, desired);
    let names = store_names(desired);
    lemma_filter_keeps_all(catalog, store_named_in(names));
    lemma_filter_keeps_none(catalog, store_not_named_in(names));
    assert(reconciliation(catalog, desired).0 =~= Seq::empty());
}

/// Every declared index name is on the store, or some index of that name is created.
pub proof fn lemma_created_covers(have: Seq<IndexView>, want: Seq<IndexView>)
    ensures
        forall|k: int|
            0 <= k < want.len() ==> index_names(have).contains((#[trigger] want[k]).name)
                || index_names(created_indexes(have, want)).contains(want[k].name),
    decreases want.len(),
{
    if want.len() > 0 {
        let front = want.drop_last();
        let before = created_indexes(have, front);
        let made = created_indexes(have, want);
        lemma_created_covers(have, front);
        assert forall|k: int| 0 <= k < want.len() implies index_names(have).contains(
            (#[trigger] want[k]).name,
        ) || index_names(made).contains(want[k].name) by {
            if k < front.len() {
                assert(front[k] == want[k]);
                if index_names(before).contains(want[k].name) {
                    let at = choose|at: int|
                        0 <= at < index_names(before).len() && index_names(before)[at]
                            == want[k].name;
                    assert(index_names(made)[at] == made[at].name);
                    assert(made[at] == before[at]);
                }
            } else {
                assert(want[k] == want.last());
                if made.len() > before.len() {
                    assert(index_names(made)[before.len() as int] == want[k].name);
                }
            }
        }
    }
}

/// Once the indexes of a store are brought to their declaration, the store has
/// exactly the declared index names.
pub proof fn lemma_reconciled_indexes_same_names(have: Seq<IndexView>, want: Seq<IndexView>)
    ensures
        same_index_names(reconciled_indexes(have, want), want),
{
    let kept = retained_indexes(have, want);
    let made = created_indexes(have, want);
    let all = reconciled_indexes(have, want);
    let declared = index_named_in(index_names(want));
    lemma_created_indexes(have, want);
    lemma_created_covers(have, want);
    assert forall|i: int| 0 <= i < all.len() implies index_names(want).contains(
        (#[trigger] all[i]).name,
    ) by {
        if i < kept.len() {
            have.lemma_filter_pred(declared, i);
            assert(all[i] == kept[i]);
        } else {
            let index = made[i - kept.len()];
            assert(all[i] == index);
            let at = choose|at: int| 0 <= at < want.len() && want[at] == index;
            assert(index_names(want)[at] == index.name);
        }
    }
    assert forall|k: int| 0 <= k < want.len() implies index_names(all).contains(
        (#[trigger] want[k]).name,
    ) by {
        assert(index_names(want)[k] == want[k].name);
        if index_names(have).contains(want[k].name) {
            let at = choose|at: int|
                0 <= at < index_names(have).len() && index_names(have)[at] == want[k].name;
            have.lemma_filter_contains(declared, at);
            let to = choose|to: int| 0 <= to < kept.len() && kept[to] == have[at];
            assert(index_names(all)[to] == all[to].name);
            assert(all[to] == kept[to]);
        } else {
            let at = choose|at: int|
                0 <= at < index_names(made).len() && index_names(made)[at] == want[k].name;
            assert(index_names(all)[kept.len() + at] == all[kept.len() + at].name);
            assert(all[kept.len() + at] == made[at]);
        }
    }
}

/// What bringing one declared store in does to a catalog with distinct store names:
/// afterwards a store of the declared name is there, every store of that name has
/// exactly the declared index names, and the stores of other names are those of
/// before, untouched.
pub proof fn lemma_reconcile_store_effect(catalog: Seq<ObjectStoreView>, desired: ObjectStoreView)
    requires
        distinct_store_names(catalog),
    ensures
        store_names(reconcile_store(catalog, desired).1).contains(desired.name),
        forall|i: int|
            0 <= i < reconcile_store(catalog, desired).1.len() && (
            #[trigger] reconcile_store(catalog, desired).1[i]).name == desired.name
                ==> same_index_names(
                reconcile_store(catalog, desired).1[i].indexes,
                desired.indexes,
            ),
        forall|i: int|
            0 <= i < reconcile_store(catalog, desired).1.len() && (
            #[trigger] reconcile_store(catalog, desired).1[i]).name != desired.name ==> i
                < catalog.len() && catalog[i] == reconcile_store(catalog, desired).1[i],
        forall|i: int|
            0 <= i < catalog.len() ==> i < reconcile_store(catalog, desired).1.len() && (
            #[trigger] catalog[i]).name == reconcile_store(catalog, desired).1[i].name,
{
    let after = reconcile_store(catalog, desired).1;
    let names = store_names(catalog);
    if names.contains(desired.name) {
        let at = names.index_of(desired.name);
        assert(names[at] == catalog[at].name);
        lemma_reconciled_indexes_same_names(catalog[at].indexes, desired.indexes);
        assert(store_names(after)[at] == after[at].name);
        assert forall|i: int|
            0 <= i < after.len() && (#[trigger] after[i]).name == desired.name implies i == at by {
            assert(after[i].name == catalog[i].name);
        }
    } else {
        lemma_reconciled_indexes_same_names(Seq::empty(), desired.indexes);
        assert(store_names(after)[catalog.len() as int] == after[catalog.len() as int].name);
        assert forall|i: int|
            0 <= i < after.len() && (#[trigger] after[i]).name == desired.name implies i
            == catalog.len() by {
            if i < catalog.len() {
                assert(names[i] == catalog[i].name);
            }
        }
    }
}

/// Once the declared stores, no two of one name, have been brought into a
/// well-formed catalog, the catalog is well-formed and the declarations are met.
pub proof fn lemma_reconcile_stores_effect(
    catalog: Seq<ObjectStoreView>,
    desired: Seq<ObjectStoreView>,
)
    requires
        catalog_well_formed(catalog),
        distinct_store_names(desired),
    ensures
        catalog_well_formed(reconcile_stores(catalog, desired).1),
        declarations_met(reconcile_stores(catalog, desired).1, desired),
    decreases desired.len(),
{
    let after = reconcile_stores(catalog, desired).1;
    if desired.len() > 0 {
        let front = desired.drop_last();
        let last = desired.last();
        let stores = reconcile_stores(catalog, front).1;
        assert forall|a: int, b: int| 0 <= a < b < front.len() implies (#[trigger] front[a]).name != (
        #[trigger] front[b]).name by {
            assert(front[a] == desired[a] && front[b] == desired[b]);
        }
        lemma_reconcile_stores_effect(catalog, front);
        lemma_reconcile_store_well_formed(stores, last);
        lemma_reconcile_store_effect(stores, last);
        assert(after == reconcile_store(stores, last).1);
        assert(last == desired[desired.len() - 1]);
        assert forall|k: int| 0 <= k < desired.len() implies store_names(after).contains(
            (#[trigger] desired[k]).name,
        ) by {
            if k < front.len() {
                assert(front[k] == desired[k]);
                let at = choose|at: int|
                    0 <= at < store_names(stores).len() && store_names(stores)[at]
                        == front[k].name;
                assert(stores[at].name == after[at].name);
                assert(store_names(after)[at] == after[at].name);
            }
        }
        assert forall|i: int, k: int|
            0 <= i < after.len() && 0 <= k < desired.len() && (#[trigger] after[i]).name == (
            #[trigger] desired[k]).name implies same_index_names(
            after[i].indexes,
            desired[k].indexes,
        ) by {
            if k < front.len() {
                assert(front[k] == desired[k]);
                assert(desired[k].name != last.name);
                assert(stores[i] == after[i]);
            }
        }
    }
}

/// Reconciling a well-formed catalog with declared stores, no two of one name,
/// leaves a catalog that agrees with the declaration: it has the declared stores and
/// no other, and each has the declared indexes and no other.
pub proof fn lemma_reconciliation_agrees(
    catalog: Seq<ObjectStoreView>,
    desired: Seq<ObjectStoreView>,
)
    requires
        catalog_well_formed(catalog),
        distinct_store_names(desired),
    ensures
        reconciled(reconciliation(catalog, desired).1, desired),
{
    let stores = reconcile_stores(catalog, desired).1;
    let names = store_names(desired);
    let declared = store_named_in(names);
    let after = reconciliation(catalog, desired).1;
    lemma_reconcile_stores_effect(catalog, desired);
    lemma_filter_keeps_stores_distinct(stores, declared);
    assert forall|i: int| 0 <= i < after.len() implies names.contains((#[trigger] after[i]).name) by {
        stores.lemma_filter_pred(declared, i);
    }
    assert forall|k: int| 0 <= k < desired.len() implies store_names(after).contains(
        (#[trigger] desired[k]).name,
    ) by {
        let at = choose|at: int|
            0 <= at < store_names(stores).len() && store_names(stores)[at] == desired[k].name;
        assert(names[k] == desired[k].name);
        assert(stores[at].name == desired[k].name);
        stores.lemma_filter_contains(declared, at);
        let to = choose|to: int| 0 <= to < after.len() && after[to] == stores[at];
        assert(store_names(after)[to] == after[to].name);
    }
    assert forall|i: int, k: int|
        0 <= i < after.len() && 0 <= k < desired.len() && (#[trigger] after[i]).name == (
        #[trigger] desired[k]).name implies same_index_names(
        after[i].indexes,
        desired[k].indexes,
    ) by {
        let at = choose|at: int| 0 <= at < stores.len() && stores[at] == after[i];
        assert(stores[at].name == desired[k].name);
    }
}

/// Reconciliation is idempotent. Once a well-formed catalog has been reconciled
/// with declared stores, no two of one name, reconciling the result with the same
/// declaration asks for no create and no delete operation and leaves it as it is.
pub proof fn lemma_reconcile_twice(catalog: Seq<ObjectStoreView>, desired: Seq<ObjectStoreView>)
    requires
        catalog_well_formed(catalog),
        distinct_store_names(desired),
    ensures
        reconciliation(reconciliation(catalog, desired).1, desired) == (
            Seq::<SchemaChangeView>::empty(),
            reconciliation(catalog, desired).1,
        ),
{
    lemma_reconciliation_agrees(catalog, desired);
    lemma_reconciled_needs_no_change(reconciliation(catalog, desired).1, desired);
}

} // verus!
