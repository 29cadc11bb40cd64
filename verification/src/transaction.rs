use vstd::prelude::*;

use crate::cursor::{Cursor, CursorState};
use crate::direction::Direction;
use crate::error::Error;
use crate::index::{index_names, Index, IndexView};
use crate::key_path::KeyPath;
use crate::object_store::{
    cloned_key_path, key_path_view, store_names, store_views, ObjectStore, ObjectStoreView,
};
use crate::schema::{position_of_index, position_of_store};

verus! {

/// What a transaction may do.
#[derive(Debug, Clone, Copy, PartialEq, Eq, Structural)]
pub enum TransactionMode {
    /// Read records.
    ReadOnly,
    /// Read, write and delete records of existing stores.
    ReadWrite,
    /// Also create and remove stores and indexes. Only the host opens such a
    /// transaction, for an upgrade.
    VersionChange,
}

/// How the host says a transaction ended.
#[derive(Debug, Clone, Copy, PartialEq, Eq, Structural)]
pub enum TransactionResult {
    Committed,
    Aborted,
}

/// Where a transaction stands in its life.
#[derive(Debug, Clone, Copy, PartialEq, Eq, Structural)]
pub enum TransactionState {
    /// Operations may be issued.
    Active,
    /// A commit was requested.
    Committing,
    /// The host confirmed the commit.
    Committed,
    /// An abort was requested.
    Aborting,
    /// The host confirmed the abort.
    Aborted,
    /// An operation failed and nobody handled it.
    Erroring,
    /// The transaction ended in failure.
    Errored,
}

/// A transaction as contracts see it.
pub struct TransactionView {
    pub mode: TransactionMode,
    /// The stores in scope, fixed when the transaction was opened.
    pub stores: Seq<ObjectStoreView>,
    pub state: TransactionState,
}

/// A transaction on the database, over the stores that were named when it was opened.
#[derive(Debug)]
pub struct Transaction {
    mode: TransactionMode,
    stores: Vec<ObjectStore>,
    state: TransactionState,
}

/// An object store within a transaction.
#[derive(Debug)]
pub struct Store {
    store: ObjectStore,
}

/// An index of an object store within a transaction.
#[derive(Debug)]
pub struct StoreIndex {
    index: Index,
}

impl TransactionState {
    /// Whether the transaction is over. No operation is permitted from here on.
    pub open spec fn is_terminal(self) -> bool {
        self == TransactionState::Committed || self == TransactionState::Aborted || self
            == TransactionState::Errored
    }

    /// The state after the caller asked for `next`, which is `Committing`, `Aborting`
    /// or `Erroring`: only an active transaction takes the request.
    pub open spec fn requested(self, next: TransactionState) -> TransactionState {
        if self == TransactionState::Active {
            next
        } else {
            self
        }
    }

    /// What the caller is told when the host signals the end of the transaction with
    /// `outcome`.
    ///
    /// A failure is handed on. A commit counts only if the host says `Committed`, and
    /// an abort only if it says `Aborted`. A transaction that was neither committed
    /// nor aborted by the caller ends as the host says. A transaction that is over
    /// already takes no further signal.
    pub open spec fn completion(self, outcome: Result<TransactionResult, Error>) -> Result<
        TransactionResult,
        Error,
    > {
        if self.is_terminal() {
            Err(Error::TransactionInactive)
        } else {
            match outcome {
                Err(error) => Err(error),
                Ok(result) => {
                    if self == TransactionState::Committing && result
                        != TransactionResult::Committed {
                        Err(Error::TransactionCommitFailed)
                    } else if self == TransactionState::Aborting && result
                        != TransactionResult::Aborted {
                        Err(Error::TransactionAbortFailed)
                    } else {
                        Ok(result)
                    }
                },
            }
        }
    }

    /// The state after the host signalled the end of the transaction with `outcome`.
    pub open spec fn completed(self, outcome: Result<TransactionResult, Error>) -> TransactionState {
        if self.is_terminal() {
            self
        } else {
            match self.completion(outcome) {
                Err(_) => TransactionState::Errored,
                Ok(result) => {
                    if self == TransactionState::Erroring {
                        TransactionState::Errored
                    } else if result == TransactionResult::Committed {
                        TransactionState::Committed
                    } else {
                        TransactionState::Aborted
                    }
                },
            }
        }
    }
}

impl View for Transaction {
    type V = TransactionView;

    closed spec fn view(&self) -> TransactionView {
        TransactionView { mode: self.mode, stores: store_views(self.stores@), state: self.state }
    }
}

impl View for Store {
    type V = ObjectStoreView;

    closed spec fn view(&self) -> ObjectStoreView {
        self.store@
    }
}

impl View for StoreIndex {
    type V = IndexView;

    closed spec fn view(&self) -> IndexView {
        self.index@
    }
}

impl Transaction {
    /// Opens a transaction over these stores. It is active at once.
    pub fn new(mode: TransactionMode, stores: Vec<ObjectStore>) -> (transaction: Transaction)
        ensures
            transaction@ == (TransactionView {
                mode,
                stores: store_views(stores@),
                state: TransactionState::Active,
            }),
    {
        Transaction { mode, stores, state: TransactionState::Active }
    }

    /// The mode of the transaction.
    pub fn mode(&self) -> (mode: TransactionMode)
        ensures
            mode == self@.mode,
    {
        self.mode
    }

    /// Where the transaction stands.
    pub fn state(&self) -> (state: TransactionState)
        ensures
            state == self@.state,
    {
        self.state
    }

    /// The names of the stores in scope, in order.
    pub fn store_names(&self) -> (names: Vec<String>)
        ensures
            names@.map_values(|name: String| name@) == store_names(self@.stores),
    {
        let mut names: Vec<String> = Vec::new();
        let mut i: usize = 0;
        while i < self.stores.len()
            invariant
                i <= self.stores.len(),
                names.len() == i,
                forall|j: int| 0 <= j < i ==> names[j]@ == self.stores[j].name@,
            decreases self.stores.len() - i,
        {
            names.push(self.stores[i].name.clone());
            i += 1;
        }
        assert(names@.map_values(|name: String| name@) =~= store_names(self@.stores));
        names
    }

    /// An accessor for a store in scope. Only an active transaction hands one out.
    pub fn store(&self, store_name: &str) -> (found: Result<Store, Error>)
        ensures
            match found {
                Ok(store) => {
                    &&& self@.state == TransactionState::Active
                    &&& self@.stores.contains(store@)
                    &&& store@.name == store_name@
                },
                Err(Error::TransactionInactive) => self@.state != TransactionState::Active,
                Err(Error::ObjectStoreNotFound(name)) => {
                    &&& self@.state == TransactionState::Active
                    &&& !store_names(self@.stores).contains(store_name@)
                    &&& name@ == store_name@
                },
                Err(_) => false,
            },
    {
        if self.state != TransactionState::Active {
            return Err(Error::TransactionInactive);
        }
        let name = store_name.to_owned();
        match position_of_store(&self.stores, &name) {
            Some(at) => {
                let store = Store { store: self.stores[at].clone() };
                assert(self@.stores[at as int] == store@);
                Ok(store)
            },
            None => Err(Error::ObjectStoreNotFound(name)),
        }
    }

    /// Takes the caller's request to commit. The host is asked next, and `done` takes
    /// its answer.
    pub fn commit(&mut self) -> (taken: Result<(), Error>)
        ensures
            final(self)@ == (TransactionView {
                state: old(self)@.state.requested(TransactionState::Committing),
                ..old(self)@
            }),
            taken == if old(self)@.state == TransactionState::Active {
                Ok::<(), Error>(())
            } else {
                Err::<(), Error>(Error::TransactionInactive)
            },
    {
        if self.state == TransactionState::Active {
            self.state = TransactionState::Committing;
            Ok(())
        } else {
            Err(Error::TransactionInactive)
        }
    }

    /// Takes the caller's request to abort. The listener for the host's confirmation
    /// is armed next, then the host is asked, and `done` takes its answer.
    pub fn abort(&mut self) -> (taken: Result<(), Error>)
        ensures
            final(self)@ == (TransactionView {
                state: old(self)@.state.requested(TransactionState::Aborting),
                ..old(self)@
            }),
            taken == if old(self)@.state == TransactionState::Active {
                Ok::<(), Error>(())
            } else {
                Err::<(), Error>(Error::TransactionInactive)
            },
    {
        if self.state == TransactionState::Active {
            self.state = TransactionState::Aborting;
            Ok(())
        } else {
            Err(Error::TransactionInactive)
        }
    }

    /// Notes that an operation of the transaction failed and the failure was not
    /// handled: the host will end the transaction by itself.
    pub fn fail(&mut self)
        ensures
            final(self)@ == (TransactionView {
                state: old(self)@.state.requested(TransactionState::Erroring),
                ..old(self)@
            }),
    {
        if self.state == TransactionState::Active {
            self.state = TransactionState::Erroring;
        }
    }

    /// Takes the host's signal that the transaction ended, and says what the caller
    /// is told. A transaction that was left alone ends here too, by the host's own
    /// commit.
    pub fn done(&mut self, outcome: Result<TransactionResult, Error>) -> (result: Result<
        TransactionResult,
        Error,
    >)
        ensures
            result == old(self)@.state.completion(outcome),
            final(self)@ == (TransactionView {
                state: old(self)@.state.completed(outcome),
                ..old(self)@
            }),
            final(self)@.state.is_terminal(),
    {
        let state = self.state;
        if state == TransactionState::Committed || state == TransactionState::Aborted || state
            == TransactionState::Errored {
            return Err(Error::TransactionInactive);
        }
        match outcome {
            Err(error) => {
                self.state = TransactionState::Errored;
                Err(error)
            },
            Ok(result) => {
                if state == TransactionState::Committing && result
                    != TransactionResult::Committed {
                    self.state = TransactionState::Errored;
                    Err(Error::TransactionCommitFailed)
                } else if state == TransactionState::Aborting && result
                    != TransactionResult::Aborted {
                    self.state = TransactionState::Errored;
                    Err(Error::TransactionAbortFailed)
                } else {
                    if state == TransactionState::Erroring {
                        self.state = TransactionState::Errored;
                    } else if result == TransactionResult::Committed {
                        self.state = TransactionState::Committed;
                    } else {
                        self.state = TransactionState::Aborted;
                    }
                    Ok(result)
                }
            },
        }
    }
}

impl Store {
    /// The name of the store.
    pub fn name(&self) -> (name: String)
        ensures
            name@ == self@.name,
    {
        self.store.name.clone()
    }

    /// Whether the store numbers its records itself.
    pub fn auto_increment(&self) -> (auto_increment: bool)
        ensures
            auto_increment == self@.auto_increment,
    {
        self.store.auto_increment
    }

    /// Where the keys of the store are taken from.
    pub fn key_path(&self) -> (key_path: Option<KeyPath>)
        ensures
            key_path_view(key_path) == self@.key_path,
    {
        cloned_key_path(&self.store.key_path)
    }

    /// The names of the indexes of the store, in order.
    pub fn index_names(&self) -> (names: Vec<String>)
        ensures
            names@.map_values(|name: String| name@) == index_names(self@.indexes),
    {
        let mut names: Vec<String> = Vec::new();
        let mut i: usize = 0;
        while i < self.store.indexes.len()
            invariant
                i <= self.store.indexes.len(),
                names.len() == i,
                forall|j: int| 0 <= j < i ==> names[j]@ == self.store.indexes[j].name@,
            decreases self.store.indexes.len() - i,
        {
            names.push(self.store.indexes[i].name.clone());
            i += 1;
        }
        assert(names@.map_values(|name: String| name@) =~= index_names(self@.indexes));
        names
    }

    /// An accessor for the index of that name.
    pub fn index(&self, name: &str) -> (found: Result<StoreIndex, Error>)
        ensures
            match found {
                Ok(index) => self@.indexes.contains(index@) && index@.name == name@,
                Err(Error::IndexNotFound(missing)) => {
                    &&& !index_names(self@.indexes).contains(name@)
                    &&& missing@ == name@
                },
                Err(_) => false,
            },
    {
        let name = name.to_owned();
        match position_of_index(&self.store.indexes, &name) {
            Some(at) => {
                let index = StoreIndex { index: self.store.indexes[at].clone() };
                assert(self@.indexes[at as int] == index@);
                Ok(index)
            },
            None => Err(Error::IndexNotFound(name)),
        }
    }

    /// Starts a scan of the store: the cursor that decides, answer by answer, how
    /// the host cursor is driven and which pairs are returned.
    pub fn scan(&self, limit: Option<u32>, offset: Option<u32>, direction: Option<Direction>) -> (cursor:
        Cursor)
        ensures
            cursor@ == CursorState::opened(direction, limit, offset),
    {
        Cursor::open(direction, limit, offset)
    }
}

impl StoreIndex {
    /// The name of the index.
    pub fn name(&self) -> (name: String)
        ensures
            name@ == self@.name,
    {
        self.index.name.clone()
    }

    /// Whether two records may not share an indexed key.
    pub fn unique(&self) -> (unique: bool)
        ensures
            unique == self@.unique,
    {
        self.index.unique
    }

    /// Whether the elements of the indexed field are indexed one by one.
    pub fn multi_entry(&self) -> (multi_entry: bool)
        ensures
            multi_entry == self@.multi_entry,
    {
        self.index.multi_entry
    }

    /// Starts a scan of the index: the cursor that decides, answer by answer, how
    /// the host cursor is driven and which pairs are returned.
    pub fn scan(&self, limit: Option<u32>, offset: Option<u32>, direction: Option<Direction>) -> (cursor:
        Cursor)
        ensures
            cursor@ == CursorState::opened(direction, limit, offset),
    {
        Cursor::open(direction, limit, offset)
    }
}

/// A transaction that is over stays as it is: no request and no signal of the host
/// moves it, and every further signal is answered with `TransactionInactive`.
pub proof fn lemma_terminal_is_final(
    state: TransactionState,
    next: TransactionState,
    outcome: Result<TransactionResult, Error>,
)
    requires
        state.is_terminal(),
    ensures
        state.requested(next) == state,
        state.completed(outcome) == state,
        state.completion(outcome) == Err::<TransactionResult, Error>(Error::TransactionInactive),
{
}

/// Whatever the host signals, the transaction is over afterwards; and the caller is
/// told `Ok` only if the host named the end that the caller had asked for.
pub proof fn lemma_completion_is_terminal(
    state: TransactionState,
    outcome: Result<TransactionResult, Error>,
)
    ensures
        state.completed(outcome).is_terminal(),
        state == TransactionState::Committing && state.completion(outcome) is Ok ==> outcome
            == Ok::<TransactionResult, Error>(TransactionResult::Committed) && state.completed(
            outcome,
        ) == TransactionState::Committed,
        state == TransactionState::Aborting && state.completion(outcome) is Ok ==> outcome
            == Ok::<TransactionResult, Error>(TransactionResult::Aborted) && state.completed(
            outcome,
        ) == TransactionState::Aborted,
{
}

} // verus!
