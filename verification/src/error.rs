use vstd::prelude::*;

verus! {

/// What the host reported when an operation failed: the name of the exception and
/// its message.
#[derive(Debug, PartialEq, Eq)]
pub struct HostError {
    pub name: String,
    pub message: String,
}

/// The failures that this library reports.
#[derive(Debug, PartialEq, Eq)]
pub enum Error {
    /// The completion of a request was never signalled: its channel broke.
    AsyncChannelError,
    /// The host signalled a failure without saying what failed.
    DomExceptionNotFound,
    /// The host has no database factory to offer.
    IndexedDbNotFound,
    /// The host refused access to its database factory.
    IndexedDbNotSupported(HostError),
    /// The database could not be opened or upgraded.
    IndexedDbOpenFailed(HostError),
    /// The database could not be deleted.
    IndexedDbDeleteFailed(HostError),
    /// An object store could not be created.
    ObjectStoreCreationFailed(HostError),
    /// An object store could not be deleted.
    ObjectStoreDeletionFailed(HostError),
    /// An index could not be created.
    IndexCreationFailed(HostError),
    /// An index could not be deleted.
    IndexDeletionFailed(HostError),
    /// A request on a store or an index failed.
    RequestFailed(HostError),
    /// A transaction was asked for no store, or in a mode that only the host may use.
    TransactionOpenFailed,
    /// The transaction is committing, aborting or over: it takes no further operation.
    TransactionInactive,
    /// The host did not confirm that the transaction was committed.
    TransactionCommitFailed,
    /// The host did not confirm that the transaction was aborted.
    TransactionAbortFailed,
    /// No object store of that name is in reach.
    ObjectStoreNotFound(String),
    /// The store has no index of that name.
    IndexNotFound(String),
    /// The bounds do not make a key range: the lower one lies above the upper one, or
    /// they are equal and one of them is open.
    KeyRangeError,
}

impl HostError {
    /// A report with this exception name and message.
    pub fn new(name: &str, message: &str) -> (error: HostError)
        ensures
            error.name@ == name@,
            error.message@ == message@,
    {
        HostError { name: name.to_owned(), message: message.to_owned() }
    }

    /// Whether the host refused the operation because it would break a constraint of
    /// the store, such as the uniqueness of an index or of a key.
    pub fn is_constraint(&self) -> (constraint: bool)
        ensures
            constraint == (self.name@ == "ConstraintError"@),
    {
        let expected = "ConstraintError".to_owned();
        self.name == expected
    }
}

impl Error {
    /// What the host reported, for the failures that carry a report.
    pub open spec fn report(self) -> Option<HostError> {
        match self {
            Error::IndexedDbNotSupported(report) => Some(report),
            Error::IndexedDbOpenFailed(report) => Some(report),
            Error::IndexedDbDeleteFailed(report) => Some(report),
            Error::ObjectStoreCreationFailed(report) => Some(report),
            Error::ObjectStoreDeletionFailed(report) => Some(report),
            Error::IndexCreationFailed(report) => Some(report),
            Error::IndexDeletionFailed(report) => Some(report),
            Error::RequestFailed(report) => Some(report),
            _ => None,
        }
    }

    /// Whether the failure is a broken constraint, which a caller may recover from:
    /// a duplicate key, or a duplicate value under a unique index.
    pub fn is_constraint(&self) -> (constraint: bool)
        ensures
            constraint == match self.report() {
                Some(report) => report.name@ == "ConstraintError"@,
                None => false,
            },
    {
        match self {
            Error::IndexedDbNotSupported(report) => report.is_constraint(),
            Error::IndexedDbOpenFailed(report) => report.is_constraint(),
            Error::IndexedDbDeleteFailed(report) => report.is_constraint(),
            Error::ObjectStoreCreationFailed(report) => report.is_constraint(),
            Error::ObjectStoreDeletionFailed(report) => report.is_constraint(),
            Error::IndexCreationFailed(report) => report.is_constraint(),
            Error::IndexDeletionFailed(report) => report.is_constraint(),
            Error::RequestFailed(report) => report.is_constraint(),
            _ => false,
        }
    }
}

} // verus!
