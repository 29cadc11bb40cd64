use rexie::{settle, Error, Failure, HostError, RequestFuture};

fn request_failed(payload: &'static str) -> Error {
    Error::RequestFailed(HostError::new("DataError", payload))
}

#[test]
fn settle_hands_on_the_value() {
    assert_eq!(settle(Some(Ok::<u32, Failure<&'static str>>(7)), request_failed), Ok(7));
}

#[test]
fn settle_reports_a_closed_channel() {
    assert_eq!(
        settle(None::<Result<u32, Failure<&'static str>>>, request_failed),
        Err(Error::AsyncChannelError)
    );
}

#[test]
fn settle_maps_the_payload_with_the_callers_mapping() {
    assert_eq!(
        settle(Some(Err::<u32, _>(Failure::Reported("no such key"))), request_failed),
        Err(Error::RequestFailed(HostError::new("DataError", "no such key")))
    );
    assert_eq!(
        settle(Some(Err::<u32, _>(Failure::Reported("gone"))), |payload| {
            Error::IndexedDbOpenFailed(HostError::new("UnknownError", payload))
        }),
        Err(Error::IndexedDbOpenFailed(HostError::new("UnknownError", "gone")))
    );
}

#[test]
fn settle_reports_a_failure_without_exception() {
    assert_eq!(
        settle(Some(Err::<u32, Failure<&'static str>>(Failure::ExceptionMissing)), request_failed),
        Err(Error::DomExceptionNotFound)
    );
}

#[test]
fn failure_is_read_from_what_the_handler_found() {
    assert_eq!(Failure::from_report(Ok(Some("boom"))), Failure::Reported("boom"));
    assert_eq!(Failure::from_report(Ok::<Option<&str>, &str>(None)), Failure::ExceptionMissing);
    assert_eq!(Failure::from_report(Err("unreadable")), Failure::Reported("unreadable"));
}

#[test]
fn future_is_pending_until_a_handler_fires() {
    let mut future: RequestFuture<u32, &'static str> = RequestFuture::new();
    assert!(future.is_armed());
    assert_eq!(future.poll(request_failed), None);
    assert_eq!(future.poll(request_failed), None);
    assert!(future.is_armed());
    assert!(!future.is_resolved());
}

#[test]
fn future_resolves_to_the_value_of_the_success_handler() {
    let mut future: RequestFuture<u32, &'static str> = RequestFuture::new();
    assert!(future.on_success(42));
    assert!(!future.is_armed());
    assert_eq!(future.poll(request_failed), Some(Ok(42)));
    assert!(future.is_resolved());
}

#[test]
fn future_resolves_to_the_mapped_failure() {
    let mut future: RequestFuture<u32, &'static str> = RequestFuture::new();
    assert!(future.on_error(Failure::Reported("duplicate")));
    assert_eq!(
        future.poll(request_failed),
        Some(Err(Error::RequestFailed(HostError::new("DataError", "duplicate"))))
    );
    assert!(future.is_resolved());
}

#[test]
fn future_takes_the_first_signal_only() {
    let mut future: RequestFuture<u32, &'static str> = RequestFuture::new();
    assert!(future.on_success(1));
    assert!(!future.on_error(Failure::Reported("late")));
    assert!(!future.on_success(2));
    future.disconnect();
    assert_eq!(future.poll(request_failed), Some(Ok(1)));

    let mut future: RequestFuture<u32, &'static str> = RequestFuture::new();
    assert!(future.on_error(Failure::ExceptionMissing));
    assert!(!future.on_success(3));
    assert_eq!(future.poll(request_failed), Some(Err(Error::DomExceptionNotFound)));
}

#[test]
fn future_whose_producer_went_away_reports_a_broken_channel() {
    let mut future: RequestFuture<u32, &'static str> = RequestFuture::new();
    future.disconnect();
    assert!(!future.is_armed());
    assert!(!future.on_success(5));
    assert_eq!(future.poll(request_failed), Some(Err(Error::AsyncChannelError)));
    assert!(future.is_resolved());
}

#[test]
fn resolved_future_takes_no_further_signal() {
    let mut future: RequestFuture<u32, &'static str> = RequestFuture::new();
    assert!(future.on_success(9));
    assert_eq!(future.poll(request_failed), Some(Ok(9)));
    assert!(!future.on_success(10));
    assert!(!future.on_error(Failure::Reported("late")));
    future.disconnect();
    assert!(future.is_resolved());
}

#[test]
fn constraint_failures_are_told_apart() {
    let duplicate = Error::RequestFailed(HostError::new(
        "ConstraintError",
        "Unable to add key to index 'email': at least one key does not satisfy the uniqueness requirements.",
    ));
    assert!(duplicate.is_constraint());
    assert!(HostError::new("ConstraintError", "").is_constraint());
    assert!(!HostError::new("constrainterror", "").is_constraint());
    assert!(!Error::RequestFailed(HostError::new("DataError", "ConstraintError")).is_constraint());
    assert!(Error::IndexCreationFailed(HostError::new("ConstraintError", "")).is_constraint());
    assert!(!Error::AsyncChannelError.is_constraint());
    assert!(!Error::TransactionCommitFailed.is_constraint());
    assert!(!Error::ObjectStoreNotFound("ConstraintError".to_string()).is_constraint());
}

#[test]
fn host_error_keeps_name_and_message() {
    let report = HostError::new("NotFoundError", "no such store");
    assert_eq!(report.name, "NotFoundError");
    assert_eq!(report.message, "no such store");
}
