use vstd::prelude::*;

use crate::error::Error;

verus! {

/// What a failure signal of the host carries.
#[derive(Debug, PartialEq, Eq)]
pub enum Failure<P> {
    /// The payload that the host reported.
    Reported(P),
    /// The host signalled a failure and attached no exception to it.
    ExceptionMissing,
}

/// Where the handoff of one host operation stands.
#[derive(Debug, PartialEq, Eq)]
pub enum BridgeState<V, P> {
    /// Both handlers are registered and neither has fired.
    Armed,
    /// One handler has fired with this outcome; both are disarmed.
    Fired(Result<V, Failure<P>>),
    /// The producing side went away before either handler fired.
    Broken,
    /// The outcome was handed to the consumer.
    Resolved,
}

/// The awaitable side of one host operation. The operation signals its completion
/// at most once, by its success handler or by its failure handler, and the outcome
/// is handed out once.
#[derive(Debug)]
pub struct RequestFuture<V, P> {
    state: BridgeState<V, P>,
}

impl<P> Failure<P> {
    /// Reads what the failure handler found on the request: an exception, no
    /// exception at all, or a failure to even read it, whose payload is then what is
    /// reported.
    pub fn from_report(found: Result<Option<P>, P>) -> (failure: Failure<P>)
        ensures
            failure == match found {
                Ok(Some(exception)) => Failure::Reported(exception),
                Ok(None) => Failure::ExceptionMissing,
                Err(payload) => Failure::Reported(payload),
            },
    {
        match found {
            Ok(Some(exception)) => Failure::Reported(exception),
            Ok(None) => Failure::ExceptionMissing,
            Err(payload) => Failure::Reported(payload),
        }
    }
}

impl<V, P> BridgeState<V, P> {
    /// The state after a handler was invoked with `outcome`: the first signal is
    /// taken, and a handler that was disarmed changes nothing.
    pub open spec fn signalled(self, outcome: Result<V, Failure<P>>) -> BridgeState<V, P> {
        match self {
            BridgeState::Armed => BridgeState::Fired(outcome),
            _ => self,
        }
    }

    /// The state after the producing side went away.
    pub open spec fn disconnected(self) -> BridgeState<V, P> {
        match self {
            BridgeState::Armed => BridgeState::Broken,
            _ => self,
        }
    }

    /// The state after the signals were delivered in order.
    pub open spec fn signalled_all(self, outcomes: Seq<Result<V, Failure<P>>>) -> BridgeState<V, P>
        decreases outcomes.len(),
    {
        if outcomes.len() == 0 {
            self
        } else {
            self.signalled(outcomes.first()).signalled_all(outcomes.drop_first())
        }
    }
}

/// Turns what the handoff delivered into the result of the operation. `None` stands
/// for a channel that closed with nothing in it. A reported payload is mapped by the
/// caller's own `map_err`, since each call site has its own typed error.
pub fn settle<V, P, F: FnOnce(P) -> Error>(
    delivered: Option<Result<V, Failure<P>>>,
    map_err: F,
) -> (result: Result<V, Error>)
    requires
        forall|payload: P| map_err.requires((payload,)),
    ensures
        match delivered {
            None => result == Err::<V, Error>(Error::AsyncChannelError),
            Some(Ok(value)) => result == Ok::<V, Error>(value),
            Some(Err(Failure::ExceptionMissing)) => result == Err::<V, Error>(
                Error::DomExceptionNotFound,
            ),
            Some(Err(Failure::Reported(payload))) => result matches Err(error) && map_err.ensures(
                (payload,),
                error,
            ),
        },
{
    match delivered {
        None => Err(Error::AsyncChannelError),
        Some(Ok(value)) => Ok(value),
        Some(Err(Failure::ExceptionMissing)) => Err(Error::DomExceptionNotFound),
        Some(Err(Failure::Reported(payload))) => Err(map_err(payload)),
    }
}

impl<V, P> View for RequestFuture<V, P> {
    type V = BridgeState<V, P>;

    closed spec fn view(&self) -> BridgeState<V, P> {
        self.state
    }
}

impl<V, P> RequestFuture<V, P> {
    /// Arms the handoff. This comes before the operation is allowed to run, so that
    /// no signal can be missed.
    pub fn new() -> (future: RequestFuture<V, P>)
        ensures
            future@ == BridgeState::<V, P>::Armed,
    {
        RequestFuture { state: BridgeState::Armed }
    }

    /// Whether neither handler has fired yet and the producing side is still there.
    pub fn is_armed(&self) -> (armed: bool)
        ensures
            armed == (self@ is Armed),
    {
        match &self.state {
            BridgeState::Armed => true,
            _ => false,
        }
    }

    /// Whether the outcome was handed out already.
    pub fn is_resolved(&self) -> (resolved: bool)
        ensures
            resolved == (self@ is Resolved),
    {
        match &self.state {
            BridgeState::Resolved => true,
            _ => false,
        }
    }

    /// The success handler: the operation completed with `value`. Returns whether the
    /// signal was taken; it is not once either handler has fired.
    pub fn on_success(&mut self, value: V) -> (taken: bool)
        ensures
            taken == (old(self)@ is Armed),
            final(self)@ == old(self)@.signalled(Ok(value)),
    {
        if self.is_armed() {
            self.state = BridgeState::Fired(Ok(value));
            true
        } else {
            false
        }
    }

    /// The failure handler: the operation failed with `failure`. Returns whether the
    /// signal was taken; it is not once either handler has fired.
    pub fn on_error(&mut self, failure: Failure<P>) -> (taken: bool)
        ensures
            taken == (old(self)@ is Armed),
            final(self)@ == old(self)@.signalled(Err(failure)),
    {
        if self.is_armed() {
            self.state = BridgeState::Fired(Err(failure));
            true
        } else {
            false
        }
    }

    /// The producing side went away. If nothing was signalled, the handoff is broken.
    pub fn disconnect(&mut self)
        ensures
            final(self)@ == old(self)@.disconnected(),
    {
        if self.is_armed() {
            self.state = BridgeState::Broken;
        }
    }

    /// Asks for the outcome. `None` means that the operation is still pending.
    /// Otherwise the outcome is handed out and the future is resolved for good: it
    /// must not be polled again.
    pub fn poll<F: FnOnce(P) -> Error>(&mut self, map_err: F) -> (outcome: Option<
        Result<V, Error>,
    >)
        requires
            !(old(self)@ is Resolved),
            forall|payload: P| map_err.requires((payload,)),
        ensures
            outcome is None <==> old(self)@ is Armed,
            final(self)@ == if old(self)@ is Armed {
                old(self)@
            } else {
                BridgeState::Resolved
            },
            match old(self)@ {
                BridgeState::Armed => true,
                BridgeState::Broken => outcome == Some(
                    Err::<V, Error>(Error::AsyncChannelError),
                ),
                BridgeState::Fired(Ok(value)) => outcome == Some(Ok::<V, Error>(value)),
                BridgeState::Fired(Err(Failure::ExceptionMissing)) => outcome == Some(
                    Err::<V, Error>(Error::DomExceptionNotFound),
                ),
                BridgeState::Fired(Err(Failure::Reported(payload))) => outcome matches Some(
                    Err(error),
                ) && map_err.ensures((payload,), error),
                BridgeState::Resolved => true,
            },
    {
        if self.is_armed() {
            return None;
        }
        let mut state: BridgeState<V, P> = BridgeState::Resolved;
        core::mem::swap(&mut self.state, &mut state);
        match state {
            BridgeState::Fired(outcome) => Some(settle(Some(outcome), map_err)),
            _ => Some(settle(None, map_err)),
        }
    }
}

/// A handoff takes the first signal and no other: whatever is signalled after it
/// changes nothing.
pub proof fn lemma_first_signal_wins<V, P>(
    state: BridgeState<V, P>,
    first: Result<V, Failure<P>>,
    later: Seq<Result<V, Failure<P>>>,
)
    ensures
        state.signalled(first).signalled_all(later) == state.signalled(first),
        state.signalled(first).disconnected() == state.signalled(first),
        state is Armed ==> state.signalled(first) == BridgeState::Fired(first),
    decreases later.len(),
{
    if later.len() > 0 {
        let next = state.signalled(first);
        assert(next.signalled(later.first()) == next);
        lemma_first_signal_wins(state, first, later.drop_first());
    }
}

/// A resolved handoff stays resolved: no signal and no disconnection brings an
/// outcome back.
pub proof fn lemma_resolved_is_final<V, P>(later: Seq<Result<V, Failure<P>>>)
    ensures
        BridgeState::<V, P>::Resolved.signalled_all(later) == BridgeState::<V, P>::Resolved,
        BridgeState::<V, P>::Resolved.disconnected() == BridgeState::<V, P>::Resolved,
    decreases later.len(),
{
    if later.len() > 0 {
        lemma_resolved_is_final::<V, P>(later.drop_first());
    }
}

} // verus!
