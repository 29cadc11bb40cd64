use vstd::prelude::*;

use crate::direction::Direction;
use crate::key::KeyView;
use crate::key_range::KeyRangeView;

verus! {

/// What the scan loop does after one resumption of the host cursor.
#[derive(Debug, PartialEq, Eq)]
pub enum CursorAction<K, V> {
    /// Stop; nothing is recorded.
    Break,
    /// Record the pair, then stop.
    BreakWithValue(K, V),
    /// Keep going; nothing is recorded.
    Continue,
    /// Record the pair and keep going.
    ContinueWithValue(K, V),
}

/// What is asked of the host cursor after one resumption. At most one of these is
/// outstanding per cursor: the next one is decided only when the host has answered.
#[derive(Debug, Clone, Copy, PartialEq, Eq, Structural)]
pub enum CursorCommand {
    /// Skip forward by this many positions.
    Advance(u32),
    /// Move to the next record.
    Continue,
    /// Ask nothing more: the scan is over.
    Stop,
}

/// The state of one scan, as contracts see it.
pub struct CursorState {
    pub direction: Direction,
    /// How many more pairs may be recorded; `None` when the scan is unbounded.
    pub remaining: Option<u32>,
    /// How many positions are still to be skipped before the first pair.
    pub pending_offset: u32,
}

/// One scan over a store or an index: the direction it was opened with, the remaining
/// limit and the pending skip offset. It lives for a single scan call.
#[derive(Debug)]
pub struct Cursor {
    direction: Direction,
    remaining: Option<u32>,
    pending_offset: u32,
}

impl View for Cursor {
    type V = CursorState;

    closed spec fn view(&self) -> CursorState {
        CursorState {
            direction: self.direction,
            remaining: self.remaining,
            pending_offset: self.pending_offset,
        }
    }
}

impl<K, V> CursorAction<K, V> {
    /// The pair that this action records, if any.
    pub open spec fn pair(self) -> Option<(K, V)> {
        match self {
            CursorAction::Break => None,
            CursorAction::BreakWithValue(key, value) => Some((key, value)),
            CursorAction::Continue => None,
            CursorAction::ContinueWithValue(key, value) => Some((key, value)),
        }
    }

    /// Whether the scan goes on after this action.
    pub open spec fn continues(self) -> bool {
        self is Continue || self is ContinueWithValue
    }

    /// The pairs recorded so far, once this action has been applied to them.
    pub open spec fn applied(self, pairs: Seq<(K, V)>) -> Seq<(K, V)> {
        match self.pair() {
            Some(pair) => pairs.push(pair),
            None => pairs,
        }
    }

    /// Applies the action to the pairs recorded so far and says whether the scan goes on.
    pub fn collect(self, pairs: &mut Vec<(K, V)>) -> (more: bool)
        ensures
            final(pairs)@ == self.applied(old(pairs)@),
            more == self.continues(),
    {
        match self {
            CursorAction::Break => false,
            CursorAction::BreakWithValue(key, value) => {
                pairs.push((key, value));
                false
            },
            CursorAction::Continue => true,
            CursorAction::ContinueWithValue(key, value) => {
                pairs.push((key, value));
                true
            },
        }
    }
}

impl CursorState {
    /// The state of a scan that was just opened.
    pub open spec fn opened(
        direction: Option<Direction>,
        limit: Option<u32>,
        offset: Option<u32>,
    ) -> CursorState {
        CursorState {
            direction: match direction {
                Some(d) => d,
                None => Direction::Next,
            },
            remaining: limit,
            pending_offset: match offset {
                Some(o) => o,
                None => 0,
            },
        }
    }

    /// One resumption. `record` is what the host cursor points at, `None` when it is
    /// exhausted. The result is the next state, what to do with the record and what to
    /// ask of the host.
    ///
    /// An exhausted cursor ends the scan. A pending offset is spent on the first record,
    /// which is skipped over unrecorded. Otherwise the record is kept while the limit
    /// allows, and the scan stops with the record that uses the limit up.
    pub open spec fn resumed<K, V>(self, record: Option<(K, V)>) -> (
        CursorState,
        CursorAction<K, V>,
        CursorCommand,
    ) {
        match record {
            None => (self, CursorAction::Break, CursorCommand::Stop),
            Some((key, value)) => {
                if self.pending_offset > 0 {
                    (
                        CursorState { pending_offset: 0, ..self },
                        CursorAction::Continue,
                        CursorCommand::Advance(self.pending_offset),
                    )
                } else {
                    match self.remaining {
                        None => (
                            self,
                            CursorAction::ContinueWithValue(key, value),
                            CursorCommand::Continue,
                        ),
                        Some(left) => {
                            if left == 0 {
                                (self, CursorAction::Break, CursorCommand::Stop)
                            } else if left == 1 {
                                (
                                    CursorState { remaining: Some(0), ..self },
                                    CursorAction::BreakWithValue(key, value),
                                    CursorCommand::Stop,
                                )
                            } else {
                                (
                                    CursorState { remaining: Some((left - 1) as u32), ..self },
                                    CursorAction::ContinueWithValue(key, value),
                                    CursorCommand::Continue,
                                )
                            }
                        },
                    }
                }
            },
        }
    }
}

impl Cursor {
    /// Starts a scan. The direction defaults to forward with duplicates, the offset to
    /// none, and without a limit the scan runs to the end.
    pub fn open(direction: Option<Direction>, limit: Option<u32>, offset: Option<u32>) -> (cursor:
        Cursor)
        ensures
            cursor@ == CursorState::opened(direction, limit, offset),
    {
        Cursor {
            direction: Direction::or_default(direction),
            remaining: limit,
            pending_offset: match offset {
                Some(o) => o,
                None => 0,
            },
        }
    }

    /// The direction the host cursor is to be opened with.
    pub fn direction(&self) -> (direction: Direction)
        ensures
            direction == self@.direction,
    {
        self.direction
    }

    /// How many more pairs the scan may record, `None` when it is unbounded.
    pub fn remaining(&self) -> (remaining: Option<u32>)
        ensures
            remaining == self@.remaining,
    {
        self.remaining
    }

    /// How many positions are still to be skipped before the first pair.
    pub fn pending_offset(&self) -> (pending: u32)
        ensures
            pending == self@.pending_offset,
    {
        self.pending_offset
    }

    /// Takes one answer of the host cursor and decides how the scan goes on.
    pub fn resume<K, V>(&mut self, record: Option<(K, V)>) -> (decision: (
        CursorAction<K, V>,
        CursorCommand,
    ))
        ensures
            (final(self)@, decision.0, decision.1) == old(self)@.resumed(record),
    {
        match record {
            None => (CursorAction::Break, CursorCommand::Stop),
            Some((key, value)) => {
                if self.pending_offset > 0 {
                    let skip: u32 = self.pending_offset;
                    self.pending_offset = 0;
                    (CursorAction::Continue, CursorCommand::Advance(skip))
                } else {
                    match self.remaining {
                        None => (
                            CursorAction::ContinueWithValue(key, value),
                            CursorCommand::Continue,
                        ),
                        Some(left) => {
                            if left == 0 {
                                (CursorAction::Break, CursorCommand::Stop)
                            } else if left == 1 {
                                self.remaining = Some(0);
                                (CursorAction::BreakWithValue(key, value), CursorCommand::Stop)
                            } else {
                                self.remaining = Some(left - 1);
                                (
                                    CursorAction::ContinueWithValue(key, value),
                                    CursorCommand::Continue,
                                )
                            }
                        },
                    }
                }
            },
        }
    }
}

/// What the host cursor points at when it stands at `position` of `records`.
pub open spec fn record_at<K, V>(records: Seq<(K, V)>, position: nat) -> Option<(K, V)> {
    if position < records.len() {
        Some(records[position as int])
    } else {
        None
    }
}

/// The pairs that a scan ends with when it is resumed at `position` of `records`, the
/// sequence that the host cursor yields, with `pairs` recorded so far. After each
/// resumption the host moves as it was told.
pub open spec fn scan_from<K, V>(
    state: CursorState,
    records: Seq<(K, V)>,
    position: nat,
    pairs: Seq<(K, V)>,
) -> Seq<(K, V)>
    decreases
        (if position < records.len() {
            records.len() - position
        } else {
            0
        }),
{
    let (next, action, command) = state.resumed(record_at(records, position));
    let pairs = action.applied(pairs);
    match command {
        CursorCommand::Stop => pairs,
        CursorCommand::Advance(count) => scan_from(next, records, position + count as nat, pairs),
        CursorCommand::Continue => scan_from(next, records, position + 1, pairs),
    }
}

/// The part of `records` that a scan with this limit and offset is to return: the
/// positions from `offset` on, at most `limit` of them.
pub open spec fn scan_window<K, V>(records: Seq<(K, V)>, limit: Option<u32>, offset: Option<u32>) -> Seq<
    (K, V),
> {
    let total = records.len() as int;
    let skipped: int = match offset {
        Some(o) => o as int,
        None => 0,
    };
    let from = if skipped < total {
        skipped
    } else {
        total
    };
    let to = match limit {
        Some(l) => if from + l < total {
            from + l
        } else {
            total
        },
        None => total,
    };
    records.subrange(from, to)
}

/// Once the offset is spent, a scan resumed at `position` records the next positions
/// while the limit allows and leaves what it had recorded before untouched.
proof fn lemma_scan_from_records_prefix<K, V>(
    state: CursorState,
    records: Seq<(K, V)>,
    position: nat,
    pairs: Seq<(K, V)>,
)
    requires
        state.pending_offset == 0,
    ensures
        scan_from(state, records, position, pairs) == pairs + scan_window(
            records.skip(
                if position < records.len() {
                    position as int
                } else {
                    records.len() as int
                },
            ),
            state.remaining,
            None,
        ),
    decreases
        (if position < records.len() {
            records.len() - position
        } else {
            0
        }),
{
    let total = records.len();
    if position >= total {
        assert(records.skip(total as int).len() == 0);
        assert(scan_from(state, records, position, pairs) =~= pairs);
    } else {
        let rest = records.skip(position as int);
        let (next, action, command) = state.resumed(record_at(records, position));
        let kept = action.applied(pairs);
        assert(rest[0] == records[position as int]);
        match command {
            CursorCommand::Continue => {
                lemma_scan_from_records_prefix(next, records, position + 1, kept);
                let after = if position + 1 < total {
                    position + 1
                } else {
                    total
                };
                assert(records.skip(after as int) =~= rest.skip(1));
                let tail = scan_window(rest.skip(1), next.remaining, None);
                let whole = scan_window(rest, state.remaining, None);
                assert(whole =~= seq![rest[0]] + tail);
                assert(kept + tail =~= pairs + whole);
            },
            CursorCommand::Stop => {
                let whole = scan_window(rest, state.remaining, None);
                assert(kept =~= pairs + whole);
            },
            CursorCommand::Advance(count) => {},
        }
    }
}

/// A scan over the records that the host cursor yields returns the positions from the
/// offset on, at most as many as the limit allows, in the order in which the host
/// yields them.
pub proof fn lemma_scan_returns_window<K, V>(
    records: Seq<(K, V)>,
    direction: Option<Direction>,
    limit: Option<u32>,
    offset: Option<u32>,
)
    ensures
        scan_from(CursorState::opened(direction, limit, offset), records, 0, Seq::empty())
            == scan_window(records, limit, offset),
{
    let state = CursorState::opened(direction, limit, offset);
    let total = records.len();
    let window = scan_window(records, limit, offset);
    if state.pending_offset == 0 {
        lemma_scan_from_records_prefix(state, records, 0, Seq::empty());
        assert(records.skip(0) =~= records);
        assert(Seq::<(K, V)>::empty() + window =~= window);
    } else if total == 0 {
        assert(window =~= Seq::empty());
    } else {
        let (next, action, command) = state.resumed(record_at(records, 0));
        let skipped = state.pending_offset as nat;
        lemma_scan_from_records_prefix(next, records, skipped, Seq::empty());
        let from = if skipped < total {
            skipped as int
        } else {
            total as int
        };
        let rest = records.skip(from);
        assert(scan_window(rest, limit, None) =~= window);
        assert(Seq::<(K, V)>::empty() + window =~= window);
    }
}

/// With `offset + limit` no greater than the number of records, a scan returns exactly
/// `limit` pairs: the positions from `offset` up to `offset + limit`.
pub proof fn lemma_scan_within_bounds<K, V>(
    records: Seq<(K, V)>,
    direction: Option<Direction>,
    limit: u32,
    offset: u32,
)
    requires
        offset + limit <= records.len(),
    ensures
        scan_from(
            CursorState::opened(direction, Some(limit), Some(offset)),
            records,
            0,
            Seq::empty(),
        ) == records.subrange(offset as int, offset + limit),
        scan_from(
            CursorState::opened(direction, Some(limit), Some(offset)),
            records,
            0,
            Seq::empty(),
        ).len() == limit,
{
    lemma_scan_returns_window(records, direction, Some(limit), Some(offset));
}

/// The order in which the host cursor yields the records that it is to visit, given
/// in ascending key order: as they are for a forward direction, reversed for a
/// backward one.
pub open spec fn visited<K, V>(ascending: Seq<(K, V)>, direction: Option<Direction>) -> Seq<(K, V)> {
    if CursorState::opened(direction, None, None).direction.descending() {
        ascending.reverse()
    } else {
        ascending
    }
}

/// The pairs that a scan returns for the records that the host cursor is to visit,
/// given in ascending key order.
pub open spec fn scanned<K, V>(
    ascending: Seq<(K, V)>,
    direction: Option<Direction>,
    limit: Option<u32>,
    offset: Option<u32>,
) -> Seq<(K, V)> {
    scan_from(
        CursorState::opened(direction, limit, offset),
        visited(ascending, direction),
        0,
        Seq::empty(),
    )
}

/// With `offset + limit` no greater than the number of records, a scan returns
/// exactly `limit` pairs: the positions from `offset` up to `offset + limit` in the
/// order of the requested direction.
pub proof fn lemma_scan_in_direction<K, V>(
    ascending: Seq<(K, V)>,
    direction: Option<Direction>,
    limit: u32,
    offset: u32,
)
    requires
        offset + limit <= ascending.len(),
    ensures
        scanned(ascending, direction, Some(limit), Some(offset)).len() == limit,
        scanned(ascending, direction, Some(limit), Some(offset)) == visited(
            ascending,
            direction,
        ).subrange(offset as int, offset + limit),
        forall|i: int|
            0 <= i < limit ==> #[trigger] scanned(ascending, direction, Some(limit), Some(offset))[i]
                == if direction == Some(Direction::Prev) || direction == Some(
                Direction::PrevUnique,
            ) {
                ascending[ascending.len() - 1 - offset - i]
            } else {
                ascending[offset + i]
            },
{
    lemma_scan_within_bounds(visited(ascending, direction), direction, limit, offset);
}

/// A backward scan without limit and offset returns what the forward scan returns,
/// in reverse: its first pair is the last pair of the forward scan, and so on.
pub proof fn lemma_backward_scan_reverses<K, V>(ascending: Seq<(K, V)>)
    ensures
        scanned(ascending, Some(Direction::Next), None, None) == ascending,
        scanned(ascending, None, None, None) == ascending,
        scanned(ascending, Some(Direction::Prev), None, None) == ascending.reverse(),
        scanned(ascending, Some(Direction::Prev), None, None) == scanned(
            ascending,
            Some(Direction::Next),
            None,
            None,
        ).reverse(),
{
    lemma_scan_returns_window(ascending, Some(Direction::Next), None, None);
    lemma_scan_returns_window(ascending, None, None, None);
    lemma_scan_returns_window(ascending.reverse(), Some(Direction::Prev), None, None);
    assert(ascending.subrange(0, ascending.len() as int) =~= ascending);
    assert(ascending.reverse().subrange(0, ascending.len() as int) =~= ascending.reverse());
}

/// Holds of the pairs whose key lies in the range, and of every pair where there is
/// no range.
pub open spec fn key_in<V>(range: Option<KeyRangeView>) -> spec_fn((KeyView, V)) -> bool {
    |pair: (KeyView, V)|
        match range {
            Some(range) => range.includes(pair.0),
            None => true,
        }
}

/// The records that a cursor over the range is to visit, of the records of its
/// source.
pub open spec fn in_range<V>(stored: Seq<(KeyView, V)>, range: Option<KeyRangeView>) -> Seq<
    (KeyView, V),
> {
    stored.filter(key_in(range))
}

/// A scan over a key range returns records of the source whose keys lie in the
/// range, whatever its direction, limit and offset; without limit and offset it
/// returns as many pairs as the source has records in the range.
pub proof fn lemma_scan_stays_in_range<V>(
    stored: Seq<(KeyView, V)>,
    range: Option<KeyRangeView>,
    direction: Option<Direction>,
    limit: Option<u32>,
    offset: Option<u32>,
)
    ensures
        forall|i: int|
            0 <= i < scanned(in_range(stored, range), direction, limit, offset).len() ==> {
                &&& key_in::<V>(range)(
                    #[trigger] scanned(in_range(stored, range), direction, limit, offset)[i],
                )
                &&& stored.contains(scanned(in_range(stored, range), direction, limit, offset)[i])
            },
        scanned(in_range(stored, range), direction, None, None).len() == in_range(
            stored,
            range,
        ).len(),
{
    let within = in_range(stored, range);
    let ordered = visited(within, direction);
    let pairs = scanned(within, direction, limit, offset);
    lemma_scan_returns_window(ordered, direction, limit, offset);
    lemma_scan_returns_window(ordered, direction, None, None);
    assert forall|i: int| 0 <= i < pairs.len() implies key_in::<V>(range)(#[trigger] pairs[i])
        && stored.contains(pairs[i]) by {
        let k = choose|k: int| 0 <= k < ordered.len() && ordered[k] == pairs[i];
        let at = choose|at: int| 0 <= at < within.len() && within[at] == ordered[k];
        stored.lemma_filter_pred(key_in(range), at);
        stored.lemma_filter_contains_rev(key_in(range), within[at]);
    }
}

} // verus!
