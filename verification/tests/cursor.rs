use rexie::{Cursor, CursorAction, CursorCommand, Direction};

/// Plays the host: a cursor over `stored`, which is in ascending key order, that
/// moves as the scan tells it.
fn scan(
    stored: &[(u32, &'static str)],
    limit: Option<u32>,
    offset: Option<u32>,
    direction: Option<Direction>,
) -> Vec<(u32, &'static str)> {
    let mut cursor = Cursor::open(direction, limit, offset);
    let mut ordered: Vec<(u32, &'static str)> = stored.to_vec();
    match cursor.direction() {
        Direction::Prev | Direction::PrevUnique => ordered.reverse(),
        Direction::Next | Direction::NextUnique => {}
    }
    let mut position: usize = 0;
    let mut pairs = Vec::new();
    let mut outstanding: usize = 0;
    loop {
        let (action, command) = cursor.resume(ordered.get(position).copied());
        let more = action.collect(&mut pairs);
        match command {
            CursorCommand::Advance(count) => position += count as usize,
            CursorCommand::Continue => position += 1,
            CursorCommand::Stop => {
                assert!(!more);
                break;
            }
        }
        assert!(more);
        outstanding += 1;
        assert!(outstanding <= stored.len() + 1);
    }
    pairs
}

fn five() -> Vec<(u32, &'static str)> {
    vec![(1, "a"), (2, "b"), (3, "c"), (4, "d"), (5, "e")]
}

#[test]
fn scan_without_limit_or_offset_returns_every_record() {
    assert_eq!(scan(&five(), None, None, None), five());
}

#[test]
fn scan_returns_the_window_of_limit_and_offset() {
    assert_eq!(scan(&five(), Some(2), Some(1), None), vec![(2, "b"), (3, "c")]);
    assert_eq!(scan(&five(), Some(3), Some(2), None), vec![(3, "c"), (4, "d"), (5, "e")]);
    assert_eq!(scan(&five(), Some(5), Some(0), None), five());
    assert_eq!(scan(&five(), Some(1), Some(4), None), vec![(5, "e")]);
}

#[test]
fn scan_returns_exactly_limit_pairs_for_every_window_that_fits() {
    let stored = five();
    for offset in 0..=5u32 {
        for limit in 0..=(5 - offset) {
            let pairs = scan(&stored, Some(limit), Some(offset), None);
            let from = offset as usize;
            let to = (offset + limit) as usize;
            assert_eq!(pairs.len(), limit as usize);
            assert_eq!(pairs, stored[from..to].to_vec());
        }
    }
}

#[test]
fn scan_with_offset_only_returns_the_rest() {
    assert_eq!(scan(&five(), None, Some(3), None), vec![(4, "d"), (5, "e")]);
}

#[test]
fn scan_stops_at_the_end_when_the_limit_reaches_past_it() {
    assert_eq!(scan(&five(), Some(10), Some(3), None), vec![(4, "d"), (5, "e")]);
    assert_eq!(scan(&five(), Some(10), None, None), five());
}

#[test]
fn scan_with_offset_past_the_end_returns_nothing() {
    assert_eq!(scan(&five(), None, Some(5), None), vec![]);
    assert_eq!(scan(&five(), Some(2), Some(9), None), vec![]);
}

#[test]
fn scan_with_limit_zero_returns_nothing() {
    assert_eq!(scan(&five(), Some(0), None, None), vec![]);
    assert_eq!(scan(&five(), Some(0), Some(2), None), vec![]);
}

#[test]
fn scan_of_an_empty_store_returns_nothing() {
    assert_eq!(scan(&[], None, None, None), vec![]);
    assert_eq!(scan(&[], Some(3), Some(2), None), vec![]);
}

#[test]
fn scan_prev_returns_records_in_reverse_key_order() {
    let stored = vec![(1, "John Doe"), (2, "Scooby Doo")];
    let ascending = scan(&stored, None, None, Some(Direction::Next));
    let descending = scan(&stored, None, None, Some(Direction::Prev));
    assert_eq!(descending, vec![(2, "Scooby Doo"), (1, "John Doe")]);
    assert_eq!(ascending[0], descending[1]);
    assert_eq!(ascending[1], descending[0]);
}

#[test]
fn scan_window_follows_the_direction() {
    assert_eq!(
        scan(&five(), Some(2), Some(1), Some(Direction::Prev)),
        vec![(4, "d"), (3, "c")]
    );
}

#[test]
fn cursor_opens_forward_and_unbounded_by_default() {
    let cursor = Cursor::open(None, None, None);
    assert_eq!(cursor.direction(), Direction::Next);
    assert_eq!(cursor.remaining(), None);
    assert_eq!(cursor.pending_offset(), 0);
    assert_eq!(Direction::default(), Direction::Next);
    assert_eq!(Direction::or_default(None), Direction::Next);
    assert_eq!(Direction::or_default(Some(Direction::PrevUnique)), Direction::PrevUnique);
}

#[test]
fn cursor_keeps_what_it_was_opened_with() {
    let cursor = Cursor::open(Some(Direction::NextUnique), Some(7), Some(3));
    assert_eq!(cursor.direction(), Direction::NextUnique);
    assert_eq!(cursor.remaining(), Some(7));
    assert_eq!(cursor.pending_offset(), 3);
}

#[test]
fn first_resumption_spends_the_offset_without_recording() {
    let mut cursor = Cursor::open(None, Some(2), Some(3));
    let (action, command) = cursor.resume(Some((1, "a")));
    assert_eq!(action, CursorAction::Continue);
    assert_eq!(command, CursorCommand::Advance(3));
    assert_eq!(cursor.pending_offset(), 0);
    assert_eq!(cursor.remaining(), Some(2));
}

#[test]
fn resumption_below_the_limit_records_and_continues() {
    let mut cursor = Cursor::open(None, Some(2), None);
    let (action, command) = cursor.resume(Some((1, "a")));
    assert_eq!(action, CursorAction::ContinueWithValue(1, "a"));
    assert_eq!(command, CursorCommand::Continue);
    assert_eq!(cursor.remaining(), Some(1));
}

#[test]
fn resumption_at_the_limit_records_and_stops() {
    let mut cursor = Cursor::open(None, Some(1), None);
    let (action, command) = cursor.resume(Some((1, "a")));
    assert_eq!(action, CursorAction::BreakWithValue(1, "a"));
    assert_eq!(command, CursorCommand::Stop);
    assert_eq!(cursor.remaining(), Some(0));
}

#[test]
fn resumption_with_nothing_left_of_the_limit_stops_unrecorded() {
    let mut cursor = Cursor::open(None, Some(0), None);
    let (action, command) = cursor.resume(Some((1, "a")));
    assert_eq!(action, CursorAction::Break);
    assert_eq!(command, CursorCommand::Stop);
}

#[test]
fn resumption_on_an_exhausted_cursor_stops() {
    let mut cursor = Cursor::open(None, None, Some(4));
    let (action, command) = cursor.resume(None::<(u32, u32)>);
    assert_eq!(action, CursorAction::Break);
    assert_eq!(command, CursorCommand::Stop);
    assert_eq!(cursor.pending_offset(), 4);
}

#[test]
fn unbounded_resumption_always_asks_for_the_next_record() {
    let mut cursor = Cursor::open(None, None, None);
    for key in 0..100u32 {
        let (action, command) = cursor.resume(Some((key, key)));
        assert_eq!(action, CursorAction::ContinueWithValue(key, key));
        assert_eq!(command, CursorCommand::Continue);
    }
    assert_eq!(cursor.remaining(), None);
}

#[test]
fn collect_records_the_pair_of_an_action() {
    let mut pairs = vec![(0, "z")];
    assert!(CursorAction::ContinueWithValue(1, "a").collect(&mut pairs));
    assert!(CursorAction::<u32, &str>::Continue.collect(&mut pairs));
    assert!(!CursorAction::BreakWithValue(2, "b").collect(&mut pairs));
    assert!(!CursorAction::<u32, &str>::Break.collect(&mut pairs));
    assert_eq!(pairs, vec![(0, "z"), (1, "a"), (2, "b")]);
}
