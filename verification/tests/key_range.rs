use rexie::{Error, Key, KeyOrder, KeyRange};

fn text(value: &str) -> Key {
    Key::Text(value.encode_utf16().collect())
}

fn pair(first: i64, second: i64) -> Key {
    Key::Array(vec![Key::Number(first), Key::Number(second)])
}

#[test]
fn only_includes_its_key_and_no_other() {
    let range = KeyRange::only(&Key::Number(1)).unwrap();
    assert!(range.includes(&Key::Number(1)));
    assert!(!range.includes(&Key::Number(0)));
    assert!(!range.includes(&Key::Number(2)));
    assert!(!range.includes(&Key::Date(1)));
    assert_eq!(range.lower(), Some(Key::Number(1)));
    assert_eq!(range.upper(), Some(Key::Number(1)));
    assert!(!range.lower_open());
    assert!(!range.upper_open());
}

#[test]
fn only_takes_a_compound_key() {
    let key = Key::Array(vec![text("John Doe"), text("Umbrella Corp")]);
    let range = KeyRange::only(&key).unwrap();
    assert!(range.includes(&key));
    assert!(range.includes(&key.clone()));
    assert!(!range.includes(&Key::Array(vec![text("Scooby Doo"), text("Umbrella Corp")])));
    assert!(!range.includes(&Key::Array(vec![text("John Doe")])));
    assert!(!range.includes(&text("John Doe")));
}

#[test]
fn lower_bound_counts_from_the_bound_on() {
    let open = KeyRange::lower_bound(&Key::Number(1), Some(true)).unwrap();
    assert!(!open.includes(&Key::Number(1)));
    assert!(open.includes(&Key::Number(2)));
    let closed = KeyRange::lower_bound(&Key::Number(2), Some(false)).unwrap();
    assert!(!closed.includes(&Key::Number(1)));
    assert!(closed.includes(&Key::Number(2)));
    let beyond = KeyRange::lower_bound(&Key::Number(2), Some(true)).unwrap();
    assert!(!beyond.includes(&Key::Number(1)));
    assert!(!beyond.includes(&Key::Number(2)));
    let default = KeyRange::lower_bound(&Key::Number(2), None).unwrap();
    assert!(default.includes(&Key::Number(2)));
    assert_eq!(default.lower(), Some(Key::Number(2)));
    assert_eq!(default.upper(), None);
    assert!(!default.lower_open());
    assert!(default.upper_open());
    assert!(default.includes(&text("anything")));
}

#[test]
fn upper_bound_counts_up_to_the_bound() {
    let closed = KeyRange::upper_bound(&Key::Number(5), None).unwrap();
    assert!(closed.includes(&Key::Number(5)));
    assert!(closed.includes(&Key::Number(-7)));
    assert!(!closed.includes(&Key::Number(6)));
    assert_eq!(closed.lower(), None);
    assert_eq!(closed.upper(), Some(Key::Number(5)));
    assert!(closed.lower_open());
    assert!(!closed.upper_open());
    let open = KeyRange::upper_bound(&Key::Number(5), Some(true)).unwrap();
    assert!(!open.includes(&Key::Number(5)));
    assert!(open.includes(&Key::Number(4)));
    assert!(open.upper_open());
}

#[test]
fn bound_spans_from_lower_to_upper() {
    let range = KeyRange::bound(&Key::Number(2), &Key::Number(4), None, Some(true)).unwrap();
    assert!(!range.includes(&Key::Number(1)));
    assert!(range.includes(&Key::Number(2)));
    assert!(range.includes(&Key::Number(3)));
    assert!(!range.includes(&Key::Number(4)));
    assert!(!range.lower_open());
    assert!(range.upper_open());
    let open = KeyRange::bound(&Key::Number(2), &Key::Number(4), Some(true), Some(false)).unwrap();
    assert!(!open.includes(&Key::Number(2)));
    assert!(open.includes(&Key::Number(4)));
    let point = KeyRange::bound(&Key::Number(3), &Key::Number(3), None, None).unwrap();
    assert_eq!(point, KeyRange::only(&Key::Number(3)).unwrap());
}

#[test]
fn bound_refuses_bounds_that_make_no_interval() {
    assert_eq!(
        KeyRange::bound(&Key::Number(4), &Key::Number(2), None, None),
        Err(Error::KeyRangeError)
    );
    assert_eq!(
        KeyRange::bound(&Key::Number(3), &Key::Number(3), Some(true), None),
        Err(Error::KeyRangeError)
    );
    assert_eq!(
        KeyRange::bound(&Key::Number(3), &Key::Number(3), None, Some(true)),
        Err(Error::KeyRangeError)
    );
    assert_eq!(
        KeyRange::bound(&text("a"), &Key::Number(3), None, None),
        Err(Error::KeyRangeError)
    );
}

#[test]
fn keys_of_different_kinds_are_ordered_by_kind() {
    let ascending = vec![
        Key::Number(i64::MAX),
        Key::Date(i64::MIN),
        text(""),
        Key::Binary(vec![]),
        Key::Array(vec![]),
    ];
    for low in 0..ascending.len() {
        for high in 0..ascending.len() {
            let expected = if low < high {
                KeyOrder::Less
            } else if low == high {
                KeyOrder::Equal
            } else {
                KeyOrder::Greater
            };
            assert_eq!(ascending[low].order(&ascending[high]), expected);
        }
    }
    assert_eq!(Key::Number(0).rank(), 0);
    assert_eq!(Key::Array(vec![]).rank(), 4);
}

#[test]
fn numbers_and_dates_are_ordered_as_numbers() {
    assert_eq!(Key::Number(-3).order(&Key::Number(2)), KeyOrder::Less);
    assert_eq!(Key::Number(2).order(&Key::Number(2)), KeyOrder::Equal);
    assert_eq!(Key::Number(3).order(&Key::Number(2)), KeyOrder::Greater);
    assert_eq!(Key::Date(10).order(&Key::Date(11)), KeyOrder::Less);
    assert_eq!(Key::Date(11).order(&Key::Date(10)), KeyOrder::Greater);
}

#[test]
fn text_and_binary_are_ordered_unit_by_unit() {
    assert_eq!(text("abc").order(&text("abd")), KeyOrder::Less);
    assert_eq!(text("abc").order(&text("ab")), KeyOrder::Greater);
    assert_eq!(text("").order(&text("a")), KeyOrder::Less);
    assert_eq!(text("b").order(&text("abc")), KeyOrder::Greater);
    assert_eq!(text("abc").order(&text("abc")), KeyOrder::Equal);
    assert_eq!(Key::Text(vec![0xD83D, 0xDE00]).order(&Key::Text(vec![0xFF5E])), KeyOrder::Less);
    assert_eq!(Key::Binary(vec![1, 2]).order(&Key::Binary(vec![1, 2, 0])), KeyOrder::Less);
    assert_eq!(Key::Binary(vec![2]).order(&Key::Binary(vec![1, 255])), KeyOrder::Greater);
    assert_eq!(Key::Binary(vec![7, 7]).order(&Key::Binary(vec![7, 7])), KeyOrder::Equal);
}

#[test]
fn arrays_are_ordered_item_by_item() {
    assert_eq!(pair(1, 2022).order(&pair(1, 2023)), KeyOrder::Less);
    assert_eq!(pair(2, 2022).order(&pair(1, 2023)), KeyOrder::Greater);
    assert_eq!(pair(1, 2022).order(&pair(1, 2022)), KeyOrder::Equal);
    assert_eq!(Key::Array(vec![Key::Number(1)]).order(&pair(1, 0)), KeyOrder::Less);
    assert_eq!(pair(1, 0).order(&Key::Array(vec![Key::Number(1)])), KeyOrder::Greater);
    let nested = Key::Array(vec![pair(1, 2), text("x")]);
    assert_eq!(nested.order(&Key::Array(vec![pair(1, 3)])), KeyOrder::Less);
    assert_eq!(nested.order(&nested.clone()), KeyOrder::Equal);
    assert_eq!(Key::Array(vec![Key::Number(9)]).order(&Key::Array(vec![text("")])), KeyOrder::Less);
}

#[test]
fn compound_range_holds_the_keys_between_its_bounds() {
    let range = KeyRange::bound(&pair(1, 2022), &pair(2, 0), None, Some(true)).unwrap();
    assert!(range.includes(&pair(1, 2022)));
    assert!(range.includes(&pair(1, 2023)));
    assert!(!range.includes(&pair(1, 2021)));
    assert!(!range.includes(&pair(2, 0)));
    assert!(!range.includes(&Key::Number(1)));
}
