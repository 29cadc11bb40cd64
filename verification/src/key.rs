use vstd::prelude::*;

verus! {

/// A key of a record, of one of the kinds that the host orders: numbers first, then
/// dates, then text, then binary data, then arrays of keys.
#[derive(Debug, PartialEq, Eq)]
pub enum Key {
    /// A whole number.
    Number(i64),
    /// A point in time, in milliseconds since the epoch.
    Date(i64),
    /// Text, as its UTF-16 code units.
    Text(Vec<u16>),
    /// Binary data.
    Binary(Vec<u8>),
    /// A compound key.
    Array(Vec<Key>),
}

/// A key as contracts see it.
pub enum KeyView {
    Number(int),
    Date(int),
    Text(Seq<u16>),
    Binary(Seq<u8>),
    Array(Seq<KeyView>),
}

/// How one key stands to another in the order of the host.
#[derive(Debug, Clone, Copy, PartialEq, Eq, Structural)]
pub enum KeyOrder {
    Less,
    Equal,
    Greater,
}

/// The key as contracts see it.
pub open spec fn key_view(key: Key) -> KeyView
    decreases key,
{
    match key {
        Key::Number(number) => KeyView::Number(number as int),
        Key::Date(millis) => KeyView::Date(millis as int),
        Key::Text(units) => KeyView::Text(units@),
        Key::Binary(bytes) => KeyView::Binary(bytes@),
        Key::Array(keys) => KeyView::Array(
            Seq::new(
                keys@.len(),
                |i: int|
                    if 0 <= i < keys@.len() {
                        key_view(keys@[i])
                    } else {
                        KeyView::Number(0)
                    },
            ),
        ),
    }
}

impl View for Key {
    type V = KeyView;

    open spec fn view(&self) -> KeyView {
        key_view(*self)
    }
}

/// The place of a key's kind in the order of kinds.
pub open spec fn kind_rank(key: KeyView) -> int {
    match key {
        KeyView::Number(_) => 0,
        KeyView::Date(_) => 1,
        KeyView::Text(_) => 2,
        KeyView::Binary(_) => 3,
        KeyView::Array(_) => 4,
    }
}

/// The order of two whole numbers.
pub open spec fn int_order(a: int, b: int) -> KeyOrder {
    if a < b {
        KeyOrder::Less
    } else if a == b {
        KeyOrder::Equal
    } else {
        KeyOrder::Greater
    }
}

/// The order of two sequences of numbers: that of the first position where they
/// differ, and the shorter one first where one is the beginning of the other.
pub open spec fn units_order(a: Seq<int>, b: Seq<int>) -> KeyOrder
    decreases a.len(),
{
    if a.len() == 0 {
        if b.len() == 0 {
            KeyOrder::Equal
        } else {
            KeyOrder::Less
        }
    } else if b.len() == 0 {
        KeyOrder::Greater
    } else if a[0] != b[0] {
        int_order(a[0], b[0])
    } else {
        units_order(a.drop_first(), b.drop_first())
    }
}

/// The order of two keys. Keys of different kinds are ordered by kind. Numbers and
/// dates are ordered as numbers, text and binary data unit by unit, and arrays
/// item by item.
pub open spec fn key_order(a: KeyView, b: KeyView) -> KeyOrder
    decreases a,
{
    if kind_rank(a) != kind_rank(b) {
        int_order(kind_rank(a), kind_rank(b))
    } else {
        match (a, b) {
            (KeyView::Number(x), KeyView::Number(y)) => int_order(x, y),
            (KeyView::Date(x), KeyView::Date(y)) => int_order(x, y),
            (KeyView::Text(x), KeyView::Text(y)) => units_order(
                x.map_values(|unit: u16| unit as int),
                y.map_values(|unit: u16| unit as int),
            ),
            (KeyView::Binary(x), KeyView::Binary(y)) => units_order(
                x.map_values(|byte: u8| byte as int),
                y.map_values(|byte: u8| byte as int),
            ),
            (KeyView::Array(x), KeyView::Array(y)) => items_order(x, y),
            _ => KeyOrder::Equal,
        }
    }
}

/// The order of two arrays of keys: that of the first position where the items
/// differ, and the shorter one first where one is the beginning of the other.
pub open spec fn items_order(a: Seq<KeyView>, b: Seq<KeyView>) -> KeyOrder
    decreases a,
{
    if a.len() == 0 {
        if b.len() == 0 {
            KeyOrder::Equal
        } else {
            KeyOrder::Less
        }
    } else if b.len() == 0 {
        KeyOrder::Greater
    } else if key_order(a[0], b[0]) != KeyOrder::Equal {
        key_order(a[0], b[0])
    } else {
        items_order(a.drop_first(), b.drop_first())
    }
}

/// The order of two whole numbers.
pub(crate) fn order_numbers(a: i64, b: i64) -> (order: KeyOrder)
    ensures
        order == int_order(a as int, b as int),
{
    if a < b {
        KeyOrder::Less
    } else if a == b {
        KeyOrder::Equal
    } else {
        KeyOrder::Greater
    }
}

/// The order of two texts, by their code units.
pub(crate) fn order_text(a: &Vec<u16>, b: &Vec<u16>) -> (order: KeyOrder)
    ensures
        order == units_order(
            a@.map_values(|unit: u16| unit as int),
            b@.map_values(|unit: u16| unit as int),
        ),
{
    let ghost x = a@.map_values(|unit: u16| unit as int);
    let ghost y = b@.map_values(|unit: u16| unit as int);
    let mut i: usize = 0;
    assert(x.skip(0) =~= x && y.skip(0) =~= y);
    while i < a.len() && i < b.len()
        invariant
            i <= a.len(),
            i <= b.len(),
            x == a@.map_values(|unit: u16| unit as int),
            y == b@.map_values(|unit: u16| unit as int),
            units_order(x, y) == units_order(x.skip(i as int), y.skip(i as int)),
        decreases a.len() - i,
    {
        assert(x.skip(i as int).drop_first() =~= x.skip(i + 1));
        assert(y.skip(i as int).drop_first() =~= y.skip(i + 1));
        if a[i] < b[i] {
            return KeyOrder::Less;
        }
        if a[i] > b[i] {
            return KeyOrder::Greater;
        }
        i += 1;
    }
    if i < b.len() {
        KeyOrder::Less
    } else if i < a.len() {
        KeyOrder::Greater
    } else {
        KeyOrder::Equal
    }
}

/// The order of two pieces of binary data, by their bytes.
pub(crate) fn order_binary(a: &Vec<u8>, b: &Vec<u8>) -> (order: KeyOrder)
    ensures
        order == units_order(
            a@.map_values(|byte: u8| byte as int),
            b@.map_values(|byte: u8| byte as int),
        ),
{
    let ghost x = a@.map_values(|byte: u8| byte as int);
    let ghost y = b@.map_values(|byte: u8| byte as int);
    let mut i: usize = 0;
    assert(x.skip(0) =~= x && y.skip(0) =~= y);
    while i < a.len() && i < b.len()
        invariant
            i <= a.len(),
            i <= b.len(),
            x == a@.map_values(|byte: u8| byte as int),
            y == b@.map_values(|byte: u8| byte as int),
            units_order(x, y) == units_order(x.skip(i as int), y.skip(i as int)),
        decreases a.len() - i,
    {
        assert(x.skip(i as int).drop_first() =~= x.skip(i + 1));
        assert(y.skip(i as int).drop_first() =~= y.skip(i + 1));
        if a[i] < b[i] {
            return KeyOrder::Less;
        }
        if a[i] > b[i] {
            return KeyOrder::Greater;
        }
        i += 1;
    }
    if i < b.len() {
        KeyOrder::Less
    } else if i < a.len() {
        KeyOrder::Greater
    } else {
        KeyOrder::Equal
    }
}

impl Key {
    /// The place of the key's kind in the order of kinds.
    pub fn rank(&self) -> (rank: u8)
        ensures
            rank == kind_rank(self@),
    {
        match self {
            Key::Number(_) => 0,
            Key::Date(_) => 1,
            Key::Text(_) => 2,
            Key::Binary(_) => 3,
            Key::Array(_) => 4,
        }
    }

    /// How this key stands to the other in the order of the host.
    pub fn order(&self, other: &Key) -> (order: KeyOrder)
        ensures
            order == key_order(self@, other@),
        decreases *self,
    {
        match (self, other) {
            (Key::Number(x), Key::Number(y)) => order_numbers(*x, *y),
            (Key::Date(x), Key::Date(y)) => order_numbers(*x, *y),
            (Key::Text(x), Key::Text(y)) => order_text(x, y),
            (Key::Binary(x), Key::Binary(y)) => order_binary(x, y),
            (Key::Array(x), Key::Array(y)) => {
                let ghost a = self@->Array_0;
                let ghost b = other@->Array_0;
                let mut i: usize = 0;
                assert(a.skip(0) =~= a && b.skip(0) =~= b);
                while i < x.len() && i < y.len()
                    invariant
                        i <= x.len(),
                        i <= y.len(),
                        *self == Key::Array(*x),
                        self@ == KeyView::Array(a),
                        other@ == KeyView::Array(b),
                        a.len() == x.len(),
                        b.len() == y.len(),
                        forall|j: int| 0 <= j < x.len() ==> a[j] == x[j]@,
                        forall|j: int| 0 <= j < y.len() ==> b[j] == y[j]@,
                        items_order(a, b) == items_order(a.skip(i as int), b.skip(i as int)),
                    decreases x.len() - i,
                {
                    assert(a.skip(i as int).drop_first() =~= a.skip(i + 1));
                    assert(b.skip(i as int).drop_first() =~= b.skip(i + 1));
                    let order = x[i].order(&y[i]);
                    assert(a.skip(i as int)[0] == x[i as int]@);
                    assert(b.skip(i as int)[0] == y[i as int]@);
                    if order != KeyOrder::Equal {
                        return order;
                    }
                    i += 1;
                }
                if i < y.len() {
                    KeyOrder::Less
                } else if i < x.len() {
                    KeyOrder::Greater
                } else {
                    KeyOrder::Equal
                }
            },
            _ => order_numbers(self.rank() as i64, other.rank() as i64),
        }
    }
}

/// A copy of the key.
pub(crate) fn cloned_key(key: &Key) -> (copy: Key)
    ensures
        copy@ == key@,
    decreases *key,
{
    match key {
        Key::Number(number) => Key::Number(*number),
        Key::Date(millis) => Key::Date(*millis),
        Key::Text(units) => Key::Text(units.clone()),
        Key::Binary(bytes) => Key::Binary(bytes.clone()),
        Key::Array(keys) => {
            let mut copy: Vec<Key> = Vec::new();
            let mut i: usize = 0;
            while i < keys.len()
                invariant
                    i <= keys.len(),
                    *key is Array,
                    key->Array_0 == *keys,
                    copy.len() == i,
                    forall|j: int| 0 <= j < i ==> copy[j]@ == keys[j]@,
                decreases keys.len() - i,
            {
                assert(decreases_to!(*key => key->Array_0));
                assert(decreases_to!(*keys => keys[i as int]));
                copy.push(cloned_key(&keys[i]));
                i += 1;
            }
            let copy = Key::Array(copy);
            assert(copy@->Array_0 =~= key@->Array_0);
            copy
        },
    }
}

impl Clone for Key {
    fn clone(&self) -> (copy: Key)
        ensures
            copy@ == self@,
    {
        cloned_key(self)
    }
}

} // verus!
