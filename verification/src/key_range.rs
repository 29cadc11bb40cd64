use vstd::prelude::*;

use crate::error::Error;
use crate::key::{
    items_order, key_order, kind_rank, units_order, Key, KeyOrder, KeyView,
};

verus! {

/// A continuous interval of keys: a lower and an upper bound, each of which may be
/// missing, and each of which the interval may include or leave out.
#[derive(Debug, PartialEq, Eq)]
pub struct KeyRange {
    lower: Option<Key>,
    upper: Option<Key>,
    lower_open: bool,
    upper_open: bool,
}

/// A key range as contracts see it.
pub struct KeyRangeView {
    pub lower: Option<KeyView>,
    pub upper: Option<KeyView>,
    /// Whether the lower bound itself is left out.
    pub lower_open: bool,
    /// Whether the upper bound itself is left out.
    pub upper_open: bool,
}

/// A key, if any, as contracts see it.
pub open spec fn bound_view(bound: Option<Key>) -> Option<KeyView> {
    match bound {
        Some(key) => Some(key@),
        None => None,
    }
}

/// Whether the two bounds make an interval: the lower one lies below the upper one,
/// or they are the same key and both belong to the interval.
pub open spec fn bounds_in_order(
    lower: KeyView,
    upper: KeyView,
    lower_open: bool,
    upper_open: bool,
) -> bool {
    key_order(lower, upper) == KeyOrder::Less || (key_order(lower, upper) == KeyOrder::Equal
        && !lower_open && !upper_open)
}

impl KeyRangeView {
    /// Where both bounds are present they make an interval, and a missing bound
    /// counts as open.
    pub open spec fn well_formed(self) -> bool {
        &&& self.lower is None ==> self.lower_open
        &&& self.upper is None ==> self.upper_open
        &&& (self.lower is Some && self.upper is Some) ==> bounds_in_order(
            self.lower->Some_0,
            self.upper->Some_0,
            self.lower_open,
            self.upper_open,
        )
    }

    /// Whether the key lies in the interval.
    pub open spec fn includes(self, key: KeyView) -> bool {
        &&& match self.lower {
            Some(lower) => key_order(lower, key) == KeyOrder::Less || (key_order(lower, key)
                == KeyOrder::Equal && !self.lower_open),
            None => true,
        }
        &&& match self.upper {
            Some(upper) => key_order(key, upper) == KeyOrder::Less || (key_order(key, upper)
                == KeyOrder::Equal && !self.upper_open),
            None => true,
        }
    }
}

impl View for KeyRange {
    type V = KeyRangeView;

    closed spec fn view(&self) -> KeyRangeView {
        KeyRangeView {
            lower: bound_view(self.lower),
            upper: bound_view(self.upper),
            lower_open: self.lower_open,
            upper_open: self.upper_open,
        }
    }
}

/// A copy of the bound, if there is one.
pub(crate) fn cloned_bound(bound: &Option<Key>) -> (copy: Option<Key>)
    ensures
        bound_view(copy) == bound_view(*bound),
{
    match bound {
        Some(key) => Some(key.clone()),
        None => None,
    }
}

/// The flag, or `false` where none is given.
pub(crate) fn flag_or_closed(open: Option<bool>) -> (flag: bool)
    ensures
        flag == match open {
            Some(chosen) => chosen,
            None => false,
        },
{
    match open {
        Some(chosen) => chosen,
        None => false,
    }
}

impl KeyRange {
    /// The range that holds this key and no other.
    pub fn only(value: &Key) -> (range: Result<KeyRange, Error>)
        ensures
            range matches Ok(made) && made@.well_formed() && made@ == (KeyRangeView {
                lower: Some(value@),
                upper: Some(value@),
                lower_open: false,
                upper_open: false,
            }),
    {
        proof {
            lemma_key_order_equal(value@, value@);
        }
        Ok(
            KeyRange {
                lower: Some(value.clone()),
                upper: Some(value.clone()),
                lower_open: false,
                upper_open: false,
            },
        )
    }

    /// The range from `lower` to `upper`. A bound is left out of the range if its
    /// flag says so, and belongs to it where no flag is given. Bounds that make no
    /// interval are refused.
    pub fn bound(
        lower: &Key,
        upper: &Key,
        lower_open: Option<bool>,
        upper_open: Option<bool>,
    ) -> (range: Result<KeyRange, Error>)
        ensures
            match range {
                Ok(made) => {
                    &&& made@.well_formed()
                    &&& made@ == (KeyRangeView {
                        lower: Some(lower@),
                        upper: Some(upper@),
                        lower_open: lower_open == Some(true),
                        upper_open: upper_open == Some(true),
                    })
                },
                Err(error) => {
                    &&& error == Error::KeyRangeError
                    &&& !bounds_in_order(
                        lower@,
                        upper@,
                        lower_open == Some(true),
                        upper_open == Some(true),
                    )
                },
            },
    {
        let lower_open = flag_or_closed(lower_open);
        let upper_open = flag_or_closed(upper_open);
        let order = lower.order(upper);
        if order == KeyOrder::Less || (order == KeyOrder::Equal && !lower_open && !upper_open) {
            Ok(
                KeyRange {
                    lower: Some(lower.clone()),
                    upper: Some(upper.clone()),
                    lower_open,
                    upper_open,
                },
            )
        } else {
            Err(Error::KeyRangeError)
        }
    }

    /// The range of the keys from `lower` on, without an upper bound.
    pub fn lower_bound(lower: &Key, lower_open: Option<bool>) -> (range: Result<KeyRange, Error>)
        ensures
            range matches Ok(made) && made@.well_formed() && made@ == (KeyRangeView {
                lower: Some(lower@),
                upper: None,
                lower_open: lower_open == Some(true),
                upper_open: true,
            }),
    {
        Ok(
            KeyRange {
                lower: Some(lower.clone()),
                upper: None,
                lower_open: flag_or_closed(lower_open),
                upper_open: true,
            },
        )
    }

    /// The range of the keys up to `upper`, without a lower bound.
    pub fn upper_bound(upper: &Key, upper_open: Option<bool>) -> (range: Result<KeyRange, Error>)
        ensures
            range matches Ok(made) && made@.well_formed() && made@ == (KeyRangeView {
                lower: None,
                upper: Some(upper@),
                lower_open: true,
                upper_open: upper_open == Some(true),
            }),
    {
        Ok(
            KeyRange {
                lower: None,
                upper: Some(upper.clone()),
                lower_open: true,
                upper_open: flag_or_closed(upper_open),
            },
        )
    }

    /// The lower bound, if the range has one.
    pub fn lower(&self) -> (lower: Option<Key>)
        ensures
            bound_view(lower) == self@.lower,
    {
        cloned_bound(&self.lower)
    }

    /// The upper bound, if the range has one.
    pub fn upper(&self) -> (upper: Option<Key>)
        ensures
            bound_view(upper) == self@.upper,
    {
        cloned_bound(&self.upper)
    }

    /// Whether the lower bound is left out of the range.
    pub fn lower_open(&self) -> (open: bool)
        ensures
            open == self@.lower_open,
    {
        self.lower_open
    }

    /// Whether the upper bound is left out of the range.
    pub fn upper_open(&self) -> (open: bool)
        ensures
            open == self@.upper_open,
    {
        self.upper_open
    }

    /// Whether the key lies in the range.
    pub fn includes(&self, value: &Key) -> (included: bool)
        ensures
            included == self@.includes(value@),
    {
        let above = match &self.lower {
            Some(lower) => {
                let order = lower.order(value);
                order == KeyOrder::Less || (order == KeyOrder::Equal && !self.lower_open)
            },
            None => true,
        };
        let below = match &self.upper {
            Some(upper) => {
                let order = value.order(upper);
                order == KeyOrder::Less || (order == KeyOrder::Equal && !self.upper_open)
            },
            None => true,
        };
        above && below
    }
}

/// The order seen from the other side.
pub open spec fn flipped(order: KeyOrder) -> KeyOrder {
    match order {
        KeyOrder::Less => KeyOrder::Greater,
        KeyOrder::Equal => KeyOrder::Equal,
        KeyOrder::Greater => KeyOrder::Less,
    }
}

/// Two sequences of numbers are in the order `Equal` exactly when they are the same,
/// and swapping them flips their order.
pub proof fn lemma_units_order(a: Seq<int>, b: Seq<int>)
    ensures
        units_order(a, b) == KeyOrder::Equal <==> a == b,
        units_order(b, a) == flipped(units_order(a, b)),
    decreases a.len(),
{
    if a.len() == 0 || b.len() == 0 {
        assert(a.len() == 0 && b.len() == 0 ==> a =~= b);
    } else if a[0] == b[0] {
        lemma_units_order(a.drop_first(), b.drop_first());
        if a.drop_first() == b.drop_first() {
            assert(a =~= seq![a[0]] + a.drop_first());
            assert(b =~= seq![b[0]] + b.drop_first());
        }
    }
}

/// Two keys are in the order `Equal` exactly when they are the same key, and
/// swapping them flips their order.
pub proof fn lemma_key_order_equal(a: KeyView, b: KeyView)
    ensures
        key_order(a, b) == KeyOrder::Equal <==> a == b,
        key_order(b, a) == flipped(key_order(a, b)),
    decreases a,
{
    if kind_rank(a) == kind_rank(b) {
        match (a, b) {
            (KeyView::Text(x), KeyView::Text(y)) => {
                let p = x.map_values(|unit: u16| unit as int);
                let q = y.map_values(|unit: u16| unit as int);
                lemma_units_order(p, q);
                if p == q {
                    assert forall|i: int| 0 <= i < x.len() implies x[i] == y[i] by {
                        assert(p[i] == x[i] as int && q[i] == y[i] as int);
                    }
                    assert(x.len() == p.len() && y.len() == q.len());
                    assert(x =~= y);
                }
            },
            (KeyView::Binary(x), KeyView::Binary(y)) => {
                let p = x.map_values(|byte: u8| byte as int);
                let q = y.map_values(|byte: u8| byte as int);
                lemma_units_order(p, q);
                if p == q {
                    assert forall|i: int| 0 <= i < x.len() implies x[i] == y[i] by {
                        assert(p[i] == x[i] as int && q[i] == y[i] as int);
                    }
                    assert(x.len() == p.len() && y.len() == q.len());
                    assert(x =~= y);
                }
            },
            (KeyView::Array(x), KeyView::Array(y)) => {
                lemma_items_order_equal(x, y);
            },
            _ => {},
        }
    }
}

/// Two arrays of keys are in the order `Equal` exactly when they are the same, and
/// swapping them flips their order.
pub proof fn lemma_items_order_equal(a: Seq<KeyView>, b: Seq<KeyView>)
    ensures
        items_order(a, b) == KeyOrder::Equal <==> a == b,
        items_order(b, a) == flipped(items_order(a, b)),
    decreases a,
{
    if a.len() == 0 || b.len() == 0 {
        assert(a.len() == 0 && b.len() == 0 ==> a =~= b);
    } else {
        lemma_key_order_equal(a[0], b[0]);
        if a[0] == b[0] {
            lemma_items_order_equal(a.drop_first(), b.drop_first());
            if a.drop_first() == b.drop_first() {
                assert(a =~= seq![a[0]] + a.drop_first());
                assert(b =~= seq![b[0]] + b.drop_first());
            }
        }
    }
}

/// The range of one key includes that key and no other.
pub proof fn lemma_only_includes_its_key(key: KeyView, other: KeyView)
    ensures
        (KeyRangeView {
            lower: Some(key),
            upper: Some(key),
            lower_open: false,
            upper_open: false,
        }).includes(other) <==> other == key,
{
    lemma_key_order_equal(key, other);
    lemma_key_order_equal(other, key);
}

/// The order of sequences of numbers is transitive.
pub proof fn lemma_units_order_transitive(a: Seq<int>, b: Seq<int>, c: Seq<int>)
    requires
        units_order(a, b) == KeyOrder::Less,
        units_order(b, c) == KeyOrder::Less,
    ensures
        units_order(a, c) == KeyOrder::Less,
    decreases a.len(),
{
    if a.len() > 0 && a[0] == b[0] && b[0] == c[0] {
        lemma_units_order_transitive(a.drop_first(), b.drop_first(), c.drop_first());
    }
}

/// The order of keys is transitive.
pub proof fn lemma_key_order_transitive(a: KeyView, b: KeyView, c: KeyView)
    requires
        key_order(a, b) == KeyOrder::Less,
        key_order(b, c) == KeyOrder::Less,
    ensures
        key_order(a, c) == KeyOrder::Less,
    decreases a,
{
    if kind_rank(a) == kind_rank(b) && kind_rank(b) == kind_rank(c) {
        match (a, b, c) {
            (KeyView::Text(x), KeyView::Text(y), KeyView::Text(z)) => {
                lemma_units_order_transitive(
                    x.map_values(|unit: u16| unit as int),
                    y.map_values(|unit: u16| unit as int),
                    z.map_values(|unit: u16| unit as int),
                );
            },
            (KeyView::Binary(x), KeyView::Binary(y), KeyView::Binary(z)) => {
                lemma_units_order_transitive(
                    x.map_values(|byte: u8| byte as int),
                    y.map_values(|byte: u8| byte as int),
                    z.map_values(|byte: u8| byte as int),
                );
            },
            (KeyView::Array(x), KeyView::Array(y), KeyView::Array(z)) => {
                lemma_items_order_transitive(x, y, z);
            },
            _ => {},
        }
    }
}

/// The order of arrays of keys is transitive.
pub proof fn lemma_items_order_transitive(a: Seq<KeyView>, b: Seq<KeyView>, c: Seq<KeyView>)
    requires
        items_order(a, b) == KeyOrder::Less,
        items_order(b, c) == KeyOrder::Less,
    ensures
        items_order(a, c) == KeyOrder::Less,
    decreases a,
{
    if a.len() > 0 {
        lemma_key_order_equal(a[0], b[0]);
        lemma_key_order_equal(b[0], c[0]);
        lemma_key_order_equal(a[0], c[0]);
        if key_order(a[0], b[0]) == KeyOrder::Less && key_order(b[0], c[0]) == KeyOrder::Less {
            lemma_key_order_transitive(a[0], b[0], c[0]);
        } else if a[0] == b[0] && b[0] == c[0] {
            lemma_items_order_transitive(a.drop_first(), b.drop_first(), c.drop_first());
        }
    }
}

/// Whether the first key does not come after the second.
pub open spec fn not_after(a: KeyView, b: KeyView) -> bool {
    key_order(a, b) != KeyOrder::Greater
}

/// A key range is an interval: with two keys it holds every key between them.
pub proof fn lemma_range_is_an_interval(
    range: KeyRangeView,
    low: KeyView,
    between: KeyView,
    high: KeyView,
)
    requires
        range.includes(low),
        range.includes(high),
        not_after(low, between),
        not_after(between, high),
    ensures
        range.includes(between),
{
    lemma_key_order_equal(low, between);
    lemma_key_order_equal(between, high);
    if range.lower is Some {
        let lower = range.lower->Some_0;
        lemma_key_order_equal(lower, low);
        if key_order(lower, low) == KeyOrder::Less && key_order(low, between) == KeyOrder::Less {
            lemma_key_order_transitive(lower, low, between);
        }
    }
    if range.upper is Some {
        let upper = range.upper->Some_0;
        lemma_key_order_equal(high, upper);
        if key_order(between, high) == KeyOrder::Less && key_order(high, upper)
            == KeyOrder::Less {
            lemma_key_order_transitive(between, high, upper);
        }
    }
}

/// A bound that is not open is itself in the range.
pub proof fn lemma_closed_bounds_are_included(range: KeyRangeView)
    requires
        range.well_formed(),
    ensures
        range.lower is Some && !range.lower_open ==> range.includes(range.lower->Some_0),
        range.upper is Some && !range.upper_open ==> range.includes(range.upper->Some_0),
{
    if range.lower is Some {
        lemma_key_order_equal(range.lower->Some_0, range.lower->Some_0);
    }
    if range.upper is Some {
        lemma_key_order_equal(range.upper->Some_0, range.upper->Some_0);
    }
}

} // verus!
