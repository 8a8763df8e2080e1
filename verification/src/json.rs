//! JSON values, their text, and the `serde_json` calls behind both.
use vstd::prelude::*;

use crate::error::ErrorView;
use crate::params;
use crate::text;
use crate::text::comes_before;

verus! {

#[verifier::external_type_specification]
#[verifier::external_body]
pub struct ExValue(serde_json::Value);

#[verifier::external_type_specification]
#[verifier::external_body]
pub struct ExNumber(serde_json::Number);

/// `Number::clone` gives an equal number.
pub assume_specification[ <serde_json::Number as Clone>::clone ](n: &serde_json::Number) -> (r:
    serde_json::Number)
    ensures
        r == *n,
;

/// A JSON value. A number is kept as `serde_json` holds it.
#[derive(Debug, PartialEq)]
pub enum Json {
    Null,
    Bool(bool),
    Number(serde_json::Number),
    Text(String),
    Array(Vec<Json>),
    Object(JsonObject),
}

/// The members of a JSON object, in order. No two have the same key.
#[derive(Debug, PartialEq)]
pub struct JsonObject {
    entries: Vec<(String, Json)>,
}

/// A JSON value as a mathematical value.
pub enum JsonView {
    Null,
    Bool(bool),
    Number(serde_json::Number),
    Text(Seq<char>),
    Array(Seq<JsonView>),
    Object(Seq<(Seq<char>, JsonView)>),
}

/// The value of `j`.
pub open spec fn json_view(j: Json) -> JsonView
    decreases j,
{
    match j {
        Json::Null => JsonView::Null,
        Json::Bool(b) => JsonView::Bool(b),
        Json::Number(n) => JsonView::Number(n),
        Json::Text(s) => JsonView::Text(s@),
        Json::Array(a) => JsonView::Array(
            Seq::new(
                a@.len(),
                |i: int| if 0 <= i < a@.len() { json_view(a@[i]) } else { JsonView::Null },
            ),
        ),
        Json::Object(o) => JsonView::Object(object_view(o)),
    }
}

/// The members of `o`, in order.
pub closed spec fn object_view(o: JsonObject) -> Seq<(Seq<char>, JsonView)>
    decreases o,
{
    Seq::new(
        o.entries@.len(),
        |i: int|
            if 0 <= i < o.entries@.len() {
                (o.entries@[i].0@, json_view(o.entries@[i].1))
            } else {
                (Seq::empty(), JsonView::Null)
            },
    )
}

impl View for Json {
    type V = JsonView;

    open spec fn view(&self) -> JsonView {
        json_view(*self)
    }
}

impl View for JsonObject {
    type V = Seq<(Seq<char>, JsonView)>;

    open spec fn view(&self) -> Seq<(Seq<char>, JsonView)> {
        object_view(*self)
    }
}

/// Whether no two members have the same key.
pub open spec fn distinct_keys(o: Seq<(Seq<char>, JsonView)>) -> bool {
    forall|i: int, j: int| 0 <= i < j < o.len() ==> (#[trigger] o[i]).0 != (#[trigger] o[j]).0
}

/// The value of the member `key`, if there is one.
pub open spec fn field(o: Seq<(Seq<char>, JsonView)>, key: Seq<char>) -> Option<JsonView>
    decreases o.len(),
{
    if o.len() == 0 {
        None
    } else if o[0].0 == key {
        Some(o[0].1)
    } else {
        field(o.drop_first(), key)
    }
}

/// Where the member `key` stands, or the number of members if there is none.
pub open spec fn position(o: Seq<(Seq<char>, JsonView)>, key: Seq<char>) -> nat
    decreases o.len(),
{
    if o.len() == 0 || o[0].0 == key {
        0
    } else {
        1 + position(o.drop_first(), key)
    }
}

/// The members `o` with one more, before the first whose key comes after its own.
pub open spec fn placed(o: Seq<(Seq<char>, JsonView)>, m: (Seq<char>, JsonView)) -> Seq<
    (Seq<char>, JsonView),
>
    decreases o.len(),
{
    if o.len() == 0 {
        seq![m]
    } else if text::is_before(m.0, o[0].0) {
        seq![m] + o
    } else {
        seq![o[0]] + placed(o.drop_first(), m)
    }
}

/// The members `o` in the order of their keys.
pub open spec fn by_key(o: Seq<(Seq<char>, JsonView)>) -> Seq<(Seq<char>, JsonView)>
    decreases o.len(),
{
    if o.len() == 0 {
        o
    } else {
        placed(by_key(o.drop_first()), o[0])
    }
}

/// `j` with the members of every object in it in the order of their keys.
pub open spec fn ordered(j: JsonView) -> JsonView
    decreases j,
{
    match j {
        JsonView::Array(a) => JsonView::Array(
            Seq::new(
                a.len(),
                |i: int| if 0 <= i < a.len() { ordered(a[i]) } else { JsonView::Null },
            ),
        ),
        JsonView::Object(o) => JsonView::Object(by_key(each_ordered(o))),
        _ => j,
    }
}

/// The members `o`, with the members of every object in them in the order of their
/// keys.
pub open spec fn each_ordered(o: Seq<(Seq<char>, JsonView)>) -> Seq<(Seq<char>, JsonView)>
    decreases o,
{
    Seq::new(
        o.len(),
        |i: int|
            if 0 <= i < o.len() {
                (o[i].0, ordered(o[i].1))
            } else {
                (Seq::empty(), JsonView::Null)
            },
    )
}

/// Every member of an object is found under its key.
pub proof fn member_is_found(o: Seq<(Seq<char>, JsonView)>, i: int)
    requires
        distinct_keys(o),
        0 <= i < o.len(),
    ensures
        field(o, o[i].0) == Some(o[i].1),
    decreases o.len(),
{
    if i > 0 {
        let rest = o.drop_first();
        assert forall|x: int, y: int| 0 <= x < y < rest.len() implies (#[trigger] rest[x]).0 != (
        #[trigger] rest[y]).0 by {
            assert(rest[x] == o[x + 1] && rest[y] == o[y + 1]);
        }
        assert(o[0].0 != o[i].0);
        assert(rest[i - 1] == o[i]);
        member_is_found(rest, i - 1);
    }
}

/// `o` with the member `key` set to `value`: in its place if it is there, and
/// before the first whose key comes after it if it is not.
pub open spec fn with_field(
    o: Seq<(Seq<char>, JsonView)>,
    key: Seq<char>,
    value: JsonView,
) -> Seq<(Seq<char>, JsonView)> {
    let at = position(o, key) as int;
    if at < o.len() {
        o.update(at, (key, value))
    } else {
        placed(o, (key, value))
    }
}

/// Where one more member is placed.
proof fn placed_at(o: Seq<(Seq<char>, JsonView)>, m: (Seq<char>, JsonView), at: int)
    requires
        0 <= at <= o.len(),
        forall|k: int| 0 <= k < at ==> !text::is_before(m.0, (#[trigger] o[k]).0),
        at < o.len() ==> text::is_before(m.0, o[at].0),
    ensures
        placed(o, m) == o.insert(at, m),
    decreases o.len(),
{
    if o.len() == 0 {
        assert(placed(o, m) =~= o.insert(at, m));
    } else if at == 0 {
        assert(placed(o, m) =~= o.insert(at, m));
    } else {
        assert(!text::is_before(m.0, o[0].0));
        placed_at(o.drop_first(), m, at - 1);
        assert(placed(o, m) =~= o.insert(at, m));
    }
}

/// One more member is found under its key, and the others under theirs.
proof fn field_of_placed(o: Seq<(Seq<char>, JsonView)>, m: (Seq<char>, JsonView), key: Seq<char>)
    requires
        field(o, m.0) is None,
    ensures
        field(placed(o, m), key) == (if key == m.0 {
            Some(m.1)
        } else {
            field(o, key)
        }),
    decreases o.len(),
{
    let p = placed(o, m);
    if o.len() == 0 {
        assert(p.drop_first() =~= o);
    } else if text::is_before(m.0, o[0].0) {
        assert(p.drop_first() =~= o);
    } else {
        field_of_placed(o.drop_first(), m, key);
        assert(p.drop_first() =~= placed(o.drop_first(), m));
        assert(p[0] == o[0]);
    }
}

/// A key that no member has is not found.
proof fn field_is_missing(o: Seq<(Seq<char>, JsonView)>, key: Seq<char>)
    requires
        forall|i: int| 0 <= i < o.len() ==> (#[trigger] o[i]).0 != key,
    ensures
        field(o, key) is None,
    decreases o.len(),
{
    if o.len() > 0 {
        assert(o[0].0 != key);
        assert forall|i: int| 0 <= i < o.drop_first().len() implies (#[trigger] o.drop_first()[i]).0
            != key by {
            assert(o.drop_first()[i] == o[i + 1]);
        }
        field_is_missing(o.drop_first(), key);
    }
}

/// Bringing members into the order of their keys does not change what is found
/// under a key.
proof fn field_by_key(o: Seq<(Seq<char>, JsonView)>, key: Seq<char>)
    requires
        distinct_keys(o),
    ensures
        field(by_key(o), key) == field(o, key),
    decreases o.len(),
{
    if o.len() > 0 {
        let rest = o.drop_first();
        assert forall|i: int, j: int| 0 <= i < j < rest.len() implies (#[trigger] rest[i]).0 != (
        #[trigger] rest[j]).0 by {
            assert(rest[i] == o[i + 1] && rest[j] == o[j + 1]);
        }
        assert forall|i: int| 0 <= i < rest.len() implies (#[trigger] rest[i]).0 != o[0].0 by {
            assert(rest[i] == o[i + 1]);
        }
        field_by_key(rest, key);
        field_by_key(rest, o[0].0);
        field_is_missing(rest, o[0].0);
        field_of_placed(by_key(rest), o[0], key);
    }
}

/// The member `key`, with its own members in the order of their keys.
pub open spec fn ordered_field(o: Seq<(Seq<char>, JsonView)>, key: Seq<char>) -> Option<JsonView> {
    match field(o, key) {
        Some(v) => Some(ordered(v)),
        None => None,
    }
}

proof fn field_of_mapped(
    o: Seq<(Seq<char>, JsonView)>,
    q: Seq<(Seq<char>, JsonView)>,
    key: Seq<char>,
)
    requires
        q.len() == o.len(),
        forall|i: int|
            0 <= i < o.len() ==> (#[trigger] q[i]).0 == o[i].0 && q[i].1 == ordered(o[i].1),
    ensures
        field(q, key) == ordered_field(o, key),
    decreases o.len(),
{
    if o.len() > 0 {
        assert(q[0].0 == o[0].0);
        let (q1, o1) = (q.drop_first(), o.drop_first());
        assert forall|i: int| 0 <= i < o1.len() implies (#[trigger] q1[i]).0 == o1[i].0 && q1[i].1
            == ordered(o1[i].1) by {
            assert(q1[i] == q[i + 1] && o1[i] == o[i + 1]);
        }
        field_of_mapped(o1, q1, key);
    }
}

/// What is found under a key in an object whose members were brought into order.
pub(crate) proof fn field_of_ordered(o: Seq<(Seq<char>, JsonView)>, key: Seq<char>)
    requires
        distinct_keys(o),
    ensures
        ordered(JsonView::Object(o)) is Object,
        field(ordered(JsonView::Object(o))->Object_0, key) == ordered_field(o, key),
{
    let q = each_ordered(o);
    assert forall|i: int, j: int| 0 <= i < j < q.len() implies (#[trigger] q[i]).0 != (
    #[trigger] q[j]).0 by {
        assert(q[i].0 == o[i].0 && q[j].0 == o[j].0);
    }
    field_by_key(q, key);
    field_of_mapped(o, q, key);
}

/// Whether the keys come in order, each before those behind it.
pub open spec fn keys_ascend(o: Seq<(Seq<char>, JsonView)>) -> bool {
    forall|i: int, j: int|
        0 <= i < j < o.len() ==> text::is_before((#[trigger] o[i]).0, (#[trigger] o[j]).0)
}

/// One more member among members in order leaves them in order.
proof fn placed_in_order(o: Seq<(Seq<char>, JsonView)>, m: (Seq<char>, JsonView))
    requires
        keys_ascend(o),
        forall|i: int| 0 <= i < o.len() ==> (#[trigger] o[i]).0 != m.0,
    ensures
        keys_ascend(placed(o, m)),
        placed(o, m).len() == o.len() + 1,
        forall|i: int|
            0 <= i < placed(o, m).len() ==> (#[trigger] placed(o, m)[i]) == m || o.contains(
                placed(o, m)[i],
            ),
    decreases o.len(),
{
    let p = placed(o, m);
    if o.len() > 0 {
        text::one_of_two_comes_before(m.0, o[0].0);
        if text::is_before(m.0, o[0].0) {
            assert forall|i: int, j: int| 0 <= i < j < p.len() implies text::is_before(
                (#[trigger] p[i]).0,
                (#[trigger] p[j]).0,
            ) by {
                assert(p[j] == o[j - 1]);
                if i == 0 {
                    if j > 1 {
                        assert(text::is_before(o[0].0, o[j - 1].0));
                        text::coming_before_is_passed_on(m.0, o[0].0, o[j - 1].0);
                    }
                } else {
                    assert(p[i] == o[i - 1]);
                }
            }
            assert forall|i: int| 0 <= i < p.len() implies (#[trigger] p[i]) == m || o.contains(
                p[i],
            ) by {
                if i > 0 {
                    assert(p[i] == o[i - 1]);
                }
            }
        } else {
            let rest = o.drop_first();
            let q = placed(rest, m);
            assert forall|i: int, j: int| 0 <= i < j < rest.len() implies text::is_before(
                (#[trigger] rest[i]).0,
                (#[trigger] rest[j]).0,
            ) by {
                assert(rest[i] == o[i + 1] && rest[j] == o[j + 1]);
            }
            assert forall|i: int| 0 <= i < rest.len() implies (#[trigger] rest[i]).0 != m.0 by {
                assert(rest[i] == o[i + 1]);
            }
            placed_in_order(rest, m);
            assert(p =~= seq![o[0]] + q);
            assert forall|i: int, j: int| 0 <= i < j < p.len() implies text::is_before(
                (#[trigger] p[i]).0,
                (#[trigger] p[j]).0,
            ) by {
                assert(p[j] == q[j - 1]);
                if i == 0 {
                    if q[j - 1] != m {
                        let k = choose|k: int| 0 <= k < rest.len() && rest[k] == q[j - 1];
                        assert(o[k + 1] == q[j - 1]);
                    }
                } else {
                    assert(p[i] == q[i - 1]);
                }
            }
            assert forall|i: int| 0 <= i < p.len() implies (#[trigger] p[i]) == m || o.contains(
                p[i],
            ) by {
                if i > 0 {
                    assert(p[i] == q[i - 1]);
                    if q[i - 1] != m {
                        let k = choose|k: int| 0 <= k < rest.len() && rest[k] == q[i - 1];
                        assert(o[k + 1] == q[i - 1]);
                    }
                } else {
                    assert(p[0] == o[0]);
                }
            }
        }
    }
}

/// Members brought into the order of their keys are the same members, each before those
/// whose keys come later.
pub proof fn members_are_brought_into_order(o: Seq<(Seq<char>, JsonView)>, key: Seq<char>)
    requires
        distinct_keys(o),
    ensures
        keys_ascend(by_key(o)),
        by_key(o).len() == o.len(),
        field(by_key(o), key) == field(o, key),
        forall|i: int| 0 <= i < o.len() ==> o.contains(#[trigger] by_key(o)[i]),
    decreases o.len(),
{
    field_by_key(o, key);
    if o.len() > 0 {
        let rest = o.drop_first();
        assert forall|i: int, j: int| 0 <= i < j < rest.len() implies (#[trigger] rest[i]).0 != (
        #[trigger] rest[j]).0 by {
            assert(rest[i] == o[i + 1] && rest[j] == o[j + 1]);
        }
        members_are_brought_into_order(rest, key);
        let b = by_key(rest);
        assert forall|i: int| 0 <= i < b.len() implies (#[trigger] b[i]).0 != o[0].0 by {
            let k = choose|k: int| 0 <= k < rest.len() && rest[k] == b[i];
            assert(o[k + 1] == b[i]);
        }
        placed_in_order(b, o[0]);
        let p = by_key(o);
        assert forall|i: int| 0 <= i < o.len() implies o.contains(#[trigger] p[i]) by {
            if p[i] == o[0] {
                assert(o[0] == p[i]);
            } else {
                let x = choose|x: int| 0 <= x < b.len() && b[x] == p[i];
                let k = choose|k: int| 0 <= k < rest.len() && rest[k] == b[x];
                assert(o[k + 1] == p[i]);
            }
        }
    }
}

/// Ordering leaves all but the members of objects where it is: a list keeps its values
/// in their places, and anything else is the same.
pub proof fn only_members_are_ordered(a: Seq<JsonView>, i: int, s: Seq<char>, b: bool, n: serde_json::Number)
    requires
        0 <= i < a.len(),
    ensures
        ordered(JsonView::Array(a)) is Array,
        ordered(JsonView::Array(a))->Array_0.len() == a.len(),
        ordered(JsonView::Array(a))->Array_0[i] == ordered(a[i]),
        ordered(JsonView::Text(s)) == JsonView::Text(s),
        ordered(JsonView::Bool(b)) == JsonView::Bool(b),
        ordered(JsonView::Number(n)) == JsonView::Number(n),
        ordered(JsonView::Null) == JsonView::Null,
{
}

/// A member that is set is found under its key, and the others under theirs, as before.
pub proof fn member_that_is_set_is_found(
    o: Seq<(Seq<char>, JsonView)>,
    key: Seq<char>,
    value: JsonView,
    other: Seq<char>,
)
    ensures
        field(with_field(o, key, value), key) == Some(value),
        other != key ==> field(with_field(o, key, value), other) == field(o, other),
{
    position_of_field(o, key);
    let at = position(o, key) as int;
    if at < o.len() {
        field_of_update(o, key, value, key);
        field_of_update(o, key, value, other);
    } else {
        field_of_placed(o, (key, value), key);
        field_of_placed(o, (key, value), other);
    }
}

/// Setting a member leaves members in order that were in order, and adds one only if its
/// key is new.
pub proof fn setting_a_member_keeps_the_order(
    o: Seq<(Seq<char>, JsonView)>,
    key: Seq<char>,
    value: JsonView,
)
    requires
        keys_ascend(o),
    ensures
        keys_ascend(with_field(o, key, value)),
        with_field(o, key, value).len() == (if field(o, key) is Some {
            o.len()
        } else {
            o.len() + 1
        }),
{
    position_of_field(o, key);
    let at = position(o, key) as int;
    let w = with_field(o, key, value);
    if at < o.len() {
        assert forall|i: int, j: int| 0 <= i < j < w.len() implies text::is_before(
            (#[trigger] w[i]).0,
            (#[trigger] w[j]).0,
        ) by {
            assert(w[i].0 == o[i].0 && w[j].0 == o[j].0);
        }
    } else {
        placed_in_order(o, (key, value));
    }
}

/// What is read from a text is what the parser makes of it, in order: a value that the
/// parser reads is read with the members of its objects in the order of their keys, and
/// a text that it cannot read gives its error.
pub proof fn values_are_read_in_order(s: Seq<char>, j: JsonView)
    ensures
        reads_as(s, j) ==> json_read(s) == Ok::<JsonView, Seq<char>>(ordered(j)),
        json_parse(s) matches Err(e) ==> json_read(s) == Err::<JsonView, Seq<char>>(e),
        MAX_NESTING == 127,
{
}

proof fn position_of_field(o: Seq<(Seq<char>, JsonView)>, key: Seq<char>)
    ensures
        position(o, key) <= o.len(),
        position(o, key) < o.len() <==> field(o, key) is Some,
        position(o, key) < o.len() ==> o[position(o, key) as int].0 == key,
        forall|i: int| 0 <= i < position(o, key) ==> (#[trigger] o[i]).0 != key,
    decreases o.len(),
{
    if o.len() > 0 && o[0].0 != key {
        let rest = o.drop_first();
        position_of_field(rest, key);
        assert forall|i: int| 0 <= i < position(o, key) implies (#[trigger] o[i]).0 != key by {
            if i > 0 {
                assert(rest[i - 1] == o[i]);
            }
        }
    }
}

proof fn field_of_update(
    o: Seq<(Seq<char>, JsonView)>,
    key: Seq<char>,
    value: JsonView,
    other: Seq<char>,
)
    requires
        position(o, key) < o.len(),
    ensures
        field(o.update(position(o, key) as int, (key, value)), other) == (if other == key {
            Some(value)
        } else {
            field(o, other)
        }),
    decreases o.len(),
{
    let at = position(o, key) as int;
    let u = o.update(at, (key, value));
    if at > 0 {
        field_of_update(o.drop_first(), key, value, other);
        assert(u.drop_first() =~= o.drop_first().update(at - 1, (key, value)));
        assert(u[0] == o[0]);
    } else {
        assert(u.drop_first() =~= o.drop_first());
    }
}

impl JsonObject {
    #[verifier::type_invariant]
    spec fn keys_are_distinct(self) -> bool {
        distinct_keys(object_view(self))
    }

    /// An object without members.
    pub fn new() -> (r: Self)
        ensures
            r@ == Seq::<(Seq<char>, JsonView)>::empty(),
    {
        let r = JsonObject { entries: Vec::new() };
        assert(r@ =~= Seq::<(Seq<char>, JsonView)>::empty());
        r
    }

    /// The number of members.
    pub fn len(&self) -> (r: usize)
        ensures
            r == self@.len(),
    {
        self.entries.len()
    }

    /// The key of the member at `i`.
    pub fn key_at(&self, i: usize) -> (r: &String)
        requires
            i < self@.len(),
        ensures
            r@ == self@[i as int].0,
    {
        &self.entries[i].0
    }

    /// The value of the member at `i`.
    pub fn value_at(&self, i: usize) -> (r: &Json)
        requires
            i < self@.len(),
        ensures
            r@ == self@[i as int].1,
    {
        &self.entries[i].1
    }

    fn find(&self, key: &str) -> (r: usize)
        ensures
            r == position(self@, key@),
            r <= self@.len(),
            r < self@.len() ==> self@[r as int].0 == key@,
            field(self@, key@) == (if r < self@.len() {
                Some(self@[r as int].1)
            } else {
                None
            }),
            forall|k: int| 0 <= k < r ==> (#[trigger] self@[k]).0 != key@,
    {
        let wanted = key.to_owned();
        let n = self.entries.len();
        let mut i: usize = 0;
        assert(self@.skip(0) =~= self@);
        while i < n
            invariant_except_break
                wanted@ == key@,
                n == self.entries@.len(),
                n == self@.len(),
                i <= n,
                field(self@, key@) == field(self@.skip(i as int), key@),
                position(self@, key@) == i + position(self@.skip(i as int), key@),
                forall|k: int| 0 <= k < i ==> (#[trigger] self@[k]).0 != key@,
            ensures
                i <= n,
                n == self@.len(),
                i < n ==> self@[i as int].0 == key@,
                position(self@, key@) == i,
                field(self@, key@) == (if i < n {
                    Some(self@[i as int].1)
                } else {
                    None
                }),
                forall|k: int| 0 <= k < i ==> (#[trigger] self@[k]).0 != key@,
            decreases n - i,
        {
            assert(self@.skip(i as int)[0] == self@[i as int]);
            if self.entries[i].0 == wanted {
                break;
            }
            assert(self@.skip(i as int).drop_first() =~= self@.skip(i + 1));
            i += 1;
        }
        i
    }

    /// The value of the member `key`, if there is one.
    pub fn get(&self, key: &str) -> (r: Option<&Json>)
        ensures
            match r {
                Some(v) => field(self@, key@) == Some(v@),
                None => field(self@, key@) is None,
            },
    {
        let i = self.find(key);
        if i < self.entries.len() {
            Some(&self.entries[i].1)
        } else {
            None
        }
    }

    /// Sets the member `key`: in its place if it is there, and before the first
    /// whose key comes after it if not.
    pub fn insert(&mut self, key: String, value: Json)
        ensures
            final(self)@ == with_field(old(self)@, key@, value@),
    {
        let ghost before = self@;
        proof {
            use_type_invariant(&*self);
        }
        let i = self.find(key.as_str());
        let mut entries: Vec<(String, Json)> = Vec::new();
        std::mem::swap(&mut self.entries, &mut entries);
        let ghost members = entries@;
        let ghost added = (key, value);
        let ghost after = with_field(before, added.0@, added.1@);
        if i < entries.len() {
            entries.set(i, (key, value));
            assert(entries@ == members.update(i as int, added));
            assert(object_view(JsonObject { entries }) =~= after);
            assert(distinct_keys(after));
        } else {
            let mut at: usize = 0;
            while at < entries.len() && !comes_before(&key, &entries[at].0)
                invariant
                    at <= entries@.len(),
                    entries@ == members,
                    before == object_view(JsonObject { entries }),
                    forall|k: int|
                        0 <= k < at ==> !text::is_before(key@, (#[trigger] before[k]).0),
                decreases entries@.len() - at,
            {
                at += 1;
            }
            proof {
                placed_at(before, (added.0@, added.1@), at as int);
            }
            entries.insert(at, (key, value));
            assert(object_view(JsonObject { entries }) =~= after);
            assert forall|x: int, y: int| 0 <= x < y < after.len() implies (#[trigger] after[x]).0
                != (#[trigger] after[y]).0 by {
                let a = at as int;
                let (x1, y1) = (if x < a { x } else { x - 1 }, if y < a { y } else { y - 1 });
                assert(x != a ==> after[x] == before[x1]);
                assert(y != a ==> after[y] == before[y1]);
            }
        }
        self.entries = entries;
    }
}

impl Clone for Json {
    fn clone(&self) -> (r: Self)
        ensures
            r@ == self@,
        decreases self,
    {
        match self {
            Json::Null => Json::Null,
            Json::Bool(b) => Json::Bool(*b),
            Json::Number(n) => Json::Number(n.clone()),
            Json::Text(s) => Json::Text(s.clone()),
            Json::Array(a) => {
                let mut out: Vec<Json> = Vec::new();
                let n = a.len();
                for i in 0..n
                    invariant
                        n == a@.len(),
                        *self == Json::Array(*a),
                        out@.len() == i,
                        forall|k: int| 0 <= k < i ==> json_view(#[trigger] out@[k]) == json_view(a@[k]),
                {
                    assert(decreases_to!(*self => self->Array_0));
                    out.push(a[i].clone());
                }
                let r = Json::Array(out);
                assert(r@->Array_0 =~= self@->Array_0);
                r
            },
            Json::Object(o) => Json::Object(o.clone()),
        }
    }
}

impl Clone for JsonObject {
    fn clone(&self) -> (r: Self)
        ensures
            r@ == self@,
        decreases self,
    {
        proof {
            use_type_invariant(self);
        }
        let mut out: Vec<(String, Json)> = Vec::new();
        let n = self.entries.len();
        for i in 0..n
            invariant
                n == self.entries@.len(),
                out@.len() == i,
                forall|k: int|
                    0 <= k < i ==> (#[trigger] out@[k]).0@ == self.entries@[k].0@ && json_view(
                        out@[k].1,
                    ) == json_view(self.entries@[k].1),
        {
            out.push((self.entries[i].0.clone(), self.entries[i].1.clone()));
        }
        assert(object_view(JsonObject { entries: out }) =~= object_view(*self));
        JsonObject { entries: out }
    }
}

/// A `serde_json::Value`, one level deep.
enum Node {
    Null,
    Bool(bool),
    Number(serde_json::Number),
    Text(String),
    Array(Vec<serde_json::Value>),
    Object(Vec<(String, serde_json::Value)>),
}

/// The JSON value that a `serde_json::Value` holds.
pub uninterp spec fn value_view(v: serde_json::Value) -> JsonView;

spec fn node_view(n: Node) -> JsonView {
    match n {
        Node::Null => JsonView::Null,
        Node::Bool(b) => JsonView::Bool(b),
        Node::Number(n) => JsonView::Number(n),
        Node::Text(s) => JsonView::Text(s@),
        Node::Array(a) => JsonView::Array(Seq::new(a@.len(), |i: int| value_view(a@[i]))),
        Node::Object(o) => JsonView::Object(
            Seq::new(o@.len(), |i: int| (o@[i].0@, value_view(o@[i].1))),
        ),
    }
}

/// Whether no two members of an object node have the same key.
spec fn node_keys_are_distinct(n: Node) -> bool {
    match node_view(n) {
        JsonView::Object(o) => distinct_keys(o),
        _ => true,
    }
}

/// Takes a `serde_json::Value` apart by its variant. The members of its object
/// come in the order in which `serde_json::Map` keeps them, each key once.
#[verifier::external_body]
fn open_value(v: serde_json::Value) -> (r: Node)
    ensures
        node_view(r) == value_view(v),
        node_keys_are_distinct(r),
{
    match v {
        serde_json::Value::Null => Node::Null,
        serde_json::Value::Bool(b) => Node::Bool(b),
        serde_json::Value::Number(n) => Node::Number(n),
        serde_json::Value::String(s) => Node::Text(s),
        serde_json::Value::Array(a) => Node::Array(a),
        serde_json::Value::Object(o) => Node::Object(o.into_iter().collect()),
    }
}

/// Builds the `serde_json::Value` of a variant. `serde_json::Map` keeps the
/// members of an object in the order in which they are collected.
#[verifier::external_body]
fn build_value(n: Node) -> (r: serde_json::Value)
    requires
        node_keys_are_distinct(n),
    ensures
        value_view(r) == node_view(n),
{
    match n {
        Node::Null => serde_json::Value::Null,
        Node::Bool(b) => serde_json::Value::Bool(b),
        Node::Number(n) => serde_json::Value::Number(n),
        Node::Text(s) => serde_json::Value::String(s),
        Node::Array(a) => serde_json::Value::Array(a),
        Node::Object(o) => serde_json::Value::Object(o.into_iter().collect()),
    }
}

/// The library's value of a `serde_json::Value`, with the members of every object in
/// the order of their keys.
pub fn from_value(v: serde_json::Value) -> (r: Json)
    ensures
        r@ == ordered(value_view(v)),
{
    convert(sorted_value(v))
}

/// The library's value of a `serde_json::Value`, member by member.
fn convert(v: serde_json::Value) -> (r: Json)
    ensures
        r@ == value_view(v),
    decreases value_view(v),
{
    let ghost whole = value_view(v);
    match open_value(v) {
        Node::Null => Json::Null,
        Node::Bool(b) => Json::Bool(b),
        Node::Number(n) => Json::Number(n),
        Node::Text(s) => Json::Text(s),
        Node::Array(a) => {
            let ghost parts = a@;
            let mut out: Vec<Json> = Vec::new();
            for x in it: a
                invariant
                    it.seq() == parts,
                    whole == JsonView::Array(Seq::new(parts.len(), |i: int| value_view(parts[i]))),
                    whole == value_view(v),
                    out@.len() == it.index(),
                    forall|k: int|
                        0 <= k < it.index() ==> json_view(#[trigger] out@[k]) == value_view(parts[k]),
            {
                assert(whole->Array_0[it.index() as int] == value_view(x));
                out.push(convert(x));
            }
            let r = Json::Array(out);
            assert(r@->Array_0 =~= whole->Array_0);
            r
        },
        Node::Object(o) => {
            let ghost parts = o@;
            let mut out: Vec<(String, Json)> = Vec::new();
            for x in it: o
                invariant
                    it.seq() == parts,
                    whole == JsonView::Object(
                        Seq::new(parts.len(), |i: int| (parts[i].0@, value_view(parts[i].1))),
                    ),
                    whole == value_view(v),
                    out@.len() == it.index(),
                    forall|k: int|
                        0 <= k < it.index() ==> (#[trigger] out@[k]).0@ == parts[k].0@ && json_view(
                            out@[k].1,
                        ) == value_view(parts[k].1),
            {
                assert(whole->Object_0[it.index() as int].1 == value_view(x.1));
                let (key, value) = x;
                out.push((key, convert(value)));
            }
            assert(object_view(JsonObject { entries: out }) =~= whole->Object_0);
            Json::Object(JsonObject { entries: out })
        },
    }
}

/// The `serde_json::Value` of a value.
pub fn to_value(j: &Json) -> (r: serde_json::Value)
    ensures
        value_view(r) == j@,
    decreases j,
{
    match j {
        Json::Null => build_value(Node::Null),
        Json::Bool(b) => build_value(Node::Bool(*b)),
        Json::Number(n) => build_value(Node::Number(n.clone())),
        Json::Text(s) => build_value(Node::Text(s.clone())),
        Json::Array(a) => {
            let mut out: Vec<serde_json::Value> = Vec::new();
            let n = a.len();
            for i in 0..n
                invariant
                    n == a@.len(),
                    *j == Json::Array(*a),
                    out@.len() == i,
                    forall|k: int| 0 <= k < i ==> value_view(#[trigger] out@[k]) == json_view(a@[k]),
            {
                assert(decreases_to!(*j => j->Array_0));
                out.push(to_value(&a[i]));
            }
            let node = Node::Array(out);
            assert(node_view(node)->Array_0 =~= j@->Array_0);
            build_value(node)
        },
        Json::Object(o) => {
            proof {
                use_type_invariant(o);
            }
            let mut out: Vec<(String, serde_json::Value)> = Vec::new();
            let n = o.entries.len();
            for i in 0..n
                invariant
                    n == o.entries@.len(),
                    *j == Json::Object(*o),
                    out@.len() == i,
                    forall|k: int|
                        0 <= k < i ==> (#[trigger] out@[k]).0@ == o.entries@[k].0@ && value_view(
                            out@[k].1,
                        ) == json_view(o.entries@[k].1),
            {
                assert(decreases_to!(*j => j->Object_0));
                out.push((o.entries[i].0.clone(), to_value(&o.entries[i].1)));
            }
            let node = Node::Object(out);
            assert(node_view(node)->Object_0 =~= j@->Object_0);
            build_value(node)
        },
    }
}

/// The JSON number of an integer.
pub uninterp spec fn int_number(i: i64) -> serde_json::Number;

/// `Number::from(i64)`. Different integers give different numbers.
#[verifier::external_body]
pub(crate) fn number_from_int(i: i64) -> (r: serde_json::Number)
    ensures
        r == int_number(i),
        forall|j: i64| r == int_number(j) ==> j == i,
{
    serde_json::Number::from(i)
}

/// `Number::as_i64`: the integer of a number that is one and fits `i64`. Any
/// other number is not the number of an `i64`.
#[verifier::external_body]
pub(crate) fn number_to_int(n: &serde_json::Number) -> (r: Option<i64>)
    ensures
        match r {
            Some(i) => *n == int_number(i) && forall|j: i64| *n == int_number(j) ==> j == i,
            None => forall|j: i64| *n != int_number(j),
        },
{
    n.as_i64()
}

/// The JSON number of an unsigned integer.
pub uninterp spec fn uint_number(u: u64) -> serde_json::Number;

/// `Number::from(u64)`.
#[verifier::external_body]
pub(crate) fn number_from_uint(u: u64) -> (r: serde_json::Number)
    ensures
        r == uint_number(u),
{
    serde_json::Number::from(u)
}

/// Whether `n` is an integer that fits `i64`.
pub open spec fn is_int(n: serde_json::Number) -> bool {
    exists|i: i64| n == int_number(i)
}

/// The integer of a number that is one and fits `i64`.
pub open spec fn int_value(n: serde_json::Number) -> Option<i64> {
    if is_int(n) {
        Some(choose|i: i64| n == int_number(i))
    } else {
        None
    }
}

/// Whether `n` is an integer that fits `u64`.
pub open spec fn is_uint(n: serde_json::Number) -> bool {
    exists|u: u64| n == uint_number(u)
}

/// The key by which `serde_json` marks a text that holds JSON. The parser puts what
/// the text holds in the place of an object that begins with this key.
pub open spec fn raw_token() -> Seq<char> {
    "$serde_json::private::RawValue"@
}

/// A key that does not begin with `$` is not the mark.
pub(crate) proof fn token_begins_with_a_dollar()
    ensures
        raw_token().len() > 0,
        raw_token()[0] == '$',
{
    reveal_strlit("$serde_json::private::RawValue");
}

/// Whether every number in `j` is an integer that fits `i64` or `u64`, no object in it
/// begins with the mark of `serde_json`, and `j` is nested at most `depth` deep.
pub open spec fn plain(j: JsonView, depth: nat) -> bool
    decreases depth,
{
    match j {
        JsonView::Null => true,
        JsonView::Bool(_) => true,
        JsonView::Number(n) => is_int(n) || is_uint(n),
        JsonView::Text(_) => true,
        JsonView::Array(a) => depth > 0 && forall|i: int|
            0 <= i < a.len() ==> plain(#[trigger] a[i], (depth - 1) as nat),
        JsonView::Object(o) => depth > 0 && (o.len() > 0 ==> o[0].0 != raw_token()) && forall|
            i: int,
        |
            0 <= i < o.len() ==> plain((#[trigger] o[i]).1, (depth - 1) as nat),
    }
}

/// How deep an array or object may be nested for the parser to accept it.
pub const MAX_NESTING: u64 = 127;

/// What the JSON parser makes of a text: a value, or the text of its error.
pub uninterp spec fn json_parse(s: Seq<char>) -> Result<JsonView, Seq<char>>;

/// The compact JSON text of a value.
pub uninterp spec fn json_text(j: JsonView) -> Seq<char>;

/// Whether the parser reads the value `j` from the text `s`.
pub open spec fn reads_as(s: Seq<char>, j: JsonView) -> bool {
    json_parse(s) == Ok::<JsonView, Seq<char>>(j)
}

/// The result of a parse, as mathematical values.
pub open spec fn parsed_view(r: Result<serde_json::Value, String>) -> Result<JsonView, Seq<char>> {
    match r {
        Ok(v) => Ok(value_view(v)),
        Err(e) => Err(e@),
    }
}

/// `serde_json::from_str` into a `Value`, with its error as text.
#[verifier::external_body]
fn value_from_str(s: &str) -> (r: Result<serde_json::Value, String>)
    ensures
        parsed_view(r) == json_parse(s@),
{
    serde_json::from_str::<serde_json::Value>(s).map_err(|e| e.to_string())
}

/// `Value::sort_all_objects`: the members of every object come into the order of
/// their keys, as `str` orders texts.
#[verifier::external_body]
fn sorted_value(v: serde_json::Value) -> (r: serde_json::Value)
    ensures
        value_view(r) == ordered(value_view(v)),
{
    let mut v = v;
    v.sort_all_objects();
    v
}

/// What is read from a text: the value that the parser makes of it, with the members
/// of every object in the order of their keys, or the text of the parser's error.
pub open spec fn json_read(s: Seq<char>) -> Result<JsonView, Seq<char>> {
    match json_parse(s) {
        Ok(j) => Ok(ordered(j)),
        Err(e) => Err(e),
    }
}

/// Whether a text holds no line feed.
pub open spec fn is_one_line(s: Seq<char>) -> bool {
    forall|i: int| 0 <= i < s.len() ==> #[trigger] s[i] != '\n'
}

/// `Value::to_string`, which writes a line feed inside a string as an escape and
/// puts none between values. Values that differ have different texts: a fraction is
/// written with as many digits as tell it from any other. The parser reads a value
/// back from its text, if its numbers are integers, no object in it begins with the
/// mark of `serde_json`, and it is not nested too deep. For other numbers that is not
/// claimed: the parser may round the last digit of a fraction.
#[verifier::external_body]
fn value_to_string(v: &serde_json::Value) -> (r: String)
    ensures
        r@ == json_text(value_view(*v)),
        is_one_line(r@),
        plain(value_view(*v), MAX_NESTING as nat) ==> reads_as(r@, value_view(*v)),
        forall|w: serde_json::Value|
            json_text(#[trigger] value_view(w)) == r@ ==> value_view(w) == value_view(*v),
{
    v.to_string()
}

/// Whether some `serde_json::Value` holds `j`.
pub open spec fn is_held(j: JsonView) -> bool {
    exists|w: serde_json::Value| #[trigger] value_view(w) == j
}

/// Whether no other value has the text that `j` has.
pub open spec fn has_its_own_text(j: JsonView) -> bool {
    forall|w: serde_json::Value|
        json_text(#[trigger] value_view(w)) == json_text(j) ==> value_view(w) == j
}

/// The text of the error for a value that is not a string.
pub uninterp spec fn string_error(j: JsonView) -> Seq<char>;

/// `serde_json::from_value` into a `String`, with its error as text.
#[verifier::external_body]
fn string_from_value(v: serde_json::Value) -> (r: Result<String, String>)
    ensures
        match r {
            Ok(s) => value_view(v) == JsonView::Text(s@),
            Err(e) => !(value_view(v) is Text) && e@ == string_error(value_view(v)),
        },
{
    serde_json::from_value::<String>(v).map_err(|e| e.to_string())
}

/// The text of the error for a value that is not an object.
pub uninterp spec fn map_error(j: JsonView) -> Seq<char>;

/// `serde_json::from_value` into a `Map`, with its error as text, for a value that is
/// not an object. The text of the error ends in what was expected, "a map".
#[verifier::external_body]
fn map_from_value(v: serde_json::Value) -> (r: Result<serde_json::Value, String>)
    requires
        !(value_view(v) is Object),
    ensures
        match r {
            Ok(_) => false,
            Err(e) => e@ == map_error(value_view(v)) && "a map"@.is_suffix_of(e@),
        },
{
    let map = serde_json::from_value::<serde_json::Map<String, serde_json::Value>>(v);
    map.map(serde_json::Value::Object).map_err(|e| e.to_string())
}

impl Json {
    /// The JSON number `i`, from which `i` is read and as which SQLite gets `i`.
    pub fn integer(i: i64) -> (r: Json)
        ensures
            r@ == JsonView::Number(int_number(i)),
            int_value(int_number(i)) == Some(i),
            params::sql_value_of(r@) == Ok::<params::SqlView, ErrorView>(
                params::SqlView::Integer(i),
            ),
    {
        let n = number_from_int(i);
        assert(int_value(n) == Some(i));
        Json::Number(n)
    }

    /// The JSON text `s`.
    pub fn text(s: &str) -> (r: Json)
        ensures
            r@ == JsonView::Text(s@),
    {
        Json::Text(s.to_owned())
    }

    /// Reads one JSON value from a text. The members of an object come in the order
    /// of their keys, in whatever order they stand in the text.
    pub fn parse(s: &str) -> (r: Result<Json, String>)
        ensures
            match r {
                Ok(j) => json_read(s@) == Ok::<JsonView, Seq<char>>(j@),
                Err(e) => json_read(s@) == Err::<JsonView, Seq<char>>(e@),
            },
    {
        match value_from_str(s) {
            Ok(v) => Ok(from_value(v)),
            Err(e) => Err(e),
        }
    }

    /// Writes the value as compact JSON, on one line, as no other value is written.
    /// The parser reads it back, if its numbers are integers, no object in it begins
    /// with the mark of `serde_json`, and it is not nested too deep.
    pub fn to_text(&self) -> (r: String)
        ensures
            r@ == json_text(self@),
            is_one_line(r@),
            plain(self@, MAX_NESTING as nat) ==> reads_as(r@, self@),
            is_held(self@),
            has_its_own_text(self@),
    {
        let v = to_value(self);
        assert(value_view(v) == self@);
        value_to_string(&v)
    }

    /// The integer of a number that is one and fits `i64`.
    pub fn as_integer(&self) -> (r: Option<i64>)
        ensures
            r == (match self@ {
                JsonView::Number(n) => int_value(n),
                _ => None,
            }),
    {
        match self {
            Json::Number(n) => number_to_int(n),
            _ => None,
        }
    }

    /// What the parser reports where a string was expected and this value, which
    /// is not one, was found.
    pub(crate) fn not_a_string(&self) -> (r: String)
        requires
            !(self@ is Text),
        ensures
            r@ == string_error(self@),
    {
        match string_from_value(to_value(self)) {
            Ok(s) => s,
            Err(e) => e,
        }
    }

    /// What the parser reports where a map was expected and this value, which is
    /// not an object, was found.
    pub(crate) fn not_a_map(&self) -> (r: String)
        requires
            !(self@ is Object),
        ensures
            r@ == map_error(self@),
            "a map"@.is_suffix_of(r@),
    {
        match map_from_value(to_value(self)) {
            Ok(_) => String::new(),
            Err(e) => e,
        }
    }
}

/// An object whose members are those of `fields`, in order.
pub(crate) fn object(fields: Vec<(&str, Json)>) -> (r: Json)
    requires
        forall|i: int, j: int|
            0 <= i < j < fields@.len() ==> (#[trigger] fields@[i]).0@ != (#[trigger] fields@[j]).0@,
    ensures
        r@ == JsonView::Object(Seq::new(fields@.len(), |i: int| (fields@[i].0@, fields@[i].1@))),
{
    let ghost parts = fields@;
    let mut entries: Vec<(String, Json)> = Vec::new();
    for x in it: fields
        invariant
            it.seq() == parts,
            entries@.len() == it.index(),
            forall|k: int|
                0 <= k < it.index() ==> (#[trigger] entries@[k]).0@ == parts[k].0@ && json_view(
                    entries@[k].1,
                ) == json_view(parts[k].1),
    {
        let (key, value) = x;
        entries.push((key.to_owned(), value));
    }
    let ghost members = Seq::new(parts.len(), |i: int| (parts[i].0@, parts[i].1@));
    assert(object_view(JsonObject { entries }) =~= members);
    Json::Object(JsonObject { entries })
}

} // verus!
