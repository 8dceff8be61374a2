//! JSON values.

use vstd::prelude::*;
use vstd::string::*;

use crate::text::number::{dec_nat, parse_i64, parse_u64, signed_value, u64_text, unsigned_value};
use crate::text::{owned, same, to_chars};

verus! {

/// A JSON value. Numbers are kept as they are written.
#[derive(Debug)]
pub enum Json {
    Null,
    Bool(bool),
    Number(String),
    Text(String),
    Array(Vec<Json>),
    Object(Vec<(String, Json)>),
}

/// The mathematical content of a JSON value.
#[verifier::ext_equal]
pub enum JsonView {
    Null,
    Bool(bool),
    Number(Seq<char>),
    Text(Seq<char>),
    Array(Seq<JsonView>),
    Object(Seq<(Seq<char>, JsonView)>),
}

/// What a JSON value holds.
pub open spec fn json_view(j: Json) -> JsonView
    decreases j,
{
    match j {
        Json::Null => JsonView::Null,
        Json::Bool(b) => JsonView::Bool(b),
        Json::Number(n) => JsonView::Number(n@),
        Json::Text(t) => JsonView::Text(t@),
        Json::Array(a) => JsonView::Array(
            Seq::new(
                a@.len(),
                |i: int|
                    if 0 <= i < a@.len() {
                        json_view(a@[i])
                    } else {
                        JsonView::Null
                    },
            ),
        ),
        Json::Object(o) => JsonView::Object(
            Seq::new(
                o@.len(),
                |i: int|
                    if 0 <= i < o@.len() {
                        (o@[i].0@, json_view(o@[i].1))
                    } else {
                        (Seq::empty(), JsonView::Null)
                    },
            ),
        ),
    }
}

impl View for Json {
    type V = JsonView;

    open spec fn view(&self) -> JsonView {
        json_view(*self)
    }
}

/// The value of the first field named `key`.
pub open spec fn field_of(fields: Seq<(Seq<char>, JsonView)>, key: Seq<char>) -> Option<JsonView>
    decreases fields.len(),
{
    if fields.len() == 0 {
        None
    } else if fields[0].0 == key {
        Some(fields[0].1)
    } else {
        field_of(fields.drop_first(), key)
    }
}

/// A field of an object; nothing for any other value.
pub open spec fn get_view(v: JsonView, key: Seq<char>) -> Option<JsonView> {
    match v {
        JsonView::Object(fields) => field_of(fields, key),
        _ => None,
    }
}

/// An array index as a pointer writes it: digits without a leading zero.
pub open spec fn pointer_index(token: Seq<char>) -> Option<nat> {
    if token.len() > 0 && (token[0] == '+' || (token[0] == '0' && token.len() != 1)) {
        None
    } else {
        unsigned_value(token, u64::MAX as nat)
    }
}

/// One step of a pointer: a field of an object, or an item of an array.
pub open spec fn step_view(v: JsonView, token: Seq<char>) -> Option<JsonView> {
    match v {
        JsonView::Object(fields) => field_of(fields, token),
        JsonView::Array(items) => match pointer_index(token) {
            Some(i) => if i < items.len() {
                Some(items[i as int])
            } else {
                None
            },
            None => None,
        },
        _ => None,
    }
}

/// Where a pointer's steps lead.
pub open spec fn pointer_view(v: JsonView, path: Seq<Seq<char>>) -> Option<JsonView>
    decreases path.len(),
{
    if path.len() == 0 {
        Some(v)
    } else {
        match step_view(v, path[0]) {
            Some(next) => pointer_view(next, path.drop_first()),
            None => None,
        }
    }
}

/// The text of a text value.
pub open spec fn text_of(v: Option<JsonView>) -> Option<Seq<char>> {
    match v {
        Some(JsonView::Text(t)) => Some(t),
        _ => None,
    }
}

/// The integer of a number value that is one in the range of `i64`.
pub open spec fn int_of(v: Option<JsonView>) -> Option<int> {
    match v {
        Some(JsonView::Number(n)) => signed_value(n, i64::MIN as int, i64::MAX as int),
        _ => None,
    }
}

/// What a reference to a value, where there is one, holds.
pub open spec fn opt_view(v: Option<&Json>) -> Option<JsonView> {
    match v {
        Some(j) => Some(j@),
        None => None,
    }
}

impl Json {
    /// A text value.
    pub fn text(s: &str) -> (r: Json)
        ensures
            r@ == JsonView::Text(s@),
    {
        Json::Text(owned(s))
    }

    /// A number value.
    pub fn number(n: u64) -> (r: Json)
        ensures
            r@ == JsonView::Number(dec_nat(n as nat)),
    {
        Json::Number(u64_text(n))
    }

    /// A boolean value.
    pub fn boolean(b: bool) -> (r: Json)
        ensures
            r@ == JsonView::Bool(b),
    {
        Json::Bool(b)
    }

    /// A text value, or null.
    pub fn text_or_null(s: &Option<String>) -> (r: Json)
        ensures
            r@ == or_null(s.deep_view()),
    {
        match s {
            Some(t) => Json::text(t.as_str()),
            None => Json::Null,
        }
    }

    /// A field of an object.
    pub fn get(&self, key: &str) -> (r: Option<&Json>)
        ensures
            opt_view(r) == get_view(self@, key@),
    {
        match self {
            Json::Object(fields) => {
                let ghost all = self@->Object_0;
                let mut i: usize = 0;
                assert(all.skip(0) =~= all);
                while i < fields.len()
                    invariant
                        i <= fields@.len(),
                        self@ == JsonView::Object(all),
                        all.len() == fields@.len(),
                        forall|j: int| 0 <= j < all.len() ==> #[trigger] all[j] == (fields@[j].0@, fields@[j].1@),
                        field_of(all, key@) == field_of(all.skip(i as int), key@),
                    decreases fields@.len() - i,
                {
                    assert(all.skip(i as int)[0] == all[i as int]);
                    if same(fields[i].0.as_str(), key) {
                        return Some(&fields[i].1);
                    }
                    assert(all.skip(i as int).drop_first() =~= all.skip(i as int + 1));
                    i += 1;
                }
                None
            },
            _ => None,
        }
    }

    fn step(&self, token: &str) -> (r: Option<&Json>)
        ensures
            opt_view(r) == step_view(self@, token@),
    {
        match self {
            Json::Object(_) => self.get(token),
            Json::Array(items) => {
                let t = to_chars(token);
                if t.len() > 0 && (t[0] == '+' || (t[0] == '0' && t.len() != 1)) {
                    return None;
                }
                match parse_u64(token) {
                    Some(i) => if i < items.len() as u64 {
                        assert(self@->Array_0[i as int] == items@[i as int]@);
                        Some(&items[i as usize])
                    } else {
                        None
                    },
                    None => None,
                }
            },
            _ => None,
        }
    }

    /// Where the steps lead, one after the other.
    pub fn pointer(&self, path: &[&str]) -> (r: Option<&Json>)
        ensures
            opt_view(r) == pointer_view(self@, path.deep_view()),
    {
        let mut at: &Json = self;
        let mut i: usize = 0;
        let ghost p = path.deep_view();
        assert(p.skip(0) =~= p);
        while i < path.len()
            invariant
                i <= path@.len(),
                p == path.deep_view(),
                pointer_view(self@, p) == pointer_view(at@, p.skip(i as int)),
            decreases path@.len() - i,
        {
            assert(p.skip(i as int)[0] == path@[i as int]@);
            assert(p.skip(i as int).drop_first() =~= p.skip(i as int + 1));
            match at.step(path[i]) {
                Some(next) => {
                    at = next;
                },
                None => {
                    return None;
                },
            }
            i += 1;
        }
        Some(at)
    }

    /// A copy.
    pub fn dup(&self) -> (r: Json)
        ensures
            r@ == self@,
        decreases self,
    {
        match self {
            Json::Null => Json::Null,
            Json::Bool(b) => Json::Bool(*b),
            Json::Number(n) => Json::Number(n.clone()),
            Json::Text(t) => Json::Text(t.clone()),
            Json::Array(items) => {
                let mut out: Vec<Json> = Vec::new();
                let mut i: usize = 0;
                while i < items.len()
                    invariant
                        i <= items@.len(),
                        out@.len() == i,
                        *self == Json::Array(*items),
                        forall|j: int| 0 <= j < i ==> (#[trigger] out@[j])@ == items@[j]@,
                    decreases items@.len() - i,
                {
                    assert(decreases_to!(*self => self->Array_0));
                    assert(decreases_to!(*items => items[i as int]));
                    out.push(items[i].dup());
                    i += 1;
                }
                let r = Json::Array(out);
                assert(r@->Array_0 =~= self@->Array_0);
                r
            },
            Json::Object(fields) => {
                let mut out: Vec<(String, Json)> = Vec::new();
                let mut i: usize = 0;
                while i < fields.len()
                    invariant
                        i <= fields@.len(),
                        out@.len() == i,
                        *self == Json::Object(*fields),
                        forall|j: int| 0 <= j < i ==> (#[trigger] out@[j]).0@ == fields@[j].0@ && out@[j].1@
                            == fields@[j].1@,
                    decreases fields@.len() - i,
                {
                    assert(decreases_to!(*self => self->Object_0));
                    assert(decreases_to!(*fields => fields[i as int]));
                    assert(decreases_to!(fields[i as int] => fields[i as int].1));
                    out.push((fields[i].0.clone(), fields[i].1.dup()));
                    i += 1;
                }
                let r = Json::Object(out);
                assert(r@->Object_0 =~= self@->Object_0);
                r
            },
        }
    }
}

/// Text, or null where there is none.
pub open spec fn or_null(s: Option<Seq<char>>) -> JsonView {
    match s {
        Some(t) => JsonView::Text(t),
        None => JsonView::Null,
    }
}

/// The text of a text value.
pub fn as_text(v: Option<&Json>) -> (r: Option<String>)
    ensures
        r.deep_view() == text_of(opt_view(v)),
{
    match v {
        Some(Json::Text(t)) => Some(t.clone()),
        _ => None,
    }
}

/// Whether the value is that text.
pub fn is_text(v: Option<&Json>, s: &str) -> (r: bool)
    ensures
        r == (text_of(opt_view(v)) == Some(s@)),
{
    match v {
        Some(Json::Text(t)) => same(t.as_str(), s),
        _ => false,
    }
}

/// The integer of a number value.
pub fn as_int(v: Option<&Json>) -> (r: Option<i64>)
    ensures
        r is Some <==> int_of(opt_view(v)) is Some,
        r is Some ==> int_of(opt_view(v)) == Some(r->0 as int),
{
    match v {
        Some(Json::Number(n)) => parse_i64(n.as_str()),
        _ => None,
    }
}

/// A field with its name.
pub fn field(name: &str, value: Json) -> (r: (String, Json))
    ensures
        r.0@ == name@,
        r.1 == value,
{
    (owned(name), value)
}

/// The first field of a name is the one that is found, and a name that no field has is not
/// found.
pub proof fn first_field_is_found(fields: Seq<(Seq<char>, JsonView)>, key: Seq<char>, i: int)
    ensures
        0 <= i < fields.len() && fields[i].0 == key && (forall|j: int| 0 <= j < i ==> (#[trigger] fields[j]).0 != key)
            ==> get_view(JsonView::Object(fields), key) == Some(fields[i].1),
        (forall|j: int| 0 <= j < fields.len() ==> (#[trigger] fields[j]).0 != key) ==> get_view(
            JsonView::Object(fields),
            key,
        ) is None,
    decreases fields.len(),
{
    if fields.len() > 0 && fields[0].0 != key {
        let rest = fields.drop_first();
        first_field_is_found(rest, key, i - 1);
        assert forall|j: int| 0 <= j < rest.len() implies #[trigger] rest[j] == fields[j + 1] by {}
    }
}

/// Only objects have fields.
pub proof fn only_objects_have_fields(v: JsonView, key: Seq<char>)
    requires
        !(v is Object),
    ensures
        get_view(v, key) is None,
{
}

/// Following two paths one after the other is following the one path that they make; an
/// empty path stays where it is.
pub proof fn paths_are_followed_in_turn(v: JsonView, a: Seq<Seq<char>>, b: Seq<Seq<char>>)
    ensures
        pointer_view(v, Seq::empty()) == Some(v),
        pointer_view(v, a + b) == match pointer_view(v, a) {
            Some(next) => pointer_view(next, b),
            None => None,
        },
    decreases a.len(),
{
    if a.len() == 0 {
        assert(a + b =~= b);
    } else {
        assert((a + b)[0] == a[0]);
        assert((a + b).drop_first() =~= a.drop_first() + b);
        if step_view(v, a[0]) is Some {
            paths_are_followed_in_turn(step_view(v, a[0])->0, a.drop_first(), b);
        }
    }
}

/// A step into an object goes to the field, and a step into an array to the item with
/// that number.
pub proof fn steps_go_to_fields_and_items(v: JsonView, key: Seq<char>, items: Seq<JsonView>, i: u64)
    ensures
        v is Object ==> pointer_view(v, seq![key]) == get_view(v, key),
        i < items.len() ==> pointer_view(JsonView::Array(items), seq![dec_nat(i as nat)]) == Some(items[i as int]),
        i >= items.len() ==> pointer_view(JsonView::Array(items), seq![dec_nat(i as nat)]) is None,
        v is Text || v is Number || v is Bool || v is Null ==> pointer_view(v, seq![key]) is None,
{
    reveal_with_fuel(pointer_view, 3);
    assert(seq![key].drop_first() =~= Seq::<Seq<char>>::empty());
    let d = dec_nat(i as nat);
    assert(seq![d].drop_first() =~= Seq::<Seq<char>>::empty());
    crate::text::number::dec_nat_value(i as nat);
    crate::text::number::plain_digits(i as nat);
}

/// Texts and whole numbers are read as what they say, and nothing else is.
pub proof fn values_are_read_by_kind(t: Seq<char>, n: i64, b: bool)
    ensures
        text_of(Some(JsonView::Text(t))) == Some(t),
        text_of(Some(JsonView::Number(t))) is None,
        text_of(Some(JsonView::Null)) is None,
        text_of(Some(JsonView::Bool(b))) is None,
        text_of(None) is None,
        int_of(Some(JsonView::Number(crate::text::number::dec_int(n as int)))) == Some(n as int),
        int_of(Some(JsonView::Text(t))) is None,
        int_of(Some(JsonView::Null)) is None,
        int_of(None) is None,
        or_null(Some(t)) == JsonView::Text(t),
        or_null(None) == JsonView::Null,
{
    crate::text::number::print_parse_i64(n);
}

} // verus!
