//! JSON values as plain trees, and their text form as `serde_json` reads and
//! writes it.

use crate::error::Error;
use crate::text::{chars_of, numeral_value, parse_i64, same};
use vstd::prelude::*;

verus! {

/// A JSON value. A number is kept as the literal that stands for it, so that
/// integers and fractions alike pass through unchanged.
#[derive(Debug, PartialEq, Eq)]
pub enum Json {
    Null,
    Bool(bool),
    Number(String),
    Str(String),
    Array(Vec<Json>),
    Object(Vec<(String, Json)>),
}

/// The mathematical value of a [`Json`].
pub enum JsonView {
    Null,
    Bool(bool),
    Number(Seq<char>),
    Str(Seq<char>),
    Array(Seq<JsonView>),
    Object(Seq<(Seq<char>, JsonView)>),
}

impl View for Json {
    type V = JsonView;

    open spec fn view(&self) -> JsonView
        decreases self,
    {
        match self {
            Json::Null => JsonView::Null,
            Json::Bool(b) => JsonView::Bool(*b),
            Json::Number(t) => JsonView::Number(t@),
            Json::Str(s) => JsonView::Str(s@),
            Json::Array(items) => JsonView::Array(
                Seq::new(
                    items@.len(),
                    |i: int|
                        if 0 <= i < items@.len() {
                            items@[i]@
                        } else {
                            JsonView::Null
                        },
                ),
            ),
            Json::Object(members) => JsonView::Object(
                Seq::new(
                    members@.len(),
                    |i: int|
                        if 0 <= i < members@.len() {
                            (members@[i].0@, members@[i].1@)
                        } else {
                            (Seq::empty(), JsonView::Null)
                        },
                ),
            ),
        }
    }
}

} // verus!

verus! {

/// `serde_json::Value`, which the library reads and builds only through
/// the functions below.
#[verifier::external_type_specification]
#[verifier::external_body]
pub struct ExValue(serde_json::Value);

/// The tree that a `serde_json::Value` holds: its nodes as they are, each
/// number as the literal that `serde_json` displays for it, and the members
/// of each object in the order in which its map yields them.
pub uninterp spec fn value_tree(value: serde_json::Value) -> JsonView;

/// What `serde_json::from_str` makes of a text: the tree of the value that
/// it reads, or the message of the error that it reports.
pub uninterp spec fn json_of_text(text: Seq<char>) -> Result<JsonView, Seq<char>>;

/// The tree of the `serde_json::Value` that is built from a tree which is
/// not exact: the same nodes, with each number as `serde_json` holds it
/// after reading the literal, and of members with one key the last; or the
/// message of the error with which `serde_json` refuses a literal.
pub uninterp spec fn rebuilt_tree(tree: JsonView) -> Result<JsonView, Seq<char>>;

/// Whether no two members of `members` have the same key.
pub open spec fn distinct_keys(members: Seq<(Seq<char>, JsonView)>) -> bool {
    forall|i: int, j: int| 0 <= i < j < members.len() ==> members[i].0 != members[j].0
}

impl JsonView {
    /// Whether a `serde_json::Value` holds the tree as it is: every number
    /// in it is the numeral of an integer of 64 bits, and no object in it
    /// has two members with one key.
    pub open spec fn exact(self) -> bool
        decreases self,
    {
        match self {
            JsonView::Number(_) => self.integer() is Some,
            JsonView::Array(items) => forall|i: int|
                0 <= i < items.len() ==> (#[trigger] items[i]).exact(),
            JsonView::Object(members) => distinct_keys(members) && forall|i: int|
                0 <= i < members.len() ==> (#[trigger] members[i]).1.exact(),
            _ => true,
        }
    }
}

/// The tree of the `serde_json::Value` that is built from a tree: the tree
/// itself where it is exact, and otherwise what `serde_json` makes of it.
pub open spec fn built_tree(tree: JsonView) -> Result<JsonView, Seq<char>> {
    if tree.exact() {
        Ok(tree)
    } else {
        rebuilt_tree(tree)
    }
}

/// What `serde_json::to_string` writes for a value that holds a tree: its
/// compact text, or the message of the error that it reports.
pub uninterp spec fn text_of_tree(tree: JsonView) -> Result<Seq<char>, Seq<char>>;

/// The compact text of a tree: what `serde_json` writes for the value that
/// is built from it.
pub open spec fn text_of_json(tree: JsonView) -> Result<Seq<char>, Seq<char>> {
    match built_tree(tree) {
        Ok(built) => text_of_tree(built),
        Err(m) => Err(m),
    }
}

/// Calls `serde_json::from_str` for a `Value`. The contract gives the
/// outcome its name: it is a function of the text alone.
#[verifier::external_body]
fn read_value(text: &str) -> (r: Result<serde_json::Value, String>)
    ensures
        match r {
            Ok(v) => json_of_text(text@) == Ok::<JsonView, Seq<char>>(value_tree(v)),
            Err(m) => json_of_text(text@) == Err::<JsonView, Seq<char>>(m@),
        },
{
    serde_json::from_str::<serde_json::Value>(text).map_err(|e| e.to_string())
}

/// Copies a `serde_json::Value` into a tree, node by node. A number becomes
/// the literal that `serde_json` displays for it; the members of an object
/// keep the order in which the map yields them.
#[verifier::external_body]
fn tree_of_value(v: &serde_json::Value) -> (r: Json)
    ensures
        r@ == value_tree(*v),
{
    match v {
        serde_json::Value::Null => Json::Null,
        serde_json::Value::Bool(b) => Json::Bool(*b),
        serde_json::Value::Number(n) => Json::Number(n.to_string()),
        serde_json::Value::String(s) => Json::Str(s.clone()),
        serde_json::Value::Array(a) => Json::Array(a.iter().map(tree_of_value).collect()),
        serde_json::Value::Object(m) => Json::Object(
            m.iter().map(|(k, x)| (k.clone(), tree_of_value(x))).collect(),
        ),
    }
}

/// Copies a tree into a `serde_json::Value`, node by node. A number literal
/// is read by `serde_json::from_str`; where that fails, its error message
/// comes back. The numeral of an integer of 64 bits is read as that integer
/// and displayed as the same numeral, and a map that is collected from
/// members with different keys yields them in their order, so an exact tree
/// is held as it is. For any other tree the contract gives the outcome its
/// name: it is a function of the tree alone.
#[verifier::external_body]
fn value_of_tree(j: &Json) -> (r: Result<serde_json::Value, String>)
    ensures
        match r {
            Ok(v) => if j@.exact() {
                value_tree(v) == j@
            } else {
                rebuilt_tree(j@) == Ok::<JsonView, Seq<char>>(value_tree(v))
            },
            Err(m) => !j@.exact() && rebuilt_tree(j@) == Err::<JsonView, Seq<char>>(m@),
        },
{
    Ok(match j {
        Json::Null => serde_json::Value::Null,
        Json::Bool(b) => serde_json::Value::Bool(*b),
        Json::Number(t) => serde_json::Value::Number(
            serde_json::from_str(t).map_err(|e| e.to_string())?,
        ),
        Json::Str(s) => serde_json::Value::String(s.clone()),
        Json::Array(a) => serde_json::Value::Array(
            a.iter().map(value_of_tree).collect::<Result<_, _>>()?,
        ),
        Json::Object(m) => serde_json::Value::Object(
            m.iter().map(|(k, x)| Ok((k.clone(), value_of_tree(x)?))).collect::<Result<_, String>>()?,
        ),
    })
}

/// Calls `serde_json::to_string` on a `Value`. The contract gives the
/// outcome its name: it is a function of the tree that the value holds.
#[verifier::external_body]
fn write_value(value: &serde_json::Value) -> (r: Result<String, String>)
    ensures
        match r {
            Ok(t) => text_of_tree(value_tree(*value)) == Ok::<Seq<char>, Seq<char>>(t@),
            Err(m) => text_of_tree(value_tree(*value)) == Err::<Seq<char>, Seq<char>>(m@),
        },
{
    serde_json::to_string(value).map_err(|e| e.to_string())
}

/// The value of the last member of `members` whose key is `key`.
pub open spec fn lookup(members: Seq<(Seq<char>, JsonView)>, key: Seq<char>) -> Option<JsonView>
    decreases members.len(),
{
    if members.len() == 0 {
        None
    } else if members.last().0 == key {
        Some(members.last().1)
    } else {
        lookup(members.drop_last(), key)
    }
}

impl JsonView {
    /// The member `key` of an object; `None` for a missing member and for a
    /// value that is no object.
    pub open spec fn member(self, key: Seq<char>) -> Option<JsonView> {
        match self {
            JsonView::Object(members) => lookup(members, key),
            _ => None,
        }
    }

    /// The characters of a string value.
    pub open spec fn string(self) -> Option<Seq<char>> {
        match self {
            JsonView::Str(s) => Some(s),
            _ => None,
        }
    }

    /// The characters of the string member `key` of an object.
    pub open spec fn text_member(self, key: Seq<char>) -> Option<Seq<char>> {
        match self.member(key) {
            Some(m) => m.string(),
            None => None,
        }
    }

    /// The integer that a number denotes, where its literal is the numeral
    /// of one that fits in 64 bits.
    pub open spec fn integer(self) -> Option<i64> {
        match self {
            JsonView::Number(t) => match numeral_value(t) {
                Some(n) => if i64::MIN <= n <= i64::MAX {
                    Some(n as i64)
                } else {
                    None
                },
                None => None,
            },
            _ => None,
        }
    }
}

/// The view of an object has a member for each member of the object, with
/// the views of its key and of its value.
pub proof fn lemma_object_view(j: Json)
    requires
        j is Object,
    ensures
        j@ is Object,
        j@->Object_0.len() == j->Object_0@.len(),
        forall|i: int|
            0 <= i < j->Object_0@.len() ==> #[trigger] j@->Object_0[i] == (
                j->Object_0@[i].0@,
                j->Object_0@[i].1@,
            ),
{
    reveal_with_fuel(<Json as View>::view, 2);
}

/// The view of an array has an item for each item of the array, with its
/// view.
pub proof fn lemma_array_view(j: Json)
    requires
        j is Array,
    ensures
        j@ is Array,
        j@->Array_0.len() == j->Array_0@.len(),
        forall|i: int| 0 <= i < j->Array_0@.len() ==> #[trigger] j@->Array_0[i] == j->Array_0@[i]@,
{
    reveal_with_fuel(<Json as View>::view, 2);
}

/// Tests whether two strings hold the same characters.
pub fn str_eq(a: &str, b: &str) -> (r: bool)
    ensures
        r == (a@ == b@),
{
    let x = chars_of(a);
    let y = chars_of(b);
    same(&x, &y)
}

impl Clone for Json {
    fn clone(&self) -> (r: Json)
        ensures
            r@ == self@,
        decreases self,
    {
        match self {
            Json::Null => Json::Null,
            Json::Bool(b) => Json::Bool(*b),
            Json::Number(t) => Json::Number(t.clone()),
            Json::Str(s) => Json::Str(s.clone()),
            Json::Array(items) => {
                let mut out: Vec<Json> = Vec::new();
                let mut i: usize = 0;
                while i < items.len()
                    invariant
                        i <= items.len(),
                        out@.len() == i,
                        *self == Json::Array(*items),
                        forall|k: int| 0 <= k < i ==> out@[k]@ == items@[k]@,
                    decreases items.len() - i,
                {
                    assert(self->Array_0 == *items);
                    assert(decreases_to!(*self => self->Array_0));
                    assert(decreases_to!(*items => items[i as int]));
                    let c = items[i].clone();
                    out.push(c);
                    i += 1;
                }
                let r = Json::Array(out);
                proof {
                    lemma_array_view(r);
                    lemma_array_view(*self);
                    assert(r@->Array_0 =~= self@->Array_0);
                }
                r
            },
            Json::Object(members) => {
                let mut out: Vec<(String, Json)> = Vec::new();
                let mut i: usize = 0;
                while i < members.len()
                    invariant
                        i <= members.len(),
                        out@.len() == i,
                        *self == Json::Object(*members),
                        forall|k: int|
                            0 <= k < i ==> out@[k].0@ == members@[k].0@ && out@[k].1@
                                == members@[k].1@,
                    decreases members.len() - i,
                {
                    assert(self->Object_0 == *members);
                    assert(decreases_to!(*self => self->Object_0));
                    assert(decreases_to!(*members => members[i as int]));
                    assert(decreases_to!(members[i as int] => members[i as int].1));
                    let k = members[i].0.clone();
                    let c = members[i].1.clone();
                    out.push((k, c));
                    i += 1;
                }
                let r = Json::Object(out);
                proof {
                    lemma_object_view(r);
                    lemma_object_view(*self);
                    assert(r@->Object_0 =~= self@->Object_0);
                }
                r
            },
        }
    }
}

impl Json {
    /// Reads a JSON text.
    pub fn parse(text: &str) -> (r: Result<Json, Error>)
        ensures
            match json_of_text(text@) {
                Ok(v) => r matches Ok(j) && j@ == v,
                Err(m) => r matches Err(Error::Serialization(t)) && t@ == m,
            },
    {
        match read_value(text) {
            Ok(v) => Ok(tree_of_value(&v)),
            Err(m) => Err(Error::Serialization(m)),
        }
    }

    /// Writes the value as compact JSON text.
    pub fn to_text(&self) -> (r: Result<String, Error>)
        ensures
            match text_of_json(self@) {
                Ok(s) => r matches Ok(t) && t@ == s,
                Err(m) => r matches Err(Error::Serialization(t)) && t@ == m,
            },
    {
        match value_of_tree(self) {
            Ok(v) => match write_value(&v) {
                Ok(t) => Ok(t),
                Err(m) => Err(Error::Serialization(m)),
            },
            Err(m) => Err(Error::Serialization(m)),
        }
    }

    /// The string value that holds the characters of `s`.
    pub fn string(s: &str) -> (r: Json)
        ensures
            r@ == JsonView::Str(s@),
    {
        Json::Str(s.to_owned())
    }

    /// The number `n`.
    pub fn integer(n: i64) -> (r: Json)
        ensures
            r@ == JsonView::Number(crate::text::decimal(n as int)),
            r@.integer() == Some(n),
    {
        proof {
            crate::text::lemma_numeral_of_decimal(n as int);
        }
        Json::Number(crate::text::i64_to_string(n))
    }

    /// The object that holds `members`, in their order.
    pub fn object(members: Vec<(String, Json)>) -> (r: Json)
        ensures
            r == Json::Object(members),
            r@ is Object,
            r@->Object_0.len() == members@.len(),
            forall|i: int|
                0 <= i < members@.len() ==> #[trigger] r@->Object_0[i] == (
                    members@[i].0@,
                    members@[i].1@,
                ),
    {
        let r = Json::Object(members);
        proof {
            lemma_object_view(r);
        }
        r
    }

    /// The array that holds `items`, in their order.
    pub fn array(items: Vec<Json>) -> (r: Json)
        ensures
            r == Json::Array(items),
            r@ is Array,
            r@->Array_0.len() == items@.len(),
            forall|i: int| 0 <= i < items@.len() ==> #[trigger] r@->Array_0[i] == items@[i]@,
    {
        let r = Json::Array(items);
        proof {
            lemma_array_view(r);
        }
        r
    }

    /// The object without members.
    pub fn empty_object() -> (r: Json)
        ensures
            r@ == JsonView::Object(Seq::empty()),
    {
        let r = Json::object(Vec::new());
        assert(r@->Object_0 =~= Seq::empty());
        r
    }

    /// The member `key` of an object.
    pub fn get(&self, key: &str) -> (r: Option<&Json>)
        ensures
            match r {
                Some(j) => self@.member(key@) == Some(j@),
                None => self@.member(key@) is None,
            },
    {
        match self {
            Json::Object(members) => {
                let ghost ms = self@->Object_0;
                let mut i: usize = members.len();
                proof {
                    lemma_object_view(*self);
                }
                assert(ms.take(i as int) =~= ms);
                while i > 0
                    invariant
                        i <= members.len(),
                        ms == self@->Object_0,
                        self@ is Object,
                        ms.len() == members@.len(),
                        forall|k: int|
                            0 <= k < ms.len() ==> #[trigger] ms[k] == (
                                members@[k].0@,
                                members@[k].1@,
                            ),
                        lookup(ms, key@) == lookup(ms.take(i as int), key@),
                    decreases i,
                {
                    i -= 1;
                    proof {
                        let t = ms.take(i + 1);
                        assert(t.last() == ms[i as int]);
                        assert(t.drop_last() =~= ms.take(i as int));
                        assert(ms[i as int] == (members@[i as int].0@, members@[i as int].1@));
                    }
                    if str_eq(members[i].0.as_str(), key) {
                        return Some(&members[i].1);
                    }
                }
                assert(ms.take(0).len() == 0);
                None
            },
            _ => None,
        }
    }

    /// The characters of the string member `key` of an object.
    pub fn get_str(&self, key: &str) -> (r: Option<&String>)
        ensures
            match r {
                Some(s) => self@.text_member(key@) == Some(s@),
                None => self@.text_member(key@) is None,
            },
    {
        match self.get(key) {
            Some(m) => m.as_str(),
            None => None,
        }
    }

    /// The characters of a string value.
    pub fn as_str(&self) -> (r: Option<&String>)
        ensures
            match r {
                Some(s) => self@.string() == Some(s@),
                None => self@.string() is None,
            },
    {
        match self {
            Json::Str(s) => Some(s),
            _ => None,
        }
    }

    /// The integer that a number denotes.
    pub fn as_i64(&self) -> (r: Option<i64>)
        ensures
            r == self@.integer(),
    {
        match self {
            Json::Number(t) => {
                let v = chars_of(t.as_str());
                parse_i64(&v)
            },
            _ => None,
        }
    }

    /// Whether the value is `null`.
    pub fn is_null(&self) -> (r: bool)
        ensures
            r == (self@ == JsonView::Null),
    {
        match self {
            Json::Null => true,
            _ => false,
        }
    }
}

} // verus!


