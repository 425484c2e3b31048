//! JSON values as the library reads them.

use crate::text::str_eq;
use vstd::prelude::*;

verus! {

/// A JSON value.
#[derive(Debug, PartialEq, Eq)]
pub enum Json {
    Null,
    Bool(bool),
    Int(i128),
    /// A number with a fraction or an exponent, as it is written.
    Decimal(String),
    Text(String),
    List(Box<JsonItems>),
    Object(Box<JsonMembers>),
}

/// The items of a JSON list.
#[derive(Debug, PartialEq, Eq)]
pub enum JsonItems {
    Nil,
    Cons(Json, Box<JsonItems>),
}

/// The members of a JSON object.
#[derive(Debug, PartialEq, Eq)]
pub enum JsonMembers {
    Nil,
    Cons(String, Json, Box<JsonMembers>),
}

/// The value of the first member named `key`.
pub open spec fn lookup(members: JsonMembers, key: Seq<char>) -> Option<Json>
    decreases members,
{
    match members {
        JsonMembers::Nil => None,
        JsonMembers::Cons(k, v, rest) => if k@ == key {
            Some(v)
        } else {
            lookup(*rest, key)
        },
    }
}

/// The value of the first member of `members` named `key`.
fn find_member<'a>(members: &'a JsonMembers, key: &str) -> (r: Option<&'a Json>)
    ensures
        match r {
            Some(v) => lookup(*members, key@) == Some(*v),
            None => lookup(*members, key@) is None,
        },
    decreases members,
{
    match members {
        JsonMembers::Nil => None,
        JsonMembers::Cons(k, v, rest) => if str_eq(k.as_str(), key) {
            Some(v)
        } else {
            find_member(rest, key)
        },
    }
}

/// `members` with `key` set to `value`: in place when the key is known, else
/// at the end.
fn set_member(members: JsonMembers, key: String, value: Json) -> (r: JsonMembers)
    ensures
        lookup(r, key@) == Some(value),
        forall|k: Seq<char>| k != key@ ==> #[trigger] lookup(r, k) == lookup(members, k),
    decreases members,
{
    let ghost k0 = key@;
    match members {
        JsonMembers::Nil => {
            let r = JsonMembers::Cons(key, value, Box::new(JsonMembers::Nil));
            assert forall|k: Seq<char>| k != k0 implies #[trigger] lookup(r, k) == lookup(
                members,
                k,
            ) by {
                assert(lookup(JsonMembers::Nil, k) is None);
            }
            r
        },
        JsonMembers::Cons(k, v, rest) => if str_eq(k.as_str(), key.as_str()) {
            JsonMembers::Cons(k, value, rest)
        } else {
            let ghost old_rest = *rest;
            let tail = set_member(*rest, key, value);
            let r = JsonMembers::Cons(k, v, Box::new(tail));
            assert forall|x: Seq<char>| x != k0 implies #[trigger] lookup(r, x) == lookup(
                members,
                x,
            ) by {
                assert(lookup(tail, x) == lookup(old_rest, x));
            }
            r
        },
    }
}

impl Clone for JsonItems {
    fn clone(&self) -> (r: Self)
        ensures
            r == *self,
        decreases self,
    {
        match self {
            JsonItems::Nil => JsonItems::Nil,
            JsonItems::Cons(v, rest) => {
                let head = v.clone();
                let tail = (**rest).clone();
                JsonItems::Cons(head, Box::new(tail))
            },
        }
    }
}

impl Clone for JsonMembers {
    fn clone(&self) -> (r: Self)
        ensures
            r == *self,
        decreases self,
    {
        match self {
            JsonMembers::Nil => JsonMembers::Nil,
            JsonMembers::Cons(k, v, rest) => {
                let key = k.clone();
                let head = v.clone();
                let tail = (**rest).clone();
                JsonMembers::Cons(key, head, Box::new(tail))
            },
        }
    }
}

impl Clone for Json {
    fn clone(&self) -> (r: Self)
        ensures
            r == *self,
        decreases self,
    {
        match self {
            Json::Null => Json::Null,
            Json::Bool(b) => Json::Bool(*b),
            Json::Int(n) => Json::Int(*n),
            Json::Decimal(s) => Json::Decimal(s.clone()),
            Json::Text(s) => Json::Text(s.clone()),
            Json::List(items) => {
                let copy = (**items).clone();
                Json::List(Box::new(copy))
            },
            Json::Object(members) => {
                let copy = (**members).clone();
                Json::Object(Box::new(copy))
            },
        }
    }
}

/// The items of a list, in order.
pub open spec fn sequence(items: JsonItems) -> Seq<Json>
    decreases items,
{
    match items {
        JsonItems::Nil => Seq::empty(),
        JsonItems::Cons(v, rest) => seq![v] + sequence(*rest),
    }
}

impl Json {
    /// The items of a list value.
    pub open spec fn items(self) -> Option<Seq<Json>> {
        match self {
            Json::List(items) => Some(sequence(*items)),
            _ => None,
        }
    }

    /// The value of the member `key`, when this is an object that has one.
    pub open spec fn member(self, key: Seq<char>) -> Option<Json> {
        match self {
            Json::Object(members) => lookup(*members, key),
            _ => None,
        }
    }

    /// The characters of a text value.
    pub open spec fn text_value(self) -> Option<Seq<char>> {
        match self {
            Json::Text(s) => Some(s@),
            _ => None,
        }
    }

    /// The characters of the text member `key`.
    pub open spec fn member_text(self, key: Seq<char>) -> Option<Seq<char>> {
        match self.member(key) {
            Some(v) => v.text_value(),
            None => None,
        }
    }

    /// An object without members.
    pub fn object() -> (r: Json)
        ensures
            r is Object,
            forall|k: Seq<char>| #[trigger] r.member(k) is None,
    {
        let r = Json::Object(Box::new(JsonMembers::Nil));
        assert forall|k: Seq<char>| #[trigger] r.member(k) is None by {
            assert(lookup(JsonMembers::Nil, k) is None);
        }
        r
    }

    /// A text value.
    pub fn text(s: &str) -> (r: Json)
        ensures
            r.text_value() == Some(s@),
    {
        Json::Text(s.to_owned())
    }

    /// This object with the member `key` set to `value`. A value that is no
    /// object becomes one.
    pub fn with(self, key: &str, value: Json) -> (r: Json)
        ensures
            r is Object,
            r.member(key@) == Some(value),
            forall|k: Seq<char>| k != key@ ==> #[trigger] r.member(k) == self.member(k),
    {
        match self {
            Json::Object(members) => Json::Object(
                Box::new(set_member(*members, key.to_owned(), value)),
            ),
            _ => {
                let r = Json::Object(
                    Box::new(
                        JsonMembers::Cons(key.to_owned(), value, Box::new(JsonMembers::Nil)),
                    ),
                );
                assert forall|k: Seq<char>| k != key@ implies #[trigger] r.member(k) is None by {
                    assert(lookup(JsonMembers::Nil, k) is None);
                }
                r
            },
        }
    }

    /// The value of the member `key`.
    pub fn get(&self, key: &str) -> (r: Option<&Json>)
        ensures
            match r {
                Some(v) => self.member(key@) == Some(*v),
                None => self.member(key@) is None,
            },
    {
        match self {
            Json::Object(members) => find_member(members, key),
            _ => None,
        }
    }

    /// The text of a text value.
    pub fn as_str(&self) -> (r: Option<&str>)
        ensures
            match r {
                Some(s) => self.text_value() == Some(s@),
                None => self.text_value() is None,
            },
    {
        match self {
            Json::Text(s) => Some(s.as_str()),
            _ => None,
        }
    }

    /// The text of the text member `key`.
    pub fn get_str(&self, key: &str) -> (r: Option<&str>)
        ensures
            match r {
                Some(s) => self.member_text(key@) == Some(s@),
                None => self.member_text(key@) is None,
            },
    {
        match self.get(key) {
            Some(v) => v.as_str(),
            None => None,
        }
    }
}

/// A member is found under its own key, the first of two under one key, and
/// other keys are looked for behind it. What is no object has no members, and
/// what is no list no items.
pub proof fn law_members_are_found_by_key(
    k: String,
    v: Json,
    rest: JsonMembers,
    key: Seq<char>,
    s: String,
)
    ensures
        lookup(JsonMembers::Nil, key) is None,
        k@ == key ==> lookup(JsonMembers::Cons(k, v, Box::new(rest)), key) == Some(v),
        k@ != key ==> lookup(JsonMembers::Cons(k, v, Box::new(rest)), key) == lookup(rest, key),
        Json::Object(Box::new(JsonMembers::Cons(k, v, Box::new(rest)))).member(k@) == Some(v),
        Json::Text(s).member(key) is None,
        Json::Null.member(key) is None,
        Json::Text(s).text_value() == Some(s@),
        Json::Null.text_value() is None,
        Json::Object(
            Box::new(JsonMembers::Cons(k, Json::Text(s), Box::new(rest))),
        ).member_text(k@) == Some(s@),
        Json::Object(Box::new(JsonMembers::Cons(k, Json::Null, Box::new(rest)))).member_text(k@)
            is None,
        Json::Text(s).items() is None,
{
    reveal_with_fuel(lookup, 2);
}

/// The items of a list come in its order.
pub proof fn law_items_keep_their_order(v: Json, rest: JsonItems, i: int)
    ensures
        sequence(JsonItems::Nil).len() == 0,
        sequence(JsonItems::Cons(v, Box::new(rest))).len() == sequence(rest).len() + 1,
        sequence(JsonItems::Cons(v, Box::new(rest)))[0] == v,
        0 <= i < sequence(rest).len() ==> sequence(JsonItems::Cons(v, Box::new(rest)))[i + 1]
            == sequence(rest)[i],
{
    reveal_with_fuel(sequence, 2);
}

} // verus!
