//! JSON values.

use vstd::prelude::*;
use crate::table::{find, find_by_first, lookup, put};
use crate::text::{decimal, decimal_text, same_text};

verus! {

/// A number: its text, and its value where it is a 64-bit integer.
#[derive(Debug, PartialEq, Eq)]
pub struct JsonNumber {
    pub integer: Option<i64>,
    pub text: String,
}

/// A JSON value. The members of an object stand in the order in which they are walked.
#[derive(Debug, PartialEq, Eq)]
pub enum Json {
    Null,
    Bool(bool),
    Number(JsonNumber),
    Text(String),
    Array(Vec<Json>),
    Object(Vec<(String, Json)>),
}

/// What a number is.
#[verifier::ext_equal]
pub struct NumberView {
    pub integer: Option<i64>,
    pub text: Seq<char>,
}

/// What a JSON value is.
#[verifier::ext_equal]
pub enum JsonView {
    Null,
    Bool(bool),
    Number(NumberView),
    Text(Seq<char>),
    Array(Seq<JsonView>),
    Object(Seq<(Seq<char>, JsonView)>),
}

/// What a JSON value is.
pub open spec fn json_tree(json: Json) -> JsonView
    decreases json,
{
    match json {
        Json::Null => JsonView::Null,
        Json::Bool(b) => JsonView::Bool(b),
        Json::Number(n) => JsonView::Number(NumberView { integer: n.integer, text: n.text@ }),
        Json::Text(t) => JsonView::Text(t@),
        Json::Array(items) => JsonView::Array(
            Seq::new(
                items@.len(),
                |i: int|
                    if 0 <= i < items@.len() {
                        json_tree(items@[i])
                    } else {
                        JsonView::Null
                    },
            ),
        ),
        Json::Object(members) => JsonView::Object(
            Seq::new(
                members@.len(),
                |i: int|
                    if 0 <= i < members@.len() {
                        (members@[i].0@, json_tree(members@[i].1))
                    } else {
                        (Seq::empty(), JsonView::Null)
                    },
            ),
        ),
    }
}

impl View for Json {
    type V = JsonView;

    open spec fn view(&self) -> JsonView {
        json_tree(*self)
    }
}

/// What the values of a list are.
pub open spec fn json_trees(items: Seq<Json>) -> Seq<JsonView> {
    items.map_values(|j: Json| j@)
}

/// What the members of an object are.
pub open spec fn json_members(members: Seq<(String, Json)>) -> Seq<(Seq<char>, JsonView)> {
    members.map_values(|m: (String, Json)| (m.0@, m.1@))
}

/// The value of a member of an object.
pub open spec fn json_get(json: JsonView, key: Seq<char>) -> Option<JsonView> {
    match json {
        JsonView::Object(members) => lookup(members, key),
        _ => None,
    }
}

/// The text that a value is.
pub open spec fn json_str(json: JsonView) -> Option<Seq<char>> {
    match json {
        JsonView::Text(t) => Some(t),
        _ => None,
    }
}

/// The text that a member of an object is.
pub open spec fn json_get_str(json: JsonView, key: Seq<char>) -> Option<Seq<char>> {
    match json_get(json, key) {
        Some(value) => json_str(value),
        None => None,
    }
}

/// The object with a member set. What is no object stays as it is.
pub open spec fn json_put(json: JsonView, key: Seq<char>, value: JsonView) -> JsonView {
    match json {
        JsonView::Object(members) => JsonView::Object(put(members, key, value)),
        other => other,
    }
}

/// The object with a member set, unless it has that member. What is no object stays as it is.
pub open spec fn json_put_new(json: JsonView, key: Seq<char>, value: JsonView) -> JsonView {
    if json_get(json, key) is Some {
        json
    } else {
        json_put(json, key, value)
    }
}

/// A whole number, not negative.
pub open spec fn json_int(n: u32) -> JsonView {
    JsonView::Number(NumberView { integer: Some(n as i64), text: decimal(n as nat) })
}

impl Json {
    /// A text.
    pub fn text(text: &str) -> (r: Json)
        ensures
            r@ == JsonView::Text(text@),
    {
        Json::Text(text.to_owned())
    }

    /// A whole number, not negative.
    pub fn whole(n: u32) -> (r: Json)
        ensures
            r@ == json_int(n),
    {
        Json::Number(JsonNumber { integer: Some(n as i64), text: decimal_text(n as u64) })
    }

    /// A list.
    pub fn array(items: Vec<Json>) -> (r: Json)
        ensures
            r@ == JsonView::Array(json_trees(items@)),
    {
        let r = Json::Array(items);
        proof {
            assert(r@->Array_0 =~= json_trees(items@));
        }
        r
    }

    /// An object.
    pub fn object(members: Vec<(String, Json)>) -> (r: Json)
        ensures
            r@ == JsonView::Object(json_members(members@)),
    {
        let r = Json::Object(members);
        proof {
            assert(r@->Object_0 =~= json_members(members@));
        }
        r
    }

    /// An object with one member.
    pub fn object1(key: &str, value: Json) -> (r: Json)
        ensures
            r@ == JsonView::Object(seq![(key@, value@)]),
    {
        let r = Json::object(vec![(key.to_owned(), value)]);
        proof {
            assert(r@->Object_0 =~= seq![(key@, value@)]);
        }
        r
    }

    /// An object with two members.
    pub fn object2(key1: &str, value1: Json, key2: &str, value2: Json) -> (r: Json)
        ensures
            r@ == JsonView::Object(seq![(key1@, value1@), (key2@, value2@)]),
    {
        let r = Json::object(vec![(key1.to_owned(), value1), (key2.to_owned(), value2)]);
        proof {
            assert(r@->Object_0 =~= seq![(key1@, value1@), (key2@, value2@)]);
        }
        r
    }

    /// The position of a member of an object.
    fn member(members: &Vec<(String, Json)>, key: &str) -> (r: Option<usize>)
        ensures
            match r {
                Some(i) => find(json_members(members@), key@) == Some(i as int) && i < members@.len(),
                None => find(json_members(members@), key@) is None,
            },
    {
        let mut i: usize = 0;
        while i < members.len()
            invariant
                i <= members@.len(),
                forall|j: int| 0 <= j < i ==> (#[trigger] json_members(members@)[j]).0 != key@,
            decreases members@.len() - i,
        {
            if same_text(members[i].0.as_str(), key) {
                proof {
                    find_by_first(json_members(members@), key@, i as int);
                }
                return Some(i);
            }
            i += 1;
        }
        proof {
            find_by_first(json_members(members@), key@, i as int);
        }
        None
    }

    /// The value of a member of an object.
    pub fn get(&self, key: &str) -> (r: Option<&Json>)
        ensures
            match r {
                Some(value) => json_get(self@, key@) == Some(value@),
                None => json_get(self@, key@) is None,
            },
    {
        match self {
            Json::Object(members) => {
                proof {
                    assert(self@->Object_0 =~= json_members(members@));
                }
                match Json::member(members, key) {
                    Some(i) => Some(&members[i].1),
                    None => None,
                }
            },
            _ => None,
        }
    }

    /// The text that the value is.
    pub fn as_str(&self) -> (r: Option<&str>)
        ensures
            match r {
                Some(t) => json_str(self@) == Some(t@),
                None => json_str(self@) is None,
            },
    {
        match self {
            Json::Text(t) => Some(t.as_str()),
            _ => None,
        }
    }

    /// The text that a member of an object is.
    pub fn get_str(&self, key: &str) -> (r: Option<&str>)
        ensures
            match r {
                Some(t) => json_get_str(self@, key@) == Some(t@),
                None => json_get_str(self@, key@) is None,
            },
    {
        match self.get(key) {
            Some(value) => value.as_str(),
            None => None,
        }
    }

    /// Whether the value is an object.
    pub fn is_object(&self) -> (r: bool)
        ensures
            r == (self@ is Object),
    {
        match self {
            Json::Object(_) => true,
            _ => false,
        }
    }

    /// The object with a member set. What is no object stays as it is.
    pub fn with(self, key: &str, value: Json) -> (r: Json)
        ensures
            r@ == json_put(self@, key@, value@),
    {
        let ghost before = self@;
        match self {
            Json::Object(mut members) => {
                let ghost old_members = json_members(members@);
                proof {
                    assert(before->Object_0 =~= old_members);
                }
                match Json::member(&members, key) {
                    Some(i) => {
                        let entry = &mut members[i];
                        entry.1 = value;
                        proof {
                            assert(json_members(members@) =~= put(old_members, key@, value@));
                        }
                    },
                    None => {
                        members.push((key.to_owned(), value));
                        proof {
                            assert(json_members(members@) =~= put(old_members, key@, value@));
                        }
                    },
                }
                Json::object(members)
            },
            other => other,
        }
    }

    /// The object with a member set, unless it has that member. What is no object stays as it is.
    pub fn with_new(self, key: &str, value: Json) -> (r: Json)
        ensures
            r@ == json_put_new(self@, key@, value@),
    {
        if self.get(key).is_some() {
            self
        } else {
            self.with(key, value)
        }
    }
}

impl Clone for Json {
    fn clone(&self) -> (r: Json)
        ensures
            r@ == self@,
        decreases *self,
    {
        match self {
            Json::Null => Json::Null,
            Json::Bool(b) => Json::Bool(*b),
            Json::Number(n) => Json::Number(JsonNumber { integer: n.integer, text: n.text.clone() }),
            Json::Text(t) => Json::Text(t.clone()),
            Json::Array(items) => {
                let mut out: Vec<Json> = Vec::new();
                let mut i: usize = 0;
                while i < items.len()
                    invariant
                        i <= items@.len(),
                        out@.len() == i,
                        *self == Json::Array(*items),
                        forall|j: int|
                            0 <= j < i ==> json_tree(#[trigger] out@[j]) == json_tree(items@[j]),
                    decreases items@.len() - i,
                {
                    proof {
                        assert(decreases_to!(*self => self->Array_0));
                        assert(decreases_to!(*items => items[i as int]));
                    }
                    let item = (&items[i]).clone();
                    out.push(item);
                    i += 1;
                }
                let r = Json::Array(out);
                proof {
                    assert(r@->Array_0 =~= self@->Array_0);
                }
                r
            },
            Json::Object(members) => {
                let mut out: Vec<(String, Json)> = Vec::new();
                let mut i: usize = 0;
                while i < members.len()
                    invariant
                        i <= members@.len(),
                        out@.len() == i,
                        *self == Json::Object(*members),
                        forall|j: int|
                            0 <= j < i ==> (#[trigger] out@[j]).0@ == members@[j].0@ && json_tree(
                                out@[j].1,
                            ) == json_tree(members@[j].1),
                    decreases members@.len() - i,
                {
                    let member = &members[i];
                    proof {
                        assert(decreases_to!(*self => self->Object_0));
                        assert(decreases_to!(*members => members[i as int]));
                        assert(decreases_to!(members[i as int] => members[i as int].1));
                    }
                    let value = member.1.clone();
                    out.push((member.0.clone(), value));
                    i += 1;
                }
                let r = Json::Object(out);
                proof {
                    assert(r@->Object_0 =~= self@->Object_0);
                }
                r
            },
        }
    }
}

} // verus!
