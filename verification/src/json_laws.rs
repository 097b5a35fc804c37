//! What holds of the members of JSON objects.

use vstd::prelude::*;
use crate::json::{json_get, json_get_str, json_int, json_put, json_put_new, json_str, JsonView};
use crate::table::{find, find_by_first, find_is_first, put_lookups};
use crate::text::{decimal_reads_back, digits_value};

verus! {

/// A member that is found is the first of its name, and one is found wherever there is one.
pub proof fn the_first_member_of_a_name_is_found(
    members: Seq<(Seq<char>, JsonView)>,
    key: Seq<char>,
)
    ensures
        match json_get(JsonView::Object(members), key) {
            Some(value) => exists|i: int|
                0 <= i < members.len() && (#[trigger] members[i]) == (key, value) && forall|j: int|
                    0 <= j < i ==> (#[trigger] members[j]).0 != key,
            None => forall|i: int| 0 <= i < members.len() ==> (#[trigger] members[i]).0 != key,
        },
{
    find_is_first(members, key);
    if let Some(i) = find(members, key) {
        assert(members[i] == (key, members[i].1));
    }
}

/// Only objects have members.
pub proof fn only_objects_have_members(json: JsonView, key: Seq<char>)
    ensures
        !(json is Object) ==> json_get(json, key) is None,
{
}

/// A member that has been set is there with its value, and every other member stays as it was. What
/// is no object stays as it was.
pub proof fn setting_a_member_sets_it_alone(json: JsonView, key: Seq<char>, value: JsonView)
    ensures
        json is Object ==> json_put(json, key, value) is Object && json_get(
            json_put(json, key, value),
            key,
        ) == Some(value) && forall|other: Seq<char>|
            other != key ==> #[trigger] json_get(json_put(json, key, value), other) == json_get(
                json,
                other,
            ),
        !(json is Object) ==> json_put(json, key, value) == json,
{
    if let JsonView::Object(members) = json {
        put_lookups(members, key, value);
    }
}

/// A member that is set unless it is there keeps its value where it is there, and is set where it is
/// not.
pub proof fn a_member_that_is_there_is_kept(json: JsonView, key: Seq<char>, value: JsonView)
    ensures
        json_get(json, key) is Some ==> json_put_new(json, key, value) == json,
        json is Object && json_get(json, key) is None ==> json_get(
            json_put_new(json, key, value),
            key,
        ) == Some(value),
        forall|other: Seq<char>|
            other != key ==> #[trigger] json_get(json_put_new(json, key, value), other)
                == json_get(json, other),
{
    setting_a_member_sets_it_alone(json, key, value);
}

/// A member is a text just when its value is one.
pub proof fn texts_are_told_from_other_values(json: JsonView, key: Seq<char>, text: Seq<char>)
    ensures
        json_get_str(json, key) == Some(text) <==> json_get(json, key) == Some(
            JsonView::Text(text),
        ),
        json_str(json) == Some(text) <==> json == JsonView::Text(text),
{
}

/// A whole number has its value, and its text reads back as it.
pub proof fn whole_numbers_have_their_value(n: u32)
    ensures
        json_int(n) matches JsonView::Number(number) && number.integer == Some(n as i64)
            && digits_value(number.text) == n,
{
    decimal_reads_back(n as nat);
}

/// A member that no member of the same name stands before is found.
pub proof fn members_are_found_by_name(members: Seq<(Seq<char>, JsonView)>, i: int)
    requires
        0 <= i < members.len(),
        forall|j: int| 0 <= j < i ==> (#[trigger] members[j]).0 != members[i].0,
    ensures
        json_get(JsonView::Object(members), members[i].0) == Some(members[i].1),
{
    find_by_first(members, members[i].0, i);
}

} // verus!
