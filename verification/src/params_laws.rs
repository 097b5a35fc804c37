//! What holds of the parameters of `initialize` and of the documents that parameters name.

use vstd::prelude::*;
use vstd::string::*;
use crate::json::{json_get, json_put, JsonView};
use crate::json_laws::setting_a_member_sets_it_alone;
use crate::params::{
    first_url, initialize_root, place_in, rewritten_params, uri_in, uri_texts,
    uri_texts_of_items, uri_texts_of_members,
};
use crate::path::{path_of, PathView};
use crate::url_text::{directory_url, file_url_text, url_path, url_path_text, url_serialization};

verus! {

/// Whether parameters of `initialize` are those that were given, but for the root: they name the root
/// by this URL and by its text, and it is the only workspace folder.
pub open spec fn rooted_at(
    params: JsonView,
    given: JsonView,
    root: PathView,
    url: Seq<char>,
) -> bool {
    &&& params is Object
    &&& json_get(params, "rootUri"@) == Some(JsonView::Text(url))
    &&& json_get(params, "rootPath"@) == Some(JsonView::Text(root.text))
    &&& json_get(params, "workspaceFolders"@) matches Some(JsonView::Array(folders))
    &&& folders.len() == 1
    &&& json_get(folders[0], "uri"@) == Some(JsonView::Text(url))
    &&& json_get(folders[0], "name"@) matches Some(JsonView::Text(name))
    &&& root.parts.len() > 0 && root.parts.last() != seq!['.'] && root.parts.last() != seq![
        '.',
        '.',
    ] ==> name == root.parts.last()
    &&& root.parts.len() == 0 ==> name == "workspace"@
    &&& forall|key: Seq<char>|
        key != "rootUri"@ && key != "rootPath"@ && key != "workspaceFolders"@
            ==> #[trigger] json_get(params, key) == json_get(given, key)
}

proof fn root_members_differ()
    ensures
        "rootUri"@ != "rootPath"@,
        "rootUri"@ != "workspaceFolders"@,
        "rootPath"@ != "workspaceFolders"@,
        "uri"@ != "name"@,
{
    reveal_strlit("rootUri");
    reveal_strlit("rootPath");
    reveal_strlit("workspaceFolders");
    reveal_strlit("uri");
    reveal_strlit("name");
    assert("rootUri"@.len() == 7 && "rootPath"@.len() == 8 && "workspaceFolders"@.len() == 16);
    assert("uri"@.len() == 3 && "name"@.len() == 4);
}

/// The URL of a directory is the URL of its path, with a slash at its end.
pub proof fn directory_urls_end_in_a_slash(path: PathView)
    ensures
        directory_url(path) is Some <==> file_url_text(path.text) is Some,
        directory_url(path) matches Some(url) ==> url.len() > 0 && url.last() == '/' && (url
            == file_url_text(path.text)->0 || url == file_url_text(path.text)->0.push('/')),
        file_url_text(path.text) is Some && file_url_text(path.text)->0.len() > 0 && file_url_text(
            path.text,
        )->0.last() == '/' ==> directory_url(path) == file_url_text(path.text),
{
}

/// The path that a URL names is spelled as the URL spells it.
pub proof fn paths_are_spelled_as_in_their_url(url: Seq<char>)
    ensures
        url_path(url) is Some <==> url_path_text(url) is Some,
        url_path(url) matches Some(path) ==> Some(path.text) == url_path_text(url) && path
            == path_of(path.text),
{
}

/// The parameters of `initialize` for a child with a root of its own name that root, and are otherwise
/// those of the client.
pub proof fn a_child_is_given_its_own_root(given: JsonView, root: PathView)
    requires
        given is Object,
        file_url_text(root.text) is Some,
    ensures
        rewritten_params(given, Some(root)) matches Ok(params) && rooted_at(
            params,
            given,
            root,
            directory_url(root)->0,
        ),
{
    root_members_differ();
    let url = directory_url(root)->0;
    let params = rewritten_params(given, Some(root))->Ok_0;
    let folders = json_get(params, "workspaceFolders"@);
    let first = json_put(given, "rootUri"@, JsonView::Text(url));
    let second = json_put(first, "rootPath"@, JsonView::Text(root.text));
    setting_a_member_sets_it_alone(given, "rootUri"@, JsonView::Text(url));
    setting_a_member_sets_it_alone(first, "rootPath"@, JsonView::Text(root.text));
    let name = match crate::path::name_of(root) {
        Some(name) => name,
        None => "workspace"@,
    };
    let folder = JsonView::Object(
        seq![("uri"@, JsonView::Text(url)), ("name"@, JsonView::Text(name))],
    );
    setting_a_member_sets_it_alone(
        second,
        "workspaceFolders"@,
        JsonView::Array(seq![folder]),
    );
    assert(folders == Some(JsonView::Array(seq![folder])));
    let members = folder->Object_0;
    crate::table::find_by_first(members, "uri"@, 0);
    assert(members[0].0 == "uri"@);
    crate::table::find_by_first(members, "name"@, 1);
}

/// Without a root of its own a child is given what the client has said. Parameters that are no object
/// are passed on as they are. A root without a URL is a failure that names the root.
pub proof fn other_parameters_are_passed_on(given: JsonView, root: PathView)
    ensures
        rewritten_params(given, None) == Ok::<JsonView, Seq<char>>(given),
        !(given is Object) ==> rewritten_params(given, Some(root)) == Ok::<JsonView, Seq<char>>(
            given,
        ),
        given is Object && file_url_text(root.text) is None ==> rewritten_params(given, Some(root))
            == Err::<JsonView, Seq<char>>(
            "failed to convert "@ + root.text + " to a file URI"@,
        ),
{
}

/// The text of the path to which a value leads, where it is the text of a URL that names a file.
pub open spec fn leads_to(value: Option<JsonView>) -> Option<Seq<char>> {
    match value {
        Some(JsonView::Text(text)) => match url_serialization(text) {
            Some(url) => url_path_text(url),
            None => None,
        },
        _ => None,
    }
}

/// The root is the one that `rootUri` names, else the one that `rootPath` gives, else that of the first
/// workspace folder.
pub proof fn the_root_is_taken_in_order(params: JsonView)
    ensures
        ({
            let by_uri = leads_to(json_get(params, "rootUri"@));
            let root_path = json_get(params, "rootPath"@);
            let folders = json_get(params, "workspaceFolders"@);
            let by_folder = match folders {
                Some(JsonView::Array(items)) if items.len() > 0 => leads_to(
                    json_get(items[0], "uri"@),
                ),
                _ => None,
            };
            initialize_root(params) == (match (by_uri, root_path, by_folder) {
                (Some(text), _, _) => Some(path_of(text)),
                (None, Some(JsonView::Text(text)), _) => Some(path_of(text)),
                (None, _, Some(text)) => Some(path_of(text)),
                _ => None,
            })
        }),
{
}

/// Whether a value holds a text under the key `uri`: as a member of its own, or further inside.
pub open spec fn names_uri(json: JsonView, text: Seq<char>) -> bool
    decreases json,
{
    match json {
        JsonView::Object(members) => {
            ||| json_get(json, "uri"@) == Some(JsonView::Text(text))
            ||| exists|i: int| 0 <= i < members.len() && names_uri(#[trigger] members[i].1, text)
        },
        JsonView::Array(items) => exists|i: int|
            0 <= i < items.len() && names_uri(#[trigger] items[i], text),
        _ => false,
    }
}

proof fn texts_of_items_are_all(items: Seq<JsonView>, text: Seq<char>)
    ensures
        uri_texts_of_items(items).contains(text) <==> exists|i: int|
            0 <= i < items.len() && names_uri(#[trigger] items[i], text),
    decreases items,
{
    if items.len() > 0 {
        let rest = items.subrange(1, items.len() as int);
        let a = uri_texts(items[0]);
        let b = uri_texts_of_items(rest);
        all_uris_are_found(items[0], text);
        texts_of_items_are_all(rest, text);
        sum_contains(a, b, text);
        if exists|i: int| 0 <= i < items.len() && names_uri(#[trigger] items[i], text) {
            let i = choose|i: int| 0 <= i < items.len() && names_uri(#[trigger] items[i], text);
            if i > 0 {
                assert(rest[i - 1] == items[i]);
                assert(names_uri(rest[i - 1], text));
            }
        }
        if exists|i: int| 0 <= i < rest.len() && names_uri(#[trigger] rest[i], text) {
            let i = choose|i: int| 0 <= i < rest.len() && names_uri(#[trigger] rest[i], text);
            assert(names_uri(items[i + 1], text));
        }
    }
}

proof fn texts_of_members_are_all(members: Seq<(Seq<char>, JsonView)>, text: Seq<char>)
    ensures
        uri_texts_of_members(members).contains(text) <==> exists|i: int|
            0 <= i < members.len() && names_uri(#[trigger] members[i].1, text),
    decreases members,
{
    if members.len() > 0 {
        let rest = members.subrange(1, members.len() as int);
        let a = uri_texts(members[0].1);
        let b = uri_texts_of_members(rest);
        assert(decreases_to!(members => members[0]));
        assert(decreases_to!(members[0] => members[0].1));
        all_uris_are_found(members[0].1, text);
        texts_of_members_are_all(rest, text);
        sum_contains(a, b, text);
        if exists|i: int| 0 <= i < members.len() && names_uri(#[trigger] members[i].1, text) {
            let i = choose|i: int| 0 <= i < members.len() && names_uri(#[trigger] members[i].1, text);
            if i > 0 {
                assert(rest[i - 1] == members[i]);
                assert(names_uri(rest[i - 1].1, text));
            }
        }
        if exists|i: int| 0 <= i < rest.len() && names_uri(#[trigger] rest[i].1, text) {
            let i = choose|i: int| 0 <= i < rest.len() && names_uri(#[trigger] rest[i].1, text);
            assert(names_uri(members[i + 1].1, text));
        }
    }
}

proof fn sum_contains(a: Seq<Seq<char>>, b: Seq<Seq<char>>, x: Seq<char>)
    ensures
        (a + b).contains(x) <==> a.contains(x) || b.contains(x),
{
    if a.contains(x) {
        let i = choose|i: int| 0 <= i < a.len() && a[i] == x;
        assert((a + b)[i] == x);
    }
    if b.contains(x) {
        let i = choose|i: int| 0 <= i < b.len() && b[i] == x;
        assert((a + b)[a.len() + i] == x);
    }
    if (a + b).contains(x) {
        let i = choose|i: int| 0 <= i < (a + b).len() && (a + b)[i] == x;
        if i < a.len() {
            assert(a[i] == x);
        } else {
            assert(b[i - a.len()] == x);
        }
    }
}

/// The texts under the key `uri` that are found are all that the value holds, at any depth.
pub proof fn all_uris_are_found(json: JsonView, text: Seq<char>)
    ensures
        uri_texts(json).contains(text) <==> names_uri(json, text),
    decreases json,
{
    match json {
        JsonView::Object(members) => {
            assert(decreases_to!(json => json->Object_0));
            texts_of_members_are_all(members, text);
            let own = crate::params::own_uri(json);
            sum_contains(own, uri_texts_of_members(members), text);
            assert(own.contains(text) <==> json_get(json, "uri"@) == Some(JsonView::Text(text)))
                by {
                if json_get(json, "uri"@) == Some(JsonView::Text(text)) {
                    assert(own[0] == text);
                }
            }
        },
        JsonView::Array(items) => {
            assert(decreases_to!(json => json->Array_0));
            texts_of_items_are_all(items, text);
        },
        _ => {},
    }
}

/// An object's own `uri` is taken before any that lies further inside.
pub proof fn an_own_uri_comes_first(json: JsonView, text: Seq<char>)
    requires
        json is Object,
        json_get(json, "uri"@) == Some(JsonView::Text(text)),
        url_serialization(text) is Some,
    ensures
        uri_in(json) == url_serialization(text),
        place_in(json) matches Some(place) && Some(place.uri) == url_serialization(text)
            && place.path == url_path(place.uri),
{
    assert(uri_texts(json)[0] == text);
}

proof fn first_url_is_one(candidates: Seq<Seq<char>>)
    ensures
        match first_url(candidates) {
            Some(url) => exists|i: int|
                0 <= i < candidates.len() && url_serialization(#[trigger] candidates[i]) == Some(
                    url,
                ) && forall|j: int|
                    0 <= j < i ==> url_serialization(#[trigger] candidates[j]) is None,
            None => forall|i: int|
                0 <= i < candidates.len() ==> url_serialization(#[trigger] candidates[i]) is None,
        },
    decreases candidates.len(),
{
    if candidates.len() > 0 && url_serialization(candidates[0]) is None {
        let rest = candidates.drop_first();
        first_url_is_one(rest);
        assert forall|i: int| 0 < i < candidates.len() implies #[trigger] candidates[i] == rest[i
            - 1] by {
        }
        if let Some(url) = first_url(rest) {
            let i = choose|i: int|
                0 <= i < rest.len() && url_serialization(#[trigger] rest[i]) == Some(url)
                    && forall|j: int|
                    0 <= j < i ==> url_serialization(#[trigger] rest[j]) is None;
            assert(candidates[i + 1] == rest[i]);
            assert forall|j: int| 0 <= j < i + 1 implies url_serialization(
                #[trigger] candidates[j],
            ) is None by {
                if j > 0 {
                    assert(candidates[j] == rest[j - 1]);
                }
            }
        } else {
            assert forall|i: int| 0 <= i < candidates.len() implies url_serialization(
                #[trigger] candidates[i],
            ) is None by {
                if i > 0 {
                    assert(candidates[i] == rest[i - 1]);
                }
            }
        }
    }
}

/// A document is named wherever some text under the key `uri` is a URL, however deep it lies, and it
/// is named by the first of these. It lies where that URL leads.
pub proof fn a_document_is_named_by_its_first_url(json: JsonView)
    ensures
        place_in(json) is Some <==> exists|text: Seq<char>| #[trigger]
            names_uri(json, text) && url_serialization(text) is Some,
        place_in(json) matches Some(place) ==> place.path == url_path(place.uri) && exists|
            text: Seq<char>,
        | #[trigger]
            names_uri(json, text) && url_serialization(text) == Some(place.uri),
{
    let candidates = uri_texts(json);
    first_url_is_one(candidates);
    if let Some(place) = place_in(json) {
        let i = choose|i: int|
            0 <= i < candidates.len() && url_serialization(#[trigger] candidates[i]) == Some(
                place.uri,
            ) && forall|j: int|
                0 <= j < i ==> url_serialization(#[trigger] candidates[j]) is None;
        assert(candidates.contains(candidates[i]));
        all_uris_are_found(json, candidates[i]);
    }
    if exists|text: Seq<char>| #[trigger]
        names_uri(json, text) && url_serialization(text) is Some {
        let text = choose|text: Seq<char>| #[trigger]
            names_uri(json, text) && url_serialization(text) is Some;
        all_uris_are_found(json, text);
        let i = choose|i: int| 0 <= i < candidates.len() && candidates[i] == text;
        assert(url_serialization(candidates[i]) is Some);
    }
}

} // verus!
