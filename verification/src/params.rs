//! What the parameters of requests and notifications say.

use vstd::prelude::*;
use vstd::string::*;
use crate::json::{json_get, json_get_str, json_put, Json, JsonView};
use crate::path::{name_of, path_of, path_text, FsPath, PathView};
use crate::text::{concat2, texts};
use crate::views::opt;
use crate::url_text::{
    directory_url, parse_url, path_of_url, url_of_directory, url_path, url_serialization,
};

verus! {

/// The URL that a text stands for.
pub open spec fn url_in_text(text: Option<Seq<char>>) -> Option<Seq<char>> {
    match text {
        Some(t) => url_serialization(t),
        None => None,
    }
}

/// The text under the key `uri` that an object itself holds.
pub open spec fn own_uri(json: JsonView) -> Seq<Seq<char>> {
    match json_get_str(json, "uri"@) {
        Some(text) => seq![text],
        None => Seq::empty(),
    }
}

/// The texts under the key `uri` that a value holds: an object's own comes before those of its
/// members, which come one after the other, as those of the items of a list do.
pub open spec fn uri_texts(json: JsonView) -> Seq<Seq<char>>
    decreases json,
{
    match json {
        JsonView::Object(members) => own_uri(json) + uri_texts_of_members(members),
        JsonView::Array(items) => uri_texts_of_items(items),
        _ => Seq::empty(),
    }
}

/// The texts under the key `uri` that the values hold.
pub open spec fn uri_texts_of_items(items: Seq<JsonView>) -> Seq<Seq<char>>
    decreases items,
{
    if items.len() == 0 {
        Seq::empty()
    } else {
        uri_texts(items[0]) + uri_texts_of_items(items.subrange(1, items.len() as int))
    }
}

/// The texts under the key `uri` that the members hold.
pub open spec fn uri_texts_of_members(members: Seq<(Seq<char>, JsonView)>) -> Seq<Seq<char>>
    decreases members,
{
    if members.len() == 0 {
        Seq::empty()
    } else {
        uri_texts(members[0].1) + uri_texts_of_members(
            members.subrange(1, members.len() as int),
        )
    }
}

/// The first of the texts that stands for a URL: that URL.
pub open spec fn first_url(candidates: Seq<Seq<char>>) -> Option<Seq<char>>
    decreases candidates.len(),
{
    if candidates.len() == 0 {
        None
    } else {
        match url_serialization(candidates[0]) {
            Some(url) => Some(url),
            None => first_url(candidates.drop_first()),
        }
    }
}

/// The first URL under the key `uri` that a value holds.
pub open spec fn uri_in(json: JsonView) -> Option<Seq<char>> {
    first_url(uri_texts(json))
}

/// The texts under the key `uri` that a value holds.
pub fn find_uri_texts(params: &Json) -> (r: Vec<String>)
    ensures
        texts(r@) == uri_texts(params@),
    decreases *params,
{
    let mut out: Vec<String> = Vec::new();
    proof {
        assert(texts(out@) =~= Seq::<Seq<char>>::empty());
    }
    match params {
        Json::Object(members) => {
            if let Some(text) = params.get_str("uri") {
                out.push(text.to_owned());
            }
            let ghost all = params@->Object_0;
            let mut i: usize = 0;
            proof {
                assert(all.skip(0) =~= all);
                assert(texts(out@) =~= own_uri(params@));
            }
            while i < members.len()
                invariant
                    i <= members@.len(),
                    *params == Json::Object(*members),
                    all == params@->Object_0,
                    params@ is Object,
                    uri_texts(params@) == texts(out@) + uri_texts_of_members(all.skip(i as int)),
                decreases members@.len() - i,
            {
                let ghost before = texts(out@);
                proof {
                    assert(decreases_to!(*params => params->Object_0));
                    assert(decreases_to!(*members => members[i as int]));
                    assert(decreases_to!(members[i as int] => members[i as int].1));
                    let rest = all.skip(i as int);
                    assert(rest[0] == (members@[i as int].0@, members@[i as int].1@));
                    assert(rest.subrange(1, rest.len() as int) =~= all.skip(i + 1));
                }
                let mut more = find_uri_texts(&members[i].1);
                let ghost found = texts(more@);
                out.append(&mut more);
                proof {
                    assert(texts(out@) =~= before + found);
                    let later = uri_texts_of_members(all.skip(i + 1));
                    assert(before + (found + later) =~= (before + found) + later);
                }
                i += 1;
            }
            proof {
                assert(all.skip(i as int).len() == 0);
                assert(texts(out@) + Seq::<Seq<char>>::empty() =~= texts(out@));
            }
        },
        Json::Array(items) => {
            let ghost all = params@->Array_0;
            let mut i: usize = 0;
            proof {
                assert(all.skip(0) =~= all);
                assert(texts(out@) + uri_texts_of_items(all) =~= uri_texts_of_items(all));
            }
            while i < items.len()
                invariant
                    i <= items@.len(),
                    *params == Json::Array(*items),
                    all == params@->Array_0,
                    params@ is Array,
                    uri_texts(params@) == texts(out@) + uri_texts_of_items(all.skip(i as int)),
                decreases items@.len() - i,
            {
                let ghost before = texts(out@);
                proof {
                    assert(decreases_to!(*params => params->Array_0));
                    assert(decreases_to!(*items => items[i as int]));
                    let rest = all.skip(i as int);
                    assert(rest[0] == items@[i as int]@);
                    assert(rest.subrange(1, rest.len() as int) =~= all.skip(i + 1));
                }
                let mut more = find_uri_texts(&items[i]);
                let ghost found = texts(more@);
                out.append(&mut more);
                proof {
                    assert(texts(out@) =~= before + found);
                    let later = uri_texts_of_items(all.skip(i + 1));
                    assert(before + (found + later) =~= (before + found) + later);
                }
                i += 1;
            }
            proof {
                assert(all.skip(i as int).len() == 0);
                assert(texts(out@) + Seq::<Seq<char>>::empty() =~= texts(out@));
            }
        },
        _ => {},
    }
    out
}

/// The first URL under the key `uri` that a value holds.
pub fn find_uri(params: &Json) -> (r: Option<String>)
    ensures
        opt(r) == uri_in(params@),
{
    let candidates = find_uri_texts(params);
    let ghost all = texts(candidates@);
    let mut i: usize = 0;
    proof {
        assert(all.skip(0) =~= all);
    }
    while i < candidates.len()
        invariant
            i <= candidates@.len(),
            all == texts(candidates@),
            all == uri_texts(params@),
            first_url(all) == first_url(all.skip(i as int)),
        decreases candidates@.len() - i,
    {
        proof {
            assert(all.skip(i as int)[0] == candidates@[i as int]@);
            assert(all.skip(i as int).drop_first() =~= all.skip(i + 1));
        }
        if let Some(url) = parse_url(candidates[i].as_str()) {
            return Some(url);
        }
        i += 1;
    }
    None
}

/// Where a document lies.
#[derive(Debug, PartialEq, Eq)]
pub struct Place {
    pub uri: String,
    pub path: Option<FsPath>,
}

/// Where a document lies.
#[verifier::ext_equal]
pub struct PlaceView {
    pub uri: Seq<char>,
    pub path: Option<PathView>,
}

impl View for Place {
    type V = PlaceView;

    open spec fn view(&self) -> PlaceView {
        PlaceView { uri: self.uri@, path: opt(self.path) }
    }
}

/// Where the document lies that a value names by the first URL under the key `uri`.
pub open spec fn place_in(params: JsonView) -> Option<PlaceView> {
    match uri_in(params) {
        Some(uri) => Some(PlaceView { uri, path: url_path(uri) }),
        None => None,
    }
}

/// Where the document lies that a value names.
pub fn find_place(params: &Json) -> (r: Option<Place>)
    ensures
        opt(r) == place_in(params@),
{
    match find_uri(params) {
        Some(uri) => {
            let path = path_of_url(uri.as_str());
            Some(Place { uri, path })
        },
        None => None,
    }
}

/// The path that the URL in a text names.
pub open spec fn path_in_text(text: Option<Seq<char>>) -> Option<PathView> {
    match url_in_text(text) {
        Some(url) => url_path(url),
        None => None,
    }
}

/// The path that the URL of the first workspace folder names.
pub open spec fn first_folder_path(params: JsonView) -> Option<PathView> {
    match json_get(params, "workspaceFolders"@) {
        Some(JsonView::Array(folders)) => if folders.len() > 0 {
            path_in_text(json_get_str(folders[0], "uri"@))
        } else {
            None
        },
        _ => None,
    }
}

/// The root by its URI, else by its path, else by the first workspace folder.
pub open spec fn preferred_root(
    root_uri: Option<PathView>,
    root_path: Option<Seq<char>>,
    folder: Option<PathView>,
) -> Option<PathView> {
    match root_uri {
        Some(path) => Some(path),
        None => match root_path {
            Some(text) => Some(path_of(text)),
            None => folder,
        },
    }
}

/// The root that the parameters of `initialize` give: by `rootUri`, else by `rootPath`, else by the
/// first workspace folder.
pub open spec fn initialize_root(params: JsonView) -> Option<PathView> {
    preferred_root(
        path_in_text(json_get_str(params, "rootUri"@)),
        json_get_str(params, "rootPath"@),
        first_folder_path(params),
    )
}

/// The path that the URL in a text names.
fn path_from_text(text: Option<&str>) -> (r: Option<FsPath>)
    ensures
        match r {
            Some(path) => path_in_text(
                match text {
                    Some(t) => Some(t@),
                    None => None,
                },
            ) == Some(path@),
            None => path_in_text(
                match text {
                    Some(t) => Some(t@),
                    None => None,
                },
            ) is None,
        },
{
    match text {
        Some(t) => match parse_url(t) {
            Some(url) => path_of_url(url.as_str()),
            None => None,
        },
        None => None,
    }
}

/// The root by its URI, else by its path, else by the first workspace folder.
pub fn choose_root(root_uri: Option<FsPath>, root_path: Option<&str>, folder: Option<FsPath>) -> (r:
    Option<FsPath>)
    ensures
        opt(r) == preferred_root(
            opt(root_uri),
            match root_path {
                Some(text) => Some(text@),
                None => None,
            },
            opt(folder),
        ),
{
    if let Some(path) = root_uri {
        return Some(path);
    }
    match root_path {
        Some(text) => Some(FsPath::parse(text)),
        None => folder,
    }
}

/// The root that the parameters of `initialize` give.
pub fn find_initialize_root(params: &Json) -> (r: Option<FsPath>)
    ensures
        opt(r) == initialize_root(params@),
{
    let folder = match params.get("workspaceFolders") {
        Some(Json::Array(folders)) => {
            if folders.len() > 0 {
                path_from_text(folders[0].get_str("uri"))
            } else {
                None
            }
        },
        _ => None,
    };
    choose_root(
        path_from_text(params.get_str("rootUri")),
        params.get_str("rootPath"),
        folder,
    )
}

/// The name of the workspace folder for a root.
pub open spec fn folder_name(root: PathView) -> Seq<char> {
    match name_of(root) {
        Some(name) => name,
        None => "workspace"@,
    }
}

/// The parameters of `initialize` with `root`, at the URL `root_url`, for the root.
pub open spec fn params_with_root(
    params: JsonView,
    root: PathView,
    root_url: Seq<char>,
) -> JsonView {
    let folder = JsonView::Object(
        seq![("uri"@, JsonView::Text(root_url)), ("name"@, JsonView::Text(folder_name(root)))],
    );
    json_put(
        json_put(
            json_put(params, "rootUri"@, JsonView::Text(root_url)),
            "rootPath"@,
            JsonView::Text(path_text(root)),
        ),
        "workspaceFolders"@,
        JsonView::Array(seq![folder]),
    )
}

/// Why a root has no URL.
pub open spec fn no_root_url(root: PathView) -> Seq<char> {
    "failed to convert "@ + path_text(root) + " to a file URI"@
}

/// The parameters of `initialize` for a session with the given root.
pub open spec fn rewritten_params(params: JsonView, root: Option<PathView>) -> Result<
    JsonView,
    Seq<char>,
> {
    match (root, params) {
        (Some(root), JsonView::Object(_)) => match directory_url(root) {
            Some(url) => Ok(params_with_root(params, root, url)),
            None => Err(no_root_url(root)),
        },
        _ => Ok(params),
    }
}

/// The parameters of `initialize` with `root`, at the URL `root_url`, for the root.
pub fn params_at_root(params: &Json, root: &FsPath, root_url: &str) -> (r: Json)
    ensures
        r@ == params_with_root(params@, root@, root_url@),
{
    let name = match root.file_name() {
        Some(name) => name,
        None => "workspace".to_owned(),
    };
    let folder = Json::object2("uri", Json::text(root_url), "name", Json::Text(name));
    let folders = Json::array(vec![folder]);
    proof {
        assert(folders@->Array_0 =~= seq![folder@]);
    }
    params.clone().with("rootUri", Json::text(root_url)).with(
        "rootPath",
        Json::Text(root.to_text()),
    ).with("workspaceFolders", folders)
}

/// The parameters of `initialize` for a session with the given root.
pub fn rewrite_initialize_params(params: &Json, root: Option<&FsPath>) -> (r: Result<Json, String>)
    ensures
        match r {
            Ok(json) => rewritten_params(
                params@,
                match root {
                    Some(p) => Some(p@),
                    None => None,
                },
            ) == Ok::<JsonView, Seq<char>>(json@),
            Err(message) => rewritten_params(
                params@,
                match root {
                    Some(p) => Some(p@),
                    None => None,
                },
            ) == Err::<JsonView, Seq<char>>(message@),
        },
{
    let root = match root {
        Some(root) => root,
        None => return Ok(params.clone()),
    };
    if !params.is_object() {
        return Ok(params.clone());
    }
    let url = match url_of_directory(root) {
        Some(url) => url,
        None => {
            let start = concat2("failed to convert ", root.to_text().as_str());
            return Err(concat2(start.as_str(), " to a file URI"));
        },
    };
    Ok(params_at_root(params, root, url.as_str()))
}

} // verus!
