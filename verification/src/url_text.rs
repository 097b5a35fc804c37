//! URLs, in their serialized form, and the files that they name.

use vstd::prelude::*;
use crate::path::{path_of, path_text, FsPath, PathView};

verus! {

/// The serialization of the absolute URL that a text stands for, if it stands for one.
pub uninterp spec fn url_serialization(text: Seq<char>) -> Option<Seq<char>>;

/// The text of the file path that a URL names, if it names one that is UTF-8.
pub uninterp spec fn url_path_text(url: Seq<char>) -> Option<Seq<char>>;

/// The `file` URL of a path, given by its text, if there is one.
pub uninterp spec fn file_url_text(path: Seq<char>) -> Option<Seq<char>>;

/// The path that a URL names, if it names one.
pub open spec fn url_path(url: Seq<char>) -> Option<PathView> {
    match url_path_text(url) {
        Some(text) => Some(path_of(text)),
        None => None,
    }
}

/// `url` with a slash at its end.
pub open spec fn with_final_slash(url: Seq<char>) -> Seq<char> {
    if url.len() > 0 && url.last() == '/' {
        url
    } else {
        url.push('/')
    }
}

/// The `file` URL of a path, if there is one.
pub open spec fn path_url(path: PathView) -> Option<Seq<char>> {
    file_url_text(path_text(path))
}

/// The `file` URL of a directory, if there is one.
pub open spec fn directory_url(path: PathView) -> Option<Seq<char>> {
    match path_url(path) {
        Some(url) => Some(with_final_slash(url)),
        None => None,
    }
}

/// `url::Url::parse` reads an absolute URL. What it gives, serialized, depends on the text alone.
#[verifier::external_body]
pub(crate) fn parse_url(text: &str) -> (r: Option<String>)
    ensures
        match r {
            Some(url) => url_serialization(text@) == Some(url@),
            None => url_serialization(text@) is None,
        },
{
    url::Url::parse(text).ok().map(|url| url.to_string())
}

/// `url::Url::to_file_path` gives the path that a URL names. Which path that is depends on the URL
/// alone, among programs for the same family of operating systems. A path that is not UTF-8 counts
/// as none.
#[verifier::external_body]
fn url_to_path_text(url: &str) -> (r: Option<String>)
    ensures
        match r {
            Some(path) => url_path_text(url@) == Some(path@),
            None => url_path_text(url@) is None,
        },
{
    url::Url::parse(url).ok()?.to_file_path().ok()?.into_os_string().into_string().ok()
}

/// `url::Url::from_file_path` gives the `file` URL of a path. Which URL that is depends on the path
/// alone, among programs for the same family of operating systems.
#[verifier::external_body]
fn path_text_to_url(path: &str) -> (r: Option<String>)
    ensures
        match r {
            Some(url) => file_url_text(path@) == Some(url@),
            None => file_url_text(path@) is None,
        },
{
    url::Url::from_file_path(path).ok().map(|url| url.to_string())
}

/// `url::Url::from_directory_path` gives the URL that `url::Url::from_file_path` gives, with a slash
/// at its end.
#[verifier::external_body]
fn directory_text_to_url(path: &str) -> (r: Option<String>)
    ensures
        match (r, file_url_text(path@)) {
            (Some(url), Some(file_url)) => url@ == with_final_slash(file_url),
            (None, None) => true,
            _ => false,
        },
{
    url::Url::from_directory_path(path).ok().map(|url| url.to_string())
}

/// The path that a URL names, if it names one.
pub fn path_of_url(url: &str) -> (r: Option<FsPath>)
    ensures
        match r {
            Some(path) => url_path(url@) == Some(path@),
            None => url_path(url@) is None,
        },
{
    match url_to_path_text(url) {
        Some(text) => Some(FsPath::parse(text.as_str())),
        None => None,
    }
}

/// The `file` URL of a path, if there is one.
pub fn url_of_path(path: &FsPath) -> (r: Option<String>)
    ensures
        match r {
            Some(url) => path_url(path@) == Some(url@),
            None => path_url(path@) is None,
        },
{
    path_text_to_url(path.to_text().as_str())
}

/// The `file` URL of a directory, if there is one.
pub fn url_of_directory(path: &FsPath) -> (r: Option<String>)
    ensures
        match r {
            Some(url) => directory_url(path@) == Some(url@),
            None => directory_url(path@) is None,
        },
{
    directory_text_to_url(path.to_text().as_str())
}

} // verus!
