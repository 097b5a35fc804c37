//! Programs, and the manifests of npm packages.

use vstd::prelude::*;
use vstd::string::*;
use crate::disk::{
    FileText, FileTextView, Findings, FindingsView, Outcome, OutcomeView, Step, StepView,
};
use crate::json::{json_get, json_get_str, Json, JsonView};
use crate::json_text::{json_document, parse_json};
use crate::path::{child_of, extension_of, path_text, FsPath, PathView};
use crate::text::{concat2, same_text, texts};
use crate::views::each;

verus! {

/// The name of the file that a program's launcher has.
pub open spec fn launcher_name(base: Seq<char>, windows: bool) -> Seq<char> {
    if windows {
        base + ".cmd"@
    } else {
        base
    }
}

/// The name of the file that a program's launcher has.
pub fn executable_name(base: &str, windows: bool) -> (r: String)
    ensures
        r@ == launcher_name(base@, windows),
{
    if windows {
        concat2(base, ".cmd")
    } else {
        base.to_owned()
    }
}

/// The first of the directories that holds a file of this name: the path of that file.
pub open spec fn first_program(f: FindingsView, dirs: Seq<PathView>, name: Seq<char>) -> StepView<
    OutcomeView<PathView>,
>
    decreases dirs.len(),
{
    if dirs.len() == 0 {
        StepView::Known(OutcomeView::Absent)
    } else {
        match f.is_file(child_of(dirs[0], name)) {
            StepView::Ask(probe) => StepView::Ask(probe),
            StepView::Known(true) => StepView::Known(OutcomeView::Found(child_of(dirs[0], name))),
            StepView::Known(false) => first_program(f, dirs.drop_first(), name),
        }
    }
}

/// The program of this name.
pub open spec fn program(f: FindingsView, name: Seq<char>) -> StepView<OutcomeView<PathView>> {
    match f.program_dirs() {
        StepView::Ask(probe) => StepView::Ask(probe),
        StepView::Known(dirs) => first_program(f, dirs, name),
    }
}

/// The program of this name.
pub fn find_in_path(findings: &Findings, name: &str) -> (r: Step<Outcome<FsPath>>)
    ensures
        r@ == program(findings@, name@),
{
    let dirs = match findings.program_dirs() {
        Err(probe) => {
            return Step::Ask(probe);
        },
        Ok(dirs) => dirs,
    };
    let ghost all = each(dirs@);
    let mut i: usize = 0;
    proof {
        assert(all.skip(0) =~= all);
    }
    while i < dirs.len()
        invariant
            i <= dirs@.len(),
            all == each(dirs@),
            program(findings@, name@) == first_program(findings@, all.skip(i as int), name@),
        decreases dirs@.len() - i,
    {
        proof {
            assert(all.skip(i as int)[0] == dirs@[i as int]@);
            assert(all.skip(i as int).drop_first() =~= all.skip(i + 1));
        }
        let candidate = dirs[i].child(name);
        match findings.is_file(candidate.clone()) {
            Step::Ask(probe) => {
                return Step::Ask(probe);
            },
            Step::Known(true) => {
                return Step::Known(Outcome::Found(candidate));
            },
            Step::Known(false) => {},
        }
        i += 1;
    }
    Step::Known(Outcome::Absent)
}

/// The manifest at the path.
pub open spec fn manifest(f: FindingsView, path: PathView) -> StepView<OutcomeView<JsonView>> {
    match f.text(path) {
        StepView::Ask(probe) => StepView::Ask(probe),
        StepView::Known(FileTextView::Unreadable(_)) => StepView::Known(
            OutcomeView::Failed("failed to read "@ + path_text(path)),
        ),
        StepView::Known(FileTextView::Text(raw)) => StepView::Known(
            match json_document(raw) {
                None => OutcomeView::Failed("failed to parse "@ + path_text(path)),
                Some(json) => OutcomeView::Found(json),
            },
        ),
    }
}

/// The manifest at the path.
pub fn read_manifest(findings: &Findings, path: &FsPath) -> (r: Step<Outcome<Json>>)
    ensures
        r@ == manifest(findings@, path@),
{
    match findings.text(path.clone()) {
        Step::Ask(probe) => Step::Ask(probe),
        Step::Known(FileText::Unreadable(_)) => Step::Known(
            Outcome::Failed(concat2("failed to read ", path.to_text().as_str())),
        ),
        Step::Known(FileText::Text(raw)) => match parse_json(raw.as_str()) {
            None => Step::Known(
                Outcome::Failed(concat2("failed to parse ", path.to_text().as_str())),
            ),
            Some(json) => Step::Known(Outcome::Found(json)),
        },
    }
}

/// What a manifest declares as the program of this name, seen from the directory of the package.
pub open spec fn declared_bin(package: JsonView, name: Seq<char>) -> Option<Seq<char>> {
    match json_get(package, "bin"@) {
        Some(JsonView::Text(bin)) => Some(bin),
        Some(JsonView::Object(members)) => json_get_str(JsonView::Object(members), name),
        _ => None,
    }
}

/// What a manifest declares as the program of this name, seen from the directory of the package.
pub fn bin_of<'a>(package: &'a Json, name: &str) -> (r: Option<&'a str>)
    ensures
        match r {
            Some(bin) => declared_bin(package@, name@) == Some(bin@),
            None => declared_bin(package@, name@) is None,
        },
{
    match package.get("bin") {
        Some(bin) => match bin {
            Json::Text(text) => Some(text.as_str()),
            Json::Object(_) => bin.get_str(name),
            _ => None,
        },
        None => None,
    }
}

/// Whether the name of a file says that it is a Node script.
pub open spec fn script_name(path: PathView) -> bool {
    ||| extension_of(path) == Some("js"@)
    ||| extension_of(path) == Some("cjs"@)
    ||| extension_of(path) == Some("mjs"@)
}

/// Whether the name of a file says that it is a Node script.
pub fn has_script_name(path: &FsPath) -> (r: bool)
    ensures
        r == script_name(path@),
{
    match path.extension() {
        Some(extension) => same_text(extension.as_str(), "js") || same_text(
            extension.as_str(),
            "cjs",
        ) || same_text(extension.as_str(), "mjs"),
        None => false,
    }
}

/// Whether the directory holds one of these.
pub open spec fn holds_any(f: FindingsView, dir: PathView, names: Seq<Seq<char>>) -> StepView<bool>
    decreases names.len(),
{
    if names.len() == 0 {
        StepView::Known(false)
    } else {
        match f.present(child_of(dir, names[0])) {
            StepView::Known(false) => holds_any(f, dir, names.drop_first()),
            other => other,
        }
    }
}

/// Whether the directory holds one of these.
pub fn contains_any(findings: &Findings, dir: &FsPath, names: &Vec<String>) -> (r: Step<bool>)
    ensures
        r@ == holds_any(findings@, dir@, texts(names@)),
{
    let ghost all = texts(names@);
    let mut i: usize = 0;
    proof {
        assert(all.skip(0) =~= all);
    }
    while i < names.len()
        invariant
            i <= names@.len(),
            all == texts(names@),
            holds_any(findings@, dir@, all) == holds_any(findings@, dir@, all.skip(i as int)),
        decreases names@.len() - i,
    {
        proof {
            assert(all.skip(i as int)[0] == names@[i as int]@);
            assert(all.skip(i as int).drop_first() =~= all.skip(i + 1));
        }
        match findings.present(dir.child(names[i].as_str())) {
            Step::Known(false) => {},
            other => {
                return other;
            },
        }
        i += 1;
    }
    Step::Known(false)
}

/// What is known of what a directory holds stays known when more is found out.
pub proof fn holds_any_lasts(f: FindingsView, g: FindingsView, dir: PathView, names: Seq<Seq<char>>)
    requires
        f.within(g),
        holds_any(f, dir, names) is Known,
    ensures
        holds_any(g, dir, names) == holds_any(f, dir, names),
    decreases names.len(),
{
    if names.len() > 0 && f.present(child_of(dir, names[0])) == StepView::Known(false) {
        holds_any_lasts(f, g, dir, names.drop_first());
    }
}

/// What a directory holds is asked but once.
pub proof fn holds_any_asks_anew(f: FindingsView, dir: PathView, names: Seq<Seq<char>>)
    requires
        holds_any(f, dir, names) is Ask,
    ensures
        !f.answered(holds_any(f, dir, names)->Ask_0),
    decreases names.len(),
{
    if names.len() > 0 && f.present(child_of(dir, names[0])) is Known {
        holds_any_asks_anew(f, dir, names.drop_first());
    }
}

/// What is known of a program stays known when more is found out.
pub proof fn program_lasts(f: FindingsView, g: FindingsView, name: Seq<char>)
    requires
        f.within(g),
        program(f, name) is Known,
    ensures
        program(g, name) == program(f, name),
{
    first_program_lasts(f, g, f.program_dirs()->Known_0, name);
}

proof fn first_program_lasts(f: FindingsView, g: FindingsView, dirs: Seq<PathView>, name: Seq<char>)
    requires
        f.within(g),
        first_program(f, dirs, name) is Known,
    ensures
        first_program(g, dirs, name) == first_program(f, dirs, name),
    decreases dirs.len(),
{
    if dirs.len() > 0 && f.is_file(child_of(dirs[0], name)) == StepView::Known(false) {
        first_program_lasts(f, g, dirs.drop_first(), name);
    }
}

/// The search for a program asks nothing twice.
pub proof fn program_asks_anew(f: FindingsView, name: Seq<char>)
    requires
        program(f, name) is Ask,
    ensures
        !f.answered(program(f, name)->Ask_0),
{
    if f.program_dirs() is Known {
        first_program_asks_anew(f, f.program_dirs()->Known_0, name);
    }
}

proof fn first_program_asks_anew(f: FindingsView, dirs: Seq<PathView>, name: Seq<char>)
    requires
        first_program(f, dirs, name) is Ask,
    ensures
        !f.answered(first_program(f, dirs, name)->Ask_0),
    decreases dirs.len(),
{
    if dirs.len() > 0 && f.is_file(child_of(dirs[0], name)) is Known {
        first_program_asks_anew(f, dirs.drop_first(), name);
    }
}

} // verus!
