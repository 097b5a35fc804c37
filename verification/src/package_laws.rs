//! What holds of programs and manifests wherever they are found.

use vstd::prelude::*;
use crate::disk::{FileTextView, FindingsView, OutcomeView, StepView};
use crate::json::{json_get, JsonView};
use crate::json_text::json_document;
use crate::package::{
    declared_bin, first_program, holds_any, launcher_name, manifest, program, script_name,
};
use crate::path::{child_of, extension_of, last_dot, name_of, path_text, PathView};

verus! {

/// Launchers are named as their programs are, and as command files on Windows.
pub proof fn launchers_are_named_for_their_system(base: Seq<char>)
    ensures
        launcher_name(base, false) == base,
        launcher_name(base, true).len() == base.len() + 4,
        launcher_name(base, true).take(base.len() as int) == base,
        launcher_name(base, true).skip(base.len() as int) == ".cmd"@,
{
    reveal_strlit(".cmd");
    assert(launcher_name(base, true).take(base.len() as int) =~= base);
    assert(launcher_name(base, true).skip(base.len() as int) =~= ".cmd"@);
}

proof fn the_first_directory_is_taken(f: FindingsView, dirs: Seq<PathView>, name: Seq<char>)
    requires
        first_program(f, dirs, name) is Known,
    ensures
        match first_program(f, dirs, name)->Known_0 {
            OutcomeView::Found(file) => exists|k: int|
                0 <= k < dirs.len() && file == child_of(#[trigger] dirs[k], name) && f.is_file(file)
                    == StepView::Known(true) && forall|j: int|
                    0 <= j < k ==> f.is_file(child_of(#[trigger] dirs[j], name)) == StepView::Known(
                        false,
                    ),
            OutcomeView::Absent => forall|j: int|
                0 <= j < dirs.len() ==> f.is_file(child_of(#[trigger] dirs[j], name))
                    == StepView::Known(false),
            OutcomeView::Failed(_) => false,
        },
    decreases dirs.len(),
{
    if dirs.len() > 0 {
        if f.is_file(child_of(dirs[0], name)) == StepView::Known(true) {
            assert(child_of(dirs[0], name) == child_of(dirs[0], name));
        } else {
            let rest = dirs.drop_first();
            the_first_directory_is_taken(f, rest, name);
            match first_program(f, rest, name)->Known_0 {
                OutcomeView::Found(file) => {
                    let k = choose|k: int|
                        0 <= k < rest.len() && file == child_of(#[trigger] rest[k], name)
                            && f.is_file(file) == StepView::Known(true) && forall|j: int|
                            0 <= j < k ==> f.is_file(child_of(#[trigger] rest[j], name))
                                == StepView::Known(false);
                    assert(file == child_of(dirs[k + 1], name));
                    assert forall|j: int| 0 <= j < k + 1 implies f.is_file(
                        child_of(#[trigger] dirs[j], name),
                    ) == StepView::Known(false) by {
                        if j > 0 {
                            assert(rest[j - 1] == dirs[j]);
                        }
                    }
                },
                _ => {
                    assert forall|j: int| 0 <= j < dirs.len() implies f.is_file(
                        child_of(#[trigger] dirs[j], name),
                    ) == StepView::Known(false) by {
                        if j > 0 {
                            assert(rest[j - 1] == dirs[j]);
                        }
                    }
                },
            }
        }
    }
}

/// The program that is found is a file of its name in the first directory of the search path that has
/// one, and where none is found, no directory of the search path has one.
pub proof fn programs_are_found_on_the_search_path(
    f: FindingsView,
    dirs: Seq<PathView>,
    name: Seq<char>,
)
    requires
        f.program_dirs() == StepView::Known(dirs),
        program(f, name) is Known,
    ensures
        match program(f, name)->Known_0 {
            OutcomeView::Found(file) => exists|k: int|
                0 <= k < dirs.len() && file == child_of(#[trigger] dirs[k], name) && f.is_file(file)
                    == StepView::Known(true) && forall|j: int|
                    0 <= j < k ==> f.is_file(child_of(#[trigger] dirs[j], name)) == StepView::Known(
                        false,
                    ),
            OutcomeView::Absent => forall|j: int|
                0 <= j < dirs.len() ==> f.is_file(child_of(#[trigger] dirs[j], name))
                    == StepView::Known(false),
            OutcomeView::Failed(_) => false,
        },
{
    the_first_directory_is_taken(f, dirs, name);
}

/// A manifest is what its file says, and one that cannot be read or is no JSON is a failure.
pub proof fn manifests_are_read_from_their_file(f: FindingsView, path: PathView, raw: Seq<char>)
    ensures
        f.text(path) == StepView::Known(FileTextView::Text(raw)) ==> match json_document(raw) {
            Some(json) => manifest(f, path) == StepView::Known(OutcomeView::Found(json)),
            None => manifest(f, path) matches StepView::Known(OutcomeView::Failed(_)),
        },
        f.text(path) matches StepView::Known(FileTextView::Unreadable(_)) ==> manifest(
            f,
            path,
        ) matches StepView::Known(OutcomeView::Failed(_)),
        f.text(path) is Ask ==> manifest(f, path) is Ask,
{
}

/// A manifest declares a program either alone, whatever its name, or by name among several.
pub proof fn programs_are_declared_alone_or_by_name(
    package: JsonView,
    name: Seq<char>,
    bin: Seq<char>,
)
    ensures
        json_get(package, "bin"@) == Some(JsonView::Text(bin)) ==> declared_bin(package, name)
            == Some(bin),
        json_get(package, "bin"@) is None ==> declared_bin(package, name) is None,
        json_get(package, "bin"@) matches Some(several) ==> several is Object ==> (declared_bin(
            package,
            name,
        ) == Some(bin) <==> json_get(several, name) == Some(JsonView::Text(bin))),
{
}

proof fn last_dot_is_last(name: Seq<char>)
    ensures
        match last_dot(name) {
            Some(at) => 0 <= at < name.len() && name[at] == '.' && forall|i: int|
                at < i < name.len() ==> name[i] != '.',
            None => forall|i: int| 0 <= i < name.len() ==> name[i] != '.',
        },
    decreases name.len(),
{
    if name.len() > 0 && name.last() != '.' {
        let rest = name.drop_last();
        last_dot_is_last(rest);
        assert forall|i: int| 0 <= i < rest.len() implies rest[i] == name[i] by {
        }
    }
}

/// The extension of a file is what follows the last dot of its name, where something stands ahead of
/// that dot.
pub proof fn extensions_follow_the_last_dot(
    path: PathView,
    stem: Seq<char>,
    extension: Seq<char>,
)
    requires
        stem.len() > 0,
        name_of(path) == Some(stem.push('.') + extension),
        forall|i: int| 0 <= i < extension.len() ==> extension[i] != '.',
    ensures
        extension_of(path) == Some(extension),
{
    let name = stem.push('.') + extension;
    last_dot_is_last(name);
    assert(name[stem.len() as int] == '.');
    let at = last_dot(name)->0;
    if at > stem.len() {
        assert(name[at] == extension[at - stem.len() - 1]);
    }
    assert(name.skip(stem.len() as int + 1) =~= extension);
}

/// A file whose name has no dot, or only one at its start, has no extension.
pub proof fn names_without_a_dot_have_no_extension(path: PathView, name: Seq<char>)
    requires
        name_of(path) == Some(name),
        forall|i: int| 0 < i < name.len() ==> name[i] != '.',
    ensures
        extension_of(path) is None,
{
    last_dot_is_last(name);
}

/// A file is a script for Node just when its extension says so.
pub proof fn scripts_are_told_by_their_extension(path: PathView)
    ensures
        script_name(path) <==> (extension_of(path) matches Some(extension) && (extension == "js"@
            || extension == "cjs"@ || extension == "mjs"@)),
{
}

/// Whether a directory holds one of several names is known to be so by one that is there, and not to be
/// so only once none is.
pub proof fn one_name_is_enough(f: FindingsView, dir: PathView, names: Seq<Seq<char>>)
    requires
        holds_any(f, dir, names) is Known,
    ensures
        holds_any(f, dir, names) == StepView::Known(true) ==> exists|k: int|
            0 <= k < names.len() && f.present(child_of(dir, #[trigger] names[k]))
                == StepView::Known(true),
        holds_any(f, dir, names) == StepView::Known(false) ==> forall|k: int|
            0 <= k < names.len() ==> f.present(child_of(dir, #[trigger] names[k]))
                == StepView::Known(false),
    decreases names.len(),
{
    if names.len() > 0 {
        if f.present(child_of(dir, names[0])) == StepView::Known(false) {
            let rest = names.drop_first();
            one_name_is_enough(f, dir, rest);
            if holds_any(f, dir, rest) == StepView::Known(true) {
                let k = choose|k: int|
                    0 <= k < rest.len() && f.present(child_of(dir, #[trigger] rest[k]))
                        == StepView::Known(true);
                assert(names[k + 1] == rest[k]);
            } else {
                assert(holds_any(f, dir, rest) == StepView::Known(false));
                assert forall|k: int| 0 <= k < names.len() implies f.present(
                    child_of(dir, #[trigger] names[k]),
                ) == StepView::Known(false) by {
                    if k > 0 {
                        assert(rest[k - 1] == names[k]);
                    }
                }
            }
        } else {
            assert(f.present(child_of(dir, names[0])) == StepView::Known(true));
        }
    }
}

/// A manifest that cannot be read or parsed is told by its path.
pub proof fn broken_manifests_are_told_by_their_path(f: FindingsView, path: PathView, message: Seq<char>)
    requires
        manifest(f, path) == StepView::Known(OutcomeView::<JsonView>::Failed(message)),
    ensures
        f.text(path) matches StepView::Known(FileTextView::Unreadable(_)) ==> message
            == "failed to read "@ + path_text(path),
        f.text(path) matches StepView::Known(FileTextView::Text(_)) ==> message
            == "failed to parse "@ + path_text(path),
{
}

} // verus!
