//! What holds of the search for projects, whatever a project is.

use vstd::prelude::*;
use crate::disk::{FindingsView, OutcomeView, StepView};
use crate::path::{ancestors_of, child_of, parent_of, PathView};
use crate::search::{descend, nearest, nearest_above, start_of, visit, ProjectSearch, VisitView};

verus! {

/// Whether a directory is known to be no project.
pub open spec fn is_no_project<S: ProjectSearch>(search: S, f: FindingsView, dir: PathView) -> bool {
    search.context_of(f, dir) == StepView::Known(OutcomeView::<<S::Context as View>::V>::Absent)
}

/// The search for a file's project starts in the directory that holds the file, and the search for
/// that of a directory starts in the directory itself.
pub proof fn searches_start_at_the_directory(f: FindingsView, path: PathView, no_parent: Seq<char>)
    ensures
        f.is_dir(path) == StepView::Known(true) ==> start_of(f, path, no_parent) == StepView::Known(
            OutcomeView::Found(path),
        ),
        f.is_dir(path) == StepView::Known(false) && parent_of(path) is Some ==> start_of(
            f,
            path,
            no_parent,
        ) == StepView::Known(OutcomeView::Found(parent_of(path)->0)),
        f.is_dir(path) == StepView::Known(false) && parent_of(path) is None ==> start_of(
            f,
            path,
            no_parent,
        ) == StepView::Known(OutcomeView::<PathView>::Failed(no_parent)),
{
}

/// No directory is a project where none is found.
pub proof fn all_directories_are_tried<S: ProjectSearch>(
    search: S,
    f: FindingsView,
    dirs: Seq<PathView>,
    packages_only: bool,
    i: int,
)
    requires
        nearest(search, f, dirs, packages_only) == StepView::Known(
            OutcomeView::<<S::Context as View>::V>::Absent,
        ),
        0 <= i < dirs.len(),
    ensures
        is_no_project(search, f, dirs[i]) || (packages_only && f.present(
            child_of(dirs[i], "package.json"@),
        ) == StepView::Known(false)),
    decreases dirs.len(),
{
    if i > 0 {
        all_directories_are_tried(search, f, dirs.drop_first(), packages_only, i - 1);
    }
}

/// The first of the directories that is a project is found, whether it has a manifest or not, where
/// manifests are not asked for.
pub proof fn the_nearest_project_is_found<S: ProjectSearch>(
    search: S,
    f: FindingsView,
    dirs: Seq<PathView>,
    i: int,
)
    requires
        0 <= i < dirs.len(),
        forall|j: int| 0 <= j < i ==> is_no_project(search, f, #[trigger] dirs[j]),
        search.context_of(f, dirs[i]) matches StepView::Known(OutcomeView::Found(_)),
    ensures
        nearest(search, f, dirs, false) == search.context_of(f, dirs[i]),
    decreases dirs.len(),
{
    if i > 0 {
        assert(is_no_project(search, f, dirs[0]));
        let rest = dirs.drop_first();
        assert forall|j: int| 0 <= j < i - 1 implies is_no_project(search, f, #[trigger] rest[j]) by {
            assert(rest[j] == dirs[j + 1]);
        }
        the_nearest_project_is_found(search, f, rest, i - 1);
    }
}

/// A directory without a manifest serves as a project just where no package above is one.
pub proof fn packages_come_first<S: ProjectSearch>(search: S, f: FindingsView, start: PathView, i: int)
    requires
        nearest(search, f, ancestors_of(start), true) == StepView::Known(
            OutcomeView::<<S::Context as View>::V>::Absent,
        ),
        0 <= i < ancestors_of(start).len(),
        forall|j: int| 0 <= j < i ==> is_no_project(search, f, #[trigger] ancestors_of(start)[j]),
        search.context_of(f, ancestors_of(start)[i]) matches StepView::Known(OutcomeView::Found(_)),
    ensures
        nearest_above(search, f, start) == search.context_of(f, ancestors_of(start)[i]),
{
    the_nearest_project_is_found(search, f, ancestors_of(start), i);
}

/// Whether a directory that was come upon from above is known to be no project.
pub open spec fn is_no_package_project<S: ProjectSearch>(
    search: S,
    f: FindingsView,
    dir: PathView,
) -> bool {
    search.package_of(f, dir) == StepView::Known(false) || (search.package_of(f, dir)
        == StepView::Known(true) && is_no_project(search, f, dir))
}

proof fn a_level_is_visited_in_order<S: ProjectSearch>(
    search: S,
    f: FindingsView,
    level: Seq<PathView>,
    i: int,
)
    requires
        0 <= i < level.len(),
        forall|j: int|
            0 <= j < i ==> is_no_package_project(search, f, #[trigger] level[j]) && f.listing(
                level[j],
            ) is Known,
        search.package_of(f, level[i]) == StepView::Known(true),
        search.context_of(f, level[i]) matches StepView::Known(OutcomeView::Found(_)),
    ensures
        visit(search, f, level) == VisitView::Ended(search.context_of(f, level[i])->Known_0),
    decreases level.len(),
{
    if i > 0 {
        assert(is_no_package_project(search, f, level[0]) && f.listing(level[0]) is Known);
        let rest = level.drop_first();
        assert forall|j: int| 0 <= j < i - 1 implies is_no_package_project(
            search,
            f,
            #[trigger] rest[j],
        ) && f.listing(rest[j]) is Known by {
            assert(rest[j] == level[j + 1]);
        }
        a_level_is_visited_in_order(search, f, rest, i - 1);
    }
}

/// The first project of a level is found, ahead of all that lie deeper.
pub proof fn upper_levels_come_first<S: ProjectSearch>(
    search: S,
    f: FindingsView,
    level: Seq<PathView>,
    i: int,
)
    requires
        0 <= i < level.len(),
        forall|j: int|
            0 <= j < i ==> is_no_package_project(search, f, #[trigger] level[j]) && f.listing(
                level[j],
            ) is Known,
        search.package_of(f, level[i]) == StepView::Known(true),
        search.context_of(f, level[i]) matches StepView::Known(OutcomeView::Found(_)),
    ensures
        descend(search, f, level) == search.context_of(f, level[i]),
{
    a_level_is_visited_in_order(search, f, level, i);
}

proof fn every_directory_is_visited<S: ProjectSearch>(
    search: S,
    f: FindingsView,
    level: Seq<PathView>,
    i: int,
    sub: PathView,
)
    requires
        visit(search, f, level) is Next,
        0 <= i < level.len(),
    ensures
        is_no_package_project(search, f, level[i]),
        f.listing(level[i]) is Known,
        search.subdirs_of(f.listing(level[i])->Known_0, level[i]).contains(sub) ==> visit(
            search,
            f,
            level,
        )->Next_0.contains(sub),
    decreases level.len(),
{
    let rest = level.drop_first();
    let mine = search.subdirs_of(f.listing(level[0])->Known_0, level[0]);
    let theirs = visit(search, f, rest)->Next_0;
    if i > 0 {
        every_directory_is_visited(search, f, rest, i - 1, sub);
        if theirs.contains(sub) {
            let k = choose|k: int| 0 <= k < theirs.len() && theirs[k] == sub;
            assert((mine + theirs)[mine.len() + k] == sub);
        }
    } else {
        if mine.contains(sub) {
            let k = choose|k: int| 0 <= k < mine.len() && mine[k] == sub;
            assert((mine + theirs)[k] == sub);
        }
    }
}

/// Where no project is found in a level or below it, no directory of the level is one, and none is found
/// in or below the directories that are looked into from there.
pub proof fn all_levels_are_visited<S: ProjectSearch>(
    search: S,
    f: FindingsView,
    level: Seq<PathView>,
    i: int,
    sub: PathView,
)
    requires
        descend(search, f, level) == StepView::Known(
            OutcomeView::<<S::Context as View>::V>::Absent,
        ),
        visit(search, f, level) is Next,
        0 <= i < level.len(),
    ensures
        is_no_package_project(search, f, level[i]),
        search.subdirs_of(f.listing(level[i])->Known_0, level[i]).contains(sub) ==> exists|
            next: Seq<PathView>,
        |
            next.contains(sub) && #[trigger] descend(search, f, next) == StepView::Known(
                OutcomeView::<<S::Context as View>::V>::Absent,
            ),
{
    every_directory_is_visited(search, f, level, i, sub);
    let next = visit(search, f, level)->Next_0;
    assert(next.contains(sub) ==> descend(search, f, next) == StepView::Known(
        OutcomeView::<<S::Context as View>::V>::Absent,
    ));
}

} // verus!
