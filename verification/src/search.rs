//! The search for the project that a file belongs to.

use vstd::prelude::*;
use crate::disk::{
    EntryView, Findings, FindingsView, Listing, Outcome, OutcomeView, Probe, ProbeView, SpelledView,
    Step, StepView,
};
use crate::path::{ancestors_of, child_of, parent_of, FsPath, PathView};
use crate::table::{find, find_is_first};
use crate::views::each;

verus! {

/// A way to tell whether a directory is a project, and what it is as a project.
pub trait ProjectSearch: Sized {
    /// What a project is.
    type Context: View;

    /// What the directory is as a project.
    spec fn context_of(&self, f: FindingsView, dir: PathView) -> StepView<
        OutcomeView<<Self::Context as View>::V>,
    >;

    /// What the directory is as a project.
    fn context_at(&self, findings: &Findings, dir: &FsPath) -> (r: Step<Outcome<Self::Context>>)
        ensures
            r@ == self.context_of(findings@, dir@),
    ;

    /// What is known of a directory stays known when more is found out.
    proof fn context_lasts(&self, f: FindingsView, g: FindingsView, dir: PathView)
        requires
            f.within(g),
            self.context_of(f, dir) is Known,
        ensures
            self.context_of(g, dir) == self.context_of(f, dir),
    ;

    /// Nothing is asked twice.
    proof fn context_asks_anew(&self, f: FindingsView, dir: PathView)
        requires
            self.context_of(f, dir) is Ask,
        ensures
            !f.answered(self.context_of(f, dir)->Ask_0),
    ;

    /// Whether a directory that was come upon from above can be a project.
    spec fn package_of(&self, f: FindingsView, dir: PathView) -> StepView<bool>;

    /// Whether a directory that was come upon from above can be a project.
    fn package_at(&self, findings: &Findings, dir: &FsPath) -> (r: Step<bool>)
        ensures
            r@ == self.package_of(findings@, dir@),
    ;

    /// What is known of a directory stays known when more is found out.
    proof fn package_lasts(&self, f: FindingsView, g: FindingsView, dir: PathView)
        requires
            f.within(g),
            self.package_of(f, dir) is Known,
        ensures
            self.package_of(g, dir) == self.package_of(f, dir),
    ;

    /// Nothing is asked twice.
    proof fn package_asks_anew(&self, f: FindingsView, dir: PathView)
        requires
            self.package_of(f, dir) is Ask,
        ensures
            !f.answered(self.package_of(f, dir)->Ask_0),
    ;

    /// The directories in a directory that are looked into.
    spec fn subdirs_of(&self, listing: Seq<EntryView>, dir: PathView) -> Seq<PathView>;

    /// The directories in a directory that are looked into.
    fn subdirs_at(&self, listing: &Listing, dir: &FsPath) -> (r: Vec<FsPath>)
        ensures
            each(r@) == self.subdirs_of(listing@, dir@),
    ;

    /// What is looked into lies one level down.
    proof fn subdirs_lie_below(&self, listing: Seq<EntryView>, dir: PathView)
        ensures
            forall|i: int|
                0 <= i < self.subdirs_of(listing, dir).len() ==> (#[trigger] self.subdirs_of(
                    listing,
                    dir,
                )[i]).parts.len() == dir.parts.len() + 1,
    ;
}

/// The first of the directories that is a project. Where `packages_only` is set, a directory without
/// a `package.json` is passed over.
pub open spec fn nearest<S: ProjectSearch>(
    search: S,
    f: FindingsView,
    dirs: Seq<PathView>,
    packages_only: bool,
) -> StepView<OutcomeView<<S::Context as View>::V>>
    decreases dirs.len(),
{
    if dirs.len() == 0 {
        StepView::Known(OutcomeView::Absent)
    } else {
        let counts = if packages_only {
            f.present(child_of(dirs[0], "package.json"@))
        } else {
            StepView::Known(true)
        };
        match counts {
            StepView::Ask(probe) => StepView::Ask(probe),
            StepView::Known(false) => nearest(search, f, dirs.drop_first(), packages_only),
            StepView::Known(true) => match search.context_of(f, dirs[0]) {
                StepView::Known(OutcomeView::Absent) => nearest(
                    search,
                    f,
                    dirs.drop_first(),
                    packages_only,
                ),
                other => other,
            },
        }
    }
}

/// What came of a visit to the directories of one level.
pub enum Visit<C> {
    Ask(Probe),
    Ended(Outcome<C>),
    Next(Vec<FsPath>),
}

/// What came of a visit to the directories of one level.
#[verifier::ext_equal]
pub enum VisitView<C> {
    Ask(ProbeView),
    Ended(OutcomeView<C>),
    Next(Seq<PathView>),
}

impl<C: View> View for Visit<C> {
    type V = VisitView<C::V>;

    open spec fn view(&self) -> VisitView<C::V> {
        match self {
            Visit::Ask(probe) => VisitView::Ask(probe@),
            Visit::Ended(outcome) => VisitView::Ended(outcome@),
            Visit::Next(dirs) => VisitView::Next(each(dirs@)),
        }
    }
}

/// A visit to the directories of one level: it ends at the first that is a project, and else gives
/// the directories of the next level.
pub open spec fn visit<S: ProjectSearch>(
    search: S,
    f: FindingsView,
    level: Seq<PathView>,
) -> VisitView<<S::Context as View>::V>
    decreases level.len(),
{
    if level.len() == 0 {
        VisitView::Next(Seq::empty())
    } else {
        match search.package_of(f, level[0]) {
            StepView::Ask(probe) => VisitView::Ask(probe),
            StepView::Known(is_package) => {
                let found = if is_package {
                    search.context_of(f, level[0])
                } else {
                    StepView::Known(OutcomeView::Absent)
                };
                match found {
                    StepView::Ask(probe) => VisitView::Ask(probe),
                    StepView::Known(OutcomeView::Absent) => match f.listing(level[0]) {
                        StepView::Ask(probe) => VisitView::Ask(probe),
                        StepView::Known(listing) => match visit(search, f, level.drop_first()) {
                            VisitView::Next(rest) => VisitView::Next(
                                search.subdirs_of(listing, level[0]) + rest,
                            ),
                            other => other,
                        },
                    },
                    StepView::Known(outcome) => VisitView::Ended(outcome),
                }
            },
        }
    }
}

/// The greatest number of components among the directories whose entries are known.
pub open spec fn deepest(listings: Seq<(SpelledView, Seq<EntryView>)>) -> nat
    decreases listings.len(),
{
    if listings.len() == 0 {
        0
    } else {
        let rest = deepest(listings.drop_first());
        if listings[0].0.path.parts.len() > rest {
            listings[0].0.path.parts.len()
        } else {
            rest
        }
    }
}

/// The least number of components among the directories.
pub open spec fn shallowest(level: Seq<PathView>) -> nat
    decreases level.len(),
{
    if level.len() == 0 {
        0
    } else if level.len() == 1 {
        level[0].parts.len()
    } else {
        let rest = shallowest(level.drop_first());
        if level[0].parts.len() < rest {
            level[0].parts.len()
        } else {
            rest
        }
    }
}

/// How many more levels can be visited.
pub open spec fn room(f: FindingsView, level: Seq<PathView>) -> nat {
    if shallowest(level) > deepest(f.listings) {
        0
    } else {
        (deepest(f.listings) + 1 - shallowest(level)) as nat
    }
}

/// A directory whose entries are known is no deeper than the deepest of them.
proof fn listed_is_not_deeper(f: FindingsView, dir: PathView)
    requires
        f.listing(dir) is Known,
    ensures
        dir.parts.len() <= deepest(f.listings),
{
    let key = SpelledView { path: dir };
    find_is_first(f.listings, key);
    deepest_bounds(f.listings, find(f.listings, key)->0);
}

proof fn deepest_bounds(listings: Seq<(SpelledView, Seq<EntryView>)>, i: int)
    requires
        0 <= i < listings.len(),
    ensures
        listings[i].0.path.parts.len() <= deepest(listings),
    decreases listings.len(),
{
    if i > 0 {
        deepest_bounds(listings.drop_first(), i - 1);
    }
}

proof fn shallowest_bounds(level: Seq<PathView>, i: int)
    requires
        0 <= i < level.len(),
    ensures
        shallowest(level) <= level[i].parts.len(),
    decreases level.len(),
{
    if level.len() > 1 && i > 0 {
        shallowest_bounds(level.drop_first(), i - 1);
    }
}

proof fn shallowest_is_one(level: Seq<PathView>) -> (i: int)
    requires
        level.len() > 0,
    ensures
        0 <= i < level.len(),
        shallowest(level) == level[i].parts.len(),
    decreases level.len(),
{
    if level.len() == 1 {
        0
    } else {
        let j = shallowest_is_one(level.drop_first());
        if level[0].parts.len() < shallowest(level.drop_first()) {
            0
        } else {
            j + 1
        }
    }
}

proof fn next_lies_below<S: ProjectSearch>(search: S, f: FindingsView, level: Seq<PathView>, low: nat)
    requires
        visit(search, f, level) is Next,
        forall|i: int| 0 <= i < level.len() ==> (#[trigger] level[i]).parts.len() >= low,
    ensures
        forall|i: int|
            0 <= i < visit(search, f, level)->Next_0.len() ==> (#[trigger] visit(
                search,
                f,
                level,
            )->Next_0[i]).parts.len() >= low + 1,
    decreases level.len(),
{
    if level.len() > 0 {
        let listing = f.listing(level[0])->Known_0;
        search.subdirs_lie_below(listing, level[0]);
        let first = search.subdirs_of(listing, level[0]);
        assert forall|i: int| 0 <= i < level.drop_first().len() implies (
        #[trigger] level.drop_first()[i]).parts.len() >= low by {
            assert(level.drop_first()[i] == level[i + 1]);
        }
        next_lies_below(search, f, level.drop_first(), low);
        let rest = visit(search, f, level.drop_first())->Next_0;
        assert forall|i: int| 0 <= i < (first + rest).len() implies (#[trigger] (first
            + rest)[i]).parts.len() >= low + 1 by {
            if i < first.len() {
                assert((first + rest)[i] == first[i]);
                assert(level[0].parts.len() >= low);
            } else {
                assert((first + rest)[i] == rest[i - first.len()]);
            }
        }
    }
}

/// Each level that is visited leaves fewer to visit.
pub proof fn visit_goes_down<S: ProjectSearch>(search: S, f: FindingsView, level: Seq<PathView>)
    ensures
        level.len() > 0 && visit(search, f, level) is Next && visit(search, f, level)->Next_0.len()
            > 0 ==> room(f, visit(search, f, level)->Next_0) < room(f, level),
{
    if level.len() > 0 && visit(search, f, level) is Next && visit(search, f, level)->Next_0.len()
        > 0 {
        let next = visit(search, f, level)->Next_0;
        listed_is_not_deeper(f, level[0]);
        shallowest_bounds(level, 0);
        assert forall|i: int| 0 <= i < level.len() implies (#[trigger] level[i]).parts.len()
            >= shallowest(level) by {
            shallowest_bounds(level, i);
        }
        next_lies_below(search, f, level, shallowest(level));
        let j = shallowest_is_one(next);
        assert(next[j].parts.len() >= shallowest(level) + 1);
    }
}

/// The first project in the directories of a level or below them, level by level.
pub open spec fn descend<S: ProjectSearch>(
    search: S,
    f: FindingsView,
    level: Seq<PathView>,
) -> StepView<OutcomeView<<S::Context as View>::V>>
    decreases room(f, level),
{
    if level.len() == 0 {
        StepView::Known(OutcomeView::Absent)
    } else {
        match visit(search, f, level) {
            VisitView::Ask(probe) => StepView::Ask(probe),
            VisitView::Ended(outcome) => StepView::Known(outcome),
            VisitView::Next(next) => if next.len() == 0 {
                StepView::Known(OutcomeView::Absent)
            } else {
                proof {
                    visit_goes_down(search, f, level);
                }
                descend(search, f, next)
            },
        }
    }
}

/// The directory in which the search for a file's project starts: the path itself where it is a
/// directory, and else its parent.
pub open spec fn start_of(f: FindingsView, path: PathView, no_parent: Seq<char>) -> StepView<
    OutcomeView<PathView>,
> {
    match f.is_dir(path) {
        StepView::Ask(probe) => StepView::Ask(probe),
        StepView::Known(true) => StepView::Known(OutcomeView::Found(path)),
        StepView::Known(false) => StepView::Known(
            match parent_of(path) {
                Some(parent) => OutcomeView::Found(parent),
                None => OutcomeView::Failed(no_parent),
            },
        ),
    }
}

/// The nearest project at or above a directory: one with a `package.json` where there is one, and
/// else any.
pub open spec fn nearest_above<S: ProjectSearch>(
    search: S,
    f: FindingsView,
    start: PathView,
) -> StepView<OutcomeView<<S::Context as View>::V>> {
    match nearest(search, f, ancestors_of(start), true) {
        StepView::Known(OutcomeView::Absent) => nearest(search, f, ancestors_of(start), false),
        other => other,
    }
}

/// The first of the directories that is a project.
pub fn find_nearest<S: ProjectSearch>(
    search: &S,
    findings: &Findings,
    dirs: &Vec<FsPath>,
    packages_only: bool,
) -> (r: Step<Outcome<S::Context>>)
    ensures
        r@ == nearest(*search, findings@, each(dirs@), packages_only),
{
    let ghost all = each(dirs@);
    let mut i: usize = 0;
    proof {
        assert(all.skip(0) =~= all);
    }
    while i < dirs.len()
        invariant
            i <= dirs@.len(),
            all == each(dirs@),
            nearest(*search, findings@, all, packages_only) == nearest(
                *search,
                findings@,
                all.skip(i as int),
                packages_only,
            ),
        decreases dirs@.len() - i,
    {
        let dir = &dirs[i];
        proof {
            assert(all.skip(i as int)[0] == dir@);
            assert(all.skip(i as int).drop_first() =~= all.skip(i + 1));
        }
        let counts = if packages_only {
            match findings.present(dir.child("package.json")) {
                Step::Ask(probe) => {
                    return Step::Ask(probe);
                },
                Step::Known(counts) => counts,
            }
        } else {
            true
        };
        if counts {
            match search.context_at(findings, dir) {
                Step::Known(Outcome::Absent) => {},
                other => {
                    return other;
                },
            }
        }
        i += 1;
    }
    Step::Known(Outcome::Absent)
}

/// The nearest project at or above a directory.
pub fn find_nearest_above<S: ProjectSearch>(
    search: &S,
    findings: &Findings,
    start: &FsPath,
) -> (r: Step<Outcome<S::Context>>)
    ensures
        r@ == nearest_above(*search, findings@, start@),
{
    let dirs = start.ancestors();
    match find_nearest(search, findings, &dirs, true) {
        Step::Known(Outcome::Absent) => find_nearest(search, findings, &dirs, false),
        other => other,
    }
}

/// What a visit gives when `before` has been gathered ahead of it.
spec fn after_gathering<C>(before: Seq<PathView>, visited: VisitView<C>) -> VisitView<C> {
    match visited {
        VisitView::Next(rest) => VisitView::Next(before + rest),
        other => other,
    }
}

/// A visit to the directories of one level.
fn visit_level<S: ProjectSearch>(search: &S, findings: &Findings, level: &Vec<FsPath>) -> (r: Visit<
    S::Context,
>)
    ensures
        r@ == visit(*search, findings@, each(level@)),
{
    let ghost all = each(level@);
    let mut next: Vec<FsPath> = Vec::new();
    let mut i: usize = 0;
    proof {
        assert(all.skip(0) =~= all);
        match visit(*search, findings@, all) {
            VisitView::Next(rest) => {
                assert(each(next@) + rest =~= rest);
            },
            _ => {},
        }
    }
    while i < level.len()
        invariant
            i <= level@.len(),
            all == each(level@),
            visit(*search, findings@, all) == after_gathering(
                each(next@),
                visit(*search, findings@, all.skip(i as int)),
            ),
        decreases level@.len() - i,
    {
        let dir = &level[i];
        proof {
            assert(all.skip(i as int)[0] == dir@);
            assert(all.skip(i as int).drop_first() =~= all.skip(i + 1));
        }
        let is_package = match search.package_at(findings, dir) {
            Step::Ask(probe) => {
                return Visit::Ask(probe);
            },
            Step::Known(is_package) => is_package,
        };
        if is_package {
            match search.context_at(findings, dir) {
                Step::Ask(probe) => {
                    return Visit::Ask(probe);
                },
                Step::Known(Outcome::Absent) => {},
                Step::Known(outcome) => {
                    return Visit::Ended(outcome);
                },
            }
        }
        match findings.listing(dir.clone()) {
            Step::Ask(probe) => {
                return Visit::Ask(probe);
            },
            Step::Known(listing) => {
                let mut below = search.subdirs_at(listing, dir);
                let ghost before = each(next@);
                let ghost added = each(below@);
                next.append(&mut below);
                proof {
                    assert(each(next@) =~= before + added);
                    match visit(*search, findings@, all.skip(i + 1)) {
                        VisitView::Next(rest) => {
                            assert(before + (added + rest) =~= (before + added) + rest);
                        },
                        _ => {},
                    }
                }
            },
        }
        i += 1;
    }
    proof {
        assert(all.skip(i as int) =~= Seq::<PathView>::empty());
        assert(each(next@) + Seq::<PathView>::empty() =~= each(next@));
    }
    Visit::Next(next)
}

/// The first project in the directories of a level or below them, level by level.
pub fn find_below<S: ProjectSearch>(search: &S, findings: &Findings, start: Vec<FsPath>) -> (r: Step<
    Outcome<S::Context>,
>)
    ensures
        r@ == descend(*search, findings@, each(start@)),
{
    let ghost first = each(start@);
    let mut level = start;
    while level.len() > 0
        invariant
            first == each(start@),
            descend(*search, findings@, each(level@)) == descend(*search, findings@, first),
        decreases room(findings@, each(level@)), level@.len(),
    {
        proof {
            visit_goes_down(*search, findings@, each(level@));
            assert(each(level@).len() == level@.len());
        }
        match visit_level(search, findings, &level) {
            Visit::Ask(probe) => {
                return Step::Ask(probe);
            },
            Visit::Ended(outcome) => {
                return Step::Known(outcome);
            },
            Visit::Next(next) => {
                proof {
                    assert(each(next@).len() == next@.len());
                }
                if next.len() == 0 {
                    return Step::Known(Outcome::Absent);
                }
                level = next;
            },
        }
    }
    proof {
        assert(each(level@).len() == level@.len());
    }
    Step::Known(Outcome::Absent)
}

/// The directory in which the search for a file's project starts.
pub fn find_start(findings: &Findings, path: &FsPath, no_parent: String) -> (r: Step<
    Outcome<FsPath>,
>)
    ensures
        r@ == start_of(findings@, path@, no_parent@),
{
    match findings.is_dir(path.clone()) {
        Step::Ask(probe) => Step::Ask(probe),
        Step::Known(true) => Step::Known(Outcome::Found(path.clone())),
        Step::Known(false) => match path.parent() {
            Some(parent) => Step::Known(Outcome::Found(parent)),
            None => Step::Known(Outcome::Failed(no_parent)),
        },
    }
}

/// Whether the search goes past a directory.
pub open spec fn passed_over<S: ProjectSearch>(
    search: S,
    f: FindingsView,
    dir: PathView,
    packages_only: bool,
) -> bool {
    ||| packages_only && f.present(child_of(dir, "package.json"@)) == StepView::Known(false)
    ||| search.context_of(f, dir) == StepView::Known(
        OutcomeView::<<S::Context as View>::V>::Absent,
    )
}

/// The project that is found is that of one of the directories, and no directory ahead of it has one.
pub proof fn nearest_is_first<S: ProjectSearch>(
    search: S,
    f: FindingsView,
    dirs: Seq<PathView>,
    packages_only: bool,
) -> (i: int)
    requires
        nearest(search, f, dirs, packages_only) matches StepView::Known(OutcomeView::Found(_)),
    ensures
        0 <= i < dirs.len(),
        nearest(search, f, dirs, packages_only) == search.context_of(f, dirs[i]),
        packages_only ==> f.present(child_of(dirs[i], "package.json"@)) == StepView::Known(true),
        forall|j: int| 0 <= j < i ==> passed_over(search, f, #[trigger] dirs[j], packages_only),
    decreases dirs.len(),
{
    if dirs.len() > 0 && passed_over(search, f, dirs[0], packages_only) {
        let rest = nearest_is_first(search, f, dirs.drop_first(), packages_only);
        assert forall|j: int| 0 <= j < rest + 1 implies passed_over(
            search,
            f,
            #[trigger] dirs[j],
            packages_only,
        ) by {
            if j > 0 {
                assert(dirs[j] == dirs.drop_first()[j - 1]);
            }
        }
        rest + 1
    } else {
        0
    }
}

/// Whether it is known that a directory is no package that is a project.
pub open spec fn no_project_package<S: ProjectSearch>(
    search: S,
    f: FindingsView,
    dir: PathView,
) -> bool {
    ||| f.present(child_of(dir, "package.json"@)) == StepView::Known(false)
    ||| f.present(child_of(dir, "package.json"@)) == StepView::Known(true) && search.context_of(f, dir)
        == StepView::Known(OutcomeView::<<S::Context as View>::V>::Absent)
}

/// The search ends at the first of the directories that is a package and a project.
pub proof fn nearest_package_is_found<S: ProjectSearch>(
    search: S,
    f: FindingsView,
    dirs: Seq<PathView>,
    i: int,
)
    requires
        0 <= i < dirs.len(),
        forall|j: int| 0 <= j < i ==> no_project_package(search, f, #[trigger] dirs[j]),
        f.present(child_of(dirs[i], "package.json"@)) == StepView::Known(true),
        search.context_of(f, dirs[i]) matches StepView::Known(OutcomeView::Found(_)),
    ensures
        nearest(search, f, dirs, true) == search.context_of(f, dirs[i]),
    decreases dirs.len(),
{
    if i > 0 {
        assert(no_project_package(search, f, dirs[0]));
        assert forall|j: int| 0 <= j < i - 1 implies no_project_package(
            search,
            f,
            #[trigger] dirs.drop_first()[j],
        ) by {
            assert(dirs.drop_first()[j] == dirs[j + 1]);
        }
        nearest_package_is_found(search, f, dirs.drop_first(), i - 1);
    }
}

proof fn visit_ends_at_a_project<S: ProjectSearch>(
    search: S,
    f: FindingsView,
    level: Seq<PathView>,
) -> (dir: PathView)
    requires
        visit(search, f, level) matches VisitView::Ended(OutcomeView::Found(_)),
    ensures
        StepView::Known(visit(search, f, level)->Ended_0) == search.context_of(f, dir),
    decreases level.len(),
{
    if search.package_of(f, level[0]) == StepView::Known(true) && search.context_of(f, level[0])
        != StepView::Known(OutcomeView::<<S::Context as View>::V>::Absent) {
        level[0]
    } else {
        visit_ends_at_a_project(search, f, level.drop_first())
    }
}

/// The project that is found below is that of a directory.
pub proof fn descend_ends_at_a_project<S: ProjectSearch>(
    search: S,
    f: FindingsView,
    level: Seq<PathView>,
) -> (dir: PathView)
    requires
        descend(search, f, level) matches StepView::Known(OutcomeView::Found(_)),
    ensures
        descend(search, f, level) == search.context_of(f, dir),
    decreases room(f, level),
{
    match visit(search, f, level) {
        VisitView::Next(next) => {
            visit_goes_down(search, f, level);
            descend_ends_at_a_project(search, f, next)
        },
        _ => visit_ends_at_a_project(search, f, level),
    }
}

/// What is known of the nearest project stays known when more is found out.
pub proof fn nearest_lasts<S: ProjectSearch>(
    search: S,
    f: FindingsView,
    g: FindingsView,
    dirs: Seq<PathView>,
    packages_only: bool,
)
    requires
        f.within(g),
        nearest(search, f, dirs, packages_only) is Known,
    ensures
        nearest(search, g, dirs, packages_only) == nearest(search, f, dirs, packages_only),
    decreases dirs.len(),
{
    if dirs.len() > 0 {
        if search.context_of(f, dirs[0]) is Known {
            search.context_lasts(f, g, dirs[0]);
        }
        if nearest(search, f, dirs.drop_first(), packages_only) is Known {
            nearest_lasts(search, f, g, dirs.drop_first(), packages_only);
        }
    }
}

/// The search for the nearest project asks nothing twice.
pub proof fn nearest_asks_anew<S: ProjectSearch>(
    search: S,
    f: FindingsView,
    dirs: Seq<PathView>,
    packages_only: bool,
)
    requires
        nearest(search, f, dirs, packages_only) is Ask,
    ensures
        !f.answered(nearest(search, f, dirs, packages_only)->Ask_0),
    decreases dirs.len(),
{
    if dirs.len() > 0 {
        if search.context_of(f, dirs[0]) is Ask {
            search.context_asks_anew(f, dirs[0]);
        }
        if nearest(search, f, dirs.drop_first(), packages_only) is Ask {
            nearest_asks_anew(search, f, dirs.drop_first(), packages_only);
        }
    }
}

proof fn visit_lasts<S: ProjectSearch>(
    search: S,
    f: FindingsView,
    g: FindingsView,
    level: Seq<PathView>,
)
    requires
        f.within(g),
        !(visit(search, f, level) is Ask),
    ensures
        visit(search, g, level) == visit(search, f, level),
    decreases level.len(),
{
    if level.len() > 0 {
        search.package_lasts(f, g, level[0]);
        if search.context_of(f, level[0]) is Known {
            search.context_lasts(f, g, level[0]);
        }
        if !(visit(search, f, level.drop_first()) is Ask) {
            visit_lasts(search, f, g, level.drop_first());
        }
    }
}

proof fn visit_asks_anew<S: ProjectSearch>(search: S, f: FindingsView, level: Seq<PathView>)
    requires
        visit(search, f, level) is Ask,
    ensures
        !f.answered(visit(search, f, level)->Ask_0),
    decreases level.len(),
{
    if level.len() > 0 {
        if search.package_of(f, level[0]) is Ask {
            search.package_asks_anew(f, level[0]);
        } else if search.context_of(f, level[0]) is Ask && search.package_of(f, level[0])->Known_0 {
            search.context_asks_anew(f, level[0]);
        } else if f.listing(level[0]) is Known {
            visit_asks_anew(search, f, level.drop_first());
        }
    }
}

/// What is known of the projects below stays known when more is found out.
pub proof fn descend_lasts<S: ProjectSearch>(
    search: S,
    f: FindingsView,
    g: FindingsView,
    level: Seq<PathView>,
)
    requires
        f.within(g),
        descend(search, f, level) is Known,
    ensures
        descend(search, g, level) == descend(search, f, level),
    decreases room(f, level),
{
    if level.len() > 0 {
        visit_lasts(search, f, g, level);
        if let VisitView::Next(next) = visit(search, f, level) {
            if next.len() > 0 {
                visit_goes_down(search, f, level);
                descend_lasts(search, f, g, next);
            }
        }
    }
}

/// The search below asks nothing twice.
pub proof fn descend_asks_anew<S: ProjectSearch>(search: S, f: FindingsView, level: Seq<PathView>)
    requires
        descend(search, f, level) is Ask,
    ensures
        !f.answered(descend(search, f, level)->Ask_0),
    decreases room(f, level),
{
    if level.len() > 0 {
        match visit(search, f, level) {
            VisitView::Ask(_) => {
                visit_asks_anew(search, f, level);
            },
            VisitView::Ended(_) => {},
            VisitView::Next(next) => {
                visit_goes_down(search, f, level);
                descend_asks_anew(search, f, next);
            },
        }
    }
}

} // verus!
