//! What holds of the tools that are found for a file, whatever is on disk.

use vstd::prelude::*;
use crate::disk::{EntryView, FindingsView, NodeQueryView, NodeReplyView, OutcomeView, StepView};
use crate::json::JsonView;
use crate::oxc::discovery::{
    format_command, global_command, launcher, local_command, no_parent, package_command,
    project_context, skipped, tool_manifest, CommandView, ContextView, Discovery, SessionKeyView,
    Tool,
};
use crate::package::{declared_bin, manifest, program, script_name};
use crate::path::{ancestors_of, child_of, join_of, parent_of, path_of, path_text, PathView};
use crate::search::{
    descend, descend_ends_at_a_project, nearest, nearest_is_first, start_of, ProjectSearch,
};
use crate::text::{begins_with, trimmed};

verus! {

/// Whether a command starts a tool so that it serves an editor: that is its last argument, and at most a
/// script stands ahead of it, which Node runs.
pub open spec fn serves_an_editor(command: CommandView) -> bool {
    &&& command.args.len() == 1 || (command.args.len() == 2 && command.program == path_of("node"@))
    &&& command.args.last() == "--lsp"@
}

proof fn project_commands_serve(f: FindingsView, windows: bool, dir: PathView, tool: Tool)
    ensures
        local_command(f, windows, dir, tool) matches StepView::Known(OutcomeView::Found(command))
            ==> serves_an_editor(command) && command.cwd == Some(dir),
{
}

proof fn projects_serve(f: FindingsView, windows: bool, dir: PathView)
    ensures
        project_context(f, windows, dir) matches StepView::Known(OutcomeView::Found(context)) ==> {
            &&& context.key == SessionKeyView::Project(dir)
            &&& context.root == Some(dir)
            &&& local_command(f, windows, dir, Tool::Oxlint) == StepView::Known(
                OutcomeView::Found(context.lint_command),
            )
            &&& serves_an_editor(context.lint_command)
            &&& context.lint_command.cwd == Some(dir)
            &&& context.format_command matches Some(format) ==> serves_an_editor(format)
        },
{
    project_commands_serve(f, windows, dir, Tool::Oxlint);
    project_commands_serve(f, windows, dir, Tool::Oxfmt);
}

/// Whatever serves a file is started so that it serves an editor, the tool that lints as the one that
/// formats. The linter of a project runs in the project's directory, which is its root; what is
/// installed for all has no root and runs anywhere.
pub proof fn tools_are_started_for_an_editor(discovery: Discovery, f: FindingsView, path: PathView)
    ensures
        discovery.context(f, path) matches StepView::Known(OutcomeView::Found(context)) ==> {
            &&& serves_an_editor(context.lint_command)
            &&& context.format_command matches Some(format) ==> serves_an_editor(format)
            &&& match context.key {
                SessionKeyView::Project(dir) => context.root == Some(dir)
                    && context.lint_command.cwd == Some(dir),
                SessionKeyView::Global => context.root is None && context.lint_command.cwd is None,
            }
        },
{
    if let StepView::Known(OutcomeView::Found(context)) = discovery.context(f, path) {
        let start = start_of(f, path, no_parent(path))->Known_0->Found_0;
        let dirs = ancestors_of(start);
        if discovery.local_project(f, path) matches StepView::Known(OutcomeView::Found(_)) {
            if nearest(discovery, f, dirs, true) matches StepView::Known(OutcomeView::Found(_)) {
                let i = nearest_is_first(discovery, f, dirs, true);
                projects_serve(f, discovery.windows, dirs[i]);
            } else if nearest(discovery, f, dirs, false) matches StepView::Known(
                OutcomeView::Found(_),
            ) {
                let i = nearest_is_first(discovery, f, dirs, false);
                projects_serve(f, discovery.windows, dirs[i]);
            } else {
                let dir = descend_ends_at_a_project(discovery, f, seq![start]);
                projects_serve(f, discovery.windows, dir);
            }
        }
    }
}

/// The formatter of a project is its own, and that for all projects where it has none. Without either
/// the project is served all the same.
pub proof fn the_formatter_is_optional(f: FindingsView, windows: bool, dir: PathView, lint: CommandView)
    requires
        local_command(f, windows, dir, Tool::Oxlint) == StepView::Known(OutcomeView::Found(lint)),
    ensures
        ({
            let own = local_command(f, windows, dir, Tool::Oxfmt);
            let shared = global_command(f, windows, Tool::Oxfmt);
            let found = project_context(f, windows, dir);
            let context = found->Known_0->Found_0;
            &&& own is Known && own->Known_0 is Found ==> found is Known && found->Known_0 is Found
                && context.lint_command == lint && context.format_command == Some(
                own->Known_0->Found_0,
            )
            &&& own is Known && own->Known_0 is Absent && shared is Known ==> found is Known
                && found->Known_0 is Found && context.lint_command == lint && (shared->Known_0
                is Found ==> context.format_command == Some(shared->Known_0->Found_0)) && (
            shared->Known_0 is Absent ==> context.format_command is None)
            &&& own is Known && own->Known_0 is Failed ==> found is Known && found->Known_0
                is Failed
        }),
{
}

/// A directory is no project without a linter, whether it has a formatter or not.
pub proof fn the_linter_makes_the_project(f: FindingsView, windows: bool, dir: PathView)
    requires
        local_command(f, windows, dir, Tool::Oxlint) == StepView::Known(
            OutcomeView::<CommandView>::Absent,
        ),
    ensures
        project_context(f, windows, dir) == StepView::Known(OutcomeView::<ContextView>::Absent),
{
}

/// Where no project serves a file, the tools that are found on the search path do, the formatter if
/// there is one; where there is no linter, nothing serves the file.
pub proof fn the_global_tools_are_found_on_the_search_path(
    discovery: Discovery,
    f: FindingsView,
    path: PathView,
    lint: PathView,
    format: PathView,
)
    requires
        discovery.local_project(f, path) == StepView::Known(OutcomeView::<ContextView>::Absent),
        program(
            f,
            if discovery.windows {
                "oxfmt.cmd"@
            } else {
                "oxfmt"@
            },
        ) is Known,
        program(
            f,
            if discovery.windows {
                "oxlint.cmd"@
            } else {
                "oxlint"@
            },
        ) is Known,
    ensures
        ({
            let linter = program(
                f,
                if discovery.windows {
                    "oxlint.cmd"@
                } else {
                    "oxlint"@
                },
            )->Known_0;
            let formatter = program(
                f,
                if discovery.windows {
                    "oxfmt.cmd"@
                } else {
                    "oxfmt"@
                },
            )->Known_0;
            let context = discovery.context(f, path)->Known_0;
            &&& discovery.context(f, path) is Known
            &&& linter is Found <==> context is Found
            &&& context is Found ==> {
                &&& context->Found_0.lint_command.program == linter->Found_0
                &&& context->Found_0.key == SessionKeyView::Global
                &&& formatter is Found <==> context->Found_0.format_command is Some
                &&& formatter is Found ==> context->Found_0.format_command->0.program
                    == formatter->Found_0
            }
        }),
{
    reveal_strlit("oxlint");
    reveal_strlit("oxfmt");
    reveal_strlit(".cmd");
    reveal_strlit("oxlint.cmd");
    reveal_strlit("oxfmt.cmd");
    assert("oxlint.cmd"@ =~= "oxlint"@ + ".cmd"@);
    assert("oxfmt.cmd"@ =~= "oxfmt"@ + ".cmd"@);
}

/// The launcher of a tool lies in the directory of a project's installed programs, and its manifest in
/// that of its installed packages.
pub proof fn tools_lie_in_the_project(dir: PathView, tool: Tool, windows: bool)
    ensures
        ({
            let name = match tool {
                Tool::Oxlint => "oxlint"@,
                Tool::Oxfmt => "oxfmt"@,
            };
            &&& launcher(dir, tool, windows).parts == dir.parts + seq![
                "node_modules"@,
                ".bin"@,
                if windows {
                    name + ".cmd"@
                } else {
                    name
                },
            ]
            &&& tool_manifest(dir, tool).parts == dir.parts + seq![
                "node_modules"@,
                name,
                "package.json"@,
            ]
        }),
{
    let name = match tool {
        Tool::Oxlint => "oxlint"@,
        Tool::Oxfmt => "oxfmt"@,
    };
    assert(launcher(dir, tool, windows).parts =~= dir.parts + seq![
        "node_modules"@,
        ".bin"@,
        if windows {
            name + ".cmd"@
        } else {
            name
        },
    ]);
    assert(tool_manifest(dir, tool).parts =~= dir.parts + seq![
        "node_modules"@,
        name,
        "package.json"@,
    ]);
}

/// A tool is looked for as a launcher, then as an installed package, and then where Node resolves it.
pub proof fn tools_are_looked_for_in_order(
    f: FindingsView,
    windows: bool,
    dir: PathView,
    tool: Tool,
    output: Seq<char>,
)
    ensures
        ({
            let own = local_command(f, windows, dir, tool);
            let query = NodeQueryView { base: dir, package: tool.title() };
            let unlaunched = f.present(launcher(dir, tool, windows)) == StepView::Known(false);
            let uninstalled = f.present(tool_manifest(dir, tool)) == StepView::Known(false);
            &&& f.present(launcher(dir, tool, windows)) == StepView::Known(true) ==> own
                == StepView::Known(
                OutcomeView::Found(
                    CommandView {
                        program: launcher(dir, tool, windows),
                        args: seq!["--lsp"@],
                        cwd: Some(dir),
                    },
                ),
            )
            &&& unlaunched && f.present(tool_manifest(dir, tool)) == StepView::Known(true) ==> own
                == package_command(f, dir, tool_manifest(dir, tool), tool)
            &&& unlaunched && uninstalled && f.resolved(query) == StepView::Known(
                NodeReplyView::Output(output),
            ) && trimmed(output).len() > 0 ==> own == package_command(
                f,
                dir,
                path_of(trimmed(output)),
                tool,
            )
            &&& unlaunched && uninstalled && f.resolved(query) == StepView::Known(
                NodeReplyView::Missing,
            ) ==> own == StepView::Known(OutcomeView::<CommandView>::Absent)
            &&& unlaunched && uninstalled && f.resolved(query) is Ask ==> own is Ask
        }),
{
}

/// What a package's manifest declares for a tool is run in the project's directory: a script by Node,
/// with the script as its first argument, and anything else itself. A package that declares nothing for
/// the tool is a failure.
pub proof fn declared_programs_are_run(
    f: FindingsView,
    dir: PathView,
    package_dir: PathView,
    manifest_path: PathView,
    package: JsonView,
    tool: Tool,
)
    requires
        parent_of(manifest_path) == Some(package_dir),
        manifest(f, manifest_path) == StepView::Known(OutcomeView::Found(package)),
    ensures
        match declared_bin(package, tool.title()) {
            None => package_command(f, dir, manifest_path, tool) matches StepView::Known(
                OutcomeView::Failed(_),
            ),
            Some(relative) => {
                let binary = join_of(package_dir, relative);
                package_command(f, dir, manifest_path, tool) == StepView::Known(
                    OutcomeView::Found(
                        if script_name(binary) {
                            CommandView {
                                program: path_of("node"@),
                                args: seq![path_text(binary), "--lsp"@],
                                cwd: Some(dir),
                            }
                        } else {
                            CommandView {
                                program: binary,
                                args: seq!["--lsp"@],
                                cwd: Some(dir),
                            }
                        },
                    ),
                )
            },
        },
{
    if let Some(relative) = declared_bin(package, tool.title()) {
        let binary = join_of(package_dir, relative);
        assert(seq![path_text(binary)] + seq!["--lsp"@] =~= seq![path_text(binary), "--lsp"@]);
    }
}

/// From a directory all directories in it are looked into, also through symbolic links, but for
/// installed packages and hidden ones.
pub proof fn ordinary_directories_are_looked_into(
    discovery: Discovery,
    listing: Seq<EntryView>,
    dir: PathView,
    sub: PathView,
)
    ensures
        discovery.subdirs_of(listing, dir).contains(sub) <==> exists|k: int|
            0 <= k < listing.len() && (#[trigger] listing[k]).leads_to_dir && listing[k].name
                != "node_modules"@ && !(listing[k].name.len() > 0 && listing[k].name[0] == '.')
                && sub == child_of(dir, listing[k].name),
{
    broadcast use vstd::seq_lib::group_filter_ensures;

    let wanted = |e: EntryView| e.leads_to_dir && !skipped(e.name);
    let path = |e: EntryView| child_of(dir, e.name);
    let kept = listing.filter(wanted);
    let dirs = kept.map_values(path);
    assert(discovery.subdirs_of(listing, dir) == dirs);
    reveal_strlit(".");
    assert forall|name: Seq<char>| #[trigger]
        begins_with(name, "."@) == (name.len() > 0 && name[0] == '.') by {
        if name.len() > 0 {
            assert((name.subrange(0, 1) == "."@) == (name[0] == '.')) by {
                assert(name.subrange(0, 1)[0] == name[0]);
                if name[0] == '.' {
                    assert(name.subrange(0, 1) =~= "."@);
                }
            }
        }
    }
    if dirs.contains(sub) {
        let i = choose|i: int| 0 <= i < dirs.len() && dirs[i] == sub;
        listing.lemma_filter_contains_rev(wanted, kept[i]);
        assert(wanted(kept[i]));
        let k = choose|k: int| 0 <= k < listing.len() && listing[k] == kept[i];
        assert(listing[k].leads_to_dir);
        assert(begins_with(listing[k].name, "."@) == (listing[k].name.len() > 0
            && listing[k].name[0] == '.'));
    }
    if exists|k: int|
        0 <= k < listing.len() && (#[trigger] listing[k]).leads_to_dir && listing[k].name
            != "node_modules"@ && !(listing[k].name.len() > 0 && listing[k].name[0] == '.') && sub
            == child_of(dir, listing[k].name) {
        let k = choose|k: int|
            0 <= k < listing.len() && (#[trigger] listing[k]).leads_to_dir && listing[k].name
                != "node_modules"@ && !(listing[k].name.len() > 0 && listing[k].name[0] == '.')
                && sub == child_of(dir, listing[k].name);
        assert(begins_with(listing[k].name, "."@) == (listing[k].name.len() > 0
            && listing[k].name[0] == '.'));
        assert(wanted(listing[k]));
        assert(kept.contains(listing[k]));
        let i = choose|i: int| 0 <= i < kept.len() && kept[i] == listing[k];
        assert(dirs[i] == sub);
    }
}

/// Below a directory that is asked about, projects are looked for just when it is a package, and only
/// where none is found above.
pub proof fn only_packages_are_scanned(discovery: Discovery, f: FindingsView, dir: PathView)
    requires
        f.is_dir(dir) == StepView::Known(true),
        nearest(discovery, f, ancestors_of(dir), true) == StepView::Known(
            OutcomeView::<ContextView>::Absent,
        ),
        nearest(discovery, f, ancestors_of(dir), false) == StepView::Known(
            OutcomeView::<ContextView>::Absent,
        ),
    ensures
        f.is_file(child_of(dir, "package.json"@)) == StepView::Known(true)
            ==> discovery.local_project(f, dir) == descend(discovery, f, seq![dir]),
        f.is_file(child_of(dir, "package.json"@)) == StepView::Known(false)
            ==> discovery.local_project(f, dir) == StepView::Known(
            OutcomeView::<ContextView>::Absent,
        ),
{
}

/// Where a file must be served, that nothing serves it is a failure, and all else is as it is found.
pub proof fn nothing_installed_is_a_failure_where_it_matters(
    discovery: Discovery,
    f: FindingsView,
    path: PathView,
)
    ensures
        discovery.context(f, path) == StepView::Known(OutcomeView::<ContextView>::Absent)
            ==> discovery.needed_context(f, path) == StepView::Known(
            OutcomeView::<ContextView>::Failed(
                "no oxlint installation is available for "@ + path_text(path),
            ),
        ),
        discovery.context(f, path) != StepView::Known(OutcomeView::<ContextView>::Absent)
            ==> discovery.needed_context(f, path) == discovery.context(f, path),
{
}

/// For a file nothing is looked for below its directory, and a file without a directory fails the search.
pub proof fn only_directories_are_searched_below(discovery: Discovery, f: FindingsView, path: PathView)
    requires
        f.is_dir(path) == StepView::Known(false),
    ensures
        parent_of(path) matches Some(dir) ==> discovery.local_project(f, path)
            == crate::search::nearest_above(discovery, f, dir),
        parent_of(path) is None ==> discovery.local_project(f, path) == StepView::Known(
            OutcomeView::<ContextView>::Failed(
                "cannot determine parent directory for "@ + path_text(path),
            ),
        ),
{
}

/// The projects around a file come before what is installed for all.
pub proof fn projects_come_before_global_tools(discovery: Discovery, f: FindingsView, path: PathView)
    ensures
        discovery.local_project(f, path) != StepView::Known(OutcomeView::<ContextView>::Absent)
            ==> discovery.context(f, path) == discovery.local_project(f, path),
{
}

/// A directory that is come upon from above is a project only if it has a manifest.
pub proof fn projects_below_are_packages(discovery: Discovery, f: FindingsView, dir: PathView)
    ensures
        discovery.package_of(f, dir) == f.is_file(child_of(dir, "package.json"@)),
        discovery.context_of(f, dir) == project_context(f, discovery.windows, dir),
{
}

} // verus!
