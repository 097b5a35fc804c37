//! What holds of the compiler that is found for a file, whatever is on disk.

use vstd::prelude::*;
use crate::disk::{
    EntryView, FileHeadView, FindingsView, NodeQueryView, NodeReplyView, OutcomeView, RealPathView,
    StepView,
};
use crate::json::{json_get, json_get_str, JsonView};
use crate::package::{declared_bin, manifest, program, script_name};
use crate::package_laws::one_name_is_enough;
use crate::path::{
    ancestors_of, child_of, join_of, name_of, parent_of, path_of, path_text, plain, FsPath,
    PathView,
};
use crate::search::{descend_ends_at_a_project, nearest, nearest_is_first, start_of, ProjectSearch};
use crate::sort::sorted_is_ordered;
use crate::text::{begins_with, split_on, trimmed, u32_of};
use crate::tsgo::discovery::{
    arch_of, first_line_is_a_prefix, first_modules_dir, installed_command, launcher, local_command,
    looked_into, major_is_a_prefix, manifest_command, no_parent, node_at, node_shebang,
    package_command, package_name, platform_binary, platform_of, project_context, scanned,
    supported_version, workspace_markers, CommandView, ContextView, Discovery, HostView,
    SessionKeyView,
};

verus! {

/// Whether a command starts the compiler so that it serves an editor over its standard streams: those
/// are its last two arguments, and at most a script stands ahead of them, which Node runs.
pub open spec fn serves_an_editor(command: CommandView) -> bool {
    let n = command.args.len();
    &&& n == 2 || (n == 3 && command.program == path_of("node"@))
    &&& command.args[n - 2] == "--lsp"@
    &&& command.args[n - 1] == "--stdio"@
}

proof fn project_commands_serve(f: FindingsView, host: HostView, dir: PathView)
    ensures
        local_command(f, host, dir) matches StepView::Known(OutcomeView::Found(command))
            ==> serves_an_editor(command) && command.cwd == Some(dir),
{
    if let StepView::Known(OutcomeView::Found(command)) = local_command(f, host, dir) {
        assert(serves_an_editor(command) && command.cwd == Some(dir));
    }
}

/// Whatever serves a file is started so that it serves an editor. The compiler of a project runs in the
/// project's directory, which is its root; the one that is installed for all has no root.
pub proof fn the_compiler_is_started_for_an_editor(
    discovery: Discovery,
    f: FindingsView,
    path: PathView,
)
    ensures
        discovery.context(f, path) matches StepView::Known(OutcomeView::Found(context)) ==> {
            &&& serves_an_editor(context.command)
            &&& context.command.args.last() == "--stdio"@
            &&& match context.key {
                SessionKeyView::Project(dir) => context.root == Some(dir) && context.command.cwd
                    == Some(dir),
                SessionKeyView::Global => context.root is None && context.command.args.len() == 2,
            }
        },
{
    if let StepView::Known(OutcomeView::Found(context)) = discovery.context(f, path) {
        let start = start_of(f, path, no_parent(path))->Known_0->Found_0;
        let dirs = ancestors_of(start);
        if nearest(discovery, f, dirs, true) matches StepView::Known(OutcomeView::Found(_)) {
            let i = nearest_is_first(discovery, f, dirs, true);
            project_commands_serve(f, discovery.host@, dirs[i]);
        } else if nearest(discovery, f, dirs, false) matches StepView::Known(
            OutcomeView::Found(_),
        ) {
            let i = nearest_is_first(discovery, f, dirs, false);
            project_commands_serve(f, discovery.host@, dirs[i]);
        } else if discovery.below(f, start) matches StepView::Known(OutcomeView::Found(_)) {
            let level = discovery.subdirs_of(f.listing(start)->Known_0, start);
            if crate::search::descend(discovery, f, level) matches StepView::Known(
                OutcomeView::Found(_),
            ) {
                let dir = descend_ends_at_a_project(discovery, f, level);
                project_commands_serve(f, discovery.host@, dir);
            }
        }
    }
}

/// Where no project serves a file, the program that is found on the search path does, and it runs where
/// the search has started; where there is none, the search fails.
pub proof fn the_global_compiler_is_found_on_the_search_path(
    discovery: Discovery,
    f: FindingsView,
    path: PathView,
    start: PathView,
)
    requires
        start_of(f, path, no_parent(path)) == StepView::Known(OutcomeView::Found(start)),
        discovery.local_project(f, path, start) == StepView::Known(
            OutcomeView::<ContextView>::Absent,
        ),
    ensures
        ({
            let name = if discovery.host@.windows {
                "tsgo.cmd"@
            } else {
                "tsgo"@
            };
            match program(f, name) {
                StepView::Ask(probe) => discovery.context(f, path) == StepView::<
                    OutcomeView<ContextView>,
                >::Ask(probe),
                StepView::Known(OutcomeView::Found(file)) => discovery.context(
                    f,
                    path,
                ) matches StepView::Known(OutcomeView::Found(context)) && context.command.program
                    == file && context.command.cwd == Some(start) && context.key
                    == SessionKeyView::Global,
                StepView::Known(_) => discovery.context(f, path) matches StepView::Known(
                    OutcomeView::Failed(_),
                ),
            }
        }),
{
    reveal_strlit("tsgo");
    reveal_strlit(".cmd");
    reveal_strlit("tsgo.cmd");
    assert("tsgo.cmd"@ =~= "tsgo"@ + ".cmd"@);
}

/// A project's launcher lies in the directory of its installed programs.
pub proof fn launchers_lie_among_installed_programs(dir: PathView, windows: bool)
    ensures
        launcher(dir, windows).parts.len() == dir.parts.len() + 3,
        launcher(dir, windows).parts.take(dir.parts.len() as int) == dir.parts,
        launcher(dir, windows).parts[dir.parts.len() as int] == "node_modules"@,
        launcher(dir, windows).parts[dir.parts.len() as int + 1] == ".bin"@,
        !windows ==> launcher(dir, windows).parts.last() == "tsgo"@,
        windows ==> launcher(dir, windows).parts.last() == "tsgo.cmd"@,
{
    reveal_strlit("tsgo");
    reveal_strlit(".cmd");
    reveal_strlit("tsgo.cmd");
    assert("tsgo.cmd"@ =~= "tsgo"@ + ".cmd"@);
    assert(launcher(dir, windows).parts.take(dir.parts.len() as int) =~= dir.parts);
}

/// The packages of a project are read from the directory of its installed packages.
pub proof fn installed_packages_are_read(
    f: FindingsView,
    host: HostView,
    dir: PathView,
    name: Seq<char>,
)
    ensures
        ({
            let package = join_of(child_of(dir, "node_modules"@), name);
            let path = child_of(package, "package.json"@);
            &&& f.present(path) == StepView::Known(false) ==> installed_command(f, host, dir, name)
                == StepView::Known(OutcomeView::<CommandView>::Absent)
            &&& f.present(path) == StepView::Known(true) && manifest(f, path) is Known ==> (manifest(
                f,
                path,
            )->Known_0 matches OutcomeView::Found(package) ==> installed_command(f, host, dir, name)
                == manifest_command(f, host, dir, path, package))
        }),
{
}

/// Where a project has no launcher and neither of the packages, the package is taken to which Node
/// resolves the compiler from the project's directory.
pub proof fn node_finds_hoisted_packages(
    f: FindingsView,
    host: HostView,
    dir: PathView,
    output: Seq<char>,
)
    requires
        f.present(launcher(dir, host.windows)) == StepView::Known(false),
        installed_command(f, host, dir, "@typescript/native-preview"@) == StepView::Known(
            OutcomeView::<CommandView>::Absent,
        ),
        installed_command(f, host, dir, "typescript"@) == StepView::Known(
            OutcomeView::<CommandView>::Absent,
        ),
    ensures
        ({
            let query = NodeQueryView { base: dir, package: "@typescript/native-preview"@ };
            &&& f.resolved(query) is Ask ==> local_command(f, host, dir) is Ask
            &&& f.resolved(query) == StepView::Known(NodeReplyView::Missing) ==> local_command(
                f,
                host,
                dir,
            ) == StepView::Known(OutcomeView::<CommandView>::Absent)
            &&& f.resolved(query) == StepView::Known(NodeReplyView::Broken) ==> local_command(
                f,
                host,
                dir,
            )->Known_0 is Failed
            &&& f.resolved(query) == StepView::Known(NodeReplyView::Output(output)) && trimmed(
                output,
            ).len() > 0 ==> local_command(f, host, dir) == package_command(
                f,
                host,
                dir,
                path_of(trimmed(output)),
            )
        }),
{
}

/// TypeScript is taken just from the seventh major version on: what counts is the number ahead of the
/// first full stop or hyphen of the version.
pub proof fn the_major_version_decides(
    package: JsonView,
    version: Seq<char>,
    n: int,
    major: u32,
)
    requires
        json_get_str(package, "version"@) == Some(version),
        0 <= n <= version.len(),
        forall|j: int| 0 <= j < n ==> version[j] != '.' && version[j] != '-',
        n < version.len() ==> version[n] == '.' || version[n] == '-',
    ensures
        u32_of(version.take(n)) == Some(major) ==> (supported_version(package) <==> major >= 7),
        u32_of(version.take(n)) is None ==> !supported_version(package),
{
    major_is_a_prefix(version, n);
}

/// A manifest that gives no version is that of no version that is taken.
pub proof fn versions_must_be_given(package: JsonView)
    requires
        json_get_str(package, "version"@) is None,
    ensures
        !supported_version(package),
{
}

/// The names of systems and architectures are those that Node has for them.
pub proof fn systems_are_named_as_node_names_them(name: Seq<char>)
    ensures
        platform_of(name) == Some("darwin"@) <==> name == "macos"@,
        platform_of(name) == Some("win32"@) <==> name == "windows"@,
        platform_of(name) == Some("sunos"@) <==> name == "solaris"@ || name == "illumos"@,
        arch_of(name) == Some("x64"@) <==> name == "x86_64"@,
        arch_of(name) == Some("arm64"@) <==> name == "aarch64"@,
        arch_of(name) == Some("ppc64"@) <==> name == "powerpc64"@,
        arch_of(name) == Some("loong64"@) <==> name == "loongarch64"@,
        (name == "linux"@ || name == "freebsd"@ || name == "netbsd"@ || name == "openbsd"@ || name
            == "aix"@) ==> platform_of(name) == Some(name),
        (name == "arm"@ || name == "s390x"@ || name == "riscv64"@) ==> arch_of(name) == Some(name),
{
    reveal_strlit("linux");
    reveal_strlit("darwin");
    reveal_strlit("macos");
    reveal_strlit("win32");
    reveal_strlit("windows");
    reveal_strlit("freebsd");
    reveal_strlit("netbsd");
    reveal_strlit("openbsd");
    reveal_strlit("aix");
    reveal_strlit("sunos");
    reveal_strlit("x64");
    reveal_strlit("arm64");
    reveal_strlit("arm");
    reveal_strlit("ppc64");
    reveal_strlit("s390x");
    reveal_strlit("riscv64");
    reveal_strlit("loong64");
    reveal_strlit("x86_64");
    reveal_strlit("aarch64");
    reveal_strlit("powerpc64");
    reveal_strlit("loongarch64");
    reveal_strlit("solaris");
    reveal_strlit("illumos");
    let arm = "arm64"@;
    assert(arm.len() == 5 && "arm"@.len() == 3 && "x64"@.len() == 3);
    assert("riscv64"@.len() == 7 && "loong64"@.len() == 7);
    assert(arm[0] == 'a' && "ppc64"@[0] == 'p' && "s390x"@[0] == 's');
    assert(arm != "ppc64"@ && arm != "s390x"@ && "ppc64"@ != "s390x"@);
    assert("riscv64"@[0] == 'r' && "loong64"@[0] == 'l' && "aarch64"@[0] == 'a');
    assert("riscv64"@ != "loong64"@ && "riscv64"@ != "aarch64"@ && "loong64"@ != "aarch64"@);
    assert("linux"@[0] == 'l' && "macos"@[0] == 'm' && "win32"@[0] == 'w' && "sunos"@[0] == 's');
    assert("linux"@ != "win32"@ && "linux"@ != "sunos"@ && "win32"@ != "sunos"@ && "linux"@
        != "macos"@);
    assert("darwin"@[0] == 'd' && "netbsd"@[0] == 'n');
    assert("darwin"@ != "netbsd"@);
    assert("windows"@[0] == 'w' && "freebsd"@[0] == 'f' && "openbsd"@[0] == 'o' && "solaris"@[0]
        == 's' && "illumos"@[0] == 'i');
    assert("windows"@ != "freebsd"@ && "windows"@ != "openbsd"@ && "windows"@ != "solaris"@
        && "windows"@ != "illumos"@ && "freebsd"@ != "openbsd"@);
    assert("x64"@[0] == 'x' && "arm"@[0] == 'a');
    assert("x64"@ != "arm"@);
    assert("powerpc64"@.len() == 9 && "loongarch64"@.len() == 11 && "x86_64"@.len() == 6);
}

proof fn first_modules_dir_is_nearest(dirs: Seq<PathView>)
    ensures
        match first_modules_dir(dirs) {
            Some(dir) => exists|k: int|
                0 <= k < dirs.len() && #[trigger] dirs[k] == dir && name_of(dir) == Some(
                    "node_modules"@,
                ) && forall|j: int|
                    0 <= j < k ==> name_of(#[trigger] dirs[j]) != Some("node_modules"@),
            None => forall|j: int|
                0 <= j < dirs.len() ==> name_of(#[trigger] dirs[j]) != Some("node_modules"@),
        },
    decreases dirs.len(),
{
    if dirs.len() > 0 {
        if name_of(dirs[0]) == Some("node_modules"@) {
            assert(dirs[0] == dirs[0]);
        } else {
            let rest = dirs.drop_first();
            first_modules_dir_is_nearest(rest);
            match first_modules_dir(rest) {
                Some(dir) => {
                    let k = choose|k: int|
                        0 <= k < rest.len() && #[trigger] rest[k] == dir && name_of(dir) == Some(
                            "node_modules"@,
                        ) && forall|j: int|
                            0 <= j < k ==> name_of(#[trigger] rest[j]) != Some("node_modules"@);
                    assert(dirs[k + 1] == dir);
                    assert forall|j: int| 0 <= j < k + 1 implies name_of(#[trigger] dirs[j]) != Some(
                        "node_modules"@,
                    ) by {
                        if j > 0 {
                            assert(rest[j - 1] == dirs[j]);
                        }
                    }
                },
                None => {
                    assert forall|j: int| 0 <= j < dirs.len() implies name_of(#[trigger] dirs[j])
                        != Some("node_modules"@) by {
                        if j > 0 {
                            assert(rest[j - 1] == dirs[j]);
                        }
                    }
                },
            }
        }
    }
}

/// The native program of a package is a file of the package for this system and architecture that is
/// installed beside it, in the nearest directory of installed packages above where the package really
/// lies.
pub proof fn native_programs_lie_beside_their_package(
    f: FindingsView,
    host: HostView,
    package_dir: PathView,
    name: Seq<char>,
    bin: Seq<char>,
    actual: PathView,
)
    requires
        f.real_path(package_dir) == StepView::Known(RealPathView::Path(actual)) || (f.real_path(
            package_dir,
        ) == StepView::Known(RealPathView::Unknown) && actual == package_dir),
    ensures
        platform_binary(f, host, package_dir, name, bin) matches StepView::Known(
            OutcomeView::Found(binary),
        ) ==> {
            let dirs = ancestors_of(actual);
            &&& f.is_file(binary) == StepView::Known(true)
            &&& platform_of(host.os) is Some && arch_of(host.arch) is Some
            &&& exists|k: int|
                #![trigger dirs[k]]
                0 <= k < dirs.len() && name_of(dirs[k]) == Some("node_modules"@) && binary.parts
                    == dirs[k].parts + seq![
                    "@typescript"@,
                    split_on(name, '/').last() + "-"@ + platform_of(host.os)->0 + "-"@ + arch_of(
                        host.arch,
                    )->0,
                    "lib"@,
                    if host.windows {
                        bin + ".exe"@
                    } else {
                        bin
                    },
                ] && forall|j: int|
                    0 <= j < k ==> name_of(#[trigger] dirs[j]) != Some("node_modules"@)
        },
{
    if let StepView::Known(OutcomeView::Found(binary)) = platform_binary(
        f,
        host,
        package_dir,
        name,
        bin,
    ) {
        let dirs = ancestors_of(actual);
        first_modules_dir_is_nearest(dirs);
        let modules = first_modules_dir(dirs)->0;
        let k = choose|k: int|
            0 <= k < dirs.len() && #[trigger] dirs[k] == modules && name_of(modules) == Some(
                "node_modules"@,
            ) && forall|j: int|
                0 <= j < k ==> name_of(#[trigger] dirs[j]) != Some("node_modules"@);
        assert(binary.parts =~= dirs[k].parts + seq![
            "@typescript"@,
            split_on(name, '/').last() + "-"@ + platform_of(host.os)->0 + "-"@ + arch_of(
                host.arch,
            )->0,
            "lib"@,
            if host.windows {
                bin + ".exe"@
            } else {
                bin
            },
        ]);
    }
}

/// Without a native program, what the manifest declares is run: a script by Node, with the script as
/// its first argument, and anything else itself. The program of TypeScript is `tsc`, that of any other
/// package `tsgo`.
pub proof fn declared_programs_are_run(
    f: FindingsView,
    host: HostView,
    dir: PathView,
    package_dir: PathView,
    manifest_path: PathView,
    package: JsonView,
    relative: Seq<char>,
)
    requires
        parent_of(manifest_path) == Some(package_dir),
        json_get_str(package, "name"@) == Some("typescript"@) ==> supported_version(package),
        ({
            let typescript = json_get_str(package, "name"@) == Some("typescript"@);
            let bin = if typescript {
                "tsc"@
            } else {
                "tsgo"@
            };
            &&& platform_binary(f, host, package_dir, package_name(package), bin)
                == StepView::Known(OutcomeView::<PathView>::Absent)
            &&& declared_bin(package, bin) == Some(relative)
        }),
    ensures
        ({
            let binary = plain(join_of(package_dir, relative));
            let script = script_name(binary) || (f.head(binary) matches StepView::Known(
                FileHeadView::Bytes(head),
            ) && node_shebang(head));
            &&& script ==> manifest_command(f, host, dir, manifest_path, package)
                == StepView::Known(
                OutcomeView::Found(
                    CommandView {
                        program: path_of("node"@),
                        args: seq![path_text(binary), "--lsp"@, "--stdio"@],
                        cwd: Some(dir),
                    },
                ),
            )
            &&& !script && f.head(binary) is Known ==> manifest_command(
                f,
                host,
                dir,
                manifest_path,
                package,
            ) == StepView::Known(
                OutcomeView::Found(
                    CommandView {
                        program: binary,
                        args: seq!["--lsp"@, "--stdio"@],
                        cwd: Some(dir),
                    },
                ),
            )
        }),
{
    reveal_strlit("typescript");
    reveal_strlit("@typescript/native-preview");
    assert("typescript"@.len() != "@typescript/native-preview"@.len());
    let binary = plain(join_of(package_dir, relative));
    assert(seq![path_text(binary)] + seq!["--lsp"@, "--stdio"@] =~= seq![
        path_text(binary),
        "--lsp"@,
        "--stdio"@,
    ]);
}

/// A file is taken for a script of Node just when it starts with a number sign and an exclamation mark
/// and names Node in its first line.
pub proof fn scripts_name_node_in_their_first_line(head: Seq<u8>, n: int)
    requires
        0 <= n <= head.len(),
        forall|j: int| 0 <= j < n ==> head[j] != 0x0a,
        n < head.len() ==> head[n] == 0x0a,
    ensures
        node_shebang(head) <==> n >= 2 && head[0] == '#' as u8 && head[1] == '!' as u8 && exists|
            i: int,
        |
            0 <= i && i + 4 <= n && #[trigger] head.subrange(i, i + 4) == seq![
                'n' as u8,
                'o' as u8,
                'd' as u8,
                'e' as u8,
            ],
{
    first_line_is_a_prefix(head, n);
    let line = head.take(n);
    let node = seq!['n' as u8, 'o' as u8, 'd' as u8, 'e' as u8];
    if node_shebang(head) {
        let i = choose|i: int| node_at(line, i);
        assert(line[i] == head[i] && line[i + 1] == head[i + 1] && line[i + 2] == head[i + 2]
            && line[i + 3] == head[i + 3]);
        assert(head.subrange(i, i + 4) =~= node);
    }
    if n >= 2 && head[0] == '#' as u8 && head[1] == '!' as u8 && exists|i: int|
        0 <= i && i + 4 <= n && #[trigger] head.subrange(i, i + 4) == node {
        let i = choose|i: int|
            0 <= i && i + 4 <= n && #[trigger] head.subrange(i, i + 4) == node;
        let piece = head.subrange(i, i + 4);
        assert(piece[0] == head[i] && piece[1] == head[i + 1] && piece[2] == head[i + 2] && piece[3]
            == head[i + 3]);
        assert(node_at(line, i));
    }
}

/// From a directory all directories in it are looked into, but for installed packages, build outputs and
/// hidden ones.
pub proof fn ordinary_directories_are_looked_into(
    discovery: Discovery,
    listing: Seq<EntryView>,
    dir: PathView,
    sub: PathView,
)
    ensures
        discovery.subdirs_of(listing, dir).contains(sub) <==> exists|k: int|
            0 <= k < listing.len() && (#[trigger] listing[k]).is_dir && listing[k].name
                != "node_modules"@ && listing[k].name != "target"@ && !(listing[k].name.len() > 0
                && listing[k].name[0] == '.') && sub == child_of(dir, listing[k].name),
{
    broadcast use vstd::seq_lib::group_filter_ensures;

    let wanted = |e: EntryView| e.is_dir && looked_into(e.name);
    let path = |e: EntryView| child_of(dir, e.name);
    let kept = listing.filter(wanted);
    let unsorted = kept.map_values(path);
    sorted_is_ordered::<FsPath>(unsorted);
    assert(discovery.subdirs_of(listing, dir).contains(sub) <==> unsorted.contains(sub));
    reveal_strlit(".");
    assert forall|name: Seq<char>| #[trigger]
        begins_with(name, "."@) == (name.len() > 0 && name[0] == '.') by {
        if name.len() > 0 {
            assert((name.subrange(0, 1) == "."@) == (name[0] == '.')) by {
                assert(name.subrange(0, 1)[0] == name[0]);
                if name[0] == '.' {
                    assert(name.subrange(0, 1) =~= "."@);
                }
            }
        }
    }
    if unsorted.contains(sub) {
        let i = choose|i: int| 0 <= i < unsorted.len() && unsorted[i] == sub;
        listing.lemma_filter_contains_rev(wanted, kept[i]);
        assert(wanted(kept[i]));
        let k = choose|k: int| 0 <= k < listing.len() && listing[k] == kept[i];
        assert(listing[k].is_dir);
        assert(begins_with(listing[k].name, "."@) == (listing[k].name.len() > 0
            && listing[k].name[0] == '.'));
    }
    if exists|k: int|
        0 <= k < listing.len() && (#[trigger] listing[k]).is_dir && listing[k].name
            != "node_modules"@ && listing[k].name != "target"@ && !(listing[k].name.len() > 0
            && listing[k].name[0] == '.') && sub == child_of(dir, listing[k].name) {
        let k = choose|k: int|
            0 <= k < listing.len() && (#[trigger] listing[k]).is_dir && listing[k].name
                != "node_modules"@ && listing[k].name != "target"@ && !(listing[k].name.len() > 0
                && listing[k].name[0] == '.') && sub == child_of(dir, listing[k].name);
        assert(begins_with(listing[k].name, "."@) == (listing[k].name.len() > 0
            && listing[k].name[0] == '.'));
        assert(wanted(listing[k]));
        assert(kept.contains(listing[k]));
        let i = choose|i: int| 0 <= i < kept.len() && kept[i] == listing[k];
        assert(unsorted[i] == sub);
    }
}

/// Projects are looked for below a directory just when it is the root of a checkout or of a workspace:
/// it holds what marks one, or its manifest lists workspaces.
pub proof fn checkouts_and_workspaces_are_scanned(f: FindingsView, dir: PathView, name: Seq<char>)
    requires
        scanned(f, dir) is Known,
        name == ".git"@ || name == ".svn"@ || name == ".jj"@ || name == ".helix"@ || name
            == "pnpm-workspace.yaml"@,
    ensures
        f.present(child_of(dir, name)) == StepView::Known(true) ==> scanned(f, dir)
            == StepView::Known(true),
        scanned(f, dir) == StepView::Known(false) ==> f.present(child_of(dir, name))
            == StepView::Known(false) && (manifest(f, child_of(dir, "package.json"@))
            matches StepView::Known(OutcomeView::Found(package)) ==> json_get(package, "workspaces"@)
            is None),
        manifest(f, child_of(dir, "package.json"@)) matches StepView::Known(
            OutcomeView::Found(package),
        ) ==> json_get(package, "workspaces"@) is Some ==> scanned(f, dir) == StepView::Known(true),
{
    let names = workspace_markers();
    if crate::package::holds_any(f, dir, names) is Known {
        one_name_is_enough(f, dir, names);
    }
    assert(names[0] == ".git"@);
    assert(names[1] == ".svn"@);
    assert(names[2] == ".jj"@);
    assert(names[3] == ".helix"@);
    assert(names[4] == "pnpm-workspace.yaml"@);
}

/// A package that tells no name is taken for the preview of the native compiler.
pub proof fn nameless_packages_are_the_preview(package: JsonView, name: Seq<char>)
    ensures
        json_get_str(package, "name"@) is None ==> package_name(package)
            == "@typescript/native-preview"@,
        json_get_str(package, "name"@) == Some(name) ==> package_name(package) == name,
{
}

/// Where the manifest of an installed package cannot be read, the search fails, and so does the search for the
/// project that it is installed in.
pub proof fn broken_packages_fail_the_search(
    f: FindingsView,
    host: HostView,
    dir: PathView,
    message: Seq<char>,
)
    requires
        f.present(launcher(dir, host.windows)) == StepView::Known(false),
        f.present(
            child_of(
                join_of(child_of(dir, "node_modules"@), "@typescript/native-preview"@),
                "package.json"@,
            ),
        ) == StepView::Known(true),
        manifest(
            f,
            child_of(
                join_of(child_of(dir, "node_modules"@), "@typescript/native-preview"@),
                "package.json"@,
            ),
        ) == StepView::Known(OutcomeView::<JsonView>::Failed(message)),
    ensures
        project_context(f, host, dir) == StepView::Known(OutcomeView::<ContextView>::Failed(message)),
{
}

/// A directory is a project just when a compiler is found in it.
pub proof fn a_compiler_makes_the_project(f: FindingsView, host: HostView, dir: PathView)
    ensures
        local_command(f, host, dir) matches StepView::Known(OutcomeView::Found(command))
            ==> project_context(f, host, dir) == StepView::Known(
            OutcomeView::Found(
                ContextView { key: SessionKeyView::Project(dir), root: Some(dir), command },
            ),
        ),
        local_command(f, host, dir) == StepView::Known(OutcomeView::<CommandView>::Absent)
            ==> project_context(f, host, dir) == StepView::Known(
            OutcomeView::<ContextView>::Absent,
        ),
        local_command(f, host, dir) is Ask ==> project_context(f, host, dir) is Ask,
{
}

/// Where no project is found at or above a directory, those below are looked for if the directory is a checkout
/// or a workspace. For a file nothing is looked for below.
pub proof fn only_directories_are_searched_below(
    discovery: Discovery,
    f: FindingsView,
    path: PathView,
    start: PathView,
    listing: Seq<EntryView>,
)
    requires
        nearest(discovery, f, ancestors_of(start), true) == StepView::Known(
            OutcomeView::<ContextView>::Absent,
        ),
        nearest(discovery, f, ancestors_of(start), false) == StepView::Known(
            OutcomeView::<ContextView>::Absent,
        ),
    ensures
        f.is_dir(path) == StepView::Known(true) && scanned(f, start) == StepView::Known(true)
            && f.listing(start) == StepView::Known(listing) ==> discovery.local_project(
            f,
            path,
            start,
        ) == crate::search::descend(discovery, f, discovery.subdirs_of(listing, start)),
        f.is_dir(path) == StepView::Known(true) && scanned(f, start) == StepView::Known(false)
            ==> discovery.local_project(f, path, start) == StepView::Known(
            OutcomeView::<ContextView>::Absent,
        ),
        f.is_dir(path) == StepView::Known(false) ==> discovery.local_project(f, path, start)
            == StepView::Known(OutcomeView::<ContextView>::Absent),
{
}

/// The search for what serves a file goes by the projects around it where there is one, and fails where the file
/// has no directory.
pub proof fn projects_come_before_the_global_compiler(
    discovery: Discovery,
    f: FindingsView,
    path: PathView,
    start: PathView,
)
    ensures
        start_of(f, path, no_parent(path)) == StepView::Known(OutcomeView::Found(start)) && !(
        discovery.local_project(f, path, start) == StepView::Known(
            OutcomeView::<ContextView>::Absent,
        )) ==> discovery.context(f, path) == discovery.local_project(f, path, start),
        f.is_dir(path) == StepView::Known(false) && parent_of(path) is None ==> discovery.context(
            f,
            path,
        ) == StepView::Known(
            OutcomeView::<ContextView>::Failed(
                "cannot resolve tsgo for a path without a parent directory: "@ + path_text(path),
            ),
        ),
{
}

/// A directory that is come upon from above is a project only if it has a manifest.
pub proof fn projects_below_are_packages(discovery: Discovery, f: FindingsView, dir: PathView)
    ensures
        discovery.package_of(f, dir) == f.present(child_of(dir, "package.json"@)),
        discovery.context_of(f, dir) == project_context(f, discovery.host@, dir),
{
}

/// What has been looked for is told where nothing serves a file.
pub proof fn the_failure_tells_what_is_missing(
    discovery: Discovery,
    f: FindingsView,
    path: PathView,
    start: PathView,
)
    requires
        discovery.global_context(f, path, start) matches StepView::Known(OutcomeView::Failed(_)),
    ensures
        discovery.global_context(f, path, start) == StepView::Known(
            OutcomeView::<ContextView>::Failed(
                "could not find a local @typescript/native-preview or typescript (>= 7) installation for "@
                    + path_text(path) + " and no global tsgo was available on PATH"@,
            ),
        ),
{
}

/// Without a launcher and without the preview package, the TypeScript that a project has serves it.
pub proof fn typescript_serves_where_there_is_no_preview(
    f: FindingsView,
    host: HostView,
    dir: PathView,
    command: CommandView,
)
    requires
        f.present(launcher(dir, host.windows)) == StepView::Known(false),
        installed_command(f, host, dir, "@typescript/native-preview"@) == StepView::Known(
            OutcomeView::<CommandView>::Absent,
        ),
        installed_command(f, host, dir, "typescript"@) == StepView::Known(
            OutcomeView::Found(command),
        ),
    ensures
        local_command(f, host, dir) == StepView::Known(OutcomeView::Found(command)),
{
}

proof fn the_nearest_modules_dir_is_found(dirs: Seq<PathView>, k: int)
    requires
        0 <= k < dirs.len(),
        name_of(dirs[k]) == Some("node_modules"@),
        forall|j: int| 0 <= j < k ==> name_of(#[trigger] dirs[j]) != Some("node_modules"@),
    ensures
        first_modules_dir(dirs) == Some(dirs[k]),
    decreases dirs.len(),
{
    if k > 0 {
        assert(name_of(dirs[0]) != Some("node_modules"@));
        let rest = dirs.drop_first();
        assert forall|j: int| 0 <= j < k - 1 implies name_of(#[trigger] rest[j]) != Some(
            "node_modules"@,
        ) by {
            assert(rest[j] == dirs[j + 1]);
        }
        the_nearest_modules_dir_is_found(rest, k - 1);
    }
}

/// A native program that is installed beside its package for this system and architecture is found.
pub proof fn installed_native_programs_are_found(
    f: FindingsView,
    host: HostView,
    package_dir: PathView,
    name: Seq<char>,
    bin: Seq<char>,
    actual: PathView,
    k: int,
)
    requires
        f.real_path(package_dir) == StepView::Known(RealPathView::Path(actual)),
        platform_of(host.os) is Some,
        arch_of(host.arch) is Some,
        0 <= k < ancestors_of(actual).len(),
        name_of(ancestors_of(actual)[k]) == Some("node_modules"@),
        forall|j: int|
            0 <= j < k ==> name_of(#[trigger] ancestors_of(actual)[j]) != Some("node_modules"@),
    ensures
        ({
            let beside = split_on(name, '/').last() + "-"@ + platform_of(host.os)->0 + "-"@ + arch_of(
                host.arch,
            )->0;
            let lib = child_of(
                child_of(child_of(ancestors_of(actual)[k], "@typescript"@), beside),
                "lib"@,
            );
            let binary = child_of(
                lib,
                if host.windows {
                    bin + ".exe"@
                } else {
                    bin
                },
            );
            &&& f.is_file(binary) == StepView::Known(true) ==> platform_binary(
                f,
                host,
                package_dir,
                name,
                bin,
            ) == StepView::Known(OutcomeView::Found(binary))
            &&& f.is_file(binary) == StepView::Known(false) ==> platform_binary(
                f,
                host,
                package_dir,
                name,
                bin,
            ) == StepView::Known(OutcomeView::<PathView>::Absent)
        }),
{
    the_nearest_modules_dir_is_found(ancestors_of(actual), k);
}

} // verus!
