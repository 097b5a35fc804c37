//! Which oxlint and oxfmt serve a file.

use vstd::prelude::*;
use crate::disk::{
    path_from_node, resolved_path, EntryView, Findings, FindingsView, Listing, NodeQuery,
    NodeQueryView, Outcome, OutcomeView, Step, StepView,
};
use crate::json::{Json, JsonView};
use crate::package::{
    bin_of, declared_bin, executable_name, find_in_path, has_script_name, launcher_name, manifest,
    program, program_asks_anew, program_lasts, read_manifest, script_name,
};
use crate::path::{ancestors_of, child_of, join_of, parent_of, path_of, path_text, FsPath, PathView};
use crate::search::{
    descend, descend_asks_anew, descend_ends_at_a_project, descend_lasts, find_below,
    find_nearest_above, find_start, nearest, nearest_above, nearest_asks_anew, nearest_is_first,
    nearest_lasts, nearest_package_is_found, no_project_package, start_of, ProjectSearch,
};
use crate::text::{begins_with, concat2, same_text, starts_with, texts};
use crate::views::{each, opt};

pub use crate::project::{CommandSpec, CommandView, SessionKey, SessionKeyView};

verus! {

/// The commands that serve a project.
#[derive(Debug, PartialEq, Eq)]
pub struct ProjectContext {
    pub key: SessionKey,
    pub root: Option<FsPath>,
    pub lint_command: CommandSpec,
    pub format_command: Option<CommandSpec>,
}

/// The commands that serve a project.
#[verifier::ext_equal]
pub struct ContextView {
    pub key: SessionKeyView,
    pub root: Option<PathView>,
    pub lint_command: CommandView,
    pub format_command: Option<CommandView>,
}

impl View for ProjectContext {
    type V = ContextView;

    open spec fn view(&self) -> ContextView {
        ContextView {
            key: self.key@,
            root: opt(self.root),
            lint_command: self.lint_command@,
            format_command: opt(self.format_command),
        }
    }
}

/// A tool that comes as an npm package, with a program of the same name.
#[derive(Clone, Copy, Debug, PartialEq, Eq, Structural)]
pub enum Tool {
    Oxlint,
    Oxfmt,
}

impl Tool {
    /// The name of the package and of the program.
    pub open spec fn title(self) -> Seq<char> {
        match self {
            Tool::Oxlint => "oxlint"@,
            Tool::Oxfmt => "oxfmt"@,
        }
    }

    /// The name of the package and of the program.
    pub fn name(self) -> (r: &'static str)
        ensures
            r@ == self.title(),
    {
        match self {
            Tool::Oxlint => "oxlint",
            Tool::Oxfmt => "oxfmt",
        }
    }
}

/// The arguments with which a tool serves an editor.
pub open spec fn lsp_args() -> Seq<Seq<char>> {
    seq!["--lsp"@]
}

fn make_lsp_args() -> (r: Vec<String>)
    ensures
        texts(r@) == lsp_args(),
{
    let mut args: Vec<String> = Vec::new();
    args.push("--lsp".to_owned());
    proof {
        assert(texts(args@) =~= lsp_args());
    }
    args
}

/// The command that a package's manifest gives for a tool in the project `dir`.
pub open spec fn manifest_command(
    dir: PathView,
    manifest_path: PathView,
    package: JsonView,
    tool: Tool,
) -> OutcomeView<CommandView> {
    let package_dir = parent_of(manifest_path)->0;
    match declared_bin(package, tool.title()) {
        None => OutcomeView::Failed(
            "package "@ + path_text(manifest_path) + " does not declare a "@ + tool.title()
                + " bin"@,
        ),
        Some(bin) => OutcomeView::Found(
            if script_name(join_of(package_dir, bin)) {
                CommandView {
                    program: path_of("node"@),
                    args: seq![path_text(join_of(package_dir, bin))] + lsp_args(),
                    cwd: Some(dir),
                }
            } else {
                CommandView { program: join_of(package_dir, bin), args: lsp_args(), cwd: Some(dir) }
            },
        ),
    }
}

/// The command that a package's manifest gives for a tool in the project `dir`.
pub fn command_from_manifest(dir: &FsPath, manifest_path: &FsPath, package: &Json, tool: Tool) -> (r:
    Outcome<CommandSpec>)
    requires
        parent_of(manifest_path@) is Some,
    ensures
        r@ == manifest_command(dir@, manifest_path@, package@, tool),
{
    let package_dir = manifest_path.parent().unwrap();
    match bin_of(package, tool.name()) {
        None => {
            let message = concat2("package ", manifest_path.to_text().as_str());
            let message = concat2(message.as_str(), " does not declare a ");
            let message = concat2(message.as_str(), tool.name());
            Outcome::Failed(concat2(message.as_str(), " bin"))
        },
        Some(bin) => {
            let binary = package_dir.join(bin);
            if has_script_name(&binary) {
                let mut args: Vec<String> = Vec::new();
                args.push(binary.to_text());
                args.push("--lsp".to_owned());
                proof {
                    assert(texts(args@) =~= seq![path_text(binary@)] + lsp_args());
                }
                Outcome::Found(
                    CommandSpec {
                        program: FsPath::parse("node"),
                        args,
                        cwd: Some(dir.clone()),
                    },
                )
            } else {
                Outcome::Found(
                    CommandSpec {
                        program: binary,
                        args: make_lsp_args(),
                        cwd: Some(dir.clone()),
                    },
                )
            }
        },
    }
}

/// The command that the package with this manifest gives for a tool in the project `dir`. A path
/// without a parent is no file.
pub open spec fn package_command(
    f: FindingsView,
    dir: PathView,
    manifest_path: PathView,
    tool: Tool,
) -> StepView<OutcomeView<CommandView>> {
    if parent_of(manifest_path) is None {
        StepView::Known(OutcomeView::Failed("failed to read "@ + path_text(manifest_path)))
    } else {
        match manifest(f, manifest_path) {
            StepView::Ask(probe) => StepView::Ask(probe),
            StepView::Known(OutcomeView::Absent) => StepView::Known(OutcomeView::Absent),
            StepView::Known(OutcomeView::Failed(message)) => StepView::Known(
                OutcomeView::Failed(message),
            ),
            StepView::Known(OutcomeView::Found(package)) => StepView::Known(
                manifest_command(dir, manifest_path, package, tool),
            ),
        }
    }
}

fn package_command_from_package_json(
    findings: &Findings,
    dir: &FsPath,
    manifest_path: &FsPath,
    tool: Tool,
) -> (r: Step<Outcome<CommandSpec>>)
    ensures
        r@ == package_command(findings@, dir@, manifest_path@, tool),
{
    if manifest_path.parent().is_none() {
        return Step::Known(
            Outcome::Failed(concat2("failed to read ", manifest_path.to_text().as_str())),
        );
    }
    match read_manifest(findings, manifest_path) {
        Step::Ask(probe) => Step::Ask(probe),
        Step::Known(Outcome::Absent) => Step::Known(Outcome::Absent),
        Step::Known(Outcome::Failed(message)) => Step::Known(Outcome::Failed(message)),
        Step::Known(Outcome::Found(package)) => Step::Known(
            command_from_manifest(dir, manifest_path, &package, tool),
        ),
    }
}

/// The launcher of a tool that is installed in the project `dir`.
pub open spec fn launcher(dir: PathView, tool: Tool, windows: bool) -> PathView {
    child_of(
        child_of(child_of(dir, "node_modules"@), ".bin"@),
        launcher_name(tool.title(), windows),
    )
}

/// The manifest of a tool's package that is installed in the project `dir`.
pub open spec fn tool_manifest(dir: PathView, tool: Tool) -> PathView {
    child_of(child_of(child_of(dir, "node_modules"@), tool.title()), "package.json"@)
}

/// That Node could not be run.
pub open spec fn node_failure(dir: PathView, tool: Tool) -> Seq<char> {
    "failed to run node while resolving "@ + tool.title() + " from "@ + path_text(dir)
}

/// The command for a tool in the project `dir`: the launcher, or else the package's own program.
pub open spec fn local_command(f: FindingsView, windows: bool, dir: PathView, tool: Tool) -> StepView<
    OutcomeView<CommandView>,
> {
    let binary = launcher(dir, tool, windows);
    let query = NodeQueryView { base: dir, package: tool.title() };
    match f.present(binary) {
        StepView::Ask(probe) => StepView::Ask(probe),
        StepView::Known(true) => StepView::Known(
            OutcomeView::Found(CommandView { program: binary, args: lsp_args(), cwd: Some(dir) }),
        ),
        StepView::Known(false) => match f.present(tool_manifest(dir, tool)) {
            StepView::Ask(probe) => StepView::Ask(probe),
            StepView::Known(true) => package_command(f, dir, tool_manifest(dir, tool), tool),
            StepView::Known(false) => match f.resolved(query) {
                StepView::Ask(probe) => StepView::Ask(probe),
                StepView::Known(reply) => match resolved_path(reply, node_failure(dir, tool)) {
                    OutcomeView::Absent => StepView::Known(OutcomeView::Absent),
                    OutcomeView::Failed(message) => StepView::Known(OutcomeView::Failed(message)),
                    OutcomeView::Found(path) => package_command(f, dir, path_of(path), tool),
                },
            },
        },
    }
}

/// The command for a tool that is installed for all projects.
pub open spec fn global_command(f: FindingsView, windows: bool, tool: Tool) -> StepView<
    OutcomeView<CommandView>,
> {
    match program(f, launcher_name(tool.title(), windows)) {
        StepView::Ask(probe) => StepView::Ask(probe),
        StepView::Known(OutcomeView::Found(path)) => StepView::Known(
            OutcomeView::Found(CommandView { program: path, args: lsp_args(), cwd: None }),
        ),
        StepView::Known(_) => StepView::Known(OutcomeView::Absent),
    }
}

/// The command for oxfmt in the project `dir`: its own, or else that for all projects.
pub open spec fn format_command(f: FindingsView, windows: bool, dir: PathView) -> StepView<
    OutcomeView<CommandView>,
> {
    match local_command(f, windows, dir, Tool::Oxfmt) {
        StepView::Known(OutcomeView::Absent) => global_command(f, windows, Tool::Oxfmt),
        other => other,
    }
}

/// The project `dir`, if oxlint is installed in it.
pub open spec fn project_context(f: FindingsView, windows: bool, dir: PathView) -> StepView<
    OutcomeView<ContextView>,
> {
    match local_command(f, windows, dir, Tool::Oxlint) {
        StepView::Ask(probe) => StepView::Ask(probe),
        StepView::Known(OutcomeView::Absent) => StepView::Known(OutcomeView::Absent),
        StepView::Known(OutcomeView::Failed(message)) => StepView::Known(
            OutcomeView::Failed(message),
        ),
        StepView::Known(OutcomeView::Found(lint)) => match format_command(f, windows, dir) {
            StepView::Ask(probe) => StepView::Ask(probe),
            StepView::Known(OutcomeView::Failed(message)) => StepView::Known(
                OutcomeView::Failed(message),
            ),
            StepView::Known(OutcomeView::Absent) => StepView::Known(
                OutcomeView::Found(
                    ContextView {
                        key: SessionKeyView::Project(dir),
                        root: Some(dir),
                        lint_command: lint,
                        format_command: None,
                    },
                ),
            ),
            StepView::Known(OutcomeView::Found(format)) => StepView::Known(
                OutcomeView::Found(
                    ContextView {
                        key: SessionKeyView::Project(dir),
                        root: Some(dir),
                        lint_command: lint,
                        format_command: Some(format),
                    },
                ),
            ),
        },
    }
}

/// What serves files outside of projects.
pub open spec fn global_context(f: FindingsView, windows: bool) -> StepView<
    OutcomeView<ContextView>,
> {
    match global_command(f, windows, Tool::Oxlint) {
        StepView::Known(OutcomeView::Found(lint)) => match global_command(f, windows, Tool::Oxfmt) {
            StepView::Ask(probe) => StepView::Ask(probe),
            StepView::Known(OutcomeView::Found(format)) => StepView::Known(
                OutcomeView::Found(
                    ContextView {
                        key: SessionKeyView::Global,
                        root: None,
                        lint_command: lint,
                        format_command: Some(format),
                    },
                ),
            ),
            StepView::Known(_) => StepView::Known(
                OutcomeView::Found(
                    ContextView {
                        key: SessionKeyView::Global,
                        root: None,
                        lint_command: lint,
                        format_command: None,
                    },
                ),
            ),
        },
        StepView::Ask(probe) => StepView::Ask(probe),
        StepView::Known(_) => StepView::Known(OutcomeView::Absent),
    }
}

/// Whether a directory of this name is passed over.
pub open spec fn skipped(name: Seq<char>) -> bool {
    name == "node_modules"@ || begins_with(name, "."@)
}

fn should_skip_descendant(name: &str) -> (r: bool)
    ensures
        r == skipped(name@),
{
    same_text(name, "node_modules") || starts_with(name, ".")
}

/// Finds out which oxlint and oxfmt serve a file.
#[derive(Debug)]
pub struct Discovery {
    /// Whether launchers are named as on Windows.
    pub windows: bool,
}

impl ProjectSearch for Discovery {
    type Context = ProjectContext;

    open spec fn context_of(&self, f: FindingsView, dir: PathView) -> StepView<
        OutcomeView<ContextView>,
    > {
        project_context(f, self.windows, dir)
    }

    fn context_at(&self, findings: &Findings, dir: &FsPath) -> (r: Step<Outcome<ProjectContext>>) {
        self.project_at(findings, dir)
    }

    proof fn context_lasts(&self, f: FindingsView, g: FindingsView, dir: PathView) {
        let name = launcher_name(Tool::Oxfmt.title(), self.windows);
        if program(f, name) is Known {
            program_lasts(f, g, name);
        }
    }

    proof fn context_asks_anew(&self, f: FindingsView, dir: PathView) {
        let name = launcher_name(Tool::Oxfmt.title(), self.windows);
        if program(f, name) is Ask {
            program_asks_anew(f, name);
        }
    }

    open spec fn package_of(&self, f: FindingsView, dir: PathView) -> StepView<bool> {
        f.is_file(child_of(dir, "package.json"@))
    }

    fn package_at(&self, findings: &Findings, dir: &FsPath) -> (r: Step<bool>) {
        findings.is_file(dir.child("package.json"))
    }

    proof fn package_lasts(&self, f: FindingsView, g: FindingsView, dir: PathView) {
    }

    proof fn package_asks_anew(&self, f: FindingsView, dir: PathView) {
    }

    open spec fn subdirs_of(&self, listing: Seq<EntryView>, dir: PathView) -> Seq<PathView> {
        listing.filter(|e: EntryView| e.leads_to_dir && !skipped(e.name)).map_values(
            |e: EntryView| child_of(dir, e.name),
        )
    }

    fn subdirs_at(&self, listing: &Listing, dir: &FsPath) -> (r: Vec<FsPath>) {
        let ghost all = listing@;
        let ghost wanted = |e: EntryView| e.leads_to_dir && !skipped(e.name);
        let ghost path = |e: EntryView| child_of(dir@, e.name);
        let mut out: Vec<FsPath> = Vec::new();
        let mut i: usize = 0;
        proof {
            reveal(Seq::filter);
            assert(each(out@) =~= all.take(0).filter(wanted).map_values(path));
        }
        while i < listing.entries.len()
            invariant
                i <= all.len(),
                all == listing@,
                all.len() == listing.entries@.len(),
                wanted == (|e: EntryView| e.leads_to_dir && !skipped(e.name)),
                path == (|e: EntryView| child_of(dir@, e.name)),
                each(out@) == all.take(i as int).filter(wanted).map_values(path),
            decreases all.len() - i,
        {
            let entry = &listing.entries[i];
            let ghost before = each(out@);
            proof {
                assert(all.take(i + 1).drop_last() =~= all.take(i as int));
                assert(all.take(i + 1).last() == entry@);
                reveal(Seq::filter);
            }
            if entry.leads_to_dir && !should_skip_descendant(entry.name.as_str()) {
                out.push(dir.child(entry.name.as_str()));
                proof {
                    assert(each(out@) =~= before.push(child_of(dir@, entry@.name)));
                    assert(each(out@) =~= all.take(i + 1).filter(wanted).map_values(path));
                }
            }
            i += 1;
        }
        proof {
            assert(all.take(i as int) =~= all);
        }
        out
    }

    proof fn subdirs_lie_below(&self, listing: Seq<EntryView>, dir: PathView) {
    }
}

/// That a file has no directory to look in.
pub open spec fn no_parent(path: PathView) -> Seq<char> {
    "cannot determine parent directory for "@ + path_text(path)
}

/// That nothing serves a file.
pub open spec fn not_installed(path: PathView) -> Seq<char> {
    "no oxlint installation is available for "@ + path_text(path)
}

impl Discovery {
    /// The project in the directories below, if the directory is a package.
    pub open spec fn below(self, f: FindingsView, start: PathView) -> StepView<
        OutcomeView<ContextView>,
    > {
        match f.is_file(child_of(start, "package.json"@)) {
            StepView::Ask(probe) => StepView::Ask(probe),
            StepView::Known(false) => StepView::Known(OutcomeView::Absent),
            StepView::Known(true) => descend(self, f, seq![start]),
        }
    }

    /// The project that a file belongs to.
    pub open spec fn local_project(self, f: FindingsView, path: PathView) -> StepView<
        OutcomeView<ContextView>,
    > {
        match start_of(f, path, no_parent(path)) {
            StepView::Ask(probe) => StepView::Ask(probe),
            StepView::Known(OutcomeView::Absent) => StepView::Known(OutcomeView::Absent),
            StepView::Known(OutcomeView::Failed(message)) => StepView::Known(
                OutcomeView::Failed(message),
            ),
            StepView::Known(OutcomeView::Found(start)) => match nearest_above(self, f, start) {
                StepView::Known(OutcomeView::Absent) => match f.is_dir(path) {
                    StepView::Known(true) => self.below(f, start),
                    _ => StepView::Known(OutcomeView::Absent),
                },
                other => other,
            },
        }
    }

    /// What serves a file: the project that it belongs to, and else what is installed for all.
    pub open spec fn context(self, f: FindingsView, path: PathView) -> StepView<
        OutcomeView<ContextView>,
    > {
        match self.local_project(f, path) {
            StepView::Known(OutcomeView::Absent) => global_context(f, self.windows),
            other => other,
        }
    }

    /// What serves a file that must be served.
    pub open spec fn needed_context(self, f: FindingsView, path: PathView) -> StepView<
        OutcomeView<ContextView>,
    > {
        match self.context(f, path) {
            StepView::Known(OutcomeView::Absent) => StepView::Known(
                OutcomeView::Failed(not_installed(path)),
            ),
            other => other,
        }
    }

    /// Finds out what serves a file.
    pub fn maybe_context_for_uri_path(&self, findings: &Findings, file_path: &FsPath) -> (r: Step<
        Outcome<ProjectContext>,
    >)
        ensures
            r@ == self.context(findings@, file_path@),
    {
        match self.discover_local_project(findings, file_path) {
            Step::Known(Outcome::Absent) => self.discover_global_fallback(findings),
            other => other,
        }
    }

    /// Finds out what serves a file, which it is a failure not to find.
    pub fn context_for_uri_path(&self, findings: &Findings, file_path: &FsPath) -> (r: Step<
        Outcome<ProjectContext>,
    >)
        ensures
            r@ == self.needed_context(findings@, file_path@),
    {
        match self.maybe_context_for_uri_path(findings, file_path) {
            Step::Known(Outcome::Absent) => Step::Known(
                Outcome::Failed(
                    concat2(
                        "no oxlint installation is available for ",
                        file_path.to_text().as_str(),
                    ),
                ),
            ),
            other => other,
        }
    }

    fn discover_local_project(&self, findings: &Findings, file_path: &FsPath) -> (r: Step<
        Outcome<ProjectContext>,
    >)
        ensures
            r@ == self.local_project(findings@, file_path@),
    {
        let message = concat2(
            "cannot determine parent directory for ",
            file_path.to_text().as_str(),
        );
        let start = match find_start(findings, file_path, message) {
            Step::Ask(probe) => {
                return Step::Ask(probe);
            },
            Step::Known(Outcome::Absent) => {
                return Step::Known(Outcome::Absent);
            },
            Step::Known(Outcome::Failed(message)) => {
                return Step::Known(Outcome::Failed(message));
            },
            Step::Known(Outcome::Found(start)) => start,
        };
        match find_nearest_above(self, findings, &start) {
            Step::Known(Outcome::Absent) => match findings.is_dir(file_path.clone()) {
                Step::Known(true) => self.discover_descendant_project(findings, &start),
                _ => Step::Known(Outcome::Absent),
            },
            other => other,
        }
    }

    fn discover_descendant_project(&self, findings: &Findings, start: &FsPath) -> (r: Step<
        Outcome<ProjectContext>,
    >)
        ensures
            r@ == self.below(findings@, start@),
    {
        match findings.is_file(start.child("package.json")) {
            Step::Ask(probe) => Step::Ask(probe),
            Step::Known(false) => Step::Known(Outcome::Absent),
            Step::Known(true) => {
                let mut level: Vec<FsPath> = Vec::new();
                level.push(start.clone());
                proof {
                    assert(each(level@) =~= seq![start@]);
                }
                find_below(self, findings, level)
            },
        }
    }

    fn discover_global_fallback(&self, findings: &Findings) -> (r: Step<Outcome<ProjectContext>>)
        ensures
            r@ == global_context(findings@, self.windows),
    {
        let lint_command = match self.resolve_global_command(findings, Tool::Oxlint) {
            Step::Ask(probe) => {
                return Step::Ask(probe);
            },
            Step::Known(Outcome::Found(command)) => command,
            Step::Known(_) => {
                return Step::Known(Outcome::Absent);
            },
        };
        let format_command = match self.resolve_global_command(findings, Tool::Oxfmt) {
            Step::Ask(probe) => {
                return Step::Ask(probe);
            },
            Step::Known(Outcome::Found(command)) => Some(command),
            Step::Known(_) => None,
        };
        Step::Known(
            Outcome::Found(
                ProjectContext { key: SessionKey::Global, root: None, lint_command, format_command },
            ),
        )
    }

    fn project_at(&self, findings: &Findings, dir: &FsPath) -> (r: Step<Outcome<ProjectContext>>)
        ensures
            r@ == project_context(findings@, self.windows, dir@),
    {
        let lint_command = match self.resolve_local_command(findings, dir, Tool::Oxlint) {
            Step::Ask(probe) => {
                return Step::Ask(probe);
            },
            Step::Known(Outcome::Absent) => {
                return Step::Known(Outcome::Absent);
            },
            Step::Known(Outcome::Failed(message)) => {
                return Step::Known(Outcome::Failed(message));
            },
            Step::Known(Outcome::Found(command)) => command,
        };
        let format = match self.resolve_local_command(findings, dir, Tool::Oxfmt) {
            Step::Known(Outcome::Absent) => self.resolve_global_command(findings, Tool::Oxfmt),
            other => other,
        };
        let format_command = match format {
            Step::Ask(probe) => {
                return Step::Ask(probe);
            },
            Step::Known(Outcome::Failed(message)) => {
                return Step::Known(Outcome::Failed(message));
            },
            Step::Known(Outcome::Absent) => None,
            Step::Known(Outcome::Found(command)) => Some(command),
        };
        Step::Known(
            Outcome::Found(
                ProjectContext {
                    key: SessionKey::Project(dir.clone()),
                    root: Some(dir.clone()),
                    lint_command,
                    format_command,
                },
            ),
        )
    }

    /// The command for a tool in the project `dir`.
    pub fn resolve_local_command(&self, findings: &Findings, dir: &FsPath, tool: Tool) -> (r: Step<
        Outcome<CommandSpec>,
    >)
        ensures
            r@ == local_command(findings@, self.windows, dir@, tool),
    {
        let launcher_file = executable_name(tool.name(), self.windows);
        let modules = dir.child("node_modules");
        let binary = modules.child(".bin").child(launcher_file.as_str());
        match findings.present(binary.clone()) {
            Step::Ask(probe) => {
                return Step::Ask(probe);
            },
            Step::Known(true) => {
                return Step::Known(
                    Outcome::Found(
                        CommandSpec {
                            program: binary,
                            args: make_lsp_args(),
                            cwd: Some(dir.clone()),
                        },
                    ),
                );
            },
            Step::Known(false) => {},
        }
        let manifest_path = modules.child(tool.name()).child("package.json");
        match findings.present(manifest_path.clone()) {
            Step::Ask(probe) => {
                return Step::Ask(probe);
            },
            Step::Known(true) => {
                return package_command_from_package_json(findings, dir, &manifest_path, tool);
            },
            Step::Known(false) => {},
        }
        match self.resolve_package_json_with_node(findings, dir, tool) {
            Step::Ask(probe) => Step::Ask(probe),
            Step::Known(Outcome::Absent) => Step::Known(Outcome::Absent),
            Step::Known(Outcome::Failed(message)) => Step::Known(Outcome::Failed(message)),
            Step::Known(Outcome::Found(path)) => package_command_from_package_json(
                findings,
                dir,
                &FsPath::parse(path.as_str()),
                tool,
            ),
        }
    }

    fn resolve_package_json_with_node(&self, findings: &Findings, dir: &FsPath, tool: Tool) -> (r:
        Step<Outcome<String>>)
        ensures
            r@ == (match findings@.resolved(NodeQueryView { base: dir@, package: tool.title() }) {
                StepView::Ask(probe) => StepView::Ask(probe),
                StepView::Known(reply) => StepView::Known(
                    resolved_path(reply, node_failure(dir@, tool)),
                ),
            }),
    {
        let query = NodeQuery { base: dir.clone(), package: tool.name().to_owned() };
        match findings.resolved(query) {
            Step::Ask(probe) => Step::Ask(probe),
            Step::Known(reply) => {
                let message = concat2("failed to run node while resolving ", tool.name());
                let message = concat2(message.as_str(), " from ");
                let message = concat2(message.as_str(), dir.to_text().as_str());
                Step::Known(path_from_node(reply, message))
            },
        }
    }

    fn resolve_global_command(&self, findings: &Findings, tool: Tool) -> (r: Step<
        Outcome<CommandSpec>,
    >)
        ensures
            r@ == global_command(findings@, self.windows, tool),
    {
        let name = executable_name(tool.name(), self.windows);
        match find_in_path(findings, name.as_str()) {
            Step::Ask(probe) => Step::Ask(probe),
            Step::Known(Outcome::Found(program)) => Step::Known(
                Outcome::Found(CommandSpec { program, args: make_lsp_args(), cwd: None }),
            ),
            Step::Known(_) => Step::Known(Outcome::Absent),
        }
    }
}

proof fn above_lasts(discovery: Discovery, f: FindingsView, g: FindingsView, start: PathView)
    requires
        f.within(g),
        nearest_above(discovery, f, start) is Known,
    ensures
        nearest_above(discovery, g, start) == nearest_above(discovery, f, start),
{
    nearest_lasts(discovery, f, g, ancestors_of(start), true);
    if nearest(discovery, f, ancestors_of(start), true) == StepView::Known(
        OutcomeView::<ContextView>::Absent,
    ) {
        nearest_lasts(discovery, f, g, ancestors_of(start), false);
    }
}

/// What is known of what serves a file stays known, however much more is found out.
pub proof fn context_lasts(discovery: Discovery, f: FindingsView, g: FindingsView, path: PathView)
    requires
        f.within(g),
        discovery.context(f, path) is Known,
    ensures
        discovery.context(g, path) == discovery.context(f, path),
{
    let lint = launcher_name(Tool::Oxlint.title(), discovery.windows);
    let format = launcher_name(Tool::Oxfmt.title(), discovery.windows);
    if program(f, lint) is Known {
        program_lasts(f, g, lint);
    }
    if program(f, format) is Known {
        program_lasts(f, g, format);
    }
    if let StepView::Known(OutcomeView::Found(start)) = start_of(f, path, no_parent(path)) {
        above_lasts(discovery, f, g, start);
        if descend(discovery, f, seq![start]) is Known {
            descend_lasts(discovery, f, g, seq![start]);
        }
    }
}

/// The search for what serves a file asks nothing twice.
pub proof fn context_asks_anew(discovery: Discovery, f: FindingsView, path: PathView)
    requires
        discovery.context(f, path) is Ask,
    ensures
        !f.answered(discovery.context(f, path)->Ask_0),
{
    let lint = launcher_name(Tool::Oxlint.title(), discovery.windows);
    let format = launcher_name(Tool::Oxfmt.title(), discovery.windows);
    if program(f, lint) is Ask {
        program_asks_anew(f, lint);
    }
    if program(f, format) is Ask {
        program_asks_anew(f, format);
    }
    if let StepView::Known(OutcomeView::Found(start)) = start_of(f, path, no_parent(path)) {
        let dirs = ancestors_of(start);
        if nearest(discovery, f, dirs, true) is Ask {
            nearest_asks_anew(discovery, f, dirs, true);
        }
        if nearest(discovery, f, dirs, false) is Ask {
            nearest_asks_anew(discovery, f, dirs, false);
        }
        if descend(discovery, f, seq![start]) is Ask {
            descend_asks_anew(discovery, f, seq![start]);
        }
    }
}

/// A launcher that a project has is what runs the tool in it.
pub proof fn launchers_come_first(f: FindingsView, windows: bool, dir: PathView, tool: Tool)
    requires
        f.present(launcher(dir, tool, windows)) == StepView::Known(true),
    ensures
        local_command(f, windows, dir, tool) == StepView::Known(
            OutcomeView::Found(
                CommandView {
                    program: launcher(dir, tool, windows),
                    args: lsp_args(),
                    cwd: Some(dir),
                },
            ),
        ),
{
}

/// A file is served by the nearest package, of those that it lies in, that has its own oxlint.
pub proof fn nearest_package_serves(
    discovery: Discovery,
    f: FindingsView,
    path: PathView,
    start: PathView,
    i: int,
)
    requires
        start_of(f, path, no_parent(path)) == StepView::Known(OutcomeView::Found(start)),
        0 <= i < ancestors_of(start).len(),
        forall|j: int|
            0 <= j < i ==> no_project_package(discovery, f, #[trigger] ancestors_of(start)[j]),
        f.present(child_of(ancestors_of(start)[i], "package.json"@)) == StepView::Known(true),
        project_context(f, discovery.windows, ancestors_of(start)[i]) matches StepView::Known(
            OutcomeView::Found(_),
        ),
    ensures
        discovery.context(f, path) == project_context(
            f,
            discovery.windows,
            ancestors_of(start)[i],
        ),
{
    nearest_package_is_found(discovery, f, ancestors_of(start), i);
}

/// What is installed for all projects serves a file only where no project does.
pub proof fn global_tools_are_a_fallback(discovery: Discovery, f: FindingsView, path: PathView)
    requires
        discovery.context(f, path) matches StepView::Known(OutcomeView::Found(context))
            && context.key == SessionKeyView::Global,
    ensures
        discovery.local_project(f, path) == StepView::Known(OutcomeView::<ContextView>::Absent),
{
    if discovery.local_project(f, path) != StepView::Known(OutcomeView::<ContextView>::Absent) {
        let start = start_of(f, path, no_parent(path))->Known_0->Found_0;
        let dirs = ancestors_of(start);
        if nearest(discovery, f, dirs, true) matches StepView::Known(OutcomeView::Found(_)) {
            let _ = nearest_is_first(discovery, f, dirs, true);
        } else if nearest(discovery, f, dirs, false) matches StepView::Known(
            OutcomeView::Found(_),
        ) {
            let _ = nearest_is_first(discovery, f, dirs, false);
        } else {
            let _ = descend_ends_at_a_project(discovery, f, seq![start]);
        }
    }
}

} // verus!
