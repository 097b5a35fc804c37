//! Which native TypeScript compiler serves a file.

use vstd::prelude::*;
use vstd::string::*;
use crate::disk::{
    path_from_node, resolved_path, EntryView, FileHead, FileHeadView, FileText, FileTextView,
    Findings, FindingsView, Listing, NodeQuery, NodeQueryView, Outcome, OutcomeView, ProbeView,
    RealPath, RealPathView, Step, StepView,
};
use crate::json::{json_get, json_get_str, Json, JsonView};
use crate::json_text::{json_document, parse_json};
use crate::package::{
    bin_of, contains_any, declared_bin, executable_name, find_in_path, has_script_name, holds_any,
    holds_any_asks_anew, holds_any_lasts, launcher_name, manifest, program, program_asks_anew,
    program_lasts, read_manifest, script_name,
};
use crate::path::{
    ancestors_of, child_of, join_of, name_of, parent_of, path_of, path_text, plain, FsPath,
    PathView,
};
use crate::search::{
    descend, descend_asks_anew, descend_ends_at_a_project, descend_lasts, find_below,
    find_nearest_above, find_start, nearest, nearest_above, nearest_asks_anew, nearest_is_first,
    nearest_lasts, nearest_package_is_found, no_project_package, start_of, ProjectSearch,
};
use crate::sort::{sort, sorted, sorted_is_ordered};
use crate::text::{
    begins_with, chars_of, concat2, parse_u32, same_text, slice_text, split, split_is_never_empty,
    split_on, starts_with, texts, u32_of,
};
use crate::views::{each, opt};

pub use crate::project::{CommandSpec, CommandView, SessionKey, SessionKeyView};

verus! {

/// The first major version of TypeScript that is built on the native compiler.
pub const MINIMUM_TYPESCRIPT_MAJOR: u32 = 7;

/// The command that serves a project.
#[derive(Debug, PartialEq, Eq)]
pub struct ProjectContext {
    pub key: SessionKey,
    pub root: Option<FsPath>,
    pub command: CommandSpec,
}

/// The command that serves a project.
#[verifier::ext_equal]
pub struct ContextView {
    pub key: SessionKeyView,
    pub root: Option<PathView>,
    pub command: CommandView,
}

impl View for ProjectContext {
    type V = ContextView;

    open spec fn view(&self) -> ContextView {
        ContextView { key: self.key@, root: opt(self.root), command: self.command@ }
    }
}

/// The machine: how launchers are named, and the names of its system and architecture.
#[derive(Debug, PartialEq, Eq)]
pub struct Host {
    pub windows: bool,
    pub os: String,
    pub arch: String,
}

/// The machine: how launchers are named, and the names of its system and architecture.
#[verifier::ext_equal]
pub struct HostView {
    pub windows: bool,
    pub os: Seq<char>,
    pub arch: Seq<char>,
}

impl View for Host {
    type V = HostView;

    open spec fn view(&self) -> HostView {
        HostView { windows: self.windows, os: self.os@, arch: self.arch@ }
    }
}

/// The arguments with which the compiler serves an editor.
pub open spec fn lsp_args() -> Seq<Seq<char>> {
    seq!["--lsp"@, "--stdio"@]
}

fn make_lsp_args() -> (r: Vec<String>)
    ensures
        texts(r@) == lsp_args(),
{
    let mut args: Vec<String> = Vec::new();
    args.push("--lsp".to_owned());
    args.push("--stdio".to_owned());
    proof {
        assert(texts(args@) =~= lsp_args());
    }
    args
}

/// What Node calls the operating system.
pub open spec fn platform_of(os: Seq<char>) -> Option<Seq<char>> {
    if os == "linux"@ {
        Some("linux"@)
    } else if os == "macos"@ {
        Some("darwin"@)
    } else if os == "windows"@ {
        Some("win32"@)
    } else if os == "freebsd"@ {
        Some("freebsd"@)
    } else if os == "netbsd"@ {
        Some("netbsd"@)
    } else if os == "openbsd"@ {
        Some("openbsd"@)
    } else if os == "aix"@ {
        Some("aix"@)
    } else if os == "solaris"@ || os == "illumos"@ {
        Some("sunos"@)
    } else {
        None
    }
}

/// What Node calls the architecture.
pub open spec fn arch_of(arch: Seq<char>) -> Option<Seq<char>> {
    if arch == "x86_64"@ {
        Some("x64"@)
    } else if arch == "aarch64"@ {
        Some("arm64"@)
    } else if arch == "arm"@ {
        Some("arm"@)
    } else if arch == "powerpc64"@ {
        Some("ppc64"@)
    } else if arch == "s390x"@ {
        Some("s390x"@)
    } else if arch == "riscv64"@ {
        Some("riscv64"@)
    } else if arch == "loongarch64"@ {
        Some("loong64"@)
    } else {
        None
    }
}

/// What Node calls the operating system.
pub fn node_platform(os: &str) -> (r: Option<String>)
    ensures
        opt(r) == platform_of(os@),
{
    if same_text(os, "linux") {
        Some("linux".to_owned())
    } else if same_text(os, "macos") {
        Some("darwin".to_owned())
    } else if same_text(os, "windows") {
        Some("win32".to_owned())
    } else if same_text(os, "freebsd") {
        Some("freebsd".to_owned())
    } else if same_text(os, "netbsd") {
        Some("netbsd".to_owned())
    } else if same_text(os, "openbsd") {
        Some("openbsd".to_owned())
    } else if same_text(os, "aix") {
        Some("aix".to_owned())
    } else if same_text(os, "solaris") || same_text(os, "illumos") {
        Some("sunos".to_owned())
    } else {
        None
    }
}

/// What Node calls the architecture.
pub fn node_arch(arch: &str) -> (r: Option<String>)
    ensures
        opt(r) == arch_of(arch@),
{
    if same_text(arch, "x86_64") {
        Some("x64".to_owned())
    } else if same_text(arch, "aarch64") {
        Some("arm64".to_owned())
    } else if same_text(arch, "arm") {
        Some("arm".to_owned())
    } else if same_text(arch, "powerpc64") {
        Some("ppc64".to_owned())
    } else if same_text(arch, "s390x") {
        Some("s390x".to_owned())
    } else if same_text(arch, "riscv64") {
        Some("riscv64".to_owned())
    } else if same_text(arch, "loongarch64") {
        Some("loong64".to_owned())
    } else {
        None
    }
}

/// What stands ahead of the first full stop or hyphen of a version.
pub open spec fn major_text(version: Seq<char>) -> Seq<char>
    decreases version.len(),
{
    if version.len() == 0 || version[0] == '.' || version[0] == '-' {
        Seq::empty()
    } else {
        seq![version[0]] + major_text(version.drop_first())
    }
}

/// Whether a manifest of TypeScript is that of a version built on the native compiler.
pub open spec fn supported_version(package: JsonView) -> bool {
    match json_get_str(package, "version"@) {
        None => false,
        Some(version) => match u32_of(major_text(version)) {
            None => false,
            Some(major) => major >= MINIMUM_TYPESCRIPT_MAJOR,
        },
    }
}

/// The major version is what stands ahead of the first full stop or hyphen.
pub proof fn major_is_a_prefix(version: Seq<char>, n: int)
    requires
        0 <= n <= version.len(),
        forall|j: int| 0 <= j < n ==> version[j] != '.' && version[j] != '-',
        n < version.len() ==> version[n] == '.' || version[n] == '-',
    ensures
        major_text(version) == version.take(n),
    decreases version.len(),
{
    if n > 0 {
        major_is_a_prefix(version.drop_first(), n - 1);
        assert(version.take(n) =~= seq![version[0]] + version.drop_first().take(n - 1));
    } else {
        assert(version.take(n) =~= Seq::<char>::empty());
    }
}

/// Whether a manifest of TypeScript is that of a version built on the native compiler.
pub fn is_supported_typescript_version(package: &Json) -> (r: bool)
    ensures
        r == supported_version(package@),
{
    let version = match package.get_str("version") {
        None => {
            return false;
        },
        Some(version) => version,
    };
    let chars = chars_of(version);
    let mut n: usize = 0;
    while n < chars.len() && chars[n] != '.' && chars[n] != '-'
        invariant
            n <= chars@.len(),
            forall|j: int| 0 <= j < n ==> chars@[j] != '.' && chars@[j] != '-',
        decreases chars@.len() - n,
    {
        n += 1;
    }
    proof {
        major_is_a_prefix(chars@, n as int);
    }
    let major = slice_text(&chars, 0, n);
    proof {
        assert(chars@.take(n as int) =~= chars@.subrange(0, n as int));
    }
    match parse_u32(major.as_str()) {
        None => false,
        Some(major) => major >= MINIMUM_TYPESCRIPT_MAJOR,
    }
}

/// The first of the directories that is called `node_modules`.
pub open spec fn first_modules_dir(dirs: Seq<PathView>) -> Option<PathView>
    decreases dirs.len(),
{
    if dirs.len() == 0 {
        None
    } else if name_of(dirs[0]) == Some("node_modules"@) {
        Some(dirs[0])
    } else {
        first_modules_dir(dirs.drop_first())
    }
}

fn find_modules_dir(path: &FsPath) -> (r: Option<FsPath>)
    ensures
        opt(r) == first_modules_dir(ancestors_of(path@)),
{
    let dirs = path.ancestors();
    let ghost all = ancestors_of(path@);
    let mut i: usize = 0;
    proof {
        assert(each(dirs@) =~= all);
        assert(all.skip(0) =~= all);
    }
    while i < dirs.len()
        invariant
            i <= dirs@.len(),
            each(dirs@) == all,
            first_modules_dir(all) == first_modules_dir(all.skip(i as int)),
            all == ancestors_of(path@),
        decreases dirs@.len() - i,
    {
        proof {
            assert(all.skip(i as int)[0] == dirs@[i as int]@);
            assert(all.skip(i as int).drop_first() =~= all.skip(i + 1));
        }
        match dirs[i].file_name() {
            Some(name) => {
                if same_text(name.as_str(), "node_modules") {
                    return Some(dirs[i].clone());
                }
            },
            None => {},
        }
        i += 1;
    }
    proof {
        assert(all.skip(i as int).len() == 0);
    }
    None
}

/// The native program in a directory of packages.
pub open spec fn platform_file(
    modules: PathView,
    base: Seq<char>,
    platform: Seq<char>,
    arch: Seq<char>,
    bin: Seq<char>,
    windows: bool,
) -> PathView {
    let package = base + "-"@ + platform + "-"@ + arch;
    let file = if windows {
        bin + ".exe"@
    } else {
        bin
    };
    child_of(child_of(child_of(child_of(modules, "@typescript"@), package), "lib"@), file)
}

/// The native program that the package in the directory would itself start.
pub open spec fn platform_binary(
    f: FindingsView,
    host: HostView,
    package_dir: PathView,
    package_name: Seq<char>,
    bin: Seq<char>,
) -> StepView<OutcomeView<PathView>> {
    match (platform_of(host.os), arch_of(host.arch)) {
        (Some(platform), Some(arch)) => match f.real_path(package_dir) {
            StepView::Ask(probe) => StepView::Ask(probe),
            StepView::Known(resolved) => {
                let dir = match resolved {
                    RealPathView::Unknown => package_dir,
                    RealPathView::Path(path) => path,
                };
                match first_modules_dir(ancestors_of(dir)) {
                    None => StepView::Known(OutcomeView::Absent),
                    Some(modules) => {
                        let base = split_on(package_name, '/').last();
                        let binary = platform_file(modules, base, platform, arch, bin, host.windows);
                        match f.is_file(binary) {
                            StepView::Ask(probe) => StepView::Ask(probe),
                            StepView::Known(true) => StepView::Known(OutcomeView::Found(binary)),
                            StepView::Known(false) => StepView::Known(OutcomeView::Absent),
                        }
                    },
                }
            },
        },
        _ => StepView::Known(OutcomeView::Absent),
    }
}

fn find_platform_binary(
    findings: &Findings,
    host: &Host,
    package_dir: &FsPath,
    package_name: &str,
    bin: &str,
) -> (r: Step<Outcome<FsPath>>)
    ensures
        r@ == platform_binary(findings@, host@, package_dir@, package_name@, bin@),
{
    let platform = match node_platform(host.os.as_str()) {
        None => {
            return Step::Known(Outcome::Absent);
        },
        Some(platform) => platform,
    };
    let arch = match node_arch(host.arch.as_str()) {
        None => {
            return Step::Known(Outcome::Absent);
        },
        Some(arch) => arch,
    };
    let dir = match findings.real_path(package_dir.clone()) {
        Step::Ask(probe) => {
            return Step::Ask(probe);
        },
        Step::Known(RealPath::Unknown) => package_dir.clone(),
        Step::Known(RealPath::Path(path)) => path.clone(),
    };
    let modules = match find_modules_dir(&dir) {
        None => {
            return Step::Known(Outcome::Absent);
        },
        Some(modules) => modules,
    };
    let pieces = split(package_name, '/');
    proof {
        split_is_never_empty(package_name@, '/');
        assert(texts(pieces@).len() == pieces@.len());
        assert(texts(pieces@).last() == pieces@.last()@);
    }
    let last: usize = pieces.len() - 1;
    let package = concat2(pieces[last].as_str(), "-");
    let package = concat2(package.as_str(), platform.as_str());
    let package = concat2(package.as_str(), "-");
    let package = concat2(package.as_str(), arch.as_str());
    let file = if host.windows {
        concat2(bin, ".exe")
    } else {
        bin.to_owned()
    };
    let binary = modules.child("@typescript").child(package.as_str()).child("lib").child(
        file.as_str(),
    );
    match findings.is_file(binary.clone()) {
        Step::Ask(probe) => Step::Ask(probe),
        Step::Known(true) => Step::Known(Outcome::Found(binary)),
        Step::Known(false) => Step::Known(Outcome::Absent),
    }
}

/// The bytes ahead of the first line feed.
pub open spec fn first_line(bytes: Seq<u8>) -> Seq<u8>
    decreases bytes.len(),
{
    if bytes.len() == 0 || bytes[0] == 10 {
        Seq::empty()
    } else {
        seq![bytes[0]] + first_line(bytes.drop_first())
    }
}

/// Whether the bytes of `node` stand at the position.
pub open spec fn node_at(bytes: Seq<u8>, i: int) -> bool {
    &&& 0 <= i
    &&& i + 4 <= bytes.len()
    &&& bytes[i] == 110
    &&& bytes[i + 1] == 111
    &&& bytes[i + 2] == 100
    &&& bytes[i + 3] == 101
}

/// Whether a file that starts with these bytes says in its first line that Node runs it.
pub open spec fn node_shebang(head: Seq<u8>) -> bool {
    let line = first_line(head);
    &&& line.len() >= 2
    &&& line[0] == 35
    &&& line[1] == 33
    &&& exists|i: int| node_at(line, i)
}

/// The first line is what stands ahead of the first line feed.
pub proof fn first_line_is_a_prefix(bytes: Seq<u8>, n: int)
    requires
        0 <= n <= bytes.len(),
        forall|j: int| 0 <= j < n ==> bytes[j] != 10,
        n < bytes.len() ==> bytes[n] == 10,
    ensures
        first_line(bytes) == bytes.take(n),
    decreases bytes.len(),
{
    if n > 0 {
        first_line_is_a_prefix(bytes.drop_first(), n - 1);
        assert(bytes.take(n) =~= seq![bytes[0]] + bytes.drop_first().take(n - 1));
    } else {
        assert(bytes.take(n) =~= Seq::<u8>::empty());
    }
}

/// Whether a file that starts with these bytes says in its first line that Node runs it.
pub fn is_node_shebang(head: &Vec<u8>) -> (r: bool)
    ensures
        r == node_shebang(head@),
{
    let mut n: usize = 0;
    while n < head.len() && head[n] != 10
        invariant
            n <= head@.len(),
            forall|j: int| 0 <= j < n ==> head@[j] != 10,
        decreases head@.len() - n,
    {
        n += 1;
    }
    let ghost line = head@.take(n as int);
    proof {
        first_line_is_a_prefix(head@, n as int);
    }
    if n < 2 || head[0] != 35 || head[1] != 33 {
        return false;
    }
    let mut i: usize = 0;
    while i < n && 4 <= n - i
        invariant
            i <= n <= head@.len(),
            line == head@.take(n as int),
            line == first_line(head@),
            line.len() >= 2 && line[0] == 35 && line[1] == 33,
            forall|j: int| 0 <= j < i ==> !node_at(line, j),
        decreases n - i,
    {
        if head[i] == 110 && head[i + 1] == 111 && head[i + 2] == 100 && head[i + 3] == 101 {
            proof {
                assert(node_at(line, i as int));
            }
            return true;
        }
        i += 1;
    }
    false
}

/// Whether Node runs the file.
pub open spec fn node_script(f: FindingsView, path: PathView) -> StepView<bool> {
    if script_name(path) {
        StepView::Known(true)
    } else {
        match f.head(path) {
            StepView::Ask(probe) => StepView::Ask(probe),
            StepView::Known(FileHeadView::Unreadable) => StepView::Known(false),
            StepView::Known(FileHeadView::Bytes(head)) => StepView::Known(node_shebang(head)),
        }
    }
}

fn is_node_entrypoint(findings: &Findings, path: &FsPath) -> (r: Step<bool>)
    ensures
        r@ == node_script(findings@, path@),
{
    if has_script_name(path) {
        return Step::Known(true);
    }
    match findings.head(path.clone()) {
        Step::Ask(probe) => Step::Ask(probe),
        Step::Known(FileHead::Unreadable) => Step::Known(false),
        Step::Known(FileHead::Bytes(head)) => Step::Known(is_node_shebang(head)),
    }
}

/// The name that a manifest gives its package.
pub open spec fn package_name(package: JsonView) -> Seq<char> {
    match json_get_str(package, "name"@) {
        Some(name) => name,
        None => "@typescript/native-preview"@,
    }
}

/// The command that a package's manifest gives in the project `dir`: the native program, or else
/// what the manifest declares.
pub open spec fn manifest_command(
    f: FindingsView,
    host: HostView,
    dir: PathView,
    manifest_path: PathView,
    package: JsonView,
) -> StepView<OutcomeView<CommandView>> {
    let name = package_name(package);
    let bin = if name == "typescript"@ {
        "tsc"@
    } else {
        "tsgo"@
    };
    if name == "typescript"@ && !supported_version(package) {
        StepView::Known(OutcomeView::Absent)
    } else {
        match parent_of(manifest_path) {
            None => StepView::Known(
                OutcomeView::Failed("package path has no parent: "@ + path_text(manifest_path)),
            ),
            Some(package_dir) => match platform_binary(f, host, package_dir, name, bin) {
                StepView::Ask(probe) => StepView::Ask(probe),
                StepView::Known(OutcomeView::Found(native)) => StepView::Known(
                    OutcomeView::Found(
                        CommandView { program: native, args: lsp_args(), cwd: Some(dir) },
                    ),
                ),
                StepView::Known(_) => match declared_bin(package, bin) {
                    None => StepView::Known(OutcomeView::Absent),
                    Some(relative) => {
                        let binary = plain(join_of(package_dir, relative));
                        match node_script(f, binary) {
                            StepView::Ask(probe) => StepView::Ask(probe),
                            StepView::Known(true) => StepView::Known(
                                OutcomeView::Found(
                                    CommandView {
                                        program: path_of("node"@),
                                        args: seq![path_text(binary)] + lsp_args(),
                                        cwd: Some(dir),
                                    },
                                ),
                            ),
                            StepView::Known(false) => StepView::Known(
                                OutcomeView::Found(
                                    CommandView {
                                        program: binary,
                                        args: lsp_args(),
                                        cwd: Some(dir),
                                    },
                                ),
                            ),
                        }
                    },
                },
            },
        }
    }
}

/// The command that a package's manifest gives in the project `dir`.
pub fn command_from_manifest(
    findings: &Findings,
    host: &Host,
    dir: &FsPath,
    manifest_path: &FsPath,
    package: &Json,
) -> (r: Step<Outcome<CommandSpec>>)
    ensures
        r@ == manifest_command(findings@, host@, dir@, manifest_path@, package@),
{
    let name = match package.get_str("name") {
        Some(name) => name,
        None => "@typescript/native-preview",
    };
    let is_typescript = same_text(name, "typescript");
    if is_typescript && !is_supported_typescript_version(package) {
        return Step::Known(Outcome::Absent);
    }
    let bin = if is_typescript {
        "tsc"
    } else {
        "tsgo"
    };
    let package_dir = match manifest_path.parent() {
        None => {
            return Step::Known(
                Outcome::Failed(
                    concat2("package path has no parent: ", manifest_path.to_text().as_str()),
                ),
            );
        },
        Some(package_dir) => package_dir,
    };
    match find_platform_binary(findings, host, &package_dir, name, bin) {
        Step::Ask(probe) => {
            return Step::Ask(probe);
        },
        Step::Known(Outcome::Found(native)) => {
            return Step::Known(
                Outcome::Found(
                    CommandSpec { program: native, args: make_lsp_args(), cwd: Some(dir.clone()) },
                ),
            );
        },
        Step::Known(_) => {},
    }
    let relative = match bin_of(package, bin) {
        None => {
            return Step::Known(Outcome::Absent);
        },
        Some(relative) => relative,
    };
    let binary = package_dir.join(relative).normal();
    match is_node_entrypoint(findings, &binary) {
        Step::Ask(probe) => Step::Ask(probe),
        Step::Known(true) => {
            let mut args: Vec<String> = Vec::new();
            args.push(binary.to_text());
            args.push("--lsp".to_owned());
            args.push("--stdio".to_owned());
            proof {
                assert(texts(args@) =~= seq![path_text(binary@)] + lsp_args());
            }
            Step::Known(
                Outcome::Found(
                    CommandSpec { program: FsPath::parse("node"), args, cwd: Some(dir.clone()) },
                ),
            )
        },
        Step::Known(false) => Step::Known(
            Outcome::Found(
                CommandSpec { program: binary, args: make_lsp_args(), cwd: Some(dir.clone()) },
            ),
        ),
    }
}

/// The command that the package with this manifest gives in the project `dir`.
pub open spec fn package_command(
    f: FindingsView,
    host: HostView,
    dir: PathView,
    manifest_path: PathView,
) -> StepView<OutcomeView<CommandView>> {
    match manifest(f, manifest_path) {
        StepView::Ask(probe) => StepView::Ask(probe),
        StepView::Known(OutcomeView::Absent) => StepView::Known(OutcomeView::Absent),
        StepView::Known(OutcomeView::Failed(message)) => StepView::Known(
            OutcomeView::Failed(message),
        ),
        StepView::Known(OutcomeView::Found(package)) => manifest_command(
            f,
            host,
            dir,
            manifest_path,
            package,
        ),
    }
}

fn package_command_from_package_json(
    findings: &Findings,
    host: &Host,
    dir: &FsPath,
    manifest_path: &FsPath,
) -> (r: Step<Outcome<CommandSpec>>)
    ensures
        r@ == package_command(findings@, host@, dir@, manifest_path@),
{
    match read_manifest(findings, manifest_path) {
        Step::Ask(probe) => Step::Ask(probe),
        Step::Known(Outcome::Absent) => Step::Known(Outcome::Absent),
        Step::Known(Outcome::Failed(message)) => Step::Known(Outcome::Failed(message)),
        Step::Known(Outcome::Found(package)) => command_from_manifest(
            findings,
            host,
            dir,
            manifest_path,
            &package,
        ),
    }
}

/// The manifest of a package that is installed in the project `dir`.
pub open spec fn installed_manifest(dir: PathView, name: Seq<char>) -> PathView {
    child_of(join_of(child_of(dir, "node_modules"@), name), "package.json"@)
}

/// The command that a package gives that is installed in the project `dir`.
pub open spec fn installed_command(
    f: FindingsView,
    host: HostView,
    dir: PathView,
    name: Seq<char>,
) -> StepView<OutcomeView<CommandView>> {
    match f.present(installed_manifest(dir, name)) {
        StepView::Ask(probe) => StepView::Ask(probe),
        StepView::Known(false) => StepView::Known(OutcomeView::Absent),
        StepView::Known(true) => package_command(f, host, dir, installed_manifest(dir, name)),
    }
}

/// That Node could not be run.
pub open spec fn node_failure(dir: PathView) -> Seq<char> {
    "failed to run node while resolving @typescript/native-preview or typescript from "@ + path_text(
        dir,
    )
}

/// The command that the package gives to which Node resolves the compiler from the project `dir`.
pub open spec fn resolved_command(f: FindingsView, host: HostView, dir: PathView) -> StepView<
    OutcomeView<CommandView>,
> {
    match f.resolved(NodeQueryView { base: dir, package: "@typescript/native-preview"@ }) {
        StepView::Ask(probe) => StepView::Ask(probe),
        StepView::Known(reply) => match resolved_path(reply, node_failure(dir)) {
            OutcomeView::Absent => StepView::Known(OutcomeView::Absent),
            OutcomeView::Failed(message) => StepView::Known(OutcomeView::Failed(message)),
            OutcomeView::Found(path) => package_command(f, host, dir, path_of(path)),
        },
    }
}

/// The launcher that is installed in the project `dir`.
pub open spec fn launcher(dir: PathView, windows: bool) -> PathView {
    child_of(
        child_of(child_of(dir, "node_modules"@), ".bin"@),
        launcher_name("tsgo"@, windows),
    )
}

/// The command of the project `dir`: the launcher, or else what the preview package gives, or else
/// what TypeScript gives, or else what Node resolves.
pub open spec fn local_command(f: FindingsView, host: HostView, dir: PathView) -> StepView<
    OutcomeView<CommandView>,
> {
    let binary = launcher(dir, host.windows);
    match f.present(binary) {
        StepView::Ask(probe) => StepView::Ask(probe),
        StepView::Known(true) => StepView::Known(
            OutcomeView::Found(CommandView { program: binary, args: lsp_args(), cwd: Some(dir) }),
        ),
        StepView::Known(false) => match installed_command(
            f,
            host,
            dir,
            "@typescript/native-preview"@,
        ) {
            StepView::Known(OutcomeView::Absent) => match installed_command(
                f,
                host,
                dir,
                "typescript"@,
            ) {
                StepView::Known(OutcomeView::Absent) => resolved_command(f, host, dir),
                other => other,
            },
            other => other,
        },
    }
}

/// The project `dir`, if the compiler is installed in it.
pub open spec fn project_context(f: FindingsView, host: HostView, dir: PathView) -> StepView<
    OutcomeView<ContextView>,
> {
    match local_command(f, host, dir) {
        StepView::Ask(probe) => StepView::Ask(probe),
        StepView::Known(OutcomeView::Absent) => StepView::Known(OutcomeView::Absent),
        StepView::Known(OutcomeView::Failed(message)) => StepView::Known(
            OutcomeView::Failed(message),
        ),
        StepView::Known(OutcomeView::Found(command)) => StepView::Known(
            OutcomeView::Found(
                ContextView { key: SessionKeyView::Project(dir), root: Some(dir), command },
            ),
        ),
    }
}

/// Whether a directory of this name is looked into.
pub open spec fn looked_into(name: Seq<char>) -> bool {
    name != "node_modules"@ && name != "target"@ && !begins_with(name, "."@)
}

fn is_looked_into(name: &str) -> (r: bool)
    ensures
        r == looked_into(name@),
{
    !same_text(name, "node_modules") && !same_text(name, "target") && !starts_with(name, ".")
}

/// What a directory that projects may lie below holds.
pub open spec fn workspace_markers() -> Seq<Seq<char>> {
    seq![".git"@, ".svn"@, ".jj"@, ".helix"@, "pnpm-workspace.yaml"@]
}

/// Whether projects may lie below the directory: it is the root of a checkout or of a workspace.
pub open spec fn scanned(f: FindingsView, dir: PathView) -> StepView<bool> {
    match holds_any(f, dir, workspace_markers()) {
        StepView::Known(false) => match f.text(child_of(dir, "package.json"@)) {
            StepView::Ask(probe) => StepView::Ask(probe),
            StepView::Known(FileTextView::Unreadable(_)) => StepView::Known(false),
            StepView::Known(FileTextView::Text(raw)) => StepView::Known(
                match json_document(raw) {
                    None => false,
                    Some(package) => json_get(package, "workspaces"@) is Some,
                },
            ),
        },
        other => other,
    }
}

fn should_scan_descendants(findings: &Findings, dir: &FsPath) -> (r: Step<bool>)
    ensures
        r@ == scanned(findings@, dir@),
{
    let mut markers: Vec<String> = Vec::new();
    markers.push(".git".to_owned());
    markers.push(".svn".to_owned());
    markers.push(".jj".to_owned());
    markers.push(".helix".to_owned());
    markers.push("pnpm-workspace.yaml".to_owned());
    proof {
        assert(texts(markers@) =~= workspace_markers());
    }
    match contains_any(findings, dir, &markers) {
        Step::Known(false) => {},
        other => {
            return other;
        },
    }
    match findings.text(dir.child("package.json")) {
        Step::Ask(probe) => Step::Ask(probe),
        Step::Known(FileText::Unreadable(_)) => Step::Known(false),
        Step::Known(FileText::Text(raw)) => match parse_json(raw.as_str()) {
            None => Step::Known(false),
            Some(package) => Step::Known(package.get("workspaces").is_some()),
        },
    }
}

/// Finds out which compiler serves a file.
#[derive(Debug)]
pub struct Discovery {
    pub host: Host,
}

impl ProjectSearch for Discovery {
    type Context = ProjectContext;

    open spec fn context_of(&self, f: FindingsView, dir: PathView) -> StepView<
        OutcomeView<ContextView>,
    > {
        project_context(f, self.host@, dir)
    }

    fn context_at(&self, findings: &Findings, dir: &FsPath) -> (r: Step<Outcome<ProjectContext>>) {
        self.project_at(findings, dir)
    }

    proof fn context_lasts(&self, f: FindingsView, g: FindingsView, dir: PathView) {
        local_command_lasts(f, g, self.host@, dir);
    }

    proof fn context_asks_anew(&self, f: FindingsView, dir: PathView) {
    }

    open spec fn package_of(&self, f: FindingsView, dir: PathView) -> StepView<bool> {
        f.present(child_of(dir, "package.json"@))
    }

    fn package_at(&self, findings: &Findings, dir: &FsPath) -> (r: Step<bool>) {
        findings.present(dir.child("package.json"))
    }

    proof fn package_lasts(&self, f: FindingsView, g: FindingsView, dir: PathView) {
    }

    proof fn package_asks_anew(&self, f: FindingsView, dir: PathView) {
    }

    open spec fn subdirs_of(&self, listing: Seq<EntryView>, dir: PathView) -> Seq<PathView> {
        sorted::<FsPath>(
            listing.filter(|e: EntryView| e.is_dir && looked_into(e.name)).map_values(
                |e: EntryView| child_of(dir, e.name),
            ),
        )
    }

    fn subdirs_at(&self, listing: &Listing, dir: &FsPath) -> (r: Vec<FsPath>) {
        let ghost all = listing@;
        let ghost wanted = |e: EntryView| e.is_dir && looked_into(e.name);
        let ghost path = |e: EntryView| child_of(dir@, e.name);
        let mut out: Vec<FsPath> = Vec::new();
        let mut i: usize = 0;
        proof {
            reveal(Seq::filter);
            assert(each(out@) =~= all.take(0).filter(wanted).map_values(path));
        }
        while i < listing.entries.len()
            invariant
                i <= all.len(),
                all == listing@,
                all.len() == listing.entries@.len(),
                wanted == (|e: EntryView| e.is_dir && looked_into(e.name)),
                path == (|e: EntryView| child_of(dir@, e.name)),
                each(out@) == all.take(i as int).filter(wanted).map_values(path),
            decreases all.len() - i,
        {
            let entry = &listing.entries[i];
            let ghost before = each(out@);
            proof {
                assert(all.take(i + 1).drop_last() =~= all.take(i as int));
                assert(all.take(i + 1).last() == entry@);
                reveal(Seq::filter);
            }
            if entry.is_dir && is_looked_into(entry.name.as_str()) {
                out.push(dir.child(entry.name.as_str()));
                proof {
                    assert(each(out@) =~= before.push(child_of(dir@, entry@.name)));
                    assert(each(out@) =~= all.take(i + 1).filter(wanted).map_values(path));
                }
            }
            i += 1;
        }
        proof {
            assert(all.take(i as int) =~= all);
        }
        sort(out)
    }

    proof fn subdirs_lie_below(&self, listing: Seq<EntryView>, dir: PathView) {
        let unsorted = listing.filter(|e: EntryView| e.is_dir && looked_into(e.name)).map_values(
            |e: EntryView| child_of(dir, e.name),
        );
        let dirs = self.subdirs_of(listing, dir);
        sorted_is_ordered::<FsPath>(unsorted);
        assert forall|i: int| 0 <= i < dirs.len() implies (#[trigger] dirs[i]).parts.len()
            == dir.parts.len() + 1 by {
            assert(dirs.contains(dirs[i]));
            assert(unsorted.contains(dirs[i]));
        }
    }
}

/// That a file has no directory to look in.
pub open spec fn no_parent(path: PathView) -> Seq<char> {
    "cannot resolve tsgo for a path without a parent directory: "@ + path_text(path)
}

/// That nothing serves a file.
pub open spec fn not_installed(path: PathView) -> Seq<char> {
    "could not find a local @typescript/native-preview or typescript (>= 7) installation for "@
        + path_text(path) + " and no global tsgo was available on PATH"@
}

impl Discovery {
    /// The project in the directories below, if projects may lie there.
    pub open spec fn below(self, f: FindingsView, start: PathView) -> StepView<
        OutcomeView<ContextView>,
    > {
        match scanned(f, start) {
            StepView::Ask(probe) => StepView::Ask(probe),
            StepView::Known(false) => StepView::Known(OutcomeView::Absent),
            StepView::Known(true) => match f.listing(start) {
                StepView::Ask(probe) => StepView::Ask(probe),
                StepView::Known(listing) => descend(self, f, self.subdirs_of(listing, start)),
            },
        }
    }

    /// The project that a file belongs to, where the search starts in the directory `start`.
    pub open spec fn local_project(self, f: FindingsView, path: PathView, start: PathView) -> StepView<
        OutcomeView<ContextView>,
    > {
        match nearest_above(self, f, start) {
            StepView::Known(OutcomeView::Absent) => match f.is_dir(path) {
                StepView::Known(true) => self.below(f, start),
                _ => StepView::Known(OutcomeView::Absent),
            },
            other => other,
        }
    }

    /// What serves files outside of projects.
    pub open spec fn global_context(self, f: FindingsView, path: PathView, start: PathView) -> StepView<
        OutcomeView<ContextView>,
    > {
        match program(f, launcher_name("tsgo"@, self.host@.windows)) {
            StepView::Ask(probe) => StepView::Ask(probe),
            StepView::Known(OutcomeView::Found(file)) => StepView::Known(
                OutcomeView::Found(
                    ContextView {
                        key: SessionKeyView::Global,
                        root: None,
                        command: CommandView { program: file, args: lsp_args(), cwd: Some(start) },
                    },
                ),
            ),
            StepView::Known(_) => StepView::Known(OutcomeView::Failed(not_installed(path))),
        }
    }

    /// What serves a file: the project that it belongs to, and else what is installed for all.
    pub open spec fn context(self, f: FindingsView, path: PathView) -> StepView<
        OutcomeView<ContextView>,
    > {
        match start_of(f, path, no_parent(path)) {
            StepView::Ask(probe) => StepView::Ask(probe),
            StepView::Known(OutcomeView::Absent) => StepView::Known(OutcomeView::Absent),
            StepView::Known(OutcomeView::Failed(message)) => StepView::Known(
                OutcomeView::Failed(message),
            ),
            StepView::Known(OutcomeView::Found(start)) => match self.local_project(f, path, start) {
                StepView::Known(OutcomeView::Absent) => self.global_context(f, path, start),
                other => other,
            },
        }
    }

    /// Finds out what serves a file.
    pub fn context_for_uri_path(&self, findings: &Findings, file_path: &FsPath) -> (r: Step<
        Outcome<ProjectContext>,
    >)
        ensures
            r@ == self.context(findings@, file_path@),
    {
        let message = concat2(
            "cannot resolve tsgo for a path without a parent directory: ",
            file_path.to_text().as_str(),
        );
        let start = match find_start(findings, file_path, message) {
            Step::Ask(probe) => {
                return Step::Ask(probe);
            },
            Step::Known(Outcome::Absent) => {
                return Step::Known(Outcome::Absent);
            },
            Step::Known(Outcome::Failed(message)) => {
                return Step::Known(Outcome::Failed(message));
            },
            Step::Known(Outcome::Found(start)) => start,
        };
        match self.discover_local_project(findings, file_path, &start) {
            Step::Known(Outcome::Absent) => self.discover_global_fallback(
                findings,
                file_path,
                &start,
            ),
            other => other,
        }
    }

    fn discover_local_project(&self, findings: &Findings, file_path: &FsPath, start: &FsPath) -> (r:
        Step<Outcome<ProjectContext>>)
        ensures
            r@ == self.local_project(findings@, file_path@, start@),
    {
        match find_nearest_above(self, findings, start) {
            Step::Known(Outcome::Absent) => match findings.is_dir(file_path.clone()) {
                Step::Known(true) => self.discover_descendant_project(findings, start),
                _ => Step::Known(Outcome::Absent),
            },
            other => other,
        }
    }

    fn discover_descendant_project(&self, findings: &Findings, start: &FsPath) -> (r: Step<
        Outcome<ProjectContext>,
    >)
        ensures
            r@ == self.below(findings@, start@),
    {
        match should_scan_descendants(findings, start) {
            Step::Ask(probe) => Step::Ask(probe),
            Step::Known(false) => Step::Known(Outcome::Absent),
            Step::Known(true) => match findings.listing(start.clone()) {
                Step::Ask(probe) => Step::Ask(probe),
                Step::Known(listing) => {
                    let level = self.subdirs_at(listing, start);
                    find_below(self, findings, level)
                },
            },
        }
    }

    fn discover_global_fallback(&self, findings: &Findings, file_path: &FsPath, start: &FsPath) -> (r:
        Step<Outcome<ProjectContext>>)
        ensures
            r@ == self.global_context(findings@, file_path@, start@),
    {
        let name = executable_name("tsgo", self.host.windows);
        match find_in_path(findings, name.as_str()) {
            Step::Ask(probe) => Step::Ask(probe),
            Step::Known(Outcome::Found(program)) => Step::Known(
                Outcome::Found(
                    ProjectContext {
                        key: SessionKey::Global,
                        root: None,
                        command: CommandSpec {
                            program,
                            args: make_lsp_args(),
                            cwd: Some(start.clone()),
                        },
                    },
                ),
            ),
            Step::Known(_) => {
                let message = concat2(
                    "could not find a local @typescript/native-preview or typescript (>= 7) installation for ",
                    file_path.to_text().as_str(),
                );
                Step::Known(
                    Outcome::Failed(
                        concat2(
                            message.as_str(),
                            " and no global tsgo was available on PATH",
                        ),
                    ),
                )
            },
        }
    }

    fn project_at(&self, findings: &Findings, dir: &FsPath) -> (r: Step<Outcome<ProjectContext>>)
        ensures
            r@ == project_context(findings@, self.host@, dir@),
    {
        match self.resolve_local_command(findings, dir) {
            Step::Ask(probe) => Step::Ask(probe),
            Step::Known(Outcome::Absent) => Step::Known(Outcome::Absent),
            Step::Known(Outcome::Failed(message)) => Step::Known(Outcome::Failed(message)),
            Step::Known(Outcome::Found(command)) => Step::Known(
                Outcome::Found(
                    ProjectContext {
                        key: SessionKey::Project(dir.clone()),
                        root: Some(dir.clone()),
                        command,
                    },
                ),
            ),
        }
    }

    fn resolve_installed_command(&self, findings: &Findings, dir: &FsPath, name: &str) -> (r: Step<
        Outcome<CommandSpec>,
    >)
        ensures
            r@ == installed_command(findings@, self.host@, dir@, name@),
    {
        let manifest_path = dir.child("node_modules").join(name).child("package.json");
        match findings.present(manifest_path.clone()) {
            Step::Ask(probe) => Step::Ask(probe),
            Step::Known(false) => Step::Known(Outcome::Absent),
            Step::Known(true) => package_command_from_package_json(
                findings,
                &self.host,
                dir,
                &manifest_path,
            ),
        }
    }

    fn resolve_package_json_with_node(&self, findings: &Findings, dir: &FsPath) -> (r: Step<
        Outcome<CommandSpec>,
    >)
        ensures
            r@ == resolved_command(findings@, self.host@, dir@),
    {
        let query = NodeQuery {
            base: dir.clone(),
            package: "@typescript/native-preview".to_owned(),
        };
        match findings.resolved(query) {
            Step::Ask(probe) => Step::Ask(probe),
            Step::Known(reply) => {
                let message = concat2(
                    "failed to run node while resolving @typescript/native-preview or typescript from ",
                    dir.to_text().as_str(),
                );
                match path_from_node(reply, message) {
                    Outcome::Absent => Step::Known(Outcome::Absent),
                    Outcome::Failed(message) => Step::Known(Outcome::Failed(message)),
                    Outcome::Found(path) => package_command_from_package_json(
                        findings,
                        &self.host,
                        dir,
                        &FsPath::parse(path.as_str()),
                    ),
                }
            },
        }
    }

    /// The command of the project `dir`.
    pub fn resolve_local_command(&self, findings: &Findings, dir: &FsPath) -> (r: Step<
        Outcome<CommandSpec>,
    >)
        ensures
            r@ == local_command(findings@, self.host@, dir@),
    {
        let launcher_file = executable_name("tsgo", self.host.windows);
        let binary = dir.child("node_modules").child(".bin").child(launcher_file.as_str());
        match findings.present(binary.clone()) {
            Step::Ask(probe) => {
                return Step::Ask(probe);
            },
            Step::Known(true) => {
                return Step::Known(
                    Outcome::Found(
                        CommandSpec {
                            program: binary,
                            args: make_lsp_args(),
                            cwd: Some(dir.clone()),
                        },
                    ),
                );
            },
            Step::Known(false) => {},
        }
        match self.resolve_installed_command(findings, dir, "@typescript/native-preview") {
            Step::Known(Outcome::Absent) => {},
            other => {
                return other;
            },
        }
        match self.resolve_installed_command(findings, dir, "typescript") {
            Step::Known(Outcome::Absent) => self.resolve_package_json_with_node(findings, dir),
            other => other,
        }
    }
}

proof fn package_command_lasts(
    f: FindingsView,
    g: FindingsView,
    host: HostView,
    dir: PathView,
    manifest_path: PathView,
)
    requires
        f.within(g),
        package_command(f, host, dir, manifest_path) is Known,
    ensures
        package_command(g, host, dir, manifest_path) == package_command(f, host, dir, manifest_path),
{
    if let StepView::Known(OutcomeView::Found(package)) = manifest(f, manifest_path) {
        manifest_command_lasts(f, g, host, dir, manifest_path, package);
    }
}

proof fn manifest_command_lasts(
    f: FindingsView,
    g: FindingsView,
    host: HostView,
    dir: PathView,
    manifest_path: PathView,
    package: JsonView,
)
    requires
        f.within(g),
        manifest_command(f, host, dir, manifest_path, package) is Known,
    ensures
        manifest_command(g, host, dir, manifest_path, package) == manifest_command(
            f,
            host,
            dir,
            manifest_path,
            package,
        ),
{
}

proof fn installed_command_lasts(
    f: FindingsView,
    g: FindingsView,
    host: HostView,
    dir: PathView,
    name: Seq<char>,
)
    requires
        f.within(g),
        installed_command(f, host, dir, name) is Known,
    ensures
        installed_command(g, host, dir, name) == installed_command(f, host, dir, name),
{
    if package_command(f, host, dir, installed_manifest(dir, name)) is Known {
        package_command_lasts(f, g, host, dir, installed_manifest(dir, name));
    }
}

proof fn local_command_lasts(f: FindingsView, g: FindingsView, host: HostView, dir: PathView)
    requires
        f.within(g),
        local_command(f, host, dir) is Known,
    ensures
        local_command(g, host, dir) == local_command(f, host, dir),
{
    let preview = installed_command(f, host, dir, "@typescript/native-preview"@);
    let typescript = installed_command(f, host, dir, "typescript"@);
    if f.present(launcher(dir, host.windows)) == StepView::Known(false) {
        installed_command_lasts(f, g, host, dir, "@typescript/native-preview"@);
        if preview->Known_0 is Absent {
            installed_command_lasts(f, g, host, dir, "typescript"@);
            if typescript->Known_0 is Absent {
                let query = NodeQueryView { base: dir, package: "@typescript/native-preview"@ };
                let path = resolved_path(f.resolved(query)->Known_0, node_failure(dir));
                if path is Found {
                    package_command_lasts(f, g, host, dir, path_of(path->Found_0));
                }
            }
        }
    }
}

proof fn below_lasts(discovery: Discovery, f: FindingsView, g: FindingsView, start: PathView)
    requires
        f.within(g),
        discovery.below(f, start) is Known,
    ensures
        discovery.below(g, start) == discovery.below(f, start),
{
    holds_any_lasts(f, g, start, workspace_markers());
    if let StepView::Known(listing) = f.listing(start) {
        let level = discovery.subdirs_of(listing, start);
        if descend(discovery, f, level) is Known {
            descend_lasts(discovery, f, g, level);
        }
    }
}

/// What is known of what serves a file stays known, however much more is found out.
pub proof fn context_lasts(discovery: Discovery, f: FindingsView, g: FindingsView, path: PathView)
    requires
        f.within(g),
        discovery.context(f, path) is Known,
    ensures
        discovery.context(g, path) == discovery.context(f, path),
{
    let name = launcher_name("tsgo"@, discovery.host@.windows);
    if program(f, name) is Known {
        program_lasts(f, g, name);
    }
    if let StepView::Known(OutcomeView::Found(start)) = start_of(f, path, no_parent(path)) {
        let dirs = ancestors_of(start);
        nearest_lasts(discovery, f, g, dirs, true);
        if nearest(discovery, f, dirs, false) is Known {
            nearest_lasts(discovery, f, g, dirs, false);
        }
        if discovery.below(f, start) is Known {
            below_lasts(discovery, f, g, start);
        }
    }
}

proof fn below_asks_anew(discovery: Discovery, f: FindingsView, start: PathView)
    requires
        discovery.below(f, start) is Ask,
    ensures
        !f.answered(discovery.below(f, start)->Ask_0),
{
    if holds_any(f, start, workspace_markers()) is Ask {
        holds_any_asks_anew(f, start, workspace_markers());
    }
    if let StepView::Known(listing) = f.listing(start) {
        let level = discovery.subdirs_of(listing, start);
        if descend(discovery, f, level) is Ask {
            descend_asks_anew(discovery, f, level);
        }
    }
}

/// The search for what serves a file asks nothing twice.
pub proof fn context_asks_anew(discovery: Discovery, f: FindingsView, path: PathView)
    requires
        discovery.context(f, path) is Ask,
    ensures
        !f.answered(discovery.context(f, path)->Ask_0),
{
    let name = launcher_name("tsgo"@, discovery.host@.windows);
    if program(f, name) is Ask {
        program_asks_anew(f, name);
    }
    if let StepView::Known(OutcomeView::Found(start)) = start_of(f, path, no_parent(path)) {
        let dirs = ancestors_of(start);
        if nearest(discovery, f, dirs, true) is Ask {
            nearest_asks_anew(discovery, f, dirs, true);
        }
        if nearest(discovery, f, dirs, false) is Ask {
            nearest_asks_anew(discovery, f, dirs, false);
        }
        if discovery.below(f, start) is Ask {
            below_asks_anew(discovery, f, start);
        }
    }
}

/// The search for what serves a file either finds it or fails.
pub proof fn context_is_never_absent(discovery: Discovery, f: FindingsView, path: PathView)
    ensures
        discovery.context(f, path) != StepView::Known(OutcomeView::<ContextView>::Absent),
{
}

/// A launcher that a project has is what runs the compiler in it.
pub proof fn launchers_come_first(f: FindingsView, host: HostView, dir: PathView)
    requires
        f.present(launcher(dir, host.windows)) == StepView::Known(true),
    ensures
        local_command(f, host, dir) == StepView::Known(
            OutcomeView::Found(
                CommandView {
                    program: launcher(dir, host.windows),
                    args: lsp_args(),
                    cwd: Some(dir),
                },
            ),
        ),
{
}

/// Without a launcher, the preview package that a project has is preferred to its TypeScript.
pub proof fn preview_comes_before_typescript(
    f: FindingsView,
    host: HostView,
    dir: PathView,
    command: CommandView,
)
    requires
        f.present(launcher(dir, host.windows)) == StepView::Known(false),
        installed_command(f, host, dir, "@typescript/native-preview"@) == StepView::Known(
            OutcomeView::Found(command),
        ),
    ensures
        local_command(f, host, dir) == StepView::Known(OutcomeView::Found(command)),
{
}

/// Node is asked about a project only once it is known that the project has no launcher, and that
/// neither package in it gives a command.
pub proof fn node_is_asked_last(f: FindingsView, host: HostView, dir: PathView)
    requires
        local_command(f, host, dir) matches StepView::Ask(ProbeView::Node(_)),
    ensures
        f.present(launcher(dir, host.windows)) == StepView::Known(false),
        installed_command(f, host, dir, "@typescript/native-preview"@) == StepView::Known(
            OutcomeView::<CommandView>::Absent,
        ),
        installed_command(f, host, dir, "typescript"@) == StepView::Known(
            OutcomeView::<CommandView>::Absent,
        ),
{
}

/// TypeScript gives no command ahead of the first version that is built on the native compiler.
pub proof fn old_typescript_is_ignored(
    f: FindingsView,
    host: HostView,
    dir: PathView,
    manifest_path: PathView,
    package: JsonView,
)
    requires
        json_get_str(package, "name"@) == Some("typescript"@),
        !supported_version(package),
    ensures
        manifest_command(f, host, dir, manifest_path, package) == StepView::Known(
            OutcomeView::<CommandView>::Absent,
        ),
{
}

/// Where a package has a native program for this machine, that program is run itself.
pub proof fn native_programs_run_directly(
    f: FindingsView,
    host: HostView,
    dir: PathView,
    manifest_path: PathView,
    package: JsonView,
    native: PathView,
)
    requires
        package_name(package) != "typescript"@ || supported_version(package),
        parent_of(manifest_path) is Some,
        platform_binary(
            f,
            host,
            parent_of(manifest_path)->0,
            package_name(package),
            if package_name(package) == "typescript"@ {
                "tsc"@
            } else {
                "tsgo"@
            },
        ) == StepView::Known(OutcomeView::Found(native)),
    ensures
        manifest_command(f, host, dir, manifest_path, package) == StepView::Known(
            OutcomeView::Found(CommandView { program: native, args: lsp_args(), cwd: Some(dir) }),
        ),
{
}

/// A file is served by the nearest package, of those that it lies in, that has its own compiler.
pub proof fn nearest_package_serves(
    discovery: Discovery,
    f: FindingsView,
    path: PathView,
    start: PathView,
    i: int,
)
    requires
        start_of(f, path, no_parent(path)) == StepView::Known(OutcomeView::Found(start)),
        0 <= i < ancestors_of(start).len(),
        forall|j: int|
            0 <= j < i ==> no_project_package(discovery, f, #[trigger] ancestors_of(start)[j]),
        f.present(child_of(ancestors_of(start)[i], "package.json"@)) == StepView::Known(true),
        project_context(f, discovery.host@, ancestors_of(start)[i]) matches StepView::Known(
            OutcomeView::Found(_),
        ),
    ensures
        discovery.context(f, path) == project_context(
            f,
            discovery.host@,
            ancestors_of(start)[i],
        ),
{
    nearest_package_is_found(discovery, f, ancestors_of(start), i);
}

/// What is installed for all projects serves a file only where no project does.
pub proof fn global_compiler_is_a_fallback(
    discovery: Discovery,
    f: FindingsView,
    path: PathView,
    start: PathView,
)
    requires
        start_of(f, path, no_parent(path)) == StepView::Known(OutcomeView::Found(start)),
        discovery.context(f, path) matches StepView::Known(OutcomeView::Found(context))
            && context.key == SessionKeyView::Global,
    ensures
        discovery.local_project(f, path, start) == StepView::Known(
            OutcomeView::<ContextView>::Absent,
        ),
{
    if discovery.local_project(f, path, start) != StepView::Known(
        OutcomeView::<ContextView>::Absent,
    ) {
        let dirs = ancestors_of(start);
        if nearest(discovery, f, dirs, true) matches StepView::Known(OutcomeView::Found(_)) {
            let _ = nearest_is_first(discovery, f, dirs, true);
        } else if nearest(discovery, f, dirs, false) matches StepView::Known(
            OutcomeView::Found(_),
        ) {
            let _ = nearest_is_first(discovery, f, dirs, false);
        } else {
            let level = discovery.subdirs_of(f.listing(start)->Known_0, start);
            let _ = descend_ends_at_a_project(discovery, f, level);
        }
    }
}

} // verus!
