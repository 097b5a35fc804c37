//! Which ESLint serves a file, and what is made of its answers.

use vstd::prelude::*;
use vstd::string::*;
use crate::disk::{
    FileText, FileTextView, Findings, FindingsView, NodeQuery, NodeQueryView, NodeReply,
    NodeReplyView, Outcome, OutcomeView, Step, StepView,
};
use crate::json::{json_get, Json, JsonView};
use crate::json_text::{json_document, json_reading, parse_json, read_json};
use crate::package::{contains_any, holds_any};
use crate::path::{ancestors_of, child_of, parent_of, path_of, path_text, FsPath, PathView};
use crate::table::{holds, lookup, put, put_then_lookup, Ident, Key, Table};
use crate::text::{
    blank, concat2, contains, decimal, decimal_text, holds_text, is_blank, lines, text_lines,
    texts, trim, trimmed,
};
use crate::views::{each, opt};

verus! {

/// What kind of configuration a project has.
#[derive(Clone, Copy, Debug, PartialEq, Eq, Structural)]
pub enum ConfigFormat {
    Default,
    Flat,
    Eslintrc,
}

impl View for ConfigFormat {
    type V = ConfigFormat;

    open spec fn view(&self) -> ConfigFormat {
        *self
    }
}

impl ConfigFormat {
    /// What the worker calls it.
    pub open spec fn bridge_value(self) -> Seq<char> {
        match self {
            ConfigFormat::Default => "default"@,
            ConfigFormat::Flat => "flat"@,
            ConfigFormat::Eslintrc => "eslintrc"@,
        }
    }

    /// What the worker calls it.
    pub fn as_bridge_value(self) -> (r: &'static str)
        ensures
            r@ == self.bridge_value(),
    {
        match self {
            ConfigFormat::Default => "default",
            ConfigFormat::Flat => "flat",
            ConfigFormat::Eslintrc => "eslintrc",
        }
    }
}

/// The project that a file belongs to.
#[derive(Debug, PartialEq, Eq)]
pub struct ProjectContext {
    pub cwd: FsPath,
    pub config_format: ConfigFormat,
    pub eslint_package_json: FsPath,
}

/// The project that a file belongs to.
#[verifier::ext_equal]
pub struct ContextView {
    pub cwd: PathView,
    pub config_format: ConfigFormat,
    pub eslint_package_json: PathView,
}

impl View for ProjectContext {
    type V = ContextView;

    open spec fn view(&self) -> ContextView {
        ContextView {
            cwd: self.cwd@,
            config_format: self.config_format,
            eslint_package_json: self.eslint_package_json@,
        }
    }
}

impl Clone for ProjectContext {
    fn clone(&self) -> (r: ProjectContext)
        ensures
            r@ == self@,
    {
        ProjectContext {
            cwd: self.cwd.clone(),
            config_format: self.config_format,
            eslint_package_json: self.eslint_package_json.clone(),
        }
    }
}

impl Ident for ContextView {
    open spec fn ident(self) -> ContextView {
        ContextView {
            cwd: self.cwd.ident(),
            eslint_package_json: self.eslint_package_json.ident(),
            ..self
        }
    }
}

impl Key for ProjectContext {
    fn same(&self, other: &ProjectContext) -> (r: bool) {
        self.config_format == other.config_format && self.cwd.same(&other.cwd)
            && self.eslint_package_json.same(&other.eslint_package_json)
    }

    fn again(&self) -> (r: ProjectContext) {
        self.clone()
    }
}

/// Where a project is configured, and where its ESLint is looked for.
#[derive(Debug, PartialEq, Eq)]
pub struct ProjectRoots {
    pub cwd: FsPath,
    pub config_format: ConfigFormat,
    pub eslint_resolution_dir: FsPath,
}

/// Where a project is configured, and where its ESLint is looked for.
#[verifier::ext_equal]
pub struct RootsView {
    pub cwd: PathView,
    pub config_format: ConfigFormat,
    pub eslint_resolution_dir: PathView,
}

impl View for ProjectRoots {
    type V = RootsView;

    open spec fn view(&self) -> RootsView {
        RootsView {
            cwd: self.cwd@,
            config_format: self.config_format,
            eslint_resolution_dir: self.eslint_resolution_dir@,
        }
    }
}

/// The names of flat configuration files.
pub open spec fn flat_config_names() -> Seq<Seq<char>> {
    seq![
        "eslint.config.js"@,
        "eslint.config.mjs"@,
        "eslint.config.cjs"@,
        "eslint.config.ts"@,
        "eslint.config.mts"@,
        "eslint.config.cts"@,
    ]
}

/// The names of legacy configuration files.
pub open spec fn legacy_config_names() -> Seq<Seq<char>> {
    seq![
        ".eslintrc"@,
        ".eslintrc.js"@,
        ".eslintrc.cjs"@,
        ".eslintrc.json"@,
        ".eslintrc.yaml"@,
        ".eslintrc.yml"@,
    ]
}

fn make_flat_config_names() -> (r: Vec<String>)
    ensures
        texts(r@) == flat_config_names(),
{
    let mut names: Vec<String> = Vec::new();
    names.push("eslint.config.js".to_owned());
    names.push("eslint.config.mjs".to_owned());
    names.push("eslint.config.cjs".to_owned());
    names.push("eslint.config.ts".to_owned());
    names.push("eslint.config.mts".to_owned());
    names.push("eslint.config.cts".to_owned());
    proof {
        assert(texts(names@) =~= flat_config_names());
    }
    names
}

fn make_legacy_config_names() -> (r: Vec<String>)
    ensures
        texts(r@) == legacy_config_names(),
{
    let mut names: Vec<String> = Vec::new();
    names.push(".eslintrc".to_owned());
    names.push(".eslintrc.js".to_owned());
    names.push(".eslintrc.cjs".to_owned());
    names.push(".eslintrc.json".to_owned());
    names.push(".eslintrc.yaml".to_owned());
    names.push(".eslintrc.yml".to_owned());
    proof {
        assert(texts(names@) =~= legacy_config_names());
    }
    names
}

/// Whether the manifest of a directory holds a configuration. One that is missing or that cannot be
/// read or parsed holds none.
pub open spec fn manifest_configures(f: FindingsView, dir: PathView) -> StepView<bool> {
    match f.text(child_of(dir, "package.json"@)) {
        StepView::Ask(probe) => StepView::Ask(probe),
        StepView::Known(FileTextView::Unreadable(_)) => StepView::Known(false),
        StepView::Known(FileTextView::Text(raw)) => StepView::Known(
            match json_document(raw) {
                None => false,
                Some(package) => json_get(package, "eslintConfig"@) is Some,
            },
        ),
    }
}

/// Whether the manifest of a directory holds a configuration.
pub fn package_json_has_eslint_config(findings: &Findings, dir: &FsPath) -> (r: Step<bool>)
    ensures
        r@ == manifest_configures(findings@, dir@),
{
    match findings.text(dir.child("package.json")) {
        Step::Ask(probe) => Step::Ask(probe),
        Step::Known(FileText::Unreadable(_)) => Step::Known(false),
        Step::Known(FileText::Text(raw)) => match parse_json(raw.as_str()) {
            None => Step::Known(false),
            Some(package) => Step::Known(package.get("eslintConfig").is_some()),
        },
    }
}

/// What is to be said of the manifest of a directory.
#[derive(Debug, PartialEq, Eq)]
pub enum ManifestNotice {
    /// Nothing: it is missing, or it can be read and parsed.
    Nothing,
    /// It is there but cannot be read: the warning.
    Unreadable(String),
    /// It cannot be parsed: the warning.
    Unparseable(String),
}

/// What is to be said of the manifest of a directory.
#[verifier::ext_equal]
pub enum NoticeView {
    Nothing,
    Unreadable(Seq<char>),
    Unparseable(Seq<char>),
}

impl View for ManifestNotice {
    type V = NoticeView;

    open spec fn view(&self) -> NoticeView {
        match self {
            ManifestNotice::Nothing => NoticeView::Nothing,
            ManifestNotice::Unreadable(warning) => NoticeView::Unreadable(warning@),
            ManifestNotice::Unparseable(warning) => NoticeView::Unparseable(warning@),
        }
    }
}

/// What is to be said of a manifest whose text is known.
pub open spec fn parse_notice(
    path: PathView,
    reading: Result<JsonView, Seq<char>>,
) -> NoticeView {
    match reading {
        Ok(_) => NoticeView::Nothing,
        Err(reason) => NoticeView::Unparseable(
            "failed to parse "@ + path_text(path) + ": "@ + reason,
        ),
    }
}

/// What is to be said of the manifest of a directory: there is a warning where it is there but cannot
/// be read, and where it cannot be parsed.
pub open spec fn manifest_notice(f: FindingsView, dir: PathView) -> StepView<NoticeView> {
    let path = child_of(dir, "package.json"@);
    match f.text(path) {
        StepView::Ask(probe) => StepView::Ask(probe),
        StepView::Known(FileTextView::Unreadable(reason)) => match f.present(path) {
            StepView::Ask(probe) => StepView::Ask(probe),
            StepView::Known(true) => StepView::Known(
                NoticeView::Unreadable("failed to read "@ + path_text(path) + ": "@ + reason),
            ),
            StepView::Known(false) => StepView::Known(NoticeView::Nothing),
        },
        StepView::Known(FileTextView::Text(raw)) => StepView::Known(
            parse_notice(path, json_reading(raw)),
        ),
    }
}

/// What is to be said of a manifest that has been read.
pub fn notice_of_reading(path: &FsPath, reading: &Result<Json, String>) -> (r: ManifestNotice)
    ensures
        r@ == parse_notice(
            path@,
            match reading {
                Ok(json) => Ok(json@),
                Err(reason) => Err(reason@),
            },
        ),
{
    match reading {
        Ok(_) => ManifestNotice::Nothing,
        Err(reason) => {
            let text = concat2("failed to parse ", path.to_text().as_str());
            let text = concat2(text.as_str(), ": ");
            ManifestNotice::Unparseable(concat2(text.as_str(), reason.as_str()))
        },
    }
}

/// What is to be said of the manifest of a directory.
pub fn package_json_notice(findings: &Findings, dir: &FsPath) -> (r: Step<ManifestNotice>)
    ensures
        r@ == manifest_notice(findings@, dir@),
{
    let path = dir.child("package.json");
    match findings.text(path.clone()) {
        Step::Ask(probe) => Step::Ask(probe),
        Step::Known(FileText::Unreadable(reason)) => match findings.present(path.clone()) {
            Step::Ask(probe) => Step::Ask(probe),
            Step::Known(true) => {
                let text = concat2("failed to read ", path.to_text().as_str());
                let text = concat2(text.as_str(), ": ");
                Step::Known(ManifestNotice::Unreadable(concat2(text.as_str(), reason.as_str())))
            },
            Step::Known(false) => Step::Known(ManifestNotice::Nothing),
        },
        Step::Known(FileText::Text(raw)) => Step::Known(
            notice_of_reading(&path, &read_json(raw.as_str())),
        ),
    }
}

/// What kind of configuration a directory has, `Default` where it has none: a flat one comes before
/// a legacy one.
pub open spec fn config_at(f: FindingsView, dir: PathView) -> StepView<ConfigFormat> {
    match holds_any(f, dir, flat_config_names()) {
        StepView::Ask(probe) => StepView::Ask(probe),
        StepView::Known(true) => StepView::Known(ConfigFormat::Flat),
        StepView::Known(false) => match holds_any(f, dir, legacy_config_names()) {
            StepView::Ask(probe) => StepView::Ask(probe),
            StepView::Known(true) => StepView::Known(ConfigFormat::Eslintrc),
            StepView::Known(false) => match manifest_configures(f, dir) {
                StepView::Ask(probe) => StepView::Ask(probe),
                StepView::Known(true) => StepView::Known(ConfigFormat::Eslintrc),
                StepView::Known(false) => StepView::Known(ConfigFormat::Default),
            },
        },
    }
}

fn find_config(findings: &Findings, dir: &FsPath) -> (r: Step<ConfigFormat>)
    ensures
        r@ == config_at(findings@, dir@),
{
    match contains_any(findings, dir, &make_flat_config_names()) {
        Step::Ask(probe) => {
            return Step::Ask(probe);
        },
        Step::Known(true) => {
            return Step::Known(ConfigFormat::Flat);
        },
        Step::Known(false) => {},
    }
    match contains_any(findings, dir, &make_legacy_config_names()) {
        Step::Ask(probe) => {
            return Step::Ask(probe);
        },
        Step::Known(true) => {
            return Step::Known(ConfigFormat::Eslintrc);
        },
        Step::Known(false) => {},
    }
    match package_json_has_eslint_config(findings, dir) {
        Step::Ask(probe) => Step::Ask(probe),
        Step::Known(true) => Step::Known(ConfigFormat::Eslintrc),
        Step::Known(false) => Step::Known(ConfigFormat::Default),
    }
}

/// The nearest package once a directory has been looked at.
pub open spec fn nearest_package(
    f: FindingsView,
    dir: PathView,
    nearest: Option<PathView>,
) -> StepView<Option<PathView>> {
    match nearest {
        Some(package) => StepView::Known(Some(package)),
        None => match f.present(child_of(dir, "package.json"@)) {
            StepView::Ask(probe) => StepView::Ask(probe),
            StepView::Known(true) => StepView::Known(Some(dir)),
            StepView::Known(false) => StepView::Known(None),
        },
    }
}

/// The first of the directories that has a configuration, and the nearest package, which may lie
/// nearer. Without a configuration it is the nearest package, and else where the search started.
pub open spec fn roots_among(
    f: FindingsView,
    start: PathView,
    dirs: Seq<PathView>,
    nearest: Option<PathView>,
) -> StepView<RootsView>
    decreases dirs.len(),
{
    if dirs.len() == 0 {
        let dir = match nearest {
            Some(package) => package,
            None => start,
        };
        StepView::Known(
            RootsView { cwd: dir, config_format: ConfigFormat::Default, eslint_resolution_dir: dir },
        )
    } else {
        match nearest_package(f, dirs[0], nearest) {
            StepView::Ask(probe) => StepView::Ask(probe),
            StepView::Known(package) => match config_at(f, dirs[0]) {
                StepView::Ask(probe) => StepView::Ask(probe),
                StepView::Known(ConfigFormat::Default) => roots_among(
                    f,
                    start,
                    dirs.drop_first(),
                    package,
                ),
                StepView::Known(config_format) => StepView::Known(
                    RootsView {
                        cwd: dirs[0],
                        config_format,
                        eslint_resolution_dir: match package {
                            Some(package) => package,
                            None => dirs[0],
                        },
                    },
                ),
            },
        }
    }
}

/// Where the project of a directory is configured, and where its ESLint is looked for.
pub open spec fn project_roots(f: FindingsView, start: PathView) -> StepView<RootsView> {
    roots_among(f, start, ancestors_of(start), None)
}

/// Where the project of a directory is configured, and where its ESLint is looked for.
pub fn discover_project_roots(findings: &Findings, start_dir: &FsPath) -> (r: Step<ProjectRoots>)
    ensures
        r@ == project_roots(findings@, start_dir@),
{
    let dirs = start_dir.ancestors();
    let ghost all = ancestors_of(start_dir@);
    let mut nearest: Option<FsPath> = None;
    let mut i: usize = 0;
    proof {
        assert(each(dirs@) =~= all);
        assert(all.skip(0) =~= all);
    }
    while i < dirs.len()
        invariant
            i <= dirs@.len(),
            each(dirs@) == all,
            all == ancestors_of(start_dir@),
            project_roots(findings@, start_dir@) == roots_among(
                findings@,
                start_dir@,
                all.skip(i as int),
                opt(nearest),
            ),
        decreases dirs@.len() - i,
    {
        proof {
            assert(all.skip(i as int)[0] == dirs@[i as int]@);
            assert(all.skip(i as int).drop_first() =~= all.skip(i + 1));
        }
        let dir = &dirs[i];
        if nearest.is_none() {
            match findings.present(dir.child("package.json")) {
                Step::Ask(probe) => {
                    return Step::Ask(probe);
                },
                Step::Known(true) => {
                    nearest = Some(dir.clone());
                },
                Step::Known(false) => {},
            }
        }
        match find_config(findings, dir) {
            Step::Ask(probe) => {
                return Step::Ask(probe);
            },
            Step::Known(ConfigFormat::Default) => {},
            Step::Known(config_format) => {
                let eslint_resolution_dir = match nearest {
                    Some(package) => package,
                    None => dir.clone(),
                };
                return Step::Known(
                    ProjectRoots { cwd: dir.clone(), config_format, eslint_resolution_dir },
                );
            },
        }
        i += 1;
    }
    proof {
        assert(all.skip(i as int).len() == 0);
    }
    let dir = match nearest {
        Some(package) => package,
        None => start_dir.clone(),
    };
    Step::Known(
        ProjectRoots {
            cwd: dir.clone(),
            config_format: ConfigFormat::Default,
            eslint_resolution_dir: dir,
        },
    )
}

/// Warnings, one after the other.
#[derive(Debug, PartialEq, Eq)]
pub struct Warnings {
    pub texts: Vec<String>,
}

impl View for Warnings {
    type V = Seq<Seq<char>>;

    open spec fn view(&self) -> Seq<Seq<char>> {
        texts(self.texts@)
    }
}

/// The warning that a notice holds, if it holds one.
pub open spec fn noticed(notice: NoticeView) -> Seq<Seq<char>> {
    match notice {
        NoticeView::Nothing => Seq::empty(),
        NoticeView::Unreadable(warning) => seq![warning],
        NoticeView::Unparseable(warning) => seq![warning],
    }
}

/// Warnings, and those that follow once they are known.
pub open spec fn followed_by(
    first: Seq<Seq<char>>,
    rest: StepView<Seq<Seq<char>>>,
) -> StepView<Seq<Seq<char>>> {
    match rest {
        StepView::Ask(probe) => StepView::Ask(probe),
        StepView::Known(more) => StepView::Known(first + more),
    }
}

/// What is to be said of the manifests that the search for a configuration comes by: of those of the
/// directories that have no configuration, up to the first directory that has one.
pub open spec fn warnings_among(f: FindingsView, dirs: Seq<PathView>) -> StepView<Seq<Seq<char>>>
    decreases dirs.len(),
{
    if dirs.len() == 0 {
        StepView::Known(Seq::empty())
    } else {
        match config_at(f, dirs[0]) {
            StepView::Ask(probe) => StepView::Ask(probe),
            StepView::Known(ConfigFormat::Default) => match manifest_notice(f, dirs[0]) {
                StepView::Ask(probe) => StepView::Ask(probe),
                StepView::Known(notice) => followed_by(
                    noticed(notice),
                    warnings_among(f, dirs.drop_first()),
                ),
            },
            StepView::Known(_) => StepView::Known(Seq::empty()),
        }
    }
}

/// What is to be said of the manifests that the search for a project's roots comes by.
pub fn project_root_warnings(findings: &Findings, start_dir: &FsPath) -> (r: Step<Warnings>)
    ensures
        r@ == warnings_among(findings@, ancestors_of(start_dir@)),
{
    let dirs = start_dir.ancestors();
    let ghost all = ancestors_of(start_dir@);
    let mut said: Vec<String> = Vec::new();
    let mut i: usize = 0;
    proof {
        assert(each(dirs@) =~= all);
        assert(all.skip(0) =~= all);
        let whole = warnings_among(findings@, all);
        assert(texts(said@) =~= Seq::<Seq<char>>::empty());
        if let StepView::Known(warnings) = whole {
            assert(texts(said@) + warnings =~= warnings);
        }
    }
    while i < dirs.len()
        invariant
            i <= dirs@.len(),
            each(dirs@) == all,
            warnings_among(findings@, all) == followed_by(
                texts(said@),
                warnings_among(findings@, all.skip(i as int)),
            ),
            all == ancestors_of(start_dir@),
        decreases dirs@.len() - i,
    {
        let ghost before = texts(said@);
        let ghost rest = warnings_among(findings@, all.skip(i + 1));
        proof {
            assert(all.skip(i as int)[0] == dirs@[i as int]@);
            assert(all.skip(i as int).drop_first() =~= all.skip(i + 1));
            assert(before + Seq::<Seq<char>>::empty() =~= before);
        }
        match find_config(findings, &dirs[i]) {
            Step::Ask(probe) => {
                return Step::Ask(probe);
            },
            Step::Known(ConfigFormat::Default) => {},
            Step::Known(_) => {
                return Step::Known(Warnings { texts: said });
            },
        }
        let notice = match package_json_notice(findings, &dirs[i]) {
            Step::Ask(probe) => {
                return Step::Ask(probe);
            },
            Step::Known(notice) => notice,
        };
        let ghost more = noticed(notice@);
        match notice {
            ManifestNotice::Nothing => {},
            ManifestNotice::Unreadable(warning) => {
                said.push(warning);
            },
            ManifestNotice::Unparseable(warning) => {
                said.push(warning);
            },
        }
        proof {
            assert(texts(said@) =~= before + more);
            if let StepView::Known(later) = rest {
                assert(before + (more + later) =~= (before + more) + later);
            }
        }
        i += 1;
    }
    proof {
        assert(all.skip(i as int).len() == 0);
        assert(texts(said@) + Seq::<Seq<char>>::empty() =~= texts(said@));
    }
    Step::Known(Warnings { texts: said })
}

/// Why linting has failed.
#[derive(Debug, PartialEq, Eq)]
pub struct LintError {
    pub message: String,
}

impl View for LintError {
    type V = Seq<char>;

    open spec fn view(&self) -> Seq<char> {
        self.message@
    }
}

impl LintError {
    /// A failure with this message.
    pub fn new(message: &str) -> (r: LintError)
        ensures
            r@ == message@,
    {
        LintError { message: message.to_owned() }
    }
}

/// Whether a message says that there is no ESLint.
pub open spec fn tool_unavailable(message: Seq<char>) -> bool {
    ||| holds_text(message, "could not resolve a local eslint installation"@)
    ||| holds_text(message, "failed to spawn node while resolving eslint"@)
    ||| holds_text(message, "failed to spawn the eslint worker process"@)
}

/// Whether linting has failed for want of an ESLint.
pub fn is_tool_unavailable(error: &LintError) -> (r: bool)
    ensures
        r == tool_unavailable(error@),
{
    let message = error.message.as_str();
    contains(message, "could not resolve a local eslint installation") || contains(
        message,
        "failed to spawn node while resolving eslint",
    ) || contains(message, "failed to spawn the eslint worker process")
}

/// Whether a message says that the exchange with the worker has failed.
pub open spec fn restart_worthy(message: Seq<char>) -> bool {
    ||| holds_text(message, "failed to write request to eslint worker"@)
    ||| holds_text(message, "failed to flush request delimiter to eslint worker"@)
    ||| holds_text(message, "failed to read response from eslint worker"@)
    ||| holds_text(message, "eslint worker exited before replying"@)
    ||| holds_text(message, "eslint worker exited unexpectedly"@)
    ||| holds_text(message, "eslint worker timed out while handling the request"@)
    ||| holds_text(message, "eslint worker response id mismatch"@)
}

/// Whether the worker is replaced after a failure.
pub fn should_restart_worker_after(error: &LintError) -> (r: bool)
    ensures
        r == restart_worthy(error@),
{
    let message = error.message.as_str();
    contains(message, "failed to write request to eslint worker") || contains(
        message,
        "failed to flush request delimiter to eslint worker",
    ) || contains(message, "failed to read response from eslint worker") || contains(
        message,
        "eslint worker exited before replying",
    ) || contains(message, "eslint worker exited unexpectedly") || contains(
        message,
        "eslint worker timed out while handling the request",
    ) || contains(message, "eslint worker response id mismatch")
}

/// The first line that is not blank.
pub open spec fn first_said(said: Seq<Seq<char>>) -> Option<Seq<char>>
    decreases said.len(),
{
    if said.len() == 0 {
        None
    } else if !blank(said[0]) {
        Some(said[0])
    } else {
        first_said(said.drop_first())
    }
}

/// What is shown of an error of ESLint: its first line, and a hint where plugins do not fit.
pub open spec fn bridge_error(stderr: Seq<char>) -> Seq<char> {
    let summary = match first_said(text_lines(stderr)) {
        Some(line) => line,
        None => "ESLint failed while evaluating the local project configuration."@,
    };
    if holds_text(stderr, "getFilename is not a function"@) || holds_text(
        stderr,
        "getPhysicalFilename is not a function"@,
    ) {
        "ESLint crashed while loading the local config/plugin: "@ + summary
            + ". This usually means the local plugin stack is not compatible with the local ESLint version. If you are on ESLint 10, update incompatible plugins or wrap them with @eslint/compat."@
    } else {
        "ESLint failed while evaluating the local project setup: "@ + summary
    }
}

/// What is shown of an error of ESLint.
pub fn format_bridge_error(stderr: &str) -> (r: String)
    ensures
        r@ == bridge_error(stderr@),
{
    let said = lines(stderr);
    let ghost all = texts(said@);
    let mut summary: Option<String> = None;
    let mut i: usize = 0;
    proof {
        assert(all.skip(0) =~= all);
    }
    while i < said.len() && summary.is_none()
        invariant
            i <= said@.len(),
            all == texts(said@),
            summary is None ==> first_said(all) == first_said(all.skip(i as int)),
            summary is Some ==> first_said(all) == Some(summary->0@),
        decreases said@.len() - i,
    {
        proof {
            assert(all.skip(i as int)[0] == said@[i as int]@);
            assert(all.skip(i as int).drop_first() =~= all.skip(i + 1));
        }
        if !is_blank(said[i].as_str()) {
            summary = Some(said[i].clone());
        }
        i += 1;
    }
    proof {
        if summary is None {
            assert(all.skip(i as int).len() == 0);
        }
    }
    let summary = match summary {
        Some(line) => line,
        None => "ESLint failed while evaluating the local project configuration.".to_owned(),
    };
    if contains(stderr, "getFilename is not a function") || contains(
        stderr,
        "getPhysicalFilename is not a function",
    ) {
        let start = concat2(
            "ESLint crashed while loading the local config/plugin: ",
            summary.as_str(),
        );
        return concat2(
            start.as_str(),
            ". This usually means the local plugin stack is not compatible with the local ESLint version. If you are on ESLint 10, update incompatible plugins or wrap them with @eslint/compat.",
        );
    }
    concat2("ESLint failed while evaluating the local project setup: ", summary.as_str())
}

/// A file to be linted.
#[derive(Debug, PartialEq, Eq)]
pub struct LintRequest {
    pub file_path: FsPath,
    pub text: String,
    pub fix: bool,
}

/// A file to be linted.
#[verifier::ext_equal]
pub struct LintRequestView {
    pub file_path: PathView,
    pub text: Seq<char>,
    pub fix: bool,
}

impl View for LintRequest {
    type V = LintRequestView;

    open spec fn view(&self) -> LintRequestView {
        LintRequestView { file_path: self.file_path@, text: self.text@, fix: self.fix }
    }
}

/// A problem that ESLint reports. ESLint leaves the place out for warnings about ignored files and
/// for errors in the configuration.
#[derive(Debug, PartialEq, Eq)]
pub struct LintMessage {
    pub rule_id: Option<String>,
    pub severity: u8,
    pub message: String,
    pub line: Option<u32>,
    pub column: Option<u32>,
    pub end_line: Option<u32>,
    pub end_column: Option<u32>,
}

/// A problem that ESLint reports.
#[verifier::ext_equal]
pub struct LintMessageView {
    pub rule_id: Option<Seq<char>>,
    pub severity: u8,
    pub message: Seq<char>,
    pub line: Option<u32>,
    pub column: Option<u32>,
    pub end_line: Option<u32>,
    pub end_column: Option<u32>,
}

impl View for LintMessage {
    type V = LintMessageView;

    open spec fn view(&self) -> LintMessageView {
        LintMessageView {
            rule_id: opt(self.rule_id),
            severity: self.severity,
            message: self.message@,
            line: self.line,
            column: self.column,
            end_line: self.end_line,
            end_column: self.end_column,
        }
    }
}

/// What ESLint says of a file.
#[derive(Debug, PartialEq, Eq)]
pub struct LintResponse {
    pub diagnostics: Vec<LintMessage>,
    pub fixed_text: Option<String>,
}

/// What ESLint says of a file.
#[verifier::ext_equal]
pub struct LintResponseView {
    pub diagnostics: Seq<LintMessageView>,
    pub fixed_text: Option<Seq<char>>,
}

impl View for LintResponse {
    type V = LintResponseView;

    open spec fn view(&self) -> LintResponseView {
        LintResponseView {
            diagnostics: each(self.diagnostics@),
            fixed_text: opt(self.fixed_text),
        }
    }
}

/// What became of linting.
pub open spec fn lint_result(r: Result<LintResponse, LintError>) -> Result<
    LintResponseView,
    Seq<char>,
> {
    match r {
        Ok(response) => Ok(response@),
        Err(error) => Err(error@),
    }
}

/// An answer of the worker.
#[derive(Debug, PartialEq, Eq)]
pub struct BridgeEnvelope {
    pub id: u64,
    pub ok: bool,
    pub diagnostics: Option<Vec<LintMessage>>,
    pub fixed_text: Option<String>,
    pub error: Option<String>,
}

/// An answer of the worker.
#[verifier::ext_equal]
pub struct BridgeEnvelopeView {
    pub id: u64,
    pub ok: bool,
    pub diagnostics: Option<Seq<LintMessageView>>,
    pub fixed_text: Option<Seq<char>>,
    pub error: Option<Seq<char>>,
}

impl View for BridgeEnvelope {
    type V = BridgeEnvelopeView;

    open spec fn view(&self) -> BridgeEnvelopeView {
        BridgeEnvelopeView {
            id: self.id,
            ok: self.ok,
            diagnostics: match self.diagnostics {
                Some(list) => Some(each(list@)),
                None => None,
            },
            fixed_text: opt(self.fixed_text),
            error: opt(self.error),
        }
    }
}

/// What came of an exchange with the worker.
#[derive(Debug, PartialEq, Eq)]
pub enum Exchange {
    /// The request could not be written.
    WriteFailed,
    /// The end of the request could not be written.
    DelimiterFailed,
    /// The answer could not be read.
    ReadFailed,
    /// No answer came in time.
    TimedOut,
    /// The worker has closed its output.
    Closed,
    /// A line came that is no answer.
    Undecodable,
    /// An answer came.
    Reply(BridgeEnvelope),
}

/// What came of an exchange with the worker.
#[verifier::ext_equal]
pub enum ExchangeView {
    WriteFailed,
    DelimiterFailed,
    ReadFailed,
    TimedOut,
    Closed,
    Undecodable,
    Reply(BridgeEnvelopeView),
}

impl View for Exchange {
    type V = ExchangeView;

    open spec fn view(&self) -> ExchangeView {
        match self {
            Exchange::WriteFailed => ExchangeView::WriteFailed,
            Exchange::DelimiterFailed => ExchangeView::DelimiterFailed,
            Exchange::ReadFailed => ExchangeView::ReadFailed,
            Exchange::TimedOut => ExchangeView::TimedOut,
            Exchange::Closed => ExchangeView::Closed,
            Exchange::Undecodable => ExchangeView::Undecodable,
            Exchange::Reply(envelope) => ExchangeView::Reply(envelope@),
        }
    }
}

/// That an answer is not that to the request.
pub open spec fn id_mismatch(expected: u64, got: u64) -> Seq<char> {
    "eslint worker response id mismatch: expected "@ + decimal(expected as nat) + ", got "@ + decimal(
        got as nat,
    )
}

/// What an exchange with the worker says of the file, where the request had this number.
pub open spec fn judged(exchange: ExchangeView, request_id: u64) -> Result<
    LintResponseView,
    Seq<char>,
> {
    match exchange {
        ExchangeView::WriteFailed => Err("failed to write request to eslint worker"@),
        ExchangeView::DelimiterFailed => Err(
            "failed to flush request delimiter to eslint worker"@,
        ),
        ExchangeView::ReadFailed => Err("failed to read response from eslint worker"@),
        ExchangeView::TimedOut => Err("eslint worker timed out while handling the request"@),
        ExchangeView::Closed => Err("eslint worker exited before replying"@),
        ExchangeView::Undecodable => Err("failed to decode eslint worker response"@),
        ExchangeView::Reply(envelope) => if envelope.id != request_id {
            Err(id_mismatch(request_id, envelope.id))
        } else if envelope.ok {
            Ok(
                LintResponseView {
                    diagnostics: match envelope.diagnostics {
                        Some(list) => list,
                        None => Seq::empty(),
                    },
                    fixed_text: envelope.fixed_text,
                },
            )
        } else {
            Err(
                bridge_error(
                    match envelope.error {
                        Some(error) => error,
                        None => Seq::empty(),
                    },
                ),
            )
        },
    }
}

/// What an exchange with the worker says of the file, where the request had this number.
pub fn judge(exchange: Exchange, request_id: u64) -> (r: Result<LintResponse, LintError>)
    ensures
        lint_result(r) == judged(exchange@, request_id),
{
    match exchange {
        Exchange::WriteFailed => Err(LintError::new("failed to write request to eslint worker")),
        Exchange::DelimiterFailed => Err(
            LintError::new("failed to flush request delimiter to eslint worker"),
        ),
        Exchange::ReadFailed => Err(LintError::new("failed to read response from eslint worker")),
        Exchange::TimedOut => Err(
            LintError::new("eslint worker timed out while handling the request"),
        ),
        Exchange::Closed => Err(LintError::new("eslint worker exited before replying")),
        Exchange::Undecodable => Err(LintError::new("failed to decode eslint worker response")),
        Exchange::Reply(envelope) => {
            if envelope.id != request_id {
                let text = concat2(
                    "eslint worker response id mismatch: expected ",
                    decimal_text(request_id).as_str(),
                );
                let text = concat2(text.as_str(), ", got ");
                return Err(
                    LintError {
                        message: concat2(text.as_str(), decimal_text(envelope.id).as_str()),
                    },
                );
            }
            if envelope.ok {
                let diagnostics = match envelope.diagnostics {
                    Some(list) => list,
                    None => {
                        let list: Vec<LintMessage> = Vec::new();
                        proof {
                            assert(each(list@) =~= Seq::<LintMessageView>::empty());
                        }
                        list
                    },
                };
                return Ok(LintResponse { diagnostics, fixed_text: envelope.fixed_text });
            }
            let error = match envelope.error {
                Some(error) => error,
                None => {
                    let error = String::new();
                    proof {
                        assert(error@ =~= Seq::<char>::empty());
                    }
                    error
                },
            };
            Err(LintError { message: format_bridge_error(error.as_str()) })
        },
    }
}

/// How a lint goes on after its first exchange.
#[derive(Debug)]
pub enum LintStep {
    /// It has ended.
    Finished(Result<LintResponse, LintError>),
    /// The worker is replaced and the request is made once more.
    Restart(LintError),
}

/// How a lint goes on after its first exchange.
#[verifier::ext_equal]
pub enum LintStepView {
    Finished(Result<LintResponseView, Seq<char>>),
    Restart(Seq<char>),
}

impl View for LintStep {
    type V = LintStepView;

    open spec fn view(&self) -> LintStepView {
        match self {
            LintStep::Finished(result) => LintStepView::Finished(lint_result(*result)),
            LintStep::Restart(error) => LintStepView::Restart(error@),
        }
    }
}

/// How a lint goes on after its first exchange.
pub open spec fn after_first(exchange: ExchangeView, request_id: u64) -> LintStepView {
    match judged(exchange, request_id) {
        Ok(response) => LintStepView::Finished(Ok(response)),
        Err(message) => if restart_worthy(message) {
            LintStepView::Restart(message)
        } else {
            LintStepView::Finished(Err(message))
        },
    }
}

/// What came of a lint whose worker has been replaced.
pub open spec fn after_second(first: Seq<char>, exchange: ExchangeView, request_id: u64) -> Result<
    LintResponseView,
    Seq<char>,
> {
    match judged(exchange, request_id) {
        Ok(response) => Ok(response),
        Err(_) => Err("eslint worker request failed after restart; original failure: "@ + first),
    }
}

/// A worker: the number of the last request.
#[derive(Debug)]
pub struct Worker {
    pub last_request_id: u64,
}

impl Worker {
    /// A worker that has had no request.
    pub fn new() -> (r: Worker)
        ensures
            r.last_request_id == 0,
    {
        Worker { last_request_id: 0 }
    }

    /// Takes the number of the next request.
    pub fn next_request_id(&mut self) -> (r: u64)
        requires
            old(self).last_request_id < u64::MAX,
        ensures
            r == old(self).last_request_id + 1,
            final(self).last_request_id == r,
    {
        self.last_request_id = self.last_request_id + 1;
        self.last_request_id
    }

    /// Says how a lint goes on after its first exchange.
    pub fn first_exchange(exchange: Exchange, request_id: u64) -> (r: LintStep)
        ensures
            r@ == after_first(exchange@, request_id),
    {
        match judge(exchange, request_id) {
            Ok(response) => LintStep::Finished(Ok(response)),
            Err(error) => if should_restart_worker_after(&error) {
                LintStep::Restart(error)
            } else {
                LintStep::Finished(Err(error))
            },
        }
    }

    /// Says what came of a lint whose worker could not be replaced.
    pub fn restart_failed(first: &LintError) -> (r: LintError)
        ensures
            r@ == "failed to restart eslint worker after request failure: "@ + first@,
    {
        LintError {
            message: concat2(
                "failed to restart eslint worker after request failure: ",
                first.message.as_str(),
            ),
        }
    }

    /// Says what came of a lint whose worker has been replaced.
    pub fn second_exchange(first: &LintError, exchange: Exchange, request_id: u64) -> (r: Result<
        LintResponse,
        LintError,
    >)
        ensures
            lint_result(r) == after_second(first@, exchange@, request_id),
    {
        match judge(exchange, request_id) {
            Ok(response) => Ok(response),
            Err(_) => Err(
                LintError {
                    message: concat2(
                        "eslint worker request failed after restart; original failure: ",
                        first.message.as_str(),
                    ),
                },
            ),
        }
    }
}

/// The arguments with which Node runs a worker for a project.
pub open spec fn worker_arguments(bridge: Seq<char>, project: ContextView) -> Seq<Seq<char>> {
    seq![
        "--input-type=module"@,
        "--eval"@,
        bridge,
        "eslint-lsp-bridge"@,
        path_text(project.eslint_package_json),
        path_text(project.cwd),
        project.config_format.bridge_value(),
    ]
}

/// The arguments with which Node runs a worker for a project. `bridge` is the worker's script.
pub fn worker_args(bridge: &str, project: &ProjectContext) -> (r: Vec<String>)
    ensures
        texts(r@) == worker_arguments(bridge@, project@),
{
    let mut args: Vec<String> = Vec::new();
    args.push("--input-type=module".to_owned());
    args.push("--eval".to_owned());
    args.push(bridge.to_owned());
    args.push("eslint-lsp-bridge".to_owned());
    args.push(project.eslint_package_json.to_text());
    args.push(project.cwd.to_text());
    args.push(project.config_format.as_bridge_value().to_owned());
    proof {
        assert(texts(args@) =~= worker_arguments(bridge@, project@));
    }
    args
}

/// Where ESLint has been found, and the workers that have been started, by number.
#[derive(Debug)]
pub struct Resolver {
    pub package_cache: Table<FsPath, FsPath>,
    pub worker_cache: Table<ProjectContext, u64>,
}

/// Where the manifest of ESLint lies, seen from a directory.
pub open spec fn eslint_manifest(
    cache: Seq<(PathView, PathView)>,
    f: FindingsView,
    dir: PathView,
) -> StepView<OutcomeView<PathView>> {
    match lookup(cache, dir) {
        Some(path) => StepView::Known(OutcomeView::Found(path)),
        None => match f.resolved(NodeQueryView { base: dir, package: "eslint"@ }) {
            StepView::Ask(probe) => StepView::Ask(probe),
            StepView::Known(reply) => StepView::Known(manifest_in_reply(reply, dir)),
        },
    }
}

/// Where the manifest of ESLint lies, as Node has answered.
pub open spec fn manifest_in_reply(reply: NodeReplyView, dir: PathView) -> OutcomeView<PathView> {
    match reply {
        NodeReplyView::Output(text) => OutcomeView::Found(path_of(trimmed(text))),
        NodeReplyView::Unresolved(stderr) => OutcomeView::Failed(
            "could not resolve a local eslint installation from "@ + path_text(dir) + ": "@ + trimmed(
                stderr,
            ),
        ),
        NodeReplyView::Garbled(reason) => OutcomeView::Failed(reason),
        NodeReplyView::Missing => OutcomeView::Failed(
            "failed to spawn node while resolving eslint from "@ + path_text(dir),
        ),
        NodeReplyView::Broken => OutcomeView::Failed(
            "failed to spawn node while resolving eslint from "@ + path_text(dir),
        ),
    }
}

/// The project that a file belongs to, where its roots are known.
pub open spec fn rooted_context(
    cache: Seq<(PathView, PathView)>,
    f: FindingsView,
    roots: RootsView,
) -> StepView<OutcomeView<ContextView>> {
    match eslint_manifest(cache, f, roots.eslint_resolution_dir) {
        StepView::Ask(probe) => StepView::Ask(probe),
        StepView::Known(OutcomeView::Absent) => StepView::Known(OutcomeView::Absent),
        StepView::Known(OutcomeView::Failed(message)) => StepView::Known(
            OutcomeView::Failed(message),
        ),
        StepView::Known(OutcomeView::Found(eslint_package_json)) => StepView::Known(
            OutcomeView::Found(
                ContextView {
                    cwd: roots.cwd,
                    config_format: roots.config_format,
                    eslint_package_json,
                },
            ),
        ),
    }
}

/// The project that a file belongs to.
pub open spec fn file_context(
    cache: Seq<(PathView, PathView)>,
    f: FindingsView,
    file_path: PathView,
) -> StepView<OutcomeView<ContextView>> {
    match parent_of(file_path) {
        None => StepView::Known(
            OutcomeView::Failed(
                "cannot lint a path without a parent directory: "@ + path_text(file_path),
            ),
        ),
        Some(dir) => match project_roots(f, dir) {
            StepView::Ask(probe) => StepView::Ask(probe),
            StepView::Known(roots) => rooted_context(cache, f, roots),
        },
    }
}

/// What is known of where ESLint lies once a file's project has been found.
pub open spec fn cache_after(
    cache: Seq<(PathView, PathView)>,
    f: FindingsView,
    file_path: PathView,
) -> Seq<(PathView, PathView)> {
    match (parent_of(file_path), file_context(cache, f, file_path)) {
        (Some(dir), StepView::Known(OutcomeView::Found(context))) => {
            let base = project_roots(f, dir)->Known_0.eslint_resolution_dir;
            if holds(cache, base) {
                cache
            } else {
                put(cache, base, context.eslint_package_json)
            }
        },
        _ => cache,
    }
}

fn read_manifest_reply(reply: &NodeReply, dir: &FsPath) -> (r: Outcome<FsPath>)
    ensures
        r@ == manifest_in_reply(reply@, dir@),
{
    match reply {
        NodeReply::Output(text) => {
            let path = trim(text.as_str());
            Outcome::Found(FsPath::parse(path.as_str()))
        },
        NodeReply::Unresolved(stderr) => {
            let text = concat2(
                "could not resolve a local eslint installation from ",
                dir.to_text().as_str(),
            );
            let text = concat2(text.as_str(), ": ");
            Outcome::Failed(concat2(text.as_str(), trim(stderr.as_str()).as_str()))
        },
        NodeReply::Garbled(reason) => Outcome::Failed(reason.clone()),
        NodeReply::Missing => Outcome::Failed(
            concat2(
                "failed to spawn node while resolving eslint from ",
                dir.to_text().as_str(),
            ),
        ),
        NodeReply::Broken => Outcome::Failed(
            concat2(
                "failed to spawn node while resolving eslint from ",
                dir.to_text().as_str(),
            ),
        ),
    }
}

impl Resolver {
    /// Nothing is known.
    pub fn new() -> (r: Resolver)
        ensures
            r.package_cache@ == Seq::<(PathView, PathView)>::empty(),
            r.worker_cache@ == Seq::<(ContextView, u64)>::empty(),
    {
        Resolver { package_cache: Table::new(), worker_cache: Table::new() }
    }

    /// Finds out which project a file belongs to, and keeps where its ESLint lies.
    pub fn resolve_project_context(&mut self, findings: &Findings, file_path: &FsPath) -> (r: Step<
        Outcome<ProjectContext>,
    >)
        ensures
            r@ == file_context(old(self).package_cache@, findings@, file_path@),
            final(self).package_cache@ == cache_after(
                old(self).package_cache@,
                findings@,
                file_path@,
            ),
            final(self).worker_cache@ == old(self).worker_cache@,
    {
        let dir = match file_path.parent() {
            None => {
                return Step::Known(
                    Outcome::Failed(
                        concat2(
                            "cannot lint a path without a parent directory: ",
                            file_path.to_text().as_str(),
                        ),
                    ),
                );
            },
            Some(dir) => dir,
        };
        let roots = match discover_project_roots(findings, &dir) {
            Step::Ask(probe) => {
                return Step::Ask(probe);
            },
            Step::Known(roots) => roots,
        };
        let ProjectRoots { cwd, config_format, eslint_resolution_dir } = roots;
        let cached = match self.package_cache.get(&eslint_resolution_dir) {
            Some(path) => Some(path.clone()),
            None => None,
        };
        if let Some(eslint_package_json) = cached {
            return Step::Known(
                Outcome::Found(ProjectContext { cwd, config_format, eslint_package_json }),
            );
        }
        let query = NodeQuery {
            base: eslint_resolution_dir.clone(),
            package: "eslint".to_owned(),
        };
        let found = match findings.resolved(query) {
            Step::Ask(probe) => {
                return Step::Ask(probe);
            },
            Step::Known(reply) => read_manifest_reply(reply, &eslint_resolution_dir),
        };
        match found {
            Outcome::Found(path) => {
                self.package_cache.insert(eslint_resolution_dir, path.clone());
                Step::Known(
                    Outcome::Found(
                        ProjectContext { cwd, config_format, eslint_package_json: path },
                    ),
                )
            },
            Outcome::Absent => Step::Known(Outcome::Absent),
            Outcome::Failed(message) => Step::Known(Outcome::Failed(message)),
        }
    }

    /// The worker for a project, if one has been started.
    pub fn worker(&self, project: &ProjectContext) -> (r: Option<u64>)
        ensures
            r == lookup(self.worker_cache@, project@),
    {
        match self.worker_cache.get(project) {
            Some(worker) => Some(*worker),
            None => None,
        }
    }

    /// Keeps a worker for a project, unless one has been kept meanwhile. Says which is kept.
    pub fn keep_worker(&mut self, project: &ProjectContext, worker: u64) -> (r: u64)
        ensures
            match lookup(old(self).worker_cache@, project@) {
                Some(kept) => r == kept && final(self).worker_cache@ == old(self).worker_cache@,
                None => r == worker && final(self).worker_cache@ == put(
                    old(self).worker_cache@,
                    project@,
                    worker,
                ),
            },
            lookup(final(self).worker_cache@, project@) == Some(r),
            final(self).package_cache@ == old(self).package_cache@,
    {
        match self.worker(project) {
            Some(kept) => kept,
            None => {
                proof {
                    put_then_lookup(self.worker_cache@, project@, worker, project@);
                }
                self.worker_cache.insert(project.clone(), worker);
                worker
            },
        }
    }
}

} // verus!
