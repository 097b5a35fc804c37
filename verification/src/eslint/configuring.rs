//! What holds of how ESLint is configured and run for a file, whatever is on disk and whatever its worker
//! says.

use vstd::prelude::*;
use crate::disk::{FileTextView, FindingsView, NodeQueryView, NodeReplyView, OutcomeView, StepView};
use crate::eslint::resolver::{
    after_first, after_second, bridge_error, cache_after, config_at, eslint_manifest, file_context,
    first_said, flat_config_names, judged, legacy_config_names, manifest_configures,
    manifest_in_reply, manifest_notice, project_roots, roots_among, tool_unavailable,
    warnings_among, worker_arguments, BridgeEnvelopeView, ConfigFormat, ContextView, ExchangeView,
    LintMessageView, LintResponseView, LintStepView, NoticeView, RootsView,
};
use crate::json::{json_get, JsonView};
use crate::json_text::{json_document, json_reading};
use crate::package_laws::one_name_is_enough;
use crate::path::{ancestors_of, child_of, parent_of, path_of, path_text, PathView};
use crate::table::{holds, put_lookups};
use crate::text::{blank, holds_text, text_lines, trimmed};

verus! {

/// Whether a file of this name is a configuration of the current form.
pub open spec fn is_flat_config(name: Seq<char>) -> bool {
    name == "eslint.config.js"@ || name == "eslint.config.mjs"@ || name == "eslint.config.cjs"@
        || name == "eslint.config.ts"@ || name == "eslint.config.mts"@ || name
        == "eslint.config.cts"@
}

/// Whether a file of this name is a configuration of the form before.
pub open spec fn is_legacy_config(name: Seq<char>) -> bool {
    name == ".eslintrc"@ || name == ".eslintrc.js"@ || name == ".eslintrc.cjs"@ || name
        == ".eslintrc.json"@ || name == ".eslintrc.yaml"@ || name == ".eslintrc.yml"@
}

proof fn config_names()
    ensures
        forall|name: Seq<char>| #[trigger] is_flat_config(name) <==> flat_config_names().contains(name),
        forall|name: Seq<char>|
            #[trigger] is_legacy_config(name) <==> legacy_config_names().contains(name),
{
    let flat = flat_config_names();
    assert(flat[0] == "eslint.config.js"@ && flat[1] == "eslint.config.mjs"@ && flat[2]
        == "eslint.config.cjs"@ && flat[3] == "eslint.config.ts"@ && flat[4]
        == "eslint.config.mts"@ && flat[5] == "eslint.config.cts"@);
    assert forall|name: Seq<char>| #[trigger] is_flat_config(name) implies flat.contains(name) by {
    }
    let legacy = legacy_config_names();
    assert(legacy[0] == ".eslintrc"@ && legacy[1] == ".eslintrc.js"@ && legacy[2]
        == ".eslintrc.cjs"@ && legacy[3] == ".eslintrc.json"@ && legacy[4] == ".eslintrc.yaml"@
        && legacy[5] == ".eslintrc.yml"@);
    assert forall|name: Seq<char>| #[trigger] is_legacy_config(name) implies legacy.contains(name) by {
    }
}

/// A directory is configured by the files that it holds, in the current form before the one before it, and
/// in the latter also by its manifest. One that holds none of these is not configured.
pub proof fn configurations_are_told_by_their_files(f: FindingsView, dir: PathView, name: Seq<char>)
    requires
        config_at(f, dir) is Known,
    ensures
        is_flat_config(name) && f.present(child_of(dir, name)) == StepView::Known(true)
            ==> config_at(f, dir) == StepView::Known(ConfigFormat::Flat),
        is_legacy_config(name) && f.present(child_of(dir, name)) == StepView::Known(true)
            ==> config_at(f, dir)->Known_0 != ConfigFormat::Default,
        manifest_configures(f, dir) == StepView::Known(true) ==> config_at(f, dir)->Known_0
            != ConfigFormat::Default,
        config_at(f, dir) == StepView::Known(ConfigFormat::Flat) ==> exists|n: Seq<char>|
            is_flat_config(n) && f.present(#[trigger] child_of(dir, n)) == StepView::Known(true),
        config_at(f, dir) == StepView::Known(ConfigFormat::Eslintrc) ==> (is_flat_config(name)
            ==> f.present(child_of(dir, name)) == StepView::Known(false)) && (manifest_configures(
            f,
            dir,
        ) == StepView::Known(true) || exists|n: Seq<char>|
            is_legacy_config(n) && f.present(#[trigger] child_of(dir, n)) == StepView::Known(true)),
        config_at(f, dir) == StepView::Known(ConfigFormat::Default) ==> (is_flat_config(name)
            || is_legacy_config(name) ==> f.present(child_of(dir, name)) == StepView::Known(false))
            && manifest_configures(f, dir) == StepView::Known(false),
{
    config_names();
    let flat = flat_config_names();
    let legacy = legacy_config_names();
    one_name_is_enough(f, dir, flat);
    if is_flat_config(name) {
        assert(flat.contains(name));
        let k = choose|k: int| 0 <= k < flat.len() && flat[k] == name;
        assert(flat[k] == name);
    }
    if config_at(f, dir) == StepView::Known(ConfigFormat::Flat) {
        let k = choose|k: int|
            0 <= k < flat.len() && f.present(child_of(dir, #[trigger] flat[k])) == StepView::Known(
                true,
            );
        assert(flat.contains(flat[k]));
        assert(is_flat_config(flat[k]));
    } else {
        one_name_is_enough(f, dir, legacy);
        if is_legacy_config(name) {
            assert(legacy.contains(name));
            let k = choose|k: int| 0 <= k < legacy.len() && legacy[k] == name;
            assert(legacy[k] == name);
        }
        if exists|k: int|
            0 <= k < legacy.len() && f.present(child_of(dir, #[trigger] legacy[k]))
                == StepView::Known(true) {
            let k = choose|k: int|
                0 <= k < legacy.len() && f.present(child_of(dir, #[trigger] legacy[k]))
                    == StepView::Known(true);
            assert(legacy.contains(legacy[k]));
            assert(is_legacy_config(legacy[k]));
        }
    }
}

/// A manifest configures its directory just when it has a configuration in it.
pub proof fn manifests_configure_their_directory(f: FindingsView, dir: PathView, raw: Seq<char>)
    requires
        f.text(child_of(dir, "package.json"@)) == StepView::Known(FileTextView::Text(raw)),
    ensures
        json_document(raw) matches Some(package) ==> (manifest_configures(f, dir)
            == StepView::Known(true) <==> json_get(package, "eslintConfig"@) is Some),
        json_document(raw) is None ==> manifest_configures(f, dir) == StepView::Known(false),
{
}

/// Whether a directory is known to have a manifest.
pub open spec fn has_manifest(f: FindingsView, dir: PathView) -> bool {
    f.present(child_of(dir, "package.json"@)) == StepView::Known(true)
}

/// Whether a directory is known to have no manifest.
pub open spec fn has_no_manifest(f: FindingsView, dir: PathView) -> bool {
    f.present(child_of(dir, "package.json"@)) == StepView::Known(false)
}

proof fn roots_without_a_package(
    f: FindingsView,
    start: PathView,
    dirs: Seq<PathView>,
    i: int,
    configured: bool,
)
    requires
        0 <= i <= dirs.len(),
        forall|j: int|
            0 <= j < i ==> config_at(f, #[trigger] dirs[j]) == StepView::Known(
                ConfigFormat::Default,
            ) && has_no_manifest(f, dirs[j]),
        configured ==> i < dirs.len() && has_no_manifest(f, dirs[i]) && config_at(f, dirs[i]) is Known
            && config_at(f, dirs[i])->Known_0 != ConfigFormat::Default,
        !configured ==> i == dirs.len(),
    ensures
        roots_among(f, start, dirs, None) == StepView::Known(
            if configured {
                RootsView {
                    cwd: dirs[i],
                    config_format: config_at(f, dirs[i])->Known_0,
                    eslint_resolution_dir: dirs[i],
                }
            } else {
                RootsView {
                    cwd: start,
                    config_format: ConfigFormat::Default,
                    eslint_resolution_dir: start,
                }
            },
        ),
    decreases dirs.len(),
{
    if i > 0 {
        assert(config_at(f, dirs[0]) == StepView::Known(ConfigFormat::Default));
        let rest = dirs.drop_first();
        assert forall|j: int| 0 <= j < i - 1 implies config_at(f, #[trigger] rest[j])
            == StepView::Known(ConfigFormat::Default) && has_no_manifest(f, rest[j]) by {
            assert(rest[j] == dirs[j + 1]);
        }
        roots_without_a_package(f, start, rest, i - 1, configured);
    }
}

proof fn roots_with_a_package(
    f: FindingsView,
    start: PathView,
    dirs: Seq<PathView>,
    package: PathView,
    i: int,
    configured: bool,
)
    requires
        0 <= i <= dirs.len(),
        forall|j: int|
            0 <= j < i ==> config_at(f, #[trigger] dirs[j]) == StepView::Known(
                ConfigFormat::Default,
            ),
        configured ==> i < dirs.len() && config_at(f, dirs[i]) is Known && config_at(
            f,
            dirs[i],
        )->Known_0 != ConfigFormat::Default,
        !configured ==> i == dirs.len(),
    ensures
        roots_among(f, start, dirs, Some(package)) == StepView::Known(
            if configured {
                RootsView {
                    cwd: dirs[i],
                    config_format: config_at(f, dirs[i])->Known_0,
                    eslint_resolution_dir: package,
                }
            } else {
                RootsView {
                    cwd: package,
                    config_format: ConfigFormat::Default,
                    eslint_resolution_dir: package,
                }
            },
        ),
    decreases dirs.len(),
{
    if i > 0 {
        assert(config_at(f, dirs[0]) == StepView::Known(ConfigFormat::Default));
        let rest = dirs.drop_first();
        assert forall|j: int| 0 <= j < i - 1 implies config_at(f, #[trigger] rest[j])
            == StepView::Known(ConfigFormat::Default) by {
            assert(rest[j] == dirs[j + 1]);
        }
        roots_with_a_package(f, start, rest, package, i - 1, configured);
    }
}

proof fn roots_from_the_package(
    f: FindingsView,
    start: PathView,
    dirs: Seq<PathView>,
    k: int,
    i: int,
    configured: bool,
)
    requires
        0 <= k < dirs.len(),
        k <= i <= dirs.len(),
        has_manifest(f, dirs[k]),
        forall|j: int| 0 <= j < k ==> has_no_manifest(f, #[trigger] dirs[j]),
        forall|j: int|
            0 <= j < i ==> config_at(f, #[trigger] dirs[j]) == StepView::Known(
                ConfigFormat::Default,
            ),
        configured ==> i < dirs.len() && config_at(f, dirs[i]) is Known && config_at(
            f,
            dirs[i],
        )->Known_0 != ConfigFormat::Default,
        !configured ==> i == dirs.len(),
    ensures
        roots_among(f, start, dirs, None) == StepView::Known(
            if configured {
                RootsView {
                    cwd: dirs[i],
                    config_format: config_at(f, dirs[i])->Known_0,
                    eslint_resolution_dir: dirs[k],
                }
            } else {
                RootsView {
                    cwd: dirs[k],
                    config_format: ConfigFormat::Default,
                    eslint_resolution_dir: dirs[k],
                }
            },
        ),
    decreases dirs.len(),
{
    let rest = dirs.drop_first();
    if i > 0 {
        assert(config_at(f, dirs[0]) == StepView::Known(ConfigFormat::Default));
        assert forall|j: int| 0 <= j < i - 1 implies config_at(f, #[trigger] rest[j])
            == StepView::Known(ConfigFormat::Default) by {
            assert(rest[j] == dirs[j + 1]);
        }
        if k > 0 {
            assert(has_no_manifest(f, dirs[0]));
            assert forall|j: int| 0 <= j < k - 1 implies has_no_manifest(f, #[trigger] rest[j]) by {
                assert(rest[j] == dirs[j + 1]);
            }
            roots_from_the_package(f, start, rest, k - 1, i - 1, configured);
        } else {
            roots_with_a_package(f, start, rest, dirs[0], i - 1, configured);
        }
    }
}

/// ESLint runs in the nearest directory that is configured, and is itself looked for from the nearest
/// package, where that lies no further up.
pub proof fn eslint_runs_where_it_is_configured(f: FindingsView, start: PathView, k: int, i: int)
    requires
        0 <= k <= i < ancestors_of(start).len(),
        has_manifest(f, ancestors_of(start)[k]),
        forall|j: int| 0 <= j < k ==> has_no_manifest(f, #[trigger] ancestors_of(start)[j]),
        forall|j: int|
            0 <= j < i ==> config_at(f, #[trigger] ancestors_of(start)[j]) == StepView::Known(
                ConfigFormat::Default,
            ),
        config_at(f, ancestors_of(start)[i]) is Known,
        config_at(f, ancestors_of(start)[i])->Known_0 != ConfigFormat::Default,
    ensures
        project_roots(f, start) matches StepView::Known(roots) && roots.cwd == ancestors_of(start)[i]
            && roots.config_format == config_at(f, ancestors_of(start)[i])->Known_0
            && roots.eslint_resolution_dir == ancestors_of(start)[k],
{
    roots_from_the_package(f, start, ancestors_of(start), k, i, true);
}

/// Where a configured directory is reached before any package, ESLint is looked for from there, too.
pub proof fn eslint_is_found_from_its_configuration(f: FindingsView, start: PathView, i: int)
    requires
        0 <= i < ancestors_of(start).len(),
        forall|j: int|
            0 <= j < i ==> config_at(f, #[trigger] ancestors_of(start)[j]) == StepView::Known(
                ConfigFormat::Default,
            ) && has_no_manifest(f, ancestors_of(start)[j]),
        has_no_manifest(f, ancestors_of(start)[i]),
        config_at(f, ancestors_of(start)[i]) is Known,
        config_at(f, ancestors_of(start)[i])->Known_0 != ConfigFormat::Default,
    ensures
        project_roots(f, start) matches StepView::Known(roots) && roots.cwd == ancestors_of(start)[i]
            && roots.config_format == config_at(f, ancestors_of(start)[i])->Known_0
            && roots.eslint_resolution_dir == ancestors_of(start)[i],
{
    roots_without_a_package(f, start, ancestors_of(start), i, true);
}

/// Where nothing is configured, ESLint runs in the nearest package, and where there is none in the file's
/// own directory.
pub proof fn unconfigured_files_are_linted_in_their_package(f: FindingsView, start: PathView, k: int)
    requires
        forall|j: int|
            0 <= j < ancestors_of(start).len() ==> config_at(f, #[trigger] ancestors_of(start)[j])
                == StepView::Known(ConfigFormat::Default),
        0 <= k <= ancestors_of(start).len(),
        forall|j: int| 0 <= j < k ==> has_no_manifest(f, #[trigger] ancestors_of(start)[j]),
        k < ancestors_of(start).len() ==> has_manifest(f, ancestors_of(start)[k]),
    ensures
        project_roots(f, start) matches StepView::Known(roots) && roots.config_format
            == ConfigFormat::Default && roots.cwd == roots.eslint_resolution_dir && roots.cwd == (
        if k < ancestors_of(start).len() {
            ancestors_of(start)[k]
        } else {
            start
        }),
{
    let dirs = ancestors_of(start);
    if k < dirs.len() {
        roots_from_the_package(f, start, dirs, k, dirs.len() as int, false);
    } else {
        roots_without_a_package(f, start, dirs, dirs.len() as int, false);
    }
}

/// A file is linted as its directory is configured, with the ESLint to which Node resolves from there.
pub proof fn files_are_linted_as_their_directory_is_configured(
    cache: Seq<(PathView, PathView)>,
    f: FindingsView,
    file_path: PathView,
    dir: PathView,
    roots: RootsView,
    output: Seq<char>,
)
    requires
        parent_of(file_path) == Some(dir),
        project_roots(f, dir) == StepView::Known(roots),
        !holds(cache, roots.eslint_resolution_dir),
        f.resolved(NodeQueryView { base: roots.eslint_resolution_dir, package: "eslint"@ })
            == StepView::Known(NodeReplyView::Output(output)),
    ensures
        file_context(cache, f, file_path) == StepView::Known(
            OutcomeView::Found(
                ContextView {
                    cwd: roots.cwd,
                    config_format: roots.config_format,
                    eslint_package_json: path_of(trimmed(output)),
                },
            ),
        ),
{
}

/// A file without a directory is not linted.
pub proof fn files_must_lie_in_a_directory(
    cache: Seq<(PathView, PathView)>,
    f: FindingsView,
    file_path: PathView,
)
    requires
        parent_of(file_path) is None,
    ensures
        file_context(cache, f, file_path) matches StepView::Known(OutcomeView::Failed(_)),
{
}

/// Where ESLint has been found once, it is not looked for again: whatever is known on disk later, it is
/// where it was.
pub proof fn eslint_is_looked_for_once(
    cache: Seq<(PathView, PathView)>,
    f: FindingsView,
    g: FindingsView,
    file_path: PathView,
    dir: PathView,
    context: ContextView,
)
    requires
        parent_of(file_path) == Some(dir),
        file_context(cache, f, file_path) == StepView::Known(OutcomeView::Found(context)),
    ensures
        eslint_manifest(
            cache_after(cache, f, file_path),
            g,
            project_roots(f, dir)->Known_0.eslint_resolution_dir,
        ) == StepView::Known(OutcomeView::Found(context.eslint_package_json)),
{
    let base = project_roots(f, dir)->Known_0.eslint_resolution_dir;
    put_lookups(cache, base, context.eslint_package_json);
}

/// Nothing is kept of a search that has not found ESLint.
pub proof fn only_what_is_found_is_kept(
    cache: Seq<(PathView, PathView)>,
    f: FindingsView,
    file_path: PathView,
)
    requires
        !(file_context(cache, f, file_path) matches StepView::Known(OutcomeView::Found(_))),
    ensures
        cache_after(cache, f, file_path) == cache,
{
}

/// The worker is told where ESLint lies, in which directory it runs and how that is configured, in this
/// order, behind the script that Node evaluates as a module.
pub proof fn the_worker_is_told_its_project(bridge: Seq<char>, project: ContextView)
    ensures
        ({
            let args = worker_arguments(bridge, project);
            &&& args.len() == 7
            &&& args[0] == "--input-type=module"@
            &&& args[1] == "--eval"@
            &&& args[2] == bridge
            &&& args[4] == path_text(project.eslint_package_json)
            &&& args[5] == path_text(project.cwd)
            &&& project.config_format == ConfigFormat::Flat ==> args[6] == "flat"@
            &&& project.config_format == ConfigFormat::Eslintrc ==> args[6] == "eslintrc"@
            &&& project.config_format == ConfigFormat::Default ==> args[6] == "default"@
        }),
{
}

/// The answer to a request is what ESLint reports, and only an answer to that very request is taken.
pub proof fn answers_belong_to_their_request(envelope: BridgeEnvelopeView, request_id: u64)
    ensures
        ({
            let result = judged(ExchangeView::Reply(envelope), request_id);
            &&& envelope.id != request_id ==> result is Err
            &&& envelope.id == request_id && envelope.ok ==> result is Ok && result->Ok_0.fixed_text
                == envelope.fixed_text && result->Ok_0.diagnostics == (match envelope.diagnostics {
                Some(list) => list,
                None => Seq::<LintMessageView>::empty(),
            })
            &&& envelope.id == request_id && !envelope.ok ==> result is Err
            &&& envelope.id == request_id && !envelope.ok && envelope.error is Some ==> result->Err_0
                == bridge_error(envelope.error->0)
        }),
{
}

/// A request that a failing worker did not answer is made once more; the answer of the second worker
/// counts, and where that fails as well, the client is told why the first did.
pub proof fn failed_requests_are_made_once_more(
    first: ExchangeView,
    second: ExchangeView,
    request_id: u64,
    next_id: u64,
)
    ensures
        after_first(first, request_id) matches LintStepView::Finished(result) ==> result == judged(
            first,
            request_id,
        ),
        after_first(first, request_id) matches LintStepView::Restart(message) ==> judged(
            first,
            request_id,
        ) == Err::<LintResponseView, Seq<char>>(message) && (judged(second, next_id) is Ok ==> after_second(
            message,
            second,
            next_id,
        ) == judged(second, next_id)) && (judged(second, next_id) is Err ==> after_second(
            message,
            second,
            next_id,
        ) == Err::<LintResponseView, Seq<char>>(
            "eslint worker request failed after restart; original failure: "@ + message,
        )),
{
}

proof fn first_said_is_first(said: Seq<Seq<char>>, i: int)
    requires
        0 <= i < said.len(),
        !blank(said[i]),
        forall|j: int| 0 <= j < i ==> blank(#[trigger] said[j]),
    ensures
        first_said(said) == Some(said[i]),
    decreases said.len(),
{
    if i > 0 {
        assert(blank(said[0]));
        let rest = said.drop_first();
        assert forall|j: int| 0 <= j < i - 1 implies blank(#[trigger] rest[j]) by {
            assert(rest[j] == said[j + 1]);
        }
        first_said_is_first(rest, i - 1);
    }
}

/// The first line that ESLint says something in is what the client is told of a failure, and that plugins
/// may not fit is added where ESLint complains of a function that they lack.
pub proof fn failures_tell_what_eslint_says(stderr: Seq<char>, i: int)
    requires
        0 <= i < text_lines(stderr).len(),
        !blank(text_lines(stderr)[i]),
        forall|j: int| 0 <= j < i ==> blank(#[trigger] text_lines(stderr)[j]),
    ensures
        holds_text(stderr, "getFilename is not a function"@) || holds_text(
            stderr,
            "getPhysicalFilename is not a function"@,
        ) ==> bridge_error(stderr)
            == "ESLint crashed while loading the local config/plugin: "@ + text_lines(stderr)[i]
            + ". This usually means the local plugin stack is not compatible with the local ESLint version. If you are on ESLint 10, update incompatible plugins or wrap them with @eslint/compat."@,
        !holds_text(stderr, "getFilename is not a function"@) && !holds_text(
            stderr,
            "getPhysicalFilename is not a function"@,
        ) ==> bridge_error(stderr) == "ESLint failed while evaluating the local project setup: "@
            + text_lines(stderr)[i],
{
    first_said_is_first(text_lines(stderr), i);
}

/// That ESLint is missing is told from the text of a failure.
pub proof fn missing_tools_are_told_by_their_text(message: Seq<char>)
    ensures
        tool_unavailable(message) <==> holds_text(
            message,
            "could not resolve a local eslint installation"@,
        ) || holds_text(message, "failed to spawn node while resolving eslint"@) || holds_text(
            message,
            "failed to spawn the eslint worker process"@,
        ),
{
}

/// Each manifest below the configuration that cannot be read or parsed is warned of.
pub proof fn bad_manifests_are_warned_of(f: FindingsView, dirs: Seq<PathView>, i: int, warning: Seq<char>)
    requires
        warnings_among(f, dirs) is Known,
        0 <= i < dirs.len(),
        forall|j: int|
            0 <= j <= i ==> config_at(f, #[trigger] dirs[j]) == StepView::Known(
                ConfigFormat::Default,
            ),
        manifest_notice(f, dirs[i]) == StepView::Known(NoticeView::Unreadable(warning))
            || manifest_notice(f, dirs[i]) == StepView::Known(NoticeView::Unparseable(warning)),
    ensures
        warnings_among(f, dirs)->Known_0.contains(warning),
    decreases dirs.len(),
{
    assert(config_at(f, dirs[0]) == StepView::Known(ConfigFormat::Default));
    let rest = dirs.drop_first();
    let more = warnings_among(f, rest)->Known_0;
    let first = crate::eslint::resolver::noticed(manifest_notice(f, dirs[0])->Known_0);
    if i > 0 {
        assert forall|j: int| 0 <= j <= i - 1 implies config_at(f, #[trigger] rest[j])
            == StepView::Known(ConfigFormat::Default) by {
            assert(rest[j] == dirs[j + 1]);
        }
        bad_manifests_are_warned_of(f, rest, i - 1, warning);
        let k = choose|k: int| 0 <= k < more.len() && more[k] == warning;
        assert((first + more)[first.len() + k] == warning);
    } else {
        assert((first + more)[0] == warning);
    }
}

/// Each failure of an exchange with the worker is told.
pub proof fn failed_exchanges_are_told(request_id: u64)
    ensures
        judged(ExchangeView::WriteFailed, request_id) == Err::<LintResponseView, Seq<char>>(
            "failed to write request to eslint worker"@,
        ),
        judged(ExchangeView::DelimiterFailed, request_id) == Err::<LintResponseView, Seq<char>>(
            "failed to flush request delimiter to eslint worker"@,
        ),
        judged(ExchangeView::ReadFailed, request_id) == Err::<LintResponseView, Seq<char>>(
            "failed to read response from eslint worker"@,
        ),
        judged(ExchangeView::TimedOut, request_id) == Err::<LintResponseView, Seq<char>>(
            "eslint worker timed out while handling the request"@,
        ),
        judged(ExchangeView::Closed, request_id) == Err::<LintResponseView, Seq<char>>(
            "eslint worker exited before replying"@,
        ),
        judged(ExchangeView::Undecodable, request_id) == Err::<LintResponseView, Seq<char>>(
            "failed to decode eslint worker response"@,
        ),
{
}

/// A manifest that is there but cannot be read is noticed with its path and the reason, and one that cannot be
/// parsed is noticed as that. One that is well is not noticed.
pub proof fn bad_manifests_are_noticed(f: FindingsView, dir: PathView, raw: Seq<char>, reason: Seq<char>)
    ensures
        ({
            let path = child_of(dir, "package.json"@);
            &&& f.text(path) == StepView::Known(FileTextView::Unreadable(reason)) && f.present(path)
                == StepView::Known(true) ==> manifest_notice(f, dir) == StepView::Known(
                NoticeView::Unreadable("failed to read "@ + path_text(path) + ": "@ + reason),
            )
            &&& f.text(path) == StepView::Known(FileTextView::Text(raw)) && json_reading(raw) is Ok
                ==> manifest_notice(f, dir) == StepView::Known(NoticeView::Nothing)
            &&& f.text(path) == StepView::Known(FileTextView::Text(raw)) && json_reading(raw)
                == Err::<JsonView, Seq<char>>(reason) ==> manifest_notice(f, dir) == StepView::Known(
                NoticeView::Unparseable("failed to parse "@ + path_text(path) + ": "@ + reason),
            )
        }),
{
}

/// Where Node does not know ESLint, what it says is told with the directory, and where Node cannot be run, that
/// is told.
pub proof fn searches_for_eslint_tell_why_they_fail(dir: PathView, text: Seq<char>)
    ensures
        manifest_in_reply(NodeReplyView::Unresolved(text), dir) == OutcomeView::<PathView>::Failed(
            "could not resolve a local eslint installation from "@ + path_text(dir) + ": "@
                + trimmed(text),
        ),
        manifest_in_reply(NodeReplyView::Missing, dir) == OutcomeView::<PathView>::Failed(
            "failed to spawn node while resolving eslint from "@ + path_text(dir),
        ),
        manifest_in_reply(NodeReplyView::Broken, dir) == OutcomeView::<PathView>::Failed(
            "failed to spawn node while resolving eslint from "@ + path_text(dir),
        ),
        manifest_in_reply(NodeReplyView::Garbled(text), dir) == OutcomeView::<PathView>::Failed(text),
{
}

} // verus!
