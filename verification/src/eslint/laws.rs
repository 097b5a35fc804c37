//! What holds of linting whatever happens.

use vstd::prelude::*;
use vstd::string::*;
use crate::disk::{FindingsView, NodeReplyView, OutcomeView, StepView};
use crate::eslint::resolver::{
    after_first, config_at, eslint_manifest, flat_config_names, id_mismatch, judged,
    legacy_config_names, manifest_configures, manifest_in_reply, manifest_notice, nearest_package,
    project_roots, restart_worthy, roots_among, tool_unavailable, warnings_among,
    BridgeEnvelopeView, ConfigFormat, ExchangeView, LintStepView, NoticeView,
};
use crate::package::{holds_any, holds_any_asks_anew, holds_any_lasts};
use crate::path::{ancestors_of, child_of, PathView};
use crate::table::{put, put_then_lookup};
use crate::text::{holds_text, stands_at};

verus! {

proof fn config_lasts(f: FindingsView, g: FindingsView, dir: PathView)
    requires
        f.within(g),
        config_at(f, dir) is Known,
    ensures
        config_at(g, dir) == config_at(f, dir),
{
    holds_any_lasts(f, g, dir, flat_config_names());
    if holds_any(f, dir, legacy_config_names()) is Known {
        holds_any_lasts(f, g, dir, legacy_config_names());
    }
}

proof fn config_asks_anew(f: FindingsView, dir: PathView)
    requires
        config_at(f, dir) is Ask,
    ensures
        !f.answered(config_at(f, dir)->Ask_0),
{
    if holds_any(f, dir, flat_config_names()) is Ask {
        holds_any_asks_anew(f, dir, flat_config_names());
    } else if holds_any(f, dir, legacy_config_names()) is Ask {
        holds_any_asks_anew(f, dir, legacy_config_names());
    }
}

proof fn roots_among_last(
    f: FindingsView,
    g: FindingsView,
    start: PathView,
    dirs: Seq<PathView>,
    nearest: Option<PathView>,
)
    requires
        f.within(g),
        roots_among(f, start, dirs, nearest) is Known,
    ensures
        roots_among(g, start, dirs, nearest) == roots_among(f, start, dirs, nearest),
    decreases dirs.len(),
{
    if dirs.len() > 0 {
        config_lasts(f, g, dirs[0]);
        let package = nearest_package(f, dirs[0], nearest)->Known_0;
        if config_at(f, dirs[0]) == StepView::Known(ConfigFormat::Default) {
            roots_among_last(f, g, start, dirs.drop_first(), package);
        }
    }
}

/// What is known of a project's roots stays known, however much more is found out.
pub proof fn roots_last(f: FindingsView, g: FindingsView, start: PathView)
    requires
        f.within(g),
        project_roots(f, start) is Known,
    ensures
        project_roots(g, start) == project_roots(f, start),
{
    roots_among_last(f, g, start, ancestors_of(start), None);
}

proof fn roots_among_ask_anew(
    f: FindingsView,
    start: PathView,
    dirs: Seq<PathView>,
    nearest: Option<PathView>,
)
    requires
        roots_among(f, start, dirs, nearest) is Ask,
    ensures
        !f.answered(roots_among(f, start, dirs, nearest)->Ask_0),
    decreases dirs.len(),
{
    if dirs.len() > 0 && nearest_package(f, dirs[0], nearest) is Known {
        if config_at(f, dirs[0]) is Ask {
            config_asks_anew(f, dirs[0]);
        } else {
            let package = nearest_package(f, dirs[0], nearest)->Known_0;
            roots_among_ask_anew(f, start, dirs.drop_first(), package);
        }
    }
}

/// The search for a project's roots asks nothing twice.
pub proof fn roots_ask_anew(f: FindingsView, start: PathView)
    requires
        project_roots(f, start) is Ask,
    ensures
        !f.answered(project_roots(f, start)->Ask_0),
{
    roots_among_ask_anew(f, start, ancestors_of(start), None);
}

proof fn warnings_among_ask_anew(f: FindingsView, dirs: Seq<PathView>)
    requires
        warnings_among(f, dirs) is Ask,
    ensures
        !f.answered(warnings_among(f, dirs)->Ask_0),
    decreases dirs.len(),
{
    if config_at(f, dirs[0]) is Ask {
        config_asks_anew(f, dirs[0]);
    } else if manifest_notice(f, dirs[0]) is Known {
        warnings_among_ask_anew(f, dirs.drop_first());
    }
}

/// The warnings of a search ask nothing twice.
pub proof fn warnings_ask_anew(f: FindingsView, start: PathView)
    requires
        warnings_among(f, ancestors_of(start)) is Ask,
    ensures
        !f.answered(warnings_among(f, ancestors_of(start))->Ask_0),
{
    warnings_among_ask_anew(f, ancestors_of(start));
}

/// A manifest that there is a warning of configures nothing, and does not fail the search either. One
/// that is missing is passed over in silence.
pub proof fn bad_manifests_configure_nothing(f: FindingsView, dir: PathView)
    requires
        manifest_notice(f, dir) is Known,
    ensures
        manifest_notice(f, dir)->Known_0 != NoticeView::Nothing ==> manifest_configures(f, dir)
            == StepView::Known(false),
        f.text(child_of(dir, "package.json"@))->Known_0 is Unreadable && f.present(
            child_of(dir, "package.json"@),
        ) == StepView::Known(false) ==> manifest_notice(f, dir)->Known_0 == NoticeView::Nothing
            && manifest_configures(f, dir) == StepView::Known(false),
{
}

/// A project is configured by the nearest configuration: by that of one of the directories, and no
/// directory ahead of it has one.
pub proof fn nearest_configuration_wins(
    f: FindingsView,
    start: PathView,
    dirs: Seq<PathView>,
    nearest: Option<PathView>,
) -> (i: int)
    requires
        roots_among(f, start, dirs, nearest) matches StepView::Known(roots)
            && roots.config_format != ConfigFormat::Default,
    ensures
        0 <= i < dirs.len(),
        roots_among(f, start, dirs, nearest)->Known_0.cwd == dirs[i],
        config_at(f, dirs[i]) == StepView::Known(
            roots_among(f, start, dirs, nearest)->Known_0.config_format,
        ),
        forall|j: int|
            0 <= j < i ==> config_at(f, #[trigger] dirs[j]) == StepView::Known(
                ConfigFormat::Default,
            ),
    decreases dirs.len(),
{
    if config_at(f, dirs[0]) == StepView::Known(ConfigFormat::Default) {
        let package = nearest_package(f, dirs[0], nearest)->Known_0;
        let rest = nearest_configuration_wins(f, start, dirs.drop_first(), package);
        assert forall|j: int| 0 <= j < rest + 1 implies config_at(f, #[trigger] dirs[j])
            == StepView::Known(ConfigFormat::Default) by {
            if j > 0 {
                assert(dirs[j] == dirs.drop_first()[j - 1]);
            }
        }
        rest + 1
    } else {
        0
    }
}

/// ESLint is looked for in the nearest package, even where the configuration lies further up.
pub proof fn nearest_package_resolves(
    f: FindingsView,
    start: PathView,
    dirs: Seq<PathView>,
    package: PathView,
)
    requires
        roots_among(f, start, dirs, Some(package)) is Known,
    ensures
        roots_among(f, start, dirs, Some(package))->Known_0.eslint_resolution_dir == package,
    decreases dirs.len(),
{
    if dirs.len() > 0 && config_at(f, dirs[0]) == StepView::Known(ConfigFormat::Default) {
        nearest_package_resolves(f, start, dirs.drop_first(), package);
    }
}

/// Once it is known where ESLint lies, nothing is asked about it.
pub proof fn known_packages_are_not_asked_for(
    cache: Seq<(PathView, PathView)>,
    f: FindingsView,
    dir: PathView,
    path: PathView,
)
    ensures
        eslint_manifest(put(cache, dir, path), f, dir) == StepView::Known(
            OutcomeView::Found(path),
        ),
{
    put_then_lookup(cache, dir, path, dir);
}

proof fn beginning_is_held(pattern: Seq<char>, rest: Seq<char>)
    ensures
        holds_text(pattern + rest, pattern),
{
    assert((pattern + rest).subrange(0, pattern.len() as int) =~= pattern);
    assert(stands_at(pattern + rest, pattern, 0));
}

/// Where there is no Node or no ESLint, that is what the failure is taken for.
pub proof fn missing_eslint_is_recognized(reply: NodeReplyView, dir: PathView)
    requires
        reply is Missing || reply is Broken || reply is Unresolved,
    ensures
        manifest_in_reply(reply, dir) matches OutcomeView::Failed(message) && tool_unavailable(
            message,
        ),
{
    let message = manifest_in_reply(reply, dir)->Failed_0;
    if reply is Unresolved {
        let pattern = "could not resolve a local eslint installation"@;
        reveal_strlit("could not resolve a local eslint installation");
        reveal_strlit("could not resolve a local eslint installation from ");
        assert(message =~= pattern + message.skip(pattern.len() as int)) by {
            assert("could not resolve a local eslint installation from "@.take(
                pattern.len() as int,
            ) =~= pattern);
        }
        beginning_is_held(pattern, message.skip(pattern.len() as int));
    } else {
        let pattern = "failed to spawn node while resolving eslint"@;
        reveal_strlit("failed to spawn node while resolving eslint");
        reveal_strlit("failed to spawn node while resolving eslint from ");
        assert(message =~= pattern + message.skip(pattern.len() as int)) by {
            assert("failed to spawn node while resolving eslint from "@.take(
                pattern.len() as int,
            ) =~= pattern);
        }
        beginning_is_held(pattern, message.skip(pattern.len() as int));
    }
}

/// Whether an exchange with the worker has failed, or has given the answer to another request.
pub open spec fn transport_failure(exchange: ExchangeView, request_id: u64) -> bool {
    match exchange {
        ExchangeView::Undecodable => false,
        ExchangeView::Reply(envelope) => envelope.id != request_id,
        _ => true,
    }
}

proof fn itself_is_held(text: Seq<char>)
    ensures
        holds_text(text, text),
{
    assert(text + Seq::<char>::empty() =~= text);
    beginning_is_held(text, Seq::<char>::empty());
}

/// A worker is replaced whenever the exchange with it has failed.
pub proof fn transport_failures_replace_the_worker(exchange: ExchangeView, request_id: u64)
    requires
        transport_failure(exchange, request_id),
    ensures
        after_first(exchange, request_id) is Restart,
{
    itself_is_held(judged(exchange, request_id)->Err_0);
    if let ExchangeView::Reply(envelope) = exchange {
        let message = id_mismatch(request_id, envelope.id);
        let pattern = "eslint worker response id mismatch"@;
        reveal_strlit("eslint worker response id mismatch");
        reveal_strlit("eslint worker response id mismatch: expected ");
        assert(message =~= pattern + message.skip(pattern.len() as int)) by {
            assert("eslint worker response id mismatch: expected "@.take(pattern.len() as int)
                =~= pattern);
        }
        beginning_is_held(pattern, message.skip(pattern.len() as int));
    }
}

/// A worker whose answer cannot be understood is kept: the answer is wrong, not the worker.
pub proof fn undecodable_answers_keep_the_worker(request_id: u64)
    ensures
        after_first(ExchangeView::Undecodable, request_id) == LintStepView::Finished(
            Err("failed to decode eslint worker response"@),
        ),
{
    let text = "failed to decode eslint worker response"@;
    reveal_strlit("failed to decode eslint worker response");
    reveal_strlit("failed to write request to eslint worker");
    reveal_strlit("failed to flush request delimiter to eslint worker");
    reveal_strlit("failed to read response from eslint worker");
    reveal_strlit("eslint worker exited before replying");
    reveal_strlit("eslint worker exited unexpectedly");
    reveal_strlit("eslint worker timed out while handling the request");
    reveal_strlit("eslint worker response id mismatch");
    assert forall|at: int, pattern: Seq<char>|
        pattern.len() >= 33 && pattern[0] == 'e' && pattern[1] == 's' implies !#[trigger] stands_at(
        text,
        pattern,
        at,
    ) by {
        if stands_at(text, pattern, at) {
            let piece = text.subrange(at, at + pattern.len());
            assert(piece[0] == text[at]);
            assert(piece[1] == text[at + 1]);
            assert(0 <= at <= 6);
        }
    }
    assert forall|at: int, pattern: Seq<char>| pattern.len() > 39 implies !#[trigger] stands_at(
        text,
        pattern,
        at,
    ) by {
    }
}

/// Answers of ESLint itself, whether it has linted or not, end the lint unless their text speaks of
/// a failed exchange.
pub proof fn answers_end_the_lint(envelope: BridgeEnvelopeView)
    requires
        judged(ExchangeView::Reply(envelope), envelope.id) matches Err(message)
            ==> !restart_worthy(message),
    ensures
        after_first(ExchangeView::Reply(envelope), envelope.id) == LintStepView::Finished(
            judged(ExchangeView::Reply(envelope), envelope.id),
        ),
{
}

} // verus!
