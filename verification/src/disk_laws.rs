//! What holds of what has been found out on disk.

use vstd::prelude::*;
use crate::disk::{
    resolved_path, AnswerView, EntryView, FileHeadView, FileTextView, FindingsView, NodeQueryView,
    NodeReplyView, OutcomeView, ProbeView, RealPathView, SpelledView, StepView,
};
use crate::path::PathView;
use crate::table::put_lookups;
use crate::text::trimmed;

verus! {

/// What has been answered of a path is known from then on, just as it was answered.
pub proof fn answers_are_known(
    f: FindingsView,
    path: PathView,
    is: bool,
    text: FileTextView,
    head: FileHeadView,
    listing: Seq<EntryView>,
    actual: RealPathView,
)
    ensures
        f.with_answer(AnswerView::Exists(path, is)).present(path) == StepView::Known(is),
        f.with_answer(AnswerView::IsFile(path, is)).is_file(path) == StepView::Known(is),
        f.with_answer(AnswerView::IsDir(path, is)).is_dir(path) == StepView::Known(is),
        f.with_answer(AnswerView::ReadText(path, text)).text(path) == StepView::Known(text),
        f.with_answer(AnswerView::ReadHead(path, head)).head(path) == StepView::Known(head),
        f.with_answer(AnswerView::List(path, listing)).listing(path) == StepView::Known(listing),
        f.with_answer(AnswerView::Canonical(path, actual)).real_path(path) == StepView::Known(actual),
{
    let key = SpelledView { path };
    put_lookups(f.existing, key, is);
    put_lookups(f.files, key, is);
    put_lookups(f.dirs, key, is);
    put_lookups(f.texts, key, text);
    put_lookups(f.heads, key, head);
    put_lookups(f.listings, key, listing);
    put_lookups(f.canonical, key, actual);
}

/// The search path and what Node has said are known from then on, too.
pub proof fn other_answers_are_known(
    f: FindingsView,
    dirs: Seq<PathView>,
    query: NodeQueryView,
    reply: NodeReplyView,
)
    ensures
        f.with_answer(AnswerView::SearchPath(dirs)).program_dirs() == StepView::Known(dirs),
        f.with_answer(AnswerView::Node(query, reply)).resolved(query) == StepView::Known(reply),
{
    put_lookups(f.node, query, reply);
}

/// What is not known is asked for: the same question about the same path.
pub proof fn what_is_unknown_is_asked_for(f: FindingsView, path: PathView, query: NodeQueryView)
    ensures
        f.present(path) is Ask ==> f.present(path) == StepView::<bool>::Ask(ProbeView::Exists(path)),
        f.is_file(path) is Ask ==> f.is_file(path) == StepView::<bool>::Ask(ProbeView::IsFile(path)),
        f.is_dir(path) is Ask ==> f.is_dir(path) == StepView::<bool>::Ask(ProbeView::IsDir(path)),
        f.text(path) is Ask ==> f.text(path) == StepView::<FileTextView>::Ask(
            ProbeView::ReadText(path),
        ),
        f.head(path) is Ask ==> f.head(path) == StepView::<FileHeadView>::Ask(
            ProbeView::ReadHead(path),
        ),
        f.listing(path) is Ask ==> f.listing(path) == StepView::<Seq<EntryView>>::Ask(
            ProbeView::List(path),
        ),
        f.real_path(path) is Ask ==> f.real_path(path) == StepView::<RealPathView>::Ask(
            ProbeView::Canonical(path),
        ),
        f.resolved(query) is Ask ==> f.resolved(query) == StepView::<NodeReplyView>::Ask(
            ProbeView::Node(query),
        ),
{
}

/// An answer about one path says nothing of another, and nothing else that is known of any path changes.
pub proof fn answers_are_kept_apart(f: FindingsView, path: PathView, other: PathView, is: bool)
    ensures
        other != path ==> f.with_answer(AnswerView::IsFile(path, is)).is_file(other) == f.is_file(
            other,
        ),
        other != path ==> f.with_answer(AnswerView::IsDir(path, is)).is_dir(other) == f.is_dir(other),
        other != path ==> f.with_answer(AnswerView::Exists(path, is)).present(other) == f.present(
            other,
        ),
        f.with_answer(AnswerView::IsFile(path, is)).is_dir(other) == f.is_dir(other),
        f.with_answer(AnswerView::IsFile(path, is)).present(other) == f.present(other),
        f.with_answer(AnswerView::IsDir(path, is)).is_file(other) == f.is_file(other),
        f.with_answer(AnswerView::IsDir(path, is)).present(other) == f.present(other),
        f.with_answer(AnswerView::Exists(path, is)).is_file(other) == f.is_file(other),
        f.with_answer(AnswerView::Exists(path, is)).is_dir(other) == f.is_dir(other),
{
    let key = SpelledView { path };
    put_lookups(f.existing, key, is);
    put_lookups(f.files, key, is);
    put_lookups(f.dirs, key, is);
}

/// What Node prints is the path of the package, without the line ending. Where Node is not installed or
/// does not know the package there is none, and where it fails otherwise the search fails.
pub proof fn node_prints_the_path(text: Seq<char>, failure: Seq<char>)
    ensures
        trimmed(text).len() > 0 ==> resolved_path(NodeReplyView::Output(text), failure)
            == OutcomeView::Found(trimmed(text)),
        trimmed(text).len() == 0 ==> resolved_path(NodeReplyView::Output(text), failure) is Absent,
        resolved_path(NodeReplyView::Missing, failure) is Absent,
        resolved_path(NodeReplyView::Unresolved(text), failure) is Absent,
        resolved_path(NodeReplyView::Broken, failure) == OutcomeView::<Seq<char>>::Failed(failure),
        resolved_path(NodeReplyView::Garbled(text), failure) == OutcomeView::<Seq<char>>::Failed(text),
{
}

} // verus!
