//! What the client is shown and offered, whatever ESLint says.

use vstd::prelude::*;
use crate::eslint::backend::{
    capabilities, command_step, first_uri, fix_all_allowed, fixing_command, fixing_edit,
    fixing_kind, offered_action, problem, published, withdrawn, CommandStepView, DocumentView,
    Severity, StateView,
};
use crate::eslint::resolver::{LintMessageView, LintResponseView};
use crate::json::{json_get, JsonView};
use crate::json_laws::{members_are_found_by_name, whole_numbers_have_their_value};
use crate::path::PathView;
use crate::position::{countable, last_line, line_feeds, Position};
use crate::table::{holds, keys_differ, lookup, put_lookups, without_lookups};
use crate::text::utf16_size;
use crate::url_text::url_serialization;

verus! {

/// Whether a position stands ahead of another.
pub open spec fn stands_before(a: Position, b: Position) -> bool {
    a.line < b.line || (a.line == b.line && a.character < b.character)
}

/// A problem is shown from where ESLint says that it starts to where it says that it ends; ESLint counts
/// from one, the client from nothing. So a problem that ends behind its start is not shown as an empty
/// range.
pub proof fn problems_end_where_eslint_says(message: LintMessageView, line: u32, column: u32)
    requires
        message.end_line == Some(line),
        message.end_column == Some(column),
        line >= 1,
        column >= 1,
    ensures
        problem(message).range.end.line == line - 1,
        problem(message).range.end.character == column - 1,
        message.line matches Some(from) ==> message.column matches Some(at) ==> from >= 1 && at >= 1
            && (from < line || (from == line && at < column)) ==> stands_before(
            problem(message).range.start,
            problem(message).range.end,
        ),
{
}

/// A problem starts where ESLint says that it starts, and at the start of the document where it does not
/// say.
pub proof fn problems_start_where_eslint_says(message: LintMessageView, line: u32, column: u32)
    ensures
        message.line == Some(line) && line >= 1 ==> problem(message).range.start.line == line - 1,
        message.column == Some(column) && column >= 1 ==> problem(message).range.start.character
            == column - 1,
        message.line is None ==> problem(message).range.start.line == 0,
        message.column is None ==> problem(message).range.start.character == 0,
{
}

/// A problem of which ESLint gives no end takes one column, in the line in which it starts.
pub proof fn problems_without_an_end_take_one_column(message: LintMessageView)
    requires
        message.end_line is None,
        message.end_column is None,
        message.column matches Some(column) ==> 1 <= column < u32::MAX,
    ensures
        problem(message).range.end.line == problem(message).range.start.line,
        problem(message).range.end.character == problem(message).range.start.character + 1,
{
}

/// A problem is shown with the rule and the text that ESLint gives, as one of ESLint, and as an error just
/// when ESLint takes it for one.
pub proof fn problems_are_shown_as_eslint_reports_them(message: LintMessageView)
    ensures
        problem(message).code == message.rule_id,
        problem(message).message == message.message,
        problem(message).source == "eslint"@,
        problem(message).severity == Severity::Error <==> message.severity == 2,
{
}

/// Each problem of a document is published, in the order of the report, for the version that was linted.
pub proof fn all_problems_are_published(
    uri: Seq<char>,
    version: i32,
    response: LintResponseView,
    i: int,
)
    requires
        0 <= i < response.diagnostics.len(),
    ensures
        published(uri, version, Ok(response)).uri == uri,
        published(uri, version, Ok(response)).version == Some(version),
        published(uri, version, Ok(response)).warning is None,
        published(uri, version, Ok(response)).diagnostics.len() == response.diagnostics.len(),
        published(uri, version, Ok(response)).diagnostics[i].message
            == response.diagnostics[i].message,
        published(uri, version, Ok(response)).diagnostics[i] == problem(response.diagnostics[i]),
{
}

/// A document without problems loses those that were shown before.
pub proof fn clean_documents_show_nothing(uri: Seq<char>, version: i32, response: LintResponseView)
    requires
        response.diagnostics.len() == 0,
    ensures
        published(uri, version, Ok(response)).diagnostics.len() == 0,
{
}

/// Where linting fails, the failure is shown as an error at the start of the document, and logged.
pub proof fn failures_are_shown(uri: Seq<char>, version: i32, message: Seq<char>)
    ensures
        ({
            let shown = published(uri, version, Err(message));
            &&& shown.uri == uri
            &&& shown.version == Some(version)
            &&& shown.warning == Some(message)
            &&& shown.diagnostics.len() == 1
            &&& shown.diagnostics[0].message == message
            &&& shown.diagnostics[0].severity == Severity::Error
            &&& shown.diagnostics[0].source == "eslint"@
            &&& shown.diagnostics[0].range.start == (Position { line: 0, character: 0 })
            &&& stands_before(
                shown.diagnostics[0].range.start,
                shown.diagnostics[0].range.end,
            )
        }),
{
}

/// A fix replaces the whole document by what ESLint has made of it. There is one just when linting has
/// gone well and ESLint has changed something.
pub proof fn fixes_replace_the_document(
    text: Seq<char>,
    result: Result<LintResponseView, Seq<char>>,
    fixed: Seq<char>,
)
    requires
        countable(text),
    ensures
        result matches Ok(response) ==> response.fixed_text == Some(fixed) && fixed != text
            ==> fixing_edit(text, result) is Some && fixing_edit(text, result)->0.new_text == fixed
            && fixing_edit(text, result)->0.range.start == (Position { line: 0, character: 0 })
            && fixing_edit(text, result)->0.range.end.line == line_feeds(text) && fixing_edit(
            text,
            result,
        )->0.range.end.character == utf16_size(last_line(text)),
        result is Err ==> fixing_edit(text, result) is None,
        result matches Ok(response) ==> response.fixed_text is None ==> fixing_edit(text, result)
            is None,
{
    assert(text.take(text.len() as int) =~= text);
}

/// The fix of all problems is offered where the client asks for every kind of action, and where it asks
/// for one that takes the fix in.
pub proof fn fixes_are_offered_where_they_are_asked_for(kinds: Seq<Seq<char>>)
    ensures
        fix_all_allowed(None),
        fix_all_allowed(Some(kinds)) <==> (kinds.contains("source"@) || kinds.contains(
            "source.fixAll"@,
        ) || kinds.contains("source.fixAll.eslint"@)),
{
    if fix_all_allowed(Some(kinds)) {
        let i = choose|i: int| 0 <= i < kinds.len() && fixing_kind(#[trigger] kinds[i]);
        assert(kinds.contains(kinds[i]));
    }
    if kinds.contains("source"@) {
        let i = choose|i: int| 0 <= i < kinds.len() && kinds[i] == "source"@;
        assert(fixing_kind(kinds[i]));
    }
    if kinds.contains("source.fixAll"@) {
        let i = choose|i: int| 0 <= i < kinds.len() && kinds[i] == "source.fixAll"@;
        assert(fixing_kind(kinds[i]));
    }
    if kinds.contains("source.fixAll.eslint"@) {
        let i = choose|i: int| 0 <= i < kinds.len() && kinds[i] == "source.fixAll.eslint"@;
        assert(fixing_kind(kinds[i]));
    }
}

/// What the client is offered for an open document does what it says: the command that comes with it, when
/// it is executed, fixes that document.
pub proof fn offered_actions_fix_their_document(
    s: StateView,
    uri: Seq<char>,
    only: Option<Seq<Seq<char>>>,
)
    ensures
        offered_action(s, uri, only) is Some <==> holds(s.documents, uri) && fix_all_allowed(only),
        offered_action(s, uri, only) matches Some(action) ==> command_step(
            action.command.command,
            Some(action.command.argument),
        ) == CommandStepView::Fix(uri) && action.kind == "source.fixAll.eslint"@
            && action.is_preferred && action.title == action.command.title && action.title
            == "Fix all auto-fixable ESLint problems"@,
{
}

/// Only the server's own command does anything, and only where its first argument is a URI.
pub proof fn commands_need_a_document(
    command: Seq<char>,
    arguments: Seq<JsonView>,
    text: Seq<char>,
    uri: Seq<char>,
)
    ensures
        command != "eslint.applyFixAll"@ ==> command_step(command, first_uri(arguments)) is Ignored,
        command == "eslint.applyFixAll"@ && arguments.len() == 0 ==> command_step(
            command,
            first_uri(arguments),
        ) is Invalid,
        command == "eslint.applyFixAll"@ && arguments.len() > 0 && arguments[0] == JsonView::Text(
            text,
        ) && url_serialization(text) == Some(uri) ==> command_step(command, first_uri(arguments))
            == CommandStepView::Fix(uri),
        command == "eslint.applyFixAll"@ && arguments.len() > 0 && !(arguments[0] is Text)
            ==> command_step(command, first_uri(arguments)) is Invalid,
{
}

/// Only open documents that are files are linted, with the text that the client has given.
pub proof fn only_open_files_are_linted(
    s: StateView,
    uri: Seq<char>,
    path: PathView,
    fix: bool,
)
    ensures
        s.lint_work(uri, None, fix) is None,
        lookup(s.documents, uri) is None ==> s.lint_work(uri, Some(path), fix) is None,
        lookup(s.documents, uri) matches Some(document) ==> (s.lint_work(
            uri,
            Some(path),
            fix,
        ) matches Some(request) && request.file_path == path && request.text == document.text
            && request.fix == fix),
{
}

/// The changes of a document are numbered from one, each by one more than the change before.
pub proof fn changes_are_numbered(s: StateView, uri: Seq<char>, document: DocumentView)
    requires
        s.next_generation(uri) <= u64::MAX,
    ensures
        lookup(s.lint_generations, uri) is None ==> s.next_generation(uri) == 1,
        s.next_generation(uri) < u64::MAX ==> s.scheduled(uri).next_generation(uri)
            == s.next_generation(uri) + 1,
        s.with_document(uri, document).next_generation(uri) == s.next_generation(uri),
        lookup(s.with_document(uri, document).documents, uri) == Some(document),
        lookup(s.scheduled(uri).lint_generations, uri) == Some(s.next_generation(uri) as u64),
        s.scheduled(uri).documents == s.documents,
{
    put_lookups(s.lint_generations, uri, s.next_generation(uri) as u64);
    put_lookups(s.documents, uri, document);
}

/// The client is told that whole documents are synchronised, and that code actions, the command that fixes
/// all problems and formatting are offered.
pub proof fn abilities_are_announced()
    ensures
        ({
            let abilities = capabilities();
            let sync = json_get(abilities, "textDocumentSync"@)->0;
            let execute = json_get(abilities, "executeCommandProvider"@)->0;
            &&& json_get(sync, "openClose"@) == Some(JsonView::Bool(true))
            &&& json_get(sync, "save"@) == Some(JsonView::Bool(true))
            &&& json_get(sync, "change"@) matches Some(JsonView::Number(change))
            &&& change.integer == Some(1i64)
            &&& json_get(abilities, "codeActionProvider"@) == Some(JsonView::Bool(true))
            &&& json_get(abilities, "documentFormattingProvider"@) == Some(JsonView::Bool(true))
            &&& json_get(execute, "commands"@) == Some(
                JsonView::Array(seq![JsonView::Text(fixing_command(Seq::empty()).command)]),
            )
        }),
{
    whole_numbers_have_their_value(1);
    reveal_strlit("textDocumentSync");
    reveal_strlit("codeActionProvider");
    reveal_strlit("executeCommandProvider");
    reveal_strlit("documentFormattingProvider");
    reveal_strlit("openClose");
    reveal_strlit("change");
    reveal_strlit("save");
    assert("textDocumentSync"@.len() == 16 && "codeActionProvider"@.len() == 18
        && "executeCommandProvider"@.len() == 22 && "documentFormattingProvider"@.len() == 26);
    assert("openClose"@.len() == 9 && "change"@.len() == 6 && "save"@.len() == 4);
    let abilities = capabilities()->Object_0;
    members_are_found_by_name(abilities, 0);
    members_are_found_by_name(abilities, 1);
    members_are_found_by_name(abilities, 2);
    members_are_found_by_name(abilities, 3);
    let sync = abilities[0].1->Object_0;
    members_are_found_by_name(sync, 0);
    members_are_found_by_name(sync, 1);
    members_are_found_by_name(sync, 2);
    let execute = abilities[2].1->Object_0;
    members_are_found_by_name(execute, 0);
}

/// What ESLint says of a document is published just when it speaks of the latest change of the document.
pub proof fn only_the_latest_lint_is_published(
    s: StateView,
    uri: Seq<char>,
    generation: u64,
    version: i32,
    result: Result<LintResponseView, Seq<char>>,
)
    ensures
        s.due_publication(uri, generation, version, result) is Some <==> lookup(
            s.lint_generations,
            uri,
        ) == Some(generation),
        s.due_publication(uri, generation, version, result) matches Some(shown) ==> shown
            == published(uri, version, result),
{
}

/// When a document is closed, its problems are taken away, it is not linted any more, no lint of it is published,
/// and other documents are left alone.
pub proof fn closed_documents_are_forgotten(
    s: StateView,
    uri: Seq<char>,
    other: Seq<char>,
    generation: u64,
    path: PathView,
    fix: bool,
)
    requires
        keys_differ(s.documents),
        keys_differ(s.lint_generations),
        other != uri,
    ensures
        withdrawn(uri).uri == uri,
        withdrawn(uri).diagnostics.len() == 0,
        s.closed(uri).lint_work(uri, Some(path), fix) is None,
        !s.closed(uri).current(uri, generation),
        offered_action(s.closed(uri), uri, None) is None,
        lookup(s.closed(uri).documents, other) == lookup(s.documents, other),
        s.closed(uri).current(other, generation) == s.current(other, generation),
{
    without_lookups(s.documents, uri);
    without_lookups(s.lint_generations, uri);
}

} // verus!
