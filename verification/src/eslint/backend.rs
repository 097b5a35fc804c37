//! What the server does for the client: diagnostics, the fix of all problems, and formatting.

use vstd::prelude::*;
use vstd::string::*;
use crate::eslint::resolver::{
    LintError, LintMessage, LintMessageView, LintRequest, LintRequestView, LintResponse,
    LintResponseView, lint_result,
};
use crate::json::{json_int, json_str, Json, JsonView};
use crate::path::{FsPath, PathView};
use crate::position::{
    countable, full_document_range, whole_range, Position, Range, TextEdit, TextEditView,
};
use crate::table::{holds, lookup, put, put_then_lookup, without, Table};
use crate::text::{same_text, texts};
use crate::url_text::{parse_url, path_of_url, url_path, url_serialization};
use crate::views::{each, opt};

verus! {

/// A document that the client has opened.
#[derive(Debug, PartialEq, Eq)]
pub struct Document {
    pub version: i32,
    pub text: String,
}

/// A document that the client has opened.
#[verifier::ext_equal]
pub struct DocumentView {
    pub version: i32,
    pub text: Seq<char>,
}

impl View for Document {
    type V = DocumentView;

    open spec fn view(&self) -> DocumentView {
        DocumentView { version: self.version, text: self.text@ }
    }
}

/// How bad a problem is.
#[derive(Clone, Copy, Debug, PartialEq, Eq, Structural)]
pub enum Severity {
    Error,
    Warning,
}

/// A problem as the client shows it.
#[derive(Debug, PartialEq, Eq)]
pub struct Diagnostic {
    pub range: Range,
    pub severity: Severity,
    pub source: String,
    pub code: Option<String>,
    pub message: String,
}

/// A problem as the client shows it.
#[verifier::ext_equal]
pub struct DiagnosticView {
    pub range: Range,
    pub severity: Severity,
    pub source: Seq<char>,
    pub code: Option<Seq<char>>,
    pub message: Seq<char>,
}

impl View for Diagnostic {
    type V = DiagnosticView;

    open spec fn view(&self) -> DiagnosticView {
        DiagnosticView {
            range: self.range,
            severity: self.severity,
            source: self.source@,
            code: opt(self.code),
            message: self.message@,
        }
    }
}

/// One less, but not less than nothing.
pub open spec fn one_less(n: u32) -> u32 {
    if n == 0 {
        0
    } else {
        (n - 1) as u32
    }
}

/// One more, as far as there is one.
pub open spec fn one_more(n: u32) -> u32 {
    if n == u32::MAX {
        n
    } else {
        (n + 1) as u32
    }
}

/// The value, or else another.
pub open spec fn or_else(value: Option<u32>, other: u32) -> u32 {
    match value {
        Some(n) => n,
        None => other,
    }
}

/// Where a problem is shown: from the place that ESLint gives to its end, and to the next column where
/// it gives no end. ESLint counts from one, the protocol from nothing. Without a place it is the start
/// of the document.
pub open spec fn problem_range(message: LintMessageView) -> Range {
    let line = or_else(message.line, 1);
    let column = or_else(message.column, 1);
    Range {
        start: Position { line: one_less(line), character: one_less(column) },
        end: Position {
            line: one_less(or_else(message.end_line, line)),
            character: one_less(or_else(message.end_column, one_more(column))),
        },
    }
}

/// A problem that ESLint reports, as the client shows it.
pub open spec fn problem(message: LintMessageView) -> DiagnosticView {
    DiagnosticView {
        range: problem_range(message),
        severity: if message.severity == 2 {
            Severity::Error
        } else {
            Severity::Warning
        },
        source: "eslint"@,
        code: message.rule_id,
        message: message.message,
    }
}

/// A failure, as the client shows it.
pub open spec fn failure_problem(message: Seq<char>) -> DiagnosticView {
    DiagnosticView {
        range: Range {
            start: Position { line: 0, character: 0 },
            end: Position { line: 0, character: 1 },
        },
        severity: Severity::Error,
        source: "eslint"@,
        code: None,
        message,
    }
}

fn or_this(value: Option<u32>, other: u32) -> (r: u32)
    ensures
        r == or_else(value, other),
{
    match value {
        Some(n) => n,
        None => other,
    }
}

fn less_one(n: u32) -> (r: u32)
    ensures
        r == one_less(n),
{
    if n == 0 {
        0
    } else {
        n - 1
    }
}

fn plus_one(n: u32) -> (r: u32)
    ensures
        r == one_more(n),
{
    if n == u32::MAX {
        n
    } else {
        n + 1
    }
}

/// A problem that ESLint reports, as the client shows it.
pub fn to_lsp_diagnostic(message: LintMessage) -> (r: Diagnostic)
    ensures
        r@ == problem(message@),
{
    let line: u32 = or_this(message.line, 1);
    let column: u32 = or_this(message.column, 1);
    Diagnostic {
        range: Range {
            start: Position { line: less_one(line), character: less_one(column) },
            end: Position {
                line: less_one(or_this(message.end_line, line)),
                character: less_one(or_this(message.end_column, plus_one(column))),
            },
        },
        severity: if message.severity == 2 {
            Severity::Error
        } else {
            Severity::Warning
        },
        source: "eslint".to_owned(),
        code: message.rule_id,
        message: message.message,
    }
}

/// A failure, as the client shows it.
pub fn synthetic_diagnostic(message: String) -> (r: Diagnostic)
    ensures
        r@ == failure_problem(message@),
{
    Diagnostic {
        range: Range {
            start: Position { line: 0, character: 0 },
            end: Position { line: 0, character: 1 },
        },
        severity: Severity::Error,
        source: "eslint".to_owned(),
        code: None,
        message,
    }
}

fn to_lsp_diagnostics(messages: Vec<LintMessage>) -> (r: Vec<Diagnostic>)
    ensures
        each(r@) == each(messages@).map_values(|m: LintMessageView| problem(m)),
{
    let ghost all = each(messages@);
    let ghost shown = |m: LintMessageView| problem(m);
    let mut out: Vec<Diagnostic> = Vec::new();
    for message in it: messages.into_iter()
        invariant
            it.seq() == messages@,
            each(out@) == all.take(it.index() as int).map_values(shown),
            all == each(messages@),
            shown == (|m: LintMessageView| problem(m)),
            it.index() <= all.len(),
    {
        let ghost before = each(out@);
        let ghost view = message@;
        out.push(to_lsp_diagnostic(message));
        proof {
            assert(each(out@) =~= before.push(problem(view)));
            assert(all.take(it.index() + 1).map_values(shown) =~= before.push(
                shown(all[it.index() as int]),
            ));
        }
    }
    proof {
        assert(all.take(all.len() as int) =~= all);
    }
    out
}

/// Diagnostics to be published, and what is logged with them.
#[derive(Debug, PartialEq, Eq)]
pub struct Publication {
    pub uri: String,
    pub diagnostics: Vec<Diagnostic>,
    pub version: Option<i32>,
    pub warning: Option<String>,
}

/// Diagnostics to be published, and what is logged with them.
#[verifier::ext_equal]
pub struct PublicationView {
    pub uri: Seq<char>,
    pub diagnostics: Seq<DiagnosticView>,
    pub version: Option<i32>,
    pub warning: Option<Seq<char>>,
}

impl View for Publication {
    type V = PublicationView;

    open spec fn view(&self) -> PublicationView {
        PublicationView {
            uri: self.uri@,
            diagnostics: each(self.diagnostics@),
            version: self.version,
            warning: opt(self.warning),
        }
    }
}

/// What came of linting a document, as it is published.
pub open spec fn published(
    uri: Seq<char>,
    version: i32,
    result: Result<LintResponseView, Seq<char>>,
) -> PublicationView {
    match result {
        Ok(response) => PublicationView {
            uri,
            diagnostics: response.diagnostics.map_values(|m: LintMessageView| problem(m)),
            version: Some(version),
            warning: None,
        },
        Err(message) => PublicationView {
            uri,
            diagnostics: seq![failure_problem(message)],
            version: Some(version),
            warning: Some(message),
        },
    }
}

/// That nothing is shown of a document any more.
pub open spec fn withdrawn(uri: Seq<char>) -> PublicationView {
    PublicationView { uri, diagnostics: Seq::empty(), version: None, warning: None }
}

/// The documents, and for each the number of its last change.
#[derive(Debug)]
pub struct State {
    pub documents: Table<String, Document>,
    pub lint_generations: Table<String, u64>,
}

/// The documents, and for each the number of its last change.
#[verifier::ext_equal]
pub struct StateView {
    pub documents: Seq<(Seq<char>, DocumentView)>,
    pub lint_generations: Seq<(Seq<char>, u64)>,
}

impl View for State {
    type V = StateView;

    open spec fn view(&self) -> StateView {
        StateView { documents: self.documents@, lint_generations: self.lint_generations@ }
    }
}

impl StateView {
    /// The number of the next change of a document.
    pub open spec fn next_generation(self, uri: Seq<char>) -> int {
        match lookup(self.lint_generations, uri) {
            Some(generation) => generation + 1,
            None => 1,
        }
    }

    /// One more change of a document.
    pub open spec fn scheduled(self, uri: Seq<char>) -> StateView {
        StateView {
            lint_generations: put(
                self.lint_generations,
                uri,
                self.next_generation(uri) as u64,
            ),
            ..self
        }
    }

    /// A document in another state.
    pub open spec fn with_document(self, uri: Seq<char>, document: DocumentView) -> StateView {
        StateView { documents: put(self.documents, uri, document), ..self }
    }

    /// Whether a document has not been changed since.
    pub open spec fn current(self, uri: Seq<char>, generation: u64) -> bool {
        lookup(self.lint_generations, uri) == Some(generation)
    }

    /// A document that has been closed.
    pub open spec fn closed(self, uri: Seq<char>) -> StateView {
        StateView {
            documents: without(self.documents, uri),
            lint_generations: without(self.lint_generations, uri),
        }
    }

    /// What is published once a document has been linted: nothing where it has been changed since.
    pub open spec fn due_publication(
        self,
        uri: Seq<char>,
        generation: u64,
        version: i32,
        result: Result<LintResponseView, Seq<char>>,
    ) -> Option<PublicationView> {
        if self.current(uri, generation) {
            Some(published(uri, version, result))
        } else {
            None
        }
    }

    /// What is linted of a document, if it is open and is a file.
    pub open spec fn lint_work(self, uri: Seq<char>, path: Option<PathView>, fix: bool) -> Option<
        LintRequestView,
    > {
        match (lookup(self.documents, uri), path) {
            (Some(document), Some(file_path)) => Some(
                LintRequestView { file_path, text: document.text, fix },
            ),
            _ => None,
        }
    }
}

/// The edit that fixes a document, if there is something to fix.
pub open spec fn fixing_edit(text: Seq<char>, result: Result<LintResponseView, Seq<char>>) -> Option<
    TextEditView,
> {
    match result {
        Ok(response) => match response.fixed_text {
            Some(fixed) => if fixed == text {
                None
            } else {
                Some(TextEditView { range: whole_range(text), new_text: fixed })
            },
            None => None,
        },
        Err(_) => None,
    }
}

/// Whether there is something to fix in a document.
pub fn needs_fix(text: &str, result: &Result<LintResponse, LintError>) -> (r: bool)
    ensures
        r == (fixing_edit(text@, lint_result(*result)) is Some),
{
    match result {
        Ok(response) => match &response.fixed_text {
            Some(fixed) => !same_text(fixed.as_str(), text),
            None => false,
        },
        Err(_) => false,
    }
}

/// The edit that fixes a document, if there is something to fix.
pub fn fix_edit(text: &str, result: Result<LintResponse, LintError>) -> (r: Option<TextEdit>)
    requires
        fixing_edit(text@, lint_result(result)) is Some ==> countable(text@),
    ensures
        opt(r) == fixing_edit(text@, lint_result(result)),
{
    if !needs_fix(text, &result) {
        return None;
    }
    match result {
        Ok(response) => match response.fixed_text {
            Some(fixed) => Some(TextEdit { range: full_document_range(text), new_text: fixed }),
            None => None,
        },
        Err(_) => None,
    }
}

/// What the client asks for code actions about.
#[derive(Debug, PartialEq, Eq)]
pub struct CodeActionParams {
    pub uri: String,
    /// The kinds that are asked for, where not all are.
    pub only: Option<Vec<String>>,
}

/// Whether a kind of code action takes in the fix of all problems.
pub open spec fn fixing_kind(kind: Seq<char>) -> bool {
    ||| kind == "source"@
    ||| kind == "source.fixAll"@
    ||| kind == "source.fixAll.eslint"@
}

/// Whether the fix of all problems is among what the client asks for.
pub open spec fn fix_all_allowed(only: Option<Seq<Seq<char>>>) -> bool {
    match only {
        None => true,
        Some(kinds) => any_fixing_kind(kinds),
    }
}

/// Whether one of the kinds takes in the fix of all problems.
pub open spec fn any_fixing_kind(kinds: Seq<Seq<char>>) -> bool {
    exists|i: int| 0 <= i < kinds.len() && fixing_kind(#[trigger] kinds[i])
}

/// The kinds that are asked for.
pub open spec fn only_kinds(params: CodeActionParams) -> Option<Seq<Seq<char>>> {
    match params.only {
        Some(kinds) => Some(texts(kinds@)),
        None => None,
    }
}

/// Whether the fix of all problems is among what the client asks for.
pub fn allows_fix_all(params: &CodeActionParams) -> (r: bool)
    ensures
        r == fix_all_allowed(only_kinds(*params)),
{
    let kinds = match &params.only {
        None => {
            return true;
        },
        Some(kinds) => kinds,
    };
    let ghost all = texts(kinds@);
    let mut i: usize = 0;
    while i < kinds.len()
        invariant
            i <= kinds@.len(),
            all == texts(kinds@),
            only_kinds(*params) == Some(all),
            forall|j: int| 0 <= j < i ==> !fixing_kind(#[trigger] all[j]),
        decreases kinds@.len() - i,
    {
        let kind = kinds[i].as_str();
        proof {
            assert(all[i as int] == kinds@[i as int]@);
        }
        if same_text(kind, "source") || same_text(kind, "source.fixAll") || same_text(
            kind,
            "source.fixAll.eslint",
        ) {
            proof {
                assert(fixing_kind(all[i as int]));
            }
            return true;
        }
        i += 1;
    }
    false
}

/// A command of the server, with a URI for its argument.
#[derive(Debug, PartialEq, Eq)]
pub struct Command {
    pub title: String,
    pub command: String,
    pub argument: String,
}

/// A command of the server.
#[verifier::ext_equal]
pub struct CommandView {
    pub title: Seq<char>,
    pub command: Seq<char>,
    pub argument: Seq<char>,
}

impl View for Command {
    type V = CommandView;

    open spec fn view(&self) -> CommandView {
        CommandView {
            title: self.title@,
            command: self.command@,
            argument: self.argument@,
        }
    }
}

/// The command that fixes all problems of a document.
pub open spec fn fixing_command(uri: Seq<char>) -> CommandView {
    CommandView {
        title: "Fix all auto-fixable ESLint problems"@,
        command: "eslint.applyFixAll"@,
        argument: uri,
    }
}

/// The command that fixes all problems of a document.
pub fn fix_all_command(uri: &str) -> (r: Command)
    ensures
        r@ == fixing_command(uri@),
{
    Command {
        title: "Fix all auto-fixable ESLint problems".to_owned(),
        command: "eslint.applyFixAll".to_owned(),
        argument: uri.to_owned(),
    }
}

/// A code action.
#[derive(Debug, PartialEq, Eq)]
pub struct CodeAction {
    pub title: String,
    pub kind: String,
    pub command: Command,
    pub is_preferred: bool,
}

/// A code action.
#[verifier::ext_equal]
pub struct CodeActionView {
    pub title: Seq<char>,
    pub kind: Seq<char>,
    pub command: CommandView,
    pub is_preferred: bool,
}

impl View for CodeAction {
    type V = CodeActionView;

    open spec fn view(&self) -> CodeActionView {
        CodeActionView {
            title: self.title@,
            kind: self.kind@,
            command: self.command@,
            is_preferred: self.is_preferred,
        }
    }
}

/// The code action that the client is offered.
pub open spec fn offered_action(s: StateView, uri: Seq<char>, only: Option<Seq<Seq<char>>>) -> Option<
    CodeActionView,
> {
    if fix_all_allowed(only) && holds(s.documents, uri) {
        Some(
            CodeActionView {
                title: "Fix all auto-fixable ESLint problems"@,
                kind: "source.fixAll.eslint"@,
                command: fixing_command(uri),
                is_preferred: true,
            },
        )
    } else {
        None
    }
}

/// What a command of the client comes to.
#[derive(Debug, PartialEq, Eq)]
pub enum CommandStep {
    /// It is not a command of the server.
    Ignored,
    /// It names no document: this is logged.
    Invalid(String),
    /// The document with this URI is to be fixed.
    Fix(String),
}

/// What a command of the client comes to.
#[verifier::ext_equal]
pub enum CommandStepView {
    Ignored,
    Invalid(Seq<char>),
    Fix(Seq<char>),
}

impl View for CommandStep {
    type V = CommandStepView;

    open spec fn view(&self) -> CommandStepView {
        match self {
            CommandStep::Ignored => CommandStepView::Ignored,
            CommandStep::Invalid(message) => CommandStepView::Invalid(message@),
            CommandStep::Fix(uri) => CommandStepView::Fix(uri@),
        }
    }
}

/// What a command of the client comes to, where the URI that its first argument gives is known.
pub open spec fn command_step(command: Seq<char>, uri: Option<Seq<char>>) -> CommandStepView {
    if command != "eslint.applyFixAll"@ {
        CommandStepView::Ignored
    } else {
        match uri {
            Some(uri) => CommandStepView::Fix(uri),
            None => CommandStepView::Invalid(
                "eslint.applyFixAll was called without a valid document URI"@,
            ),
        }
    }
}

/// What a command of the client comes to, where the URI that its first argument gives is known.
pub fn command_for_uri(command: &str, uri: Option<String>) -> (r: CommandStep)
    ensures
        r@ == command_step(command@, opt(uri)),
{
    if !same_text(command, "eslint.applyFixAll") {
        return CommandStep::Ignored;
    }
    match uri {
        Some(uri) => CommandStep::Fix(uri),
        None => CommandStep::Invalid(
            "eslint.applyFixAll was called without a valid document URI".to_owned(),
        ),
    }
}

/// The URI that the first argument gives.
pub open spec fn first_uri(arguments: Seq<JsonView>) -> Option<Seq<char>> {
    if arguments.len() == 0 {
        None
    } else {
        match json_str(arguments[0]) {
            Some(text) => url_serialization(text),
            None => None,
        }
    }
}

/// What a command of the client comes to.
pub fn execute_command(command: &str, arguments: &Vec<Json>) -> (r: CommandStep)
    ensures
        r@ == command_step(command@, first_uri(each(arguments@))),
{
    let uri = if arguments.len() == 0 {
        None
    } else {
        match arguments[0].as_str() {
            Some(text) => parse_url(text),
            None => None,
        }
    };
    command_for_uri(command, uri)
}

/// What the client made of an edit.
#[derive(Debug, PartialEq, Eq)]
pub enum Applied {
    Yes,
    Rejected,
    Failed(String),
}

/// What is logged about an edit.
#[derive(Debug, PartialEq, Eq)]
pub struct Notice {
    pub severity: Severity,
    pub message: String,
}

/// What is logged about an edit, by what the client made of it.
pub fn edit_notice(applied: Applied) -> (r: Option<Notice>)
    ensures
        match applied {
            Applied::Yes => r is None,
            Applied::Rejected => r is Some && r->0.severity == Severity::Warning && r->0.message@
                == "the client rejected the ESLint fix-all workspace edit"@,
            Applied::Failed(error) => r is Some && r->0.severity == Severity::Error && r->0.message@
                == error@,
        },
{
    match applied {
        Applied::Yes => None,
        Applied::Rejected => Some(
            Notice {
                severity: Severity::Warning,
                message: "the client rejected the ESLint fix-all workspace edit".to_owned(),
            },
        ),
        Applied::Failed(error) => Some(Notice { severity: Severity::Error, message: error }),
    }
}

/// What the server can do.
pub open spec fn capabilities() -> JsonView {
    JsonView::Object(
        seq![
            (
                "textDocumentSync"@,
                JsonView::Object(
                    seq![
                        ("openClose"@, JsonView::Bool(true)),
                        ("change"@, json_int(1)),
                        ("save"@, JsonView::Bool(true)),
                    ],
                ),
            ),
            ("codeActionProvider"@, JsonView::Bool(true)),
            (
                "executeCommandProvider"@,
                JsonView::Object(
                    seq![
                        (
                            "commands"@,
                            JsonView::Array(seq![JsonView::Text("eslint.applyFixAll"@)]),
                        ),
                    ],
                ),
            ),
            ("documentFormattingProvider"@, JsonView::Bool(true)),
        ],
    )
}

/// The answer to `initialize`: whole documents are synchronised, and code actions, the command that
/// fixes all problems and formatting are offered.
pub fn initialize_result() -> (r: Json)
    ensures
        r@ == JsonView::Object(
            seq![
                (
                    "serverInfo"@,
                    JsonView::Object(
                        seq![
                            ("name"@, JsonView::Text("eslint-lsp"@)),
                            ("version"@, JsonView::Text("0.1.0"@)),
                        ],
                    ),
                ),
                ("capabilities"@, capabilities()),
            ],
        ),
{
    let sync = Json::object(
        vec![
            ("openClose".to_owned(), Json::Bool(true)),
            ("change".to_owned(), Json::whole(1)),
            ("save".to_owned(), Json::Bool(true)),
        ],
    );
    let commands = Json::array(vec![Json::text("eslint.applyFixAll")]);
    let execute = Json::object1("commands", commands);
    let abilities = Json::object(
        vec![
            ("textDocumentSync".to_owned(), sync),
            ("codeActionProvider".to_owned(), Json::Bool(true)),
            ("executeCommandProvider".to_owned(), execute),
            ("documentFormattingProvider".to_owned(), Json::Bool(true)),
        ],
    );
    proof {
        assert(sync@->Object_0 =~= seq![
            ("openClose"@, JsonView::Bool(true)),
            ("change"@, json_int(1)),
            ("save"@, JsonView::Bool(true)),
        ]);
        assert(commands@->Array_0 =~= seq![JsonView::Text("eslint.applyFixAll"@)]);
        assert(abilities@->Object_0 =~= capabilities()->Object_0);
    }
    let info = Json::object2(
        "name",
        Json::text("eslint-lsp"),
        "version",
        Json::text("0.1.0"),
    );
    Json::object2("serverInfo", info, "capabilities", abilities)
}

impl State {
    /// No document is open.
    pub fn new() -> (r: State)
        ensures
            r@ == (StateView { documents: Seq::empty(), lint_generations: Seq::empty() }),
    {
        State { documents: Table::new(), lint_generations: Table::new() }
    }

    /// Whether there is a number for the next change of a document.
    pub fn can_schedule(&self, uri: &String) -> (r: bool)
        ensures
            r == (self@.next_generation(uri@) <= u64::MAX),
    {
        match self.lint_generations.get(uri) {
            Some(generation) => *generation < u64::MAX,
            None => true,
        }
    }

    /// Notes a change of a document. Gives the number of the change, for which a lint is due later.
    pub fn schedule_lint(&mut self, uri: &String) -> (r: u64)
        requires
            old(self)@.next_generation(uri@) <= u64::MAX,
        ensures
            r == old(self)@.next_generation(uri@),
            final(self)@ == old(self)@.scheduled(uri@),
    {
        let next: u64 = match self.lint_generations.get(uri) {
            Some(generation) => *generation + 1,
            None => 1,
        };
        self.lint_generations.insert(uri.clone(), next);
        next
    }

    /// Whether a document has not been changed since.
    pub fn is_current_generation(&self, uri: &String, generation: u64) -> (r: bool)
        ensures
            r == self@.current(uri@, generation),
    {
        match self.lint_generations.get(uri) {
            Some(current) => *current == generation,
            None => false,
        }
    }

    /// What is linted of a document, and in which version, if it is open and is a file.
    pub fn lint_work(&self, uri: &String, fix: bool) -> (r: Option<(LintRequest, i32)>)
        ensures
            match r {
                Some((request, version)) => self@.lint_work(uri@, url_path(uri@), fix) == Some(
                    request@,
                ) && holds(self@.documents, uri@) && lookup(self@.documents, uri@)->0.version
                    == version,
                None => self@.lint_work(uri@, url_path(uri@), fix) is None,
            },
    {
        let path = path_of_url(uri.as_str());
        self.lint_work_at(uri, path, fix)
    }

    /// What is linted of a document, where the path that its URI names is known.
    pub fn lint_work_at(&self, uri: &String, path: Option<FsPath>, fix: bool) -> (r: Option<
        (LintRequest, i32),
    >)
        ensures
            match r {
                Some((request, version)) => self@.lint_work(uri@, opt(path), fix) == Some(request@)
                    && holds(self@.documents, uri@) && lookup(self@.documents, uri@)->0.version
                    == version,
                None => self@.lint_work(uri@, opt(path), fix) is None,
            },
    {
        let file_path = match path {
            None => {
                return None;
            },
            Some(path) => path,
        };
        match self.documents.get(uri) {
            None => None,
            Some(document) => Some(
                (
                    LintRequest { file_path, text: document.text.clone(), fix },
                    document.version,
                ),
            ),
        }
    }

    /// What is published once a document has been linted: nothing where it has been changed since.
    pub fn lint_done(
        &self,
        uri: &String,
        generation: u64,
        version: i32,
        result: Result<LintResponse, LintError>,
    ) -> (r: Option<Publication>)
        ensures
            opt(r) == self@.due_publication(uri@, generation, version, lint_result(result)),
    {
        if !self.is_current_generation(uri, generation) {
            return None;
        }
        match result {
            Ok(response) => Some(
                Publication {
                    uri: uri.clone(),
                    diagnostics: to_lsp_diagnostics(response.diagnostics),
                    version: Some(version),
                    warning: None,
                },
            ),
            Err(error) => {
                let mut diagnostics: Vec<Diagnostic> = Vec::new();
                diagnostics.push(synthetic_diagnostic(error.message.clone()));
                proof {
                    assert(each(diagnostics@) =~= seq![failure_problem(error@)]);
                }
                Some(
                    Publication {
                        uri: uri.clone(),
                        diagnostics,
                        version: Some(version),
                        warning: Some(error.message),
                    },
                )
            },
        }
    }

    /// Takes a document that has been opened. Gives the number of the change.
    pub fn did_open(&mut self, uri: String, version: i32, text: String) -> (r: u64)
        requires
            old(self)@.next_generation(uri@) <= u64::MAX,
        ensures
            r == old(self)@.next_generation(uri@),
            final(self)@ == old(self)@.with_document(
                uri@,
                DocumentView { version, text: text@ },
            ).scheduled(uri@),
    {
        self.documents.insert(uri.clone(), Document { version, text });
        self.schedule_lint(&uri)
    }

    /// Takes changes of a document, of which the last is the whole text. Gives the number of the
    /// change, if there is one.
    pub fn did_change(&mut self, uri: String, version: i32, changes: Vec<String>) -> (r: Option<u64>)
        requires
            old(self)@.next_generation(uri@) <= u64::MAX,
        ensures
            changes@.len() == 0 ==> r is None && final(self)@ == old(self)@,
            changes@.len() > 0 ==> r is Some && r->0 == old(self)@.next_generation(uri@)
                && final(self)@ == old(self)@.with_document(
                uri@,
                DocumentView { version, text: changes@.last()@ },
            ).scheduled(uri@),
    {
        let mut changes = changes;
        match changes.pop() {
            None => None,
            Some(text) => Some(self.did_open(uri, version, text)),
        }
    }

    /// Takes that a document has been saved. Gives the number of the change.
    pub fn did_save(&mut self, uri: String) -> (r: u64)
        requires
            old(self)@.next_generation(uri@) <= u64::MAX,
        ensures
            r == old(self)@.next_generation(uri@),
            final(self)@ == old(self)@.scheduled(uri@),
    {
        self.schedule_lint(&uri)
    }

    /// Takes that a document has been closed. Its diagnostics are withdrawn.
    pub fn did_close(&mut self, uri: String) -> (r: Publication)
        ensures
            r@ == withdrawn(uri@),
            final(self)@ == old(self)@.closed(uri@),
    {
        let _ = self.documents.remove(&uri);
        let _ = self.lint_generations.remove(&uri);
        let diagnostics: Vec<Diagnostic> = Vec::new();
        proof {
            assert(each(diagnostics@) =~= Seq::<DiagnosticView>::empty());
        }
        Publication { uri, diagnostics, version: None, warning: None }
    }

    /// The code action that the client is offered.
    pub fn code_action(&self, params: &CodeActionParams) -> (r: Option<CodeAction>)
        ensures
            opt(r) == offered_action(self@, params.uri@, only_kinds(*params)),
    {
        if !allows_fix_all(params) {
            return None;
        }
        if !self.documents.contains_key(&params.uri) {
            return None;
        }
        Some(
            CodeAction {
                title: "Fix all auto-fixable ESLint problems".to_owned(),
                kind: "source.fixAll.eslint".to_owned(),
                command: fix_all_command(params.uri.as_str()),
                is_preferred: true,
            },
        )
    }
}

/// When a document is changed again, the lint of the change before is of no account.
pub proof fn later_changes_outdate_earlier_ones(s: StateView, uri: Seq<char>, generation: u64)
    requires
        s.current(uri, generation),
        s.next_generation(uri) <= u64::MAX,
    ensures
        !s.scheduled(uri).current(uri, generation),
        s.scheduled(uri).current(uri, (generation + 1) as u64),
{
    put_then_lookup(s.lint_generations, uri, (generation + 1) as u64, uri);
}

/// Changes of one document leave the lints of others alone.
pub proof fn changes_do_not_outdate_other_documents(
    s: StateView,
    uri: Seq<char>,
    other: Seq<char>,
    generation: u64,
)
    requires
        uri != other,
    ensures
        s.scheduled(uri).current(other, generation) == s.current(other, generation),
{
    put_then_lookup(s.lint_generations, uri, s.next_generation(uri) as u64, other);
}

/// Once a document has been closed, no lint of it is published.
pub proof fn closed_documents_are_not_published(
    s: StateView,
    uri: Seq<char>,
    generation: u64,
)
    requires
        crate::table::keys_differ(s.lint_generations),
    ensures
        !s.closed(uri).current(uri, generation),
{
    crate::table::without_lookups(s.lint_generations, uri);
}

/// What is linted of a document is the text that was given last.
pub proof fn the_latest_text_is_linted(
    s: StateView,
    uri: Seq<char>,
    document: DocumentView,
    path: PathView,
    fix: bool,
)
    ensures
        s.with_document(uri, document).scheduled(uri).lint_work(uri, Some(path), fix) == Some(
            LintRequestView { file_path: path, text: document.text, fix },
        ),
{
    put_then_lookup(s.documents, uri, document, uri);
}

/// A fix that changes nothing gives no edit.
pub proof fn needless_fixes_give_no_edit(text: Seq<char>, response: LintResponseView)
    requires
        response.fixed_text == Some(text),
    ensures
        fixing_edit(text, Ok(response)) is None,
{
}

} // verus!
