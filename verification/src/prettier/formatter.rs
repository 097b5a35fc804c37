//! Where Prettier runs for a file, and what is made of its answers.

use vstd::prelude::*;
use vstd::string::*;
use crate::disk::{Findings, FindingsView, Outcome, OutcomeView, Step, StepView};
use crate::path::{ancestors_of, child_of, lies_under, parent_of, path_of, FsPath, PathView};
use crate::project::{path_debug, path_debug_text};
use crate::table::{
    keys_differ, lookup, put, put_then_lookup, without, without_lookups, Key, Table,
};
use crate::text::{concat2, same_text, texts};
use crate::views::each;

verus! {

/// What Prettier made of a file.
#[derive(Debug, PartialEq, Eq)]
pub enum FormatOutcome {
    Formatted(String),
    Ignored,
    Unsupported,
}

/// What Prettier made of a file.
#[verifier::ext_equal]
pub enum FormatOutcomeView {
    Formatted(Seq<char>),
    Ignored,
    Unsupported,
}

impl View for FormatOutcome {
    type V = FormatOutcomeView;

    open spec fn view(&self) -> FormatOutcomeView {
        match self {
            FormatOutcome::Formatted(text) => FormatOutcomeView::Formatted(text@),
            FormatOutcome::Ignored => FormatOutcomeView::Ignored,
            FormatOutcome::Unsupported => FormatOutcomeView::Unsupported,
        }
    }
}

/// Why formatting has failed, and whether that is for want of Prettier.
#[derive(Debug, PartialEq, Eq)]
pub struct FormatError {
    message: String,
    unavailable: bool,
}

/// Why formatting has failed, and whether that is for want of Prettier.
#[verifier::ext_equal]
pub struct FormatErrorView {
    pub message: Seq<char>,
    pub unavailable: bool,
}

impl View for FormatError {
    type V = FormatErrorView;

    closed spec fn view(&self) -> FormatErrorView {
        FormatErrorView { message: self.message@, unavailable: self.unavailable }
    }
}

/// A failure that is shown.
pub open spec fn loud(message: Seq<char>) -> FormatErrorView {
    FormatErrorView { message, unavailable: false }
}

/// A failure for want of Prettier.
pub open spec fn missing(message: Seq<char>) -> FormatErrorView {
    FormatErrorView { message, unavailable: true }
}

impl FormatError {
    /// A failure that is shown.
    pub fn new(message: String) -> (r: FormatError)
        ensures
            r@ == loud(message@),
    {
        FormatError { message, unavailable: false }
    }

    /// A failure for want of Prettier.
    pub fn unavailable(message: String) -> (r: FormatError)
        ensures
            r@ == missing(message@),
    {
        FormatError { message, unavailable: true }
    }

    /// Whether formatting has failed for want of Prettier.
    pub fn is_unavailable(&self) -> (r: bool)
        ensures
            r == self@.unavailable,
    {
        self.unavailable
    }

    /// The message.
    pub fn to_text(&self) -> (r: String)
        ensures
            r@ == self@.message,
    {
        self.message.clone()
    }
}

/// An answer of the worker.
#[derive(Debug, PartialEq, Eq)]
pub enum NodeBridgeResponse {
    Formatted { formatted: String },
    Ignored,
    Unsupported,
    Error { code: String, message: String },
}

/// An answer of the worker.
#[verifier::ext_equal]
pub enum NodeBridgeResponseView {
    Formatted { formatted: Seq<char> },
    Ignored,
    Unsupported,
    Error { code: Seq<char>, message: Seq<char> },
}

impl View for NodeBridgeResponse {
    type V = NodeBridgeResponseView;

    open spec fn view(&self) -> NodeBridgeResponseView {
        match self {
            NodeBridgeResponse::Formatted { formatted } => NodeBridgeResponseView::Formatted {
                formatted: formatted@,
            },
            NodeBridgeResponse::Ignored => NodeBridgeResponseView::Ignored,
            NodeBridgeResponse::Unsupported => NodeBridgeResponseView::Unsupported,
            NodeBridgeResponse::Error { code, message } => NodeBridgeResponseView::Error {
                code: code@,
                message: message@,
            },
        }
    }
}

/// What became of formatting.
pub open spec fn format_result(r: Result<FormatOutcome, FormatError>) -> Result<
    FormatOutcomeView,
    FormatErrorView,
> {
    match r {
        Ok(outcome) => Ok(outcome@),
        Err(error) => Err(error@),
    }
}

/// What became of a request.
pub open spec fn request_result(r: Result<NodeBridgeResponse, FormatError>) -> Result<
    NodeBridgeResponseView,
    FormatErrorView,
> {
    match r {
        Ok(response) => Ok(response@),
        Err(error) => Err(error@),
    }
}

/// What an answer of the worker comes to: that Prettier is missing is no failure to be shown.
pub open spec fn mapped_response(response: NodeBridgeResponseView) -> Result<
    FormatOutcomeView,
    FormatErrorView,
> {
    match response {
        NodeBridgeResponseView::Formatted { formatted } => Ok(
            FormatOutcomeView::Formatted(formatted),
        ),
        NodeBridgeResponseView::Ignored => Ok(FormatOutcomeView::Ignored),
        NodeBridgeResponseView::Unsupported => Ok(FormatOutcomeView::Unsupported),
        NodeBridgeResponseView::Error { code, message } => if code == "missing_prettier"@ {
            Err(missing(code + ": "@ + message))
        } else {
            Err(loud(code + ": "@ + message))
        },
    }
}

/// What an answer of the worker comes to.
pub fn map_response(response: NodeBridgeResponse) -> (r: Result<FormatOutcome, FormatError>)
    ensures
        format_result(r) == mapped_response(response@),
{
    match response {
        NodeBridgeResponse::Formatted { formatted } => Ok(FormatOutcome::Formatted(formatted)),
        NodeBridgeResponse::Ignored => Ok(FormatOutcome::Ignored),
        NodeBridgeResponse::Unsupported => Ok(FormatOutcome::Unsupported),
        NodeBridgeResponse::Error { code, message } => {
            let start = concat2(code.as_str(), ": ");
            let text = concat2(start.as_str(), message.as_str());
            if same_text(code.as_str(), "missing_prettier") {
                Err(FormatError::unavailable(text))
            } else {
                Err(FormatError::new(text))
            }
        },
    }
}

/// What came of an exchange with the worker, with the reason where it has failed.
#[derive(Debug, PartialEq, Eq)]
pub enum Exchange {
    /// The request could not be written.
    WriteFailed(String),
    /// The end of the request could not be written.
    TerminateFailed(String),
    /// The request could not be flushed.
    FlushFailed(String),
    /// The answer could not be read.
    ReadFailed(String),
    /// No answer came in this time.
    TimedOut(String),
    /// The worker has closed its output.
    Closed,
    /// A line came that is no answer.
    Invalid(String),
    /// An answer came.
    Reply(NodeBridgeResponse),
}

/// What came of an exchange with the worker.
#[verifier::ext_equal]
pub enum ExchangeView {
    WriteFailed(Seq<char>),
    TerminateFailed(Seq<char>),
    FlushFailed(Seq<char>),
    ReadFailed(Seq<char>),
    TimedOut(Seq<char>),
    Closed,
    Invalid(Seq<char>),
    Reply(NodeBridgeResponseView),
}

impl View for Exchange {
    type V = ExchangeView;

    open spec fn view(&self) -> ExchangeView {
        match self {
            Exchange::WriteFailed(reason) => ExchangeView::WriteFailed(reason@),
            Exchange::TerminateFailed(reason) => ExchangeView::TerminateFailed(reason@),
            Exchange::FlushFailed(reason) => ExchangeView::FlushFailed(reason@),
            Exchange::ReadFailed(reason) => ExchangeView::ReadFailed(reason@),
            Exchange::TimedOut(time) => ExchangeView::TimedOut(time@),
            Exchange::Closed => ExchangeView::Closed,
            Exchange::Invalid(reason) => ExchangeView::Invalid(reason@),
            Exchange::Reply(response) => ExchangeView::Reply(response@),
        }
    }
}

/// What an exchange with the worker gives.
pub open spec fn judged(exchange: ExchangeView) -> Result<NodeBridgeResponseView, FormatErrorView> {
    match exchange {
        ExchangeView::WriteFailed(reason) => Err(
            loud("failed writing request to node worker: "@ + reason),
        ),
        ExchangeView::TerminateFailed(reason) => Err(
            loud("failed terminating node request: "@ + reason),
        ),
        ExchangeView::FlushFailed(reason) => Err(loud("failed flushing node request: "@ + reason)),
        ExchangeView::ReadFailed(reason) => Err(loud("failed reading node response: "@ + reason)),
        ExchangeView::TimedOut(time) => Err(loud("node worker timed out after "@ + time)),
        ExchangeView::Closed => Err(loud("node worker closed before responding"@)),
        ExchangeView::Invalid(reason) => Err(
            loud("node worker returned invalid JSON: "@ + reason),
        ),
        ExchangeView::Reply(response) => Ok(response),
    }
}

/// What an exchange with the worker gives.
pub fn judge(exchange: Exchange) -> (r: Result<NodeBridgeResponse, FormatError>)
    ensures
        request_result(r) == judged(exchange@),
{
    match exchange {
        Exchange::WriteFailed(reason) => Err(
            FormatError::new(
                concat2("failed writing request to node worker: ", reason.as_str()),
            ),
        ),
        Exchange::TerminateFailed(reason) => Err(
            FormatError::new(concat2("failed terminating node request: ", reason.as_str())),
        ),
        Exchange::FlushFailed(reason) => Err(
            FormatError::new(concat2("failed flushing node request: ", reason.as_str())),
        ),
        Exchange::ReadFailed(reason) => Err(
            FormatError::new(concat2("failed reading node response: ", reason.as_str())),
        ),
        Exchange::TimedOut(time) => Err(
            FormatError::new(concat2("node worker timed out after ", time.as_str())),
        ),
        Exchange::Closed => Err(
            FormatError::new("node worker closed before responding".to_owned()),
        ),
        Exchange::Invalid(reason) => Err(
            FormatError::new(concat2("node worker returned invalid JSON: ", reason.as_str())),
        ),
        Exchange::Reply(response) => Ok(response),
    }
}

/// That the worker could not be started: for want of Node, or for another reason.
pub fn spawn_error(node_binary: &str, reason: &str, not_found: bool) -> (r: FormatError)
    ensures
        r@ == (FormatErrorView {
            message: "failed to spawn "@ + path_debug_text(node_binary@) + ": "@ + reason@,
            unavailable: not_found,
        }),
{
    let text = concat2("failed to spawn ", path_debug(node_binary).as_str());
    let text = concat2(text.as_str(), ": ");
    let text = concat2(text.as_str(), reason);
    if not_found {
        FormatError::unavailable(text)
    } else {
        FormatError::new(text)
    }
}

/// How formatting goes on after its first exchange.
#[derive(Debug)]
pub enum FormatStep {
    /// It has ended.
    Finished(Result<FormatOutcome, FormatError>),
    /// The worker is replaced and the request is made once more.
    Retry(FormatError),
}

/// How formatting goes on after its first exchange.
#[verifier::ext_equal]
pub enum FormatStepView {
    Finished(Result<FormatOutcomeView, FormatErrorView>),
    Retry(FormatErrorView),
}

impl View for FormatStep {
    type V = FormatStepView;

    open spec fn view(&self) -> FormatStepView {
        match self {
            FormatStep::Finished(result) => FormatStepView::Finished(format_result(*result)),
            FormatStep::Retry(error) => FormatStepView::Retry(error@),
        }
    }
}

/// How formatting goes on after its first exchange: one that fails is made once more, by another
/// worker.
pub open spec fn after_first(exchange: ExchangeView) -> FormatStepView {
    match judged(exchange) {
        Ok(response) => FormatStepView::Finished(mapped_response(response)),
        Err(error) => FormatStepView::Retry(error),
    }
}

/// What came of formatting whose worker has been replaced.
pub open spec fn after_second(first: FormatErrorView, exchange: ExchangeView) -> Result<
    FormatOutcomeView,
    FormatErrorView,
> {
    match judged(exchange) {
        Ok(response) => mapped_response(response),
        Err(second) => Err(
            loud(
                "node worker failed after restart: "@ + second.message + "; original failure: "@
                    + first.message,
            ),
        ),
    }
}

/// Says how formatting goes on after its first exchange.
pub fn first_exchange(exchange: Exchange) -> (r: FormatStep)
    ensures
        r@ == after_first(exchange@),
{
    match judge(exchange) {
        Ok(response) => FormatStep::Finished(map_response(response)),
        Err(error) => FormatStep::Retry(error),
    }
}

/// Says what came of formatting whose worker has been replaced.
pub fn second_exchange(first: &FormatError, exchange: Exchange) -> (r: Result<
    FormatOutcome,
    FormatError,
>)
    ensures
        format_result(r) == after_second(first@, exchange@),
{
    match judge(exchange) {
        Ok(response) => map_response(response),
        Err(second) => {
            let text = concat2("node worker failed after restart: ", second.to_text().as_str());
            let text = concat2(text.as_str(), "; original failure: ");
            Err(FormatError::new(concat2(text.as_str(), first.to_text().as_str())))
        },
    }
}

/// The arguments with which Node runs a worker.
pub open spec fn worker_arguments(bridge: Seq<char>) -> Seq<Seq<char>> {
    seq!["--input-type=module"@, "--eval"@, bridge]
}

/// The arguments with which Node runs a worker. `bridge` is the worker's script.
pub fn worker_args(bridge: &str) -> (r: Vec<String>)
    ensures
        texts(r@) == worker_arguments(bridge@),
{
    let mut args: Vec<String> = Vec::new();
    args.push("--input-type=module".to_owned());
    args.push("--eval".to_owned());
    args.push(bridge.to_owned());
    proof {
        assert(texts(args@) =~= worker_arguments(bridge@));
    }
    args
}

/// Whether a directory is where packages are installed: it has a manifest or installed packages.
pub open spec fn boundary(f: FindingsView, dir: PathView) -> StepView<bool> {
    match f.is_file(child_of(dir, "package.json"@)) {
        StepView::Ask(probe) => StepView::Ask(probe),
        StepView::Known(true) => StepView::Known(true),
        StepView::Known(false) => f.is_dir(child_of(dir, "node_modules"@)),
    }
}

/// Whether a directory is where packages are installed.
pub fn is_workspace_boundary(findings: &Findings, dir: &FsPath) -> (r: Step<bool>)
    ensures
        r@ == boundary(findings@, dir@),
{
    match findings.is_file(dir.child("package.json")) {
        Step::Ask(probe) => Step::Ask(probe),
        Step::Known(true) => Step::Known(true),
        Step::Known(false) => findings.is_dir(dir.child("node_modules")),
    }
}

/// The first of the directories, as long as they lie under the root, where packages are installed.
pub open spec fn first_boundary(
    f: FindingsView,
    dirs: Seq<PathView>,
    root: Option<PathView>,
) -> StepView<OutcomeView<PathView>>
    decreases dirs.len(),
{
    if dirs.len() == 0 || (root is Some && !lies_under(dirs[0], root->0)) {
        StepView::Known(OutcomeView::Absent)
    } else {
        match boundary(f, dirs[0]) {
            StepView::Ask(probe) => StepView::Ask(probe),
            StepView::Known(true) => StepView::Known(OutcomeView::Found(dirs[0])),
            StepView::Known(false) => first_boundary(f, dirs.drop_first(), root),
        }
    }
}

/// The directory of a file.
pub open spec fn directory_of(file_path: PathView) -> PathView {
    match parent_of(file_path) {
        Some(parent) => parent,
        None => path_of("."@),
    }
}

/// The directory in which Prettier runs for a file: the nearest one where packages are installed. The
/// search goes up to the workspace's root where the file lies under it, and that root is taken where
/// there is none; else the file's own directory.
pub open spec fn workspace_dir(
    f: FindingsView,
    file_path: PathView,
    workspace_root: Option<PathView>,
) -> StepView<PathView> {
    let parent = directory_of(file_path);
    let bound = match workspace_root {
        Some(root) => if lies_under(parent, root) {
            Some(root)
        } else {
            None
        },
        None => None,
    };
    match first_boundary(f, ancestors_of(parent), bound) {
        StepView::Ask(probe) => StepView::Ask(probe),
        StepView::Known(OutcomeView::Found(dir)) => StepView::Known(dir),
        StepView::Known(_) => StepView::Known(
            match bound {
                Some(root) => root,
                None => parent,
            },
        ),
    }
}

fn find_boundary(findings: &Findings, dirs: &Vec<FsPath>, root: Option<&FsPath>) -> (r: Step<
    Outcome<FsPath>,
>)
    ensures
        r@ == first_boundary(
            findings@,
            each(dirs@),
            match root {
                Some(root) => Some(root@),
                None => None,
            },
        ),
{
    let ghost all = each(dirs@);
    let ghost bound = match root {
        Some(root) => Some(root@),
        None => None,
    };
    let mut i: usize = 0;
    proof {
        assert(all.skip(0) =~= all);
    }
    while i < dirs.len()
        invariant
            i <= dirs@.len(),
            all == each(dirs@),
            bound == (match root {
                Some(root) => Some(root@),
                None => None,
            }),
            first_boundary(findings@, all, bound) == first_boundary(
                findings@,
                all.skip(i as int),
                bound,
            ),
        decreases dirs@.len() - i,
    {
        proof {
            assert(all.skip(i as int)[0] == dirs@[i as int]@);
            assert(all.skip(i as int).drop_first() =~= all.skip(i + 1));
        }
        if let Some(root) = root {
            if !dirs[i].starts_with(root) {
                return Step::Known(Outcome::Absent);
            }
        }
        match is_workspace_boundary(findings, &dirs[i]) {
            Step::Ask(probe) => {
                return Step::Ask(probe);
            },
            Step::Known(true) => {
                return Step::Known(Outcome::Found(dirs[i].clone()));
            },
            Step::Known(false) => {},
        }
        i += 1;
    }
    proof {
        assert(all.skip(i as int).len() == 0);
    }
    Step::Known(Outcome::Absent)
}

/// The directory in which Prettier runs for a file.
pub fn resolve_workspace_dir(
    findings: &Findings,
    file_path: &FsPath,
    workspace_root: Option<&FsPath>,
) -> (r: Step<FsPath>)
    ensures
        r@ == workspace_dir(
            findings@,
            file_path@,
            match workspace_root {
                Some(root) => Some(root@),
                None => None,
            },
        ),
{
    let parent = match file_path.parent() {
        Some(parent) => parent,
        None => FsPath::parse("."),
    };
    let bound = match workspace_root {
        Some(root) => if parent.starts_with(root) {
            Some(root)
        } else {
            None
        },
        None => None,
    };
    let dirs = parent.ancestors();
    proof {
        assert(each(dirs@) =~= ancestors_of(parent@));
    }
    match find_boundary(findings, &dirs, bound) {
        Step::Ask(probe) => Step::Ask(probe),
        Step::Known(Outcome::Found(dir)) => Step::Known(dir),
        Step::Known(_) => match bound {
            Some(root) => Step::Known(root.clone()),
            None => Step::Known(parent),
        },
    }
}

/// The workers that have been started, by directory and by number.
#[derive(Debug)]
pub struct Workers {
    pub workers: Table<FsPath, u64>,
}

impl View for Workers {
    type V = Seq<(PathView, u64)>;

    open spec fn view(&self) -> Seq<(PathView, u64)> {
        self.workers@
    }
}

/// The workers without one that has been given up, unless another has taken its place.
pub open spec fn given_up(workers: Seq<(PathView, u64)>, dir: PathView, worker: u64) -> Seq<
    (PathView, u64),
> {
    if lookup(workers, dir) == Some(worker) {
        without(workers, dir)
    } else {
        workers
    }
}

/// The workers once an exchange with one of them is over: one that gave no answer is given up.
pub open spec fn after_exchange(
    workers: Seq<(PathView, u64)>,
    dir: PathView,
    worker: u64,
    exchange: ExchangeView,
) -> Seq<(PathView, u64)> {
    if judged(exchange) is Err {
        given_up(workers, dir, worker)
    } else {
        workers
    }
}

impl Workers {
    /// No worker has been started.
    pub fn new() -> (r: Workers)
        ensures
            r@ == Seq::<(PathView, u64)>::empty(),
    {
        Workers { workers: Table::new() }
    }

    /// The worker for a directory, if one has been started.
    pub fn worker_for(&self, dir: &FsPath) -> (r: Option<u64>)
        ensures
            r == lookup(self@, dir@),
    {
        match self.workers.get(dir) {
            Some(worker) => Some(*worker),
            None => None,
        }
    }

    /// Keeps a worker for a directory, unless one has been kept meanwhile. Says which is kept.
    pub fn keep_worker(&mut self, dir: &FsPath, worker: u64) -> (r: u64)
        ensures
            match lookup(old(self)@, dir@) {
                Some(kept) => r == kept && final(self)@ == old(self)@,
                None => r == worker && final(self)@ == put(old(self)@, dir@, worker),
            },
            lookup(final(self)@, dir@) == Some(r),
    {
        match self.worker_for(dir) {
            Some(kept) => kept,
            None => {
                proof {
                    put_then_lookup(self@, dir@, worker, dir@);
                }
                self.workers.insert(dir.clone(), worker);
                worker
            },
        }
    }

    /// Gives up a worker, unless another has taken its place.
    pub fn invalidate_worker(&mut self, dir: &FsPath, worker: u64)
        ensures
            final(self)@ == given_up(old(self)@, dir@, worker),
    {
        match self.worker_for(dir) {
            Some(kept) => {
                if kept == worker {
                    let _ = self.workers.remove(dir);
                }
            },
            None => {},
        }
    }

    /// Takes the first exchange about a file, and says how formatting goes on.
    pub fn first_reply(&mut self, dir: &FsPath, worker: u64, exchange: Exchange) -> (r: FormatStep)
        ensures
            r@ == after_first(exchange@),
            final(self)@ == after_exchange(old(self)@, dir@, worker, exchange@),
    {
        let step = first_exchange(exchange);
        if let FormatStep::Retry(_) = &step {
            self.invalidate_worker(dir, worker);
        }
        step
    }

    /// Takes the exchange about a file with the worker that has taken the place of the first, and
    /// says what came of formatting.
    pub fn second_reply(
        &mut self,
        dir: &FsPath,
        worker: u64,
        first: &FormatError,
        exchange: Exchange,
    ) -> (r: Result<FormatOutcome, FormatError>)
        ensures
            format_result(r) == after_second(first@, exchange@),
            final(self)@ == after_exchange(old(self)@, dir@, worker, exchange@),
    {
        match &exchange {
            Exchange::Reply(_) => {},
            _ => {
                self.invalidate_worker(dir, worker);
            },
        }
        second_exchange(first, exchange)
    }
}

proof fn first_boundary_lasts(
    f: FindingsView,
    g: FindingsView,
    dirs: Seq<PathView>,
    root: Option<PathView>,
)
    requires
        f.within(g),
        first_boundary(f, dirs, root) is Known,
    ensures
        first_boundary(g, dirs, root) == first_boundary(f, dirs, root),
    decreases dirs.len(),
{
    if dirs.len() > 0 && boundary(f, dirs[0]) == StepView::Known(false) && !(root is Some
        && !lies_under(dirs[0], root->0)) {
        first_boundary_lasts(f, g, dirs.drop_first(), root);
    }
}

proof fn first_boundary_asks_anew(f: FindingsView, dirs: Seq<PathView>, root: Option<PathView>)
    requires
        first_boundary(f, dirs, root) is Ask,
    ensures
        !f.answered(first_boundary(f, dirs, root)->Ask_0),
    decreases dirs.len(),
{
    if dirs.len() > 0 && boundary(f, dirs[0]) is Known {
        first_boundary_asks_anew(f, dirs.drop_first(), root);
    }
}

/// What is known of where Prettier runs stays known, however much more is found out.
pub proof fn workspace_dir_lasts(
    f: FindingsView,
    g: FindingsView,
    file_path: PathView,
    workspace_root: Option<PathView>,
)
    requires
        f.within(g),
        workspace_dir(f, file_path, workspace_root) is Known,
    ensures
        workspace_dir(g, file_path, workspace_root) == workspace_dir(
            f,
            file_path,
            workspace_root,
        ),
{
    let dirs = ancestors_of(directory_of(file_path));
    if first_boundary(f, dirs, workspace_root) is Known {
        first_boundary_lasts(f, g, dirs, workspace_root);
    }
    if first_boundary(f, dirs, None) is Known {
        first_boundary_lasts(f, g, dirs, None);
    }
}

/// The search for where Prettier runs asks nothing twice.
pub proof fn workspace_dir_asks_anew(
    f: FindingsView,
    file_path: PathView,
    workspace_root: Option<PathView>,
)
    requires
        workspace_dir(f, file_path, workspace_root) is Ask,
    ensures
        !f.answered(workspace_dir(f, file_path, workspace_root)->Ask_0),
{
    let dirs = ancestors_of(directory_of(file_path));
    if first_boundary(f, dirs, workspace_root) is Ask {
        first_boundary_asks_anew(f, dirs, workspace_root);
    }
    if first_boundary(f, dirs, None) is Ask {
        first_boundary_asks_anew(f, dirs, None);
    }
}

proof fn first_boundary_stays_inside(f: FindingsView, dirs: Seq<PathView>, root: PathView)
    requires
        first_boundary(f, dirs, Some(root)) matches StepView::Known(OutcomeView::Found(_)),
    ensures
        lies_under(first_boundary(f, dirs, Some(root))->Known_0->Found_0, root),
    decreases dirs.len(),
{
    if boundary(f, dirs[0]) != StepView::Known(true) {
        first_boundary_stays_inside(f, dirs.drop_first(), root);
    }
}

/// Prettier never runs outside of the workspace that a file lies in.
pub proof fn search_stays_in_the_workspace(f: FindingsView, file_path: PathView, root: PathView)
    requires
        lies_under(directory_of(file_path), root),
        workspace_dir(f, file_path, Some(root)) is Known,
    ensures
        lies_under(workspace_dir(f, file_path, Some(root))->Known_0, root),
{
    let dirs = ancestors_of(directory_of(file_path));
    if first_boundary(f, dirs, Some(root))->Known_0 is Found {
        first_boundary_stays_inside(f, dirs, root);
    }
    assert(root.parts.take(root.parts.len() as int) =~= root.parts);
}

/// A worker that is kept for a directory is used again.
pub proof fn kept_workers_are_used_again(
    workers: Seq<(PathView, u64)>,
    dir: PathView,
    worker: u64,
)
    ensures
        lookup(put(workers, dir, worker), dir) == Some(worker),
{
    put_then_lookup(workers, dir, worker, dir);
}

/// A worker that gives no answer is not used again.
pub proof fn silent_workers_are_not_used_again(
    workers: Seq<(PathView, u64)>,
    dir: PathView,
    worker: u64,
    exchange: ExchangeView,
)
    requires
        keys_differ(workers),
        !(exchange is Reply),
    ensures
        lookup(after_exchange(workers, dir, worker, exchange), dir) != Some(worker),
{
    without_lookups(workers, dir);
}

/// Failures to be shown and failures for want of Prettier are told apart by the worker's code alone.
pub proof fn only_a_missing_prettier_is_quiet(code: Seq<char>, message: Seq<char>)
    ensures
        mapped_response(NodeBridgeResponseView::Error { code, message }) matches Err(error)
            && error.unavailable == (code == "missing_prettier"@) && error.message == code + ": "@
            + message,
{
}

} // verus!
