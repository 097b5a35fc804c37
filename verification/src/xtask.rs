//! The installation of the servers.

use vstd::prelude::*;
use vstd::string::*;
use crate::hub::result_view;
use crate::path::{child_of, parent_of, path_text, FsPath, PathView};
use crate::project::copy_texts;
use crate::text::{concat2, same_text, texts};
use crate::views::each;

verus! {

/// What is asked for on the command line.
#[derive(Debug, PartialEq, Eq)]
pub enum XtaskCommand {
    /// To install the servers, with these further arguments.
    Install(Vec<String>),
    /// To be told the usage.
    Help,
    /// Something that is refused for this reason, after the usage has been told.
    Refused(String),
}

/// What is asked for on the command line.
#[verifier::ext_equal]
pub enum XtaskCommandView {
    Install(Seq<Seq<char>>),
    Help,
    Refused(Seq<char>),
}

impl View for XtaskCommand {
    type V = XtaskCommandView;

    open spec fn view(&self) -> XtaskCommandView {
        match self {
            XtaskCommand::Install(args) => XtaskCommandView::Install(texts(args@)),
            XtaskCommand::Help => XtaskCommandView::Help,
            XtaskCommand::Refused(reason) => XtaskCommandView::Refused(reason@),
        }
    }
}

/// What is asked for by arguments.
pub open spec fn asked_for(args: Seq<Seq<char>>) -> XtaskCommandView {
    if args.len() == 0 {
        XtaskCommandView::Refused("missing xtask command"@)
    } else if args[0] == "install"@ {
        XtaskCommandView::Install(args.drop_first())
    } else if args[0] == "-h"@ || args[0] == "--help"@ || args[0] == "help"@ {
        XtaskCommandView::Help
    } else {
        XtaskCommandView::Refused("unknown xtask command: "@ + args[0])
    }
}

/// What is asked for by arguments.
pub fn parse_args(args: Vec<String>) -> (r: XtaskCommand)
    ensures
        r@ == asked_for(texts(args@)),
{
    let ghost all = texts(args@);
    proof {
        assert(all.len() == args@.len());
    }
    let mut args = args;
    if args.len() == 0 {
        return XtaskCommand::Refused("missing xtask command".to_owned());
    }
    let command = args.remove(0);
    proof {
        assert(all[0] == command@);
        assert(texts(args@) =~= all.drop_first());
    }
    if same_text(command.as_str(), "install") {
        return XtaskCommand::Install(args);
    }
    if same_text(command.as_str(), "-h") || same_text(command.as_str(), "--help") || same_text(
        command.as_str(),
        "help",
    ) {
        return XtaskCommand::Help;
    }
    XtaskCommand::Refused(concat2("unknown xtask command: ", command.as_str()))
}

/// The usage.
pub fn usage() -> (r: String)
    ensures
        r@
            == "Usage:\n  cargo install-lsps\n  cargo run -p xtask -- install [cargo-install-args...]"@,
{
    "Usage:\n  cargo install-lsps\n  cargo run -p xtask -- install [cargo-install-args...]".to_owned()
}

/// The packages that are installed, each with a program of the same name.
pub open spec fn packages() -> Seq<Seq<char>> {
    seq!["eslint-lsp"@, "prettier-lsp"@, "tsgo-lsp"@, "oxc-lsp"@]
}

/// The arguments with which a package is installed.
pub open spec fn install_arguments(package: Seq<char>, extra: Seq<Seq<char>>) -> Seq<Seq<char>> {
    seq!["install"@, "--locked"@, "--path"@, package, "--bin"@, package] + extra
}

/// The installation of a package: `cargo` is run in the directory with the arguments.
#[derive(Debug, PartialEq, Eq)]
pub struct InstallOrder {
    pub package: String,
    pub dir: FsPath,
    pub args: Vec<String>,
    pub manifest_path: FsPath,
}

/// The installation of a package.
#[verifier::ext_equal]
pub struct InstallOrderView {
    pub package: Seq<char>,
    pub dir: PathView,
    pub args: Seq<Seq<char>>,
    pub manifest_path: PathView,
}

impl View for InstallOrder {
    type V = InstallOrderView;

    open spec fn view(&self) -> InstallOrderView {
        InstallOrderView {
            package: self.package@,
            dir: self.dir@,
            args: texts(self.args@),
            manifest_path: self.manifest_path@,
        }
    }
}

/// The installation of a package of the workspace `root`.
pub open spec fn install_order(
    root: PathView,
    package: Seq<char>,
    extra: Seq<Seq<char>>,
) -> InstallOrderView {
    InstallOrderView {
        package,
        dir: root,
        args: install_arguments(package, extra),
        manifest_path: child_of(child_of(root, package), "Cargo.toml"@),
    }
}

fn make_install_order(root: &FsPath, package: &str, extra: &Vec<String>) -> (r: InstallOrder)
    ensures
        r@ == install_order(root@, package@, texts(extra@)),
{
    let mut args: Vec<String> = Vec::new();
    args.push("install".to_owned());
    args.push("--locked".to_owned());
    args.push("--path".to_owned());
    args.push(package.to_owned());
    args.push("--bin".to_owned());
    args.push(package.to_owned());
    let ghost start = texts(args@);
    let mut more = copy_texts(extra);
    let ghost rest = texts(more@);
    args.append(&mut more);
    proof {
        assert(start =~= seq!["install"@, "--locked"@, "--path"@, package@, "--bin"@, package@]);
        assert(texts(args@) =~= start + rest);
    }
    InstallOrder {
        package: package.to_owned(),
        dir: root.clone(),
        args,
        manifest_path: root.child(package).child("Cargo.toml"),
    }
}

/// The installations of the servers of the workspace `root`, one after the other.
pub fn install_all(root: &FsPath, extra_args: &Vec<String>) -> (r: Vec<InstallOrder>)
    ensures
        each(r@) == packages().map_values(
            |package: Seq<char>| install_order(root@, package, texts(extra_args@)),
        ),
{
    let mut orders: Vec<InstallOrder> = Vec::new();
    orders.push(make_install_order(root, "eslint-lsp", extra_args));
    orders.push(make_install_order(root, "prettier-lsp", extra_args));
    orders.push(make_install_order(root, "tsgo-lsp", extra_args));
    orders.push(make_install_order(root, "oxc-lsp", extra_args));
    proof {
        assert(each(orders@) =~= packages().map_values(
            |package: Seq<char>| install_order(root@, package, texts(extra_args@)),
        ));
    }
    orders
}

/// The root of the workspace: the directory that holds `manifest_dir`.
pub fn workspace_root(manifest_dir: &FsPath) -> (r: Result<FsPath, String>)
    ensures
        match r {
            Ok(root) => parent_of(manifest_dir@) == Some(root@),
            Err(reason) => parent_of(manifest_dir@) is None && reason@
                == "xtask manifest directory has no parent"@,
        },
{
    match manifest_dir.parent() {
        Some(root) => Ok(root),
        None => Err("xtask manifest directory has no parent".to_owned()),
    }
}

/// How the run of `cargo` for an installation has gone.
#[derive(Debug, PartialEq, Eq)]
pub enum CargoRun {
    /// It could not be started, for this reason.
    NotStarted(String),
    /// It has ended well.
    Succeeded,
    /// It has ended with this status, which is a failure.
    Failed(String),
}

/// How the run of `cargo` for an installation has gone.
#[verifier::ext_equal]
pub enum CargoRunView {
    NotStarted(Seq<char>),
    Succeeded,
    Failed(Seq<char>),
}

impl View for CargoRun {
    type V = CargoRunView;

    open spec fn view(&self) -> CargoRunView {
        match self {
            CargoRun::NotStarted(reason) => CargoRunView::NotStarted(reason@),
            CargoRun::Succeeded => CargoRunView::Succeeded,
            CargoRun::Failed(status) => CargoRunView::Failed(status@),
        }
    }
}

/// Whether an installation has ended well, and else what is said.
pub open spec fn run_result(order: InstallOrderView, run: CargoRunView) -> Result<(), Seq<char>> {
    match run {
        CargoRunView::NotStarted(reason) => Err(
            "failed to spawn cargo install for "@ + order.package + ": "@ + reason,
        ),
        CargoRunView::Succeeded => Ok(()),
        CargoRunView::Failed(status) => Err(
            "cargo install failed for "@ + order.package + " ("@ + path_text(order.manifest_path)
                + ") with status "@ + status,
        ),
    }
}

/// Whether an installation has ended well, and else what is said.
pub fn ensure_success(run: &CargoRun, order: &InstallOrder) -> (r: Result<(), String>)
    ensures
        result_view(r) == run_result(order@, run@),
{
    match run {
        CargoRun::NotStarted(reason) => {
            let text = concat2("failed to spawn cargo install for ", order.package.as_str());
            let text = concat2(text.as_str(), ": ");
            Err(concat2(text.as_str(), reason.as_str()))
        },
        CargoRun::Succeeded => Ok(()),
        CargoRun::Failed(status) => {
            let text = concat2("cargo install failed for ", order.package.as_str());
            let text = concat2(text.as_str(), " (");
            let text = concat2(text.as_str(), order.manifest_path.to_text().as_str());
            let text = concat2(text.as_str(), ") with status ");
            Err(concat2(text.as_str(), status.as_str()))
        },
    }
}

/// How the installations go on.
#[derive(Debug, PartialEq, Eq)]
pub enum InstallStep {
    /// With the order of this number.
    Install(usize),
    /// They have ended so.
    Finished(Result<(), String>),
}

/// How the installations go on.
#[verifier::ext_equal]
pub enum InstallStepView {
    Install(int),
    Finished(Result<(), Seq<char>>),
}

impl View for InstallStep {
    type V = InstallStepView;

    open spec fn view(&self) -> InstallStepView {
        match self {
            InstallStep::Install(number) => InstallStepView::Install(*number as int),
            InstallStep::Finished(result) => InstallStepView::Finished(result_view(*result)),
        }
    }
}

/// How the installations go on after the first `done` orders have been carried out: with the next, if
/// there is one.
pub open spec fn install_from(orders: Seq<InstallOrderView>, done: int) -> InstallStepView {
    if done < orders.len() {
        InstallStepView::Install(done)
    } else {
        InstallStepView::Finished(Ok(()))
    }
}

/// How the installations go on after an order has been carried out: a failure ends them.
pub open spec fn install_after(
    orders: Seq<InstallOrderView>,
    number: int,
    run: CargoRunView,
) -> InstallStepView {
    match run_result(orders[number], run) {
        Ok(_) => install_from(orders, number + 1),
        Err(reason) => InstallStepView::Finished(Err(reason)),
    }
}

/// How the installations start.
pub fn first_install(orders: &Vec<InstallOrder>) -> (r: InstallStep)
    ensures
        r@ == install_from(each(orders@), 0),
{
    if orders.len() > 0 {
        InstallStep::Install(0)
    } else {
        InstallStep::Finished(Ok(()))
    }
}

/// How the installations go on after the order of this number has been carried out.
pub fn after_install(orders: &Vec<InstallOrder>, number: usize, run: &CargoRun) -> (r: InstallStep)
    requires
        number < orders@.len(),
    ensures
        r@ == install_after(each(orders@), number as int, run@),
{
    proof {
        assert(each(orders@)[number as int] == orders@[number as int]@);
    }
    match ensure_success(run, &orders[number]) {
        Err(reason) => InstallStep::Finished(Err(reason)),
        Ok(()) => {
            if number < orders.len() - 1 {
                InstallStep::Install(number + 1)
            } else {
                InstallStep::Finished(Ok(()))
            }
        },
    }
}

/// What comes of the installations from a step on, where `runs` are the runs that the orders would
/// lead to, and which orders are carried out.
pub open spec fn installed_from(
    orders: Seq<InstallOrderView>,
    runs: Seq<CargoRunView>,
    number: int,
) -> (Seq<InstallOrderView>, Result<(), Seq<char>>)
    decreases orders.len() - number,
{
    if 0 <= number < orders.len() {
        match install_after(orders, number, runs[number]) {
            InstallStepView::Finished(result) => (seq![orders[number]], result),
            InstallStepView::Install(_) => {
                let (rest, result) = installed_from(orders, runs, number + 1);
                (seq![orders[number]] + rest, result)
            },
        }
    } else {
        (Seq::empty(), Ok(()))
    }
}

proof fn installed_until_failure(
    orders: Seq<InstallOrderView>,
    runs: Seq<CargoRunView>,
    number: int,
    ended: int,
)
    requires
        runs.len() == orders.len(),
        0 <= number <= ended <= orders.len(),
        forall|i: int| number <= i < ended ==> #[trigger] runs[i] == CargoRunView::Succeeded,
        ended < orders.len() ==> runs[ended] != CargoRunView::Succeeded,
    ensures
        installed_from(orders, runs, number) == (if ended < orders.len() {
            (orders.subrange(number, ended + 1), run_result(orders[ended], runs[ended]))
        } else {
            (orders.skip(number), Ok::<(), Seq<char>>(()))
        }),
    decreases ended - number,
{
    if number < ended {
        assert(runs[number] == CargoRunView::Succeeded);
        installed_until_failure(orders, runs, number + 1, ended);
        if ended < orders.len() {
            assert(seq![orders[number]] + orders.subrange(number + 1, ended + 1)
                =~= orders.subrange(number, ended + 1));
        } else if number + 1 < orders.len() {
            assert(seq![orders[number]] + orders.skip(number + 1) =~= orders.skip(number));
        } else {
            assert(seq![orders[number]] =~= orders.skip(number));
        }
    } else if ended < orders.len() {
        assert(seq![orders[number]] =~= orders.subrange(number, ended + 1));
    } else {
        assert(orders.skip(number) =~= Seq::<InstallOrderView>::empty());
    }
}

/// The first installation that fails ends the run with its error, and none after it is carried out.
pub proof fn the_first_failure_ends_the_installations(
    orders: Seq<InstallOrderView>,
    runs: Seq<CargoRunView>,
    failing: int,
)
    requires
        runs.len() == orders.len(),
        0 <= failing < orders.len(),
        forall|i: int| 0 <= i < failing ==> #[trigger] runs[i] == CargoRunView::Succeeded,
        runs[failing] != CargoRunView::Succeeded,
    ensures
        installed_from(orders, runs, 0) == (
            orders.take(failing + 1),
            run_result(orders[failing], runs[failing]),
        ),
        installed_from(orders, runs, 0).1 is Err,
{
    installed_until_failure(orders, runs, 0, failing);
    assert(orders.subrange(0, failing + 1) =~= orders.take(failing + 1));
}

/// The installations succeed just when each of them does, and then all of them are carried out.
pub proof fn installing_succeeds_when_all_do(
    orders: Seq<InstallOrderView>,
    runs: Seq<CargoRunView>,
)
    requires
        runs.len() == orders.len(),
    ensures
        installed_from(orders, runs, 0).1 is Ok <==> forall|i: int|
            0 <= i < runs.len() ==> #[trigger] runs[i] == CargoRunView::Succeeded,
        installed_from(orders, runs, 0).1 is Ok ==> installed_from(orders, runs, 0).0 == orders,
{
    let ended = first_failure(runs, 0);
    first_failure_is_first(runs, 0);
    installed_until_failure(orders, runs, 0, ended);
    assert(orders.skip(0) =~= orders);
    if ended < runs.len() {
        assert(run_result(orders[ended], runs[ended]) is Err);
    }
}

/// The number of the first run from here on that has failed, and else the number of runs.
spec fn first_failure(runs: Seq<CargoRunView>, from: int) -> int
    decreases runs.len() - from,
{
    if 0 <= from < runs.len() && runs[from] == CargoRunView::Succeeded {
        first_failure(runs, from + 1)
    } else {
        from
    }
}

proof fn first_failure_is_first(runs: Seq<CargoRunView>, from: int)
    requires
        0 <= from <= runs.len(),
    ensures
        from <= first_failure(runs, from) <= runs.len(),
        forall|i: int|
            from <= i < first_failure(runs, from) ==> #[trigger] runs[i]
                == CargoRunView::Succeeded,
        first_failure(runs, from) < runs.len() ==> runs[first_failure(runs, from)]
            != CargoRunView::Succeeded,
    decreases runs.len() - from,
{
    if from < runs.len() && runs[from] == CargoRunView::Succeeded {
        first_failure_is_first(runs, from + 1);
    }
}

/// Further arguments are handed to the installation of each server, and each is installed as locked.
pub proof fn arguments_reach_every_installation(
    root: PathView,
    extra: Seq<Seq<char>>,
    i: int,
)
    requires
        0 <= i < packages().len(),
    ensures
        ({
            let order = install_order(root, packages()[i], extra);
            &&& order.args.skip(6) == extra
            &&& order.args[1] == "--locked"@
        }),
{
    let package = packages()[i];
    assert(install_arguments(package, extra).skip(6) =~= extra);
}

} // verus!
