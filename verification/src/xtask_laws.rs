//! What is installed, whatever is asked for.

use vstd::prelude::*;
use crate::path::{path_text, PathView};
use crate::xtask::{
    asked_for, install_after, install_from, install_order, packages, run_result, CargoRunView,
    InstallOrderView, InstallStepView, XtaskCommandView,
};

verus! {

/// The first argument says what is to be done, and what follows `install` is handed on. Anything else is
/// refused.
pub proof fn the_first_argument_decides(args: Seq<Seq<char>>)
    ensures
        asked_for(args) is Install <==> args.len() > 0 && args[0] == "install"@,
        asked_for(args) matches XtaskCommandView::Install(rest) ==> args == seq!["install"@] + rest,
        asked_for(args) is Help <==> args.len() > 0 && (args[0] == "-h"@ || args[0] == "--help"@
            || args[0] == "help"@),
        args.len() == 0 ==> asked_for(args) is Refused,
{
    reveal_strlit("install");
    reveal_strlit("-h");
    reveal_strlit("--help");
    reveal_strlit("help");
    assert("install"@.len() == 7 && "-h"@.len() == 2 && "--help"@.len() == 6 && "help"@.len() == 4);
    if args.len() > 0 && args[0] == "install"@ {
        assert(args =~= seq!["install"@] + args.drop_first());
    }
}

/// All four servers are installed, each once.
pub proof fn all_servers_are_installed()
    ensures
        packages().len() == 4,
        packages().contains("eslint-lsp"@),
        packages().contains("prettier-lsp"@),
        packages().contains("tsgo-lsp"@),
        packages().contains("oxc-lsp"@),
{
    assert(packages()[0] == "eslint-lsp"@);
    assert(packages()[1] == "prettier-lsp"@);
    assert(packages()[2] == "tsgo-lsp"@);
    assert(packages()[3] == "oxc-lsp"@);
}

/// A server is installed from its own directory below the root, with the locked versions, the program of its
/// name, and the arguments that were handed on.
pub proof fn servers_are_installed_from_their_directory(
    root: PathView,
    package: Seq<char>,
    extra: Seq<Seq<char>>,
)
    ensures
        ({
            let order = install_order(root, package, extra);
            &&& order.package == package
            &&& order.dir == root
            &&& order.args.len() == 6 + extra.len()
            &&& order.args.skip(6) == extra
            &&& order.args[0] == "install"@
            &&& order.args[1] == "--locked"@
            &&& order.args[2] == "--path"@
            &&& order.args[3] == package
            &&& order.args[4] == "--bin"@
            &&& order.args[5] == package
            &&& order.manifest_path.parts == root.parts + seq![package, "Cargo.toml"@]
        }),
{
    let order = install_order(root, package, extra);
    assert(order.args.skip(6) =~= extra);
    assert(order.manifest_path.parts =~= root.parts + seq![package, "Cargo.toml"@]);
}

/// An installation succeeds just when the run does, and a failure names the package.
pub proof fn runs_decide(order: InstallOrderView, run: CargoRunView, reason: Seq<char>)
    ensures
        run_result(order, run) is Ok <==> run is Succeeded,
        run_result(order, CargoRunView::NotStarted(reason)) == Err::<(), Seq<char>>(
            "failed to spawn cargo install for "@ + order.package + ": "@ + reason,
        ),
{
}

/// After an installation that has succeeded comes the next, and the last ends well; after one that has failed
/// comes none.
pub proof fn installations_follow_one_another(
    orders: Seq<InstallOrderView>,
    number: int,
    run: CargoRunView,
)
    requires
        0 <= number < orders.len(),
    ensures
        orders.len() > 0 ==> install_from(orders, 0) == InstallStepView::Install(0),
        run is Succeeded && number + 1 < orders.len() ==> install_after(orders, number, run)
            == InstallStepView::Install(number + 1),
        run is Succeeded && number + 1 == orders.len() ==> install_after(orders, number, run)
            == InstallStepView::Finished(Ok(())),
        !(run is Succeeded) ==> (install_after(orders, number, run) matches InstallStepView::Finished(
            result,
        ) && result is Err),
{
}

/// An installation that has failed is told by the package, its manifest and the status.
pub proof fn failed_installations_are_told(order: InstallOrderView, status: Seq<char>)
    ensures
        run_result(order, CargoRunView::Failed(status)) == Err::<(), Seq<char>>(
            "cargo install failed for "@ + order.package + " ("@ + path_text(order.manifest_path)
                + ") with status "@ + status,
        ),
{
}

/// Why a command is refused is told.
pub proof fn refusals_tell_the_reason(args: Seq<Seq<char>>)
    ensures
        args.len() == 0 ==> asked_for(args) == XtaskCommandView::Refused("missing xtask command"@),
        args.len() > 0 && asked_for(args) is Refused ==> asked_for(args)
            == XtaskCommandView::Refused("unknown xtask command: "@ + args[0]),
{
}

} // verus!
