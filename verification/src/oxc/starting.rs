//! How children are started, and how what they say reaches the client.

use vstd::prelude::*;
use crate::disk::OutcomeView;
use crate::hub::{deliveries, ActionView, HubView, SessionView};
use crate::hub_laws::{
    a_later_child_is_initialized_with_its_own_root, fresh_session, grown, sent_stays_sent,
    the_clients_initialize_reaches_the_child, tidy,
};
use crate::json::{json_get, json_put, json_put_new, JsonView};
use crate::json_laws::{
    a_member_that_is_there_is_kept, members_are_found_by_name, setting_a_member_sets_it_alone,
};
use crate::lsp::{
    normal_response, MessageView, NotificationView, RequestIdView, RequestView, ResponseView,
};
use crate::oxc::discovery::{CommandView, ContextView, SessionKeyView};
use crate::oxc::proxy::{
    arrived, child_response, client_message, client_result, discovered, formatter,
    initialize_failure, lint, server_version, session_event, silent_result, spawned, NextView,
    ProxyView, PurposeView, SpawnOrderView,
};
use crate::oxc::routing::child_for;
use crate::oxc::session::{ChildKind, SessionEventView, SessionIdView};
use crate::params_laws::rooted_at;
use crate::path::PathView;
use crate::table::{holds, lookup, put_lookups, without, without_lookups, Ident};
use crate::url_text::{directory_url, file_url_text};

verus! {

/// Whether a step starts a child: under the next number, with this command, and for the purpose of the
/// step.
pub open spec fn starts(
    s: ProxyView,
    turn: (ProxyView, NextView),
    id: SessionIdView,
    command: CommandView,
    context: ContextView,
    purpose: PurposeView,
) -> bool {
    &&& turn.0 == (HubView { session_generation: turn.0.session_generation, ..s })
    &&& turn.1 matches NextView::Spawn(order, whatever)
    &&& whatever == purpose
    &&& order.id == id
    &&& order.command == command
    &&& order.context == context
    &&& order.generation == s.session_generation + 1
    &&& turn.0.session_generation == order.generation
}

/// Where a project has been found, the child that lints is started if it is missing, with the command that
/// lints, and then the child that formats if there is a command for it and it is missing. Else the step
/// goes on with the children that are there.
pub proof fn missing_children_are_started(s: ProxyView, context: ContextView, purpose: PurposeView)
    requires
        s.has_room(),
    ensures
        ({
            let turn = discovered(s, OutcomeView::Found(context), purpose);
            let linted = holds(s.sessions, child_for(context.key, ChildKind::Lint));
            let formatted = holds(s.sessions, child_for(context.key, ChildKind::Format));
            &&& !linted ==> starts(
                s,
                turn,
                child_for(context.key, ChildKind::Lint),
                context.lint_command,
                context,
                purpose,
            )
            &&& linted && !formatted && context.format_command is Some ==> starts(
                s,
                turn,
                child_for(context.key, ChildKind::Format),
                context.format_command->0,
                context,
                purpose,
            )
            &&& linted && (formatted || context.format_command is None) ==> turn == (
                arrived(s, context.key, purpose),
                NextView::Done,
            )
        }),
{
}

proof fn arriving_only_adds(s: ProxyView, project: SessionKeyView, purpose: PurposeView)
    requires
        tidy(s),
    ensures
        grown(s, arrived(s, project, purpose)),
{
    match purpose {
        PurposeView::Initialize(request) => {
            let t = arrived(s, project, purpose);
            assert(t.outbox.take(s.outbox.len() as int) =~= s.outbox);
        },
        PurposeView::Request(request) => {
            crate::oxc::routing::request_routed_serves(s, request, project);
        },
        PurposeView::Notification(notification, uri) => {
            crate::oxc::routing::arriving_notifications_only_add(s, project, notification, uri);
        },
    }
}

/// A child that is started once the client has said what it is, is asked to initialize, with the root of
/// its own project in place of the client's, before anything else is sent. Only the child for which the
/// client's own `initialize` is meant is not.
pub proof fn later_children_are_initialized_with_their_root(
    s: ProxyView,
    order: SpawnOrderView,
    purpose: PurposeView,
    root: PathView,
)
    requires
        tidy(s),
        s.has_room(),
        s.client_initialize matches Some(state) && state.params is Object,
        order.context.root == Some(root),
        file_url_text(root.text) is Some,
        order.id.kind == ChildKind::Format || !(purpose is Initialize),
    ensures
        ({
            let (t, _) = spawned(s, order, purpose, Ok(()));
            let given = s.client_initialize->0.params;
            &&& grown(s, t)
            &&& t.outbox.len() > s.outbox.len()
            &&& t.outbox[s.outbox.len() as int] matches ActionView::Child(
                to,
                MessageView::Request(asked),
            )
            &&& to == order.id
            &&& asked.method == "initialize"@
            &&& asked.id == s.next_id("oxc-lsp/init/"@)
            &&& rooted_at(asked.params, given, root, directory_url(root)->0)
        }),
{
    let prefix = "oxc-lsp/init/"@;
    let (t, result) = s.installed(order.id, Some(root), order.generation, true, prefix);
    a_later_child_is_initialized_with_its_own_root(s, order.id, root, order.generation, prefix);
    let n = s.outbox.len() as int;
    assert(t.outbox.take(n) =~= t.outbox.drop_last());
    assert(t.outbox[n] == t.outbox.last());
    installing_keeps_tidy(s, order.id, Some(root), order.generation, true, prefix);
    arriving_only_adds(t, order.context.key, purpose);
    let u = spawned(s, order, purpose, Ok(())).0;
    assert(t.outbox.take(t.outbox.len() as int) =~= t.outbox);
    assert(grown(t, u));
    sent_stays_sent(s, t, u, t.outbox.last());
    assert(u.outbox.take(t.outbox.len() as int)[n] == u.outbox[n]);
}

proof fn installing_keeps_tidy(
    s: ProxyView,
    id: SessionIdView,
    root: Option<PathView>,
    generation: u64,
    send_initialize: bool,
    prefix: Seq<char>,
)
    requires
        tidy(s),
    ensures
        tidy(s.installed(id, root, generation, send_initialize, prefix).0),
{
    put_lookups(s.sessions, id, fresh_session(root, generation));
    put_lookups(
        s.initialize_routes,
        s.next_id(prefix),
        crate::hub::InitializeRouteView { session: id, forward_to_client: false },
    );
}

/// A formatter that could not be started is told to the user, and the step goes on without it.
pub proof fn projects_are_served_without_a_formatter(
    s: ProxyView,
    order: SpawnOrderView,
    purpose: PurposeView,
    message: Seq<char>,
)
    requires
        order.id.kind == ChildKind::Format,
    ensures
        spawned(s, order, purpose, Err(message)) == (
            arrived(
                s.warned("failed to start oxfmt session: "@ + message),
                order.context.key,
                purpose,
            ),
            NextView::Done,
        ),
{
}

/// A linter that could not be started is a failure of the step, which is as if none had been found.
pub proof fn projects_are_not_served_without_a_linter(
    s: ProxyView,
    order: SpawnOrderView,
    purpose: PurposeView,
    message: Seq<char>,
)
    requires
        order.id.kind == ChildKind::Lint,
    ensures
        spawned(s, order, purpose, Err(message)) == discovered(
            s,
            OutcomeView::Failed(message),
            purpose,
        ),
{
}

/// Once the linter is there, the formatter is started if there is a command for it and it is missing.
pub proof fn the_formatter_follows_the_linter(
    s: ProxyView,
    order: SpawnOrderView,
    purpose: PurposeView,
    format: CommandView,
)
    requires
        s.has_room(),
        order.id == child_for(order.context.key, ChildKind::Lint),
        order.context.format_command == Some(format),
        !holds(s.sessions, child_for(order.context.key, ChildKind::Format)),
        purpose is Initialize,
    ensures
        spawned(s, order, purpose, Ok(())).1 matches NextView::Spawn(next, whatever) && whatever
            == purpose && next.id == child_for(order.context.key, ChildKind::Format) && next.command
            == format && next.context == order.context,
        lookup(spawned(s, order, purpose, Ok(())).0.sessions, order.id) == Some(
            fresh_session(order.context.root, order.generation),
        ),
{
    put_lookups(s.sessions, order.id, fresh_session(order.context.root, order.generation));
    assert(lint(order.context.key).ident() != formatter(order.context.key).ident());
}

/// The client's `initialize` goes to the linter of the project that was found, under the client's id and
/// with the root of the project, and that project is the default from then on.
pub proof fn the_clients_initialize_goes_to_the_linter(
    s: ProxyView,
    request: RequestView,
    project: SessionKeyView,
    root: PathView,
)
    requires
        lookup(s.sessions, child_for(project, ChildKind::Lint)) matches Some(session) && session.open
            && session.root == Some(root),
        request.params is Object,
        file_url_text(root.text) is Some,
    ensures
        ({
            let t = arrived(s, project, PurposeView::Initialize(request));
            &&& t.default_project == Some(project)
            &&& t.outbox.len() == s.outbox.len() + 1
            &&& t.outbox.last() matches ActionView::Child(to, MessageView::Request(sent))
            &&& to == child_for(project, ChildKind::Lint)
            &&& sent.id == request.id
            &&& sent.method == request.method
            &&& rooted_at(sent.params, request.params, root, directory_url(root)->0)
            &&& lookup(t.initialize_routes, request.id) matches Some(route)
            &&& route.session == child_for(project, ChildKind::Lint)
            &&& route.forward_to_client
        }),
{
    the_clients_initialize_reaches_the_child(
        s,
        request,
        lint(project),
        project,
        "default lint session disappeared during initialize"@,
    );
}

/// Where nothing is installed, the client's `initialize` is answered all the same: by a server of this
/// name that can do nothing.
pub proof fn the_server_is_silent_where_nothing_is_installed(s: ProxyView, request: RequestView)
    ensures
        ({
            let (t, next) = discovered(s, OutcomeView::Absent, PurposeView::Initialize(request));
            &&& next == NextView::Done
            &&& t.outbox.len() == s.outbox.len() + 1
            &&& t.outbox.last() matches ActionView::Client(MessageView::Response(answer))
            &&& answer.id == request.id
            &&& answer.error is None
            &&& answer.result matches Some(result)
            &&& json_get(result, "capabilities"@) == Some(JsonView::Object(Seq::empty()))
            &&& json_get(result, "serverInfo"@) matches Some(info)
            &&& json_get(info, "name"@) == Some(JsonView::Text("oxc-lsp"@))
            &&& json_get(info, "version"@) == Some(JsonView::Text("0.1.0"@))
        }),
{
    reveal_strlit("capabilities");
    reveal_strlit("serverInfo");
    reveal_strlit("name");
    reveal_strlit("version");
    assert("capabilities"@.len() == 12 && "serverInfo"@.len() == 10);
    assert("name"@.len() == 4 && "version"@.len() == 7);
    let result = silent_result()->Object_0;
    members_are_found_by_name(result, 0);
    members_are_found_by_name(result, 1);
    let info = result[1].1->Object_0;
    members_are_found_by_name(info, 0);
    members_are_found_by_name(info, 1);
}

/// An answer to a request of the client reaches the client, and is waited for no more.
pub proof fn answers_reach_the_client(s: ProxyView, answer: ResponseView)
    requires
        tidy(s),
        lookup(s.initialize_routes, answer.id) is None,
    ensures
        ({
            let (t, result) = child_response(s, answer);
            &&& result == Ok::<(), Seq<char>>(())
            &&& t.outbox == s.outbox.push(
                ActionView::Client(MessageView::Response(normal_response(answer))),
            )
            &&& !holds(t.client_request_routes, answer.id)
            &&& t.sessions == s.sessions
        }),
{
    without_lookups(s.client_request_routes, answer.id);
}

/// A child that has answered `initialize` gets the client's `initialized`, if that has come, and then all
/// that was kept for it. The client gets the answer just where it has asked.
pub proof fn initialized_children_get_what_was_kept(
    s: ProxyView,
    answer: ResponseView,
    id: SessionIdView,
    forward: bool,
)
    requires
        tidy(s),
        answer.error is None,
        lookup(s.initialize_routes, answer.id) matches Some(route) && route.session == id
            && route.forward_to_client == forward,
        lookup(s.sessions, id) matches Some(session) && session.open,
    ensures
        ({
            let session = lookup(s.sessions, id)->0;
            let (t, result) = child_response(s, answer);
            let first = match s.kept_initialized() {
                Some(notification) => seq![MessageView::Notification(notification)],
                None => Seq::empty(),
            };
            let n: int = if forward {
                1
            } else {
                0
            };
            &&& result == Ok::<(), Seq<char>>(())
            &&& t.outbox.len() == s.outbox.len() + n + first.len() + session.queued_messages.len()
            &&& t.outbox.skip(s.outbox.len() + n) == deliveries(
                id,
                first + session.queued_messages,
            )
            &&& forward ==> (t.outbox[s.outbox.len() as int] matches ActionView::Client(
                MessageView::Response(told),
            ) && told.id == answer.id && told.error is None)
            &&& lookup(t.sessions, id) == Some(
                SessionView { initialized: true, queued_messages: Seq::empty(), ..session },
            )
            &&& !holds(t.initialize_routes, answer.id)
        }),
{
    let session = SessionView { initialized: true, ..lookup(s.sessions, id)->0 };
    without_lookups(s.initialize_routes, answer.id);
    put_lookups(s.sessions, id, session);
    let emptied = SessionView { queued_messages: Seq::empty(), ..session };
    let (t, _) = child_response(s, answer);
    put_lookups(crate::table::put(s.sessions, id, session), id, emptied);
    let first = match s.kept_initialized() {
        Some(notification) => seq![MessageView::Notification(notification)],
        None => Seq::empty(),
    };
    let n: int = if forward {
        1
    } else {
        0
    };
    assert(t.outbox.skip(s.outbox.len() + n) =~= deliveries(id, first + session.queued_messages));
}

/// The answer of the linter to `initialize` reaches the client under the name of this server. Formatting is
/// offered where there is a formatter, whatever else the linter can do is offered as it is, and so is all
/// else that it says.
pub proof fn the_server_speaks_for_its_children(
    result: JsonView,
    has_formatter: bool,
    key: Seq<char>,
)
    requires
        result is Object,
        json_get(result, "capabilities"@) matches Some(capabilities) ==> capabilities is Object,
    ensures
        ({
            let told = client_result(result, has_formatter);
            let able = json_get(told, "capabilities"@)->0;
            let given = match json_get(result, "capabilities"@) {
                Some(capabilities) => capabilities,
                None => JsonView::Object(Seq::empty()),
            };
            let info = json_get(told, "serverInfo"@)->0;
            &&& json_get(told, "capabilities"@) is Some
            &&& json_get(info, "name"@) == Some(JsonView::Text("oxc-lsp"@))
            &&& json_get(info, "version"@) is Some
            &&& key != "capabilities"@ && key != "serverInfo"@ ==> json_get(told, key) == json_get(
                result,
                key,
            )
            &&& key != "documentFormattingProvider"@ ==> json_get(able, key) == json_get(given, key)
            &&& !has_formatter ==> able == given
            &&& has_formatter ==> json_get(able, "documentFormattingProvider"@) is Some
            &&& has_formatter && json_get(given, "documentFormattingProvider"@) is None ==> json_get(
                able,
                "documentFormattingProvider"@,
            ) == Some(JsonView::Bool(true))
        }),
{
    reveal_strlit("capabilities");
    reveal_strlit("serverInfo");
    reveal_strlit("name");
    reveal_strlit("version");
    assert("capabilities"@.len() == 12 && "serverInfo"@.len() == 10);
    assert("name"@.len() == 4 && "version"@.len() == 7);
    let empty = JsonView::Object(Seq::empty());
    let capable = json_put_new(result, "capabilities"@, empty);
    a_member_that_is_there_is_kept(result, "capabilities"@, empty);
    setting_a_member_sets_it_alone(result, "capabilities"@, empty);
    let given = json_get(capable, "capabilities"@)->0;
    let provider = "documentFormattingProvider"@;
    a_member_that_is_there_is_kept(given, provider, JsonView::Bool(true));
    setting_a_member_sets_it_alone(
        capable,
        "capabilities"@,
        json_put_new(given, provider, JsonView::Bool(true)),
    );
    let formatting = if has_formatter {
        json_put(
            capable,
            "capabilities"@,
            json_put_new(given, provider, JsonView::Bool(true)),
        )
    } else {
        capable
    };
    let info = crate::oxc::proxy::server_info(server_version(formatting));
    setting_a_member_sets_it_alone(formatting, "serverInfo"@, info);
    members_are_found_by_name(info->Object_0, 0);
    members_are_found_by_name(info->Object_0, 1);
}

/// The version of the linter is told as it is, where the linter tells one.
pub proof fn the_version_is_that_of_the_linter(result: JsonView, info: JsonView, version: JsonView)
    ensures
        json_get(result, "serverInfo"@) == Some(info) && json_get(info, "version"@) == Some(version)
            ==> server_version(result) == version,
        json_get(result, "serverInfo"@) is None ==> server_version(result) == JsonView::Text(
            "0.1.0"@,
        ),
        json_get(result, "serverInfo"@) == Some(info) && json_get(info, "version"@) is None
            ==> server_version(result) == JsonView::Text("0.1.0"@),
{
}

/// The client gets what the linter answers to its `initialize` in the server's name, and what the formatter
/// answers as it is. Whether formatting is offered goes by whether the project has a formatter.
pub proof fn the_clients_initialize_is_answered(
    s: ProxyView,
    answer: ResponseView,
    result: JsonView,
    id: SessionIdView,
)
    requires
        answer.error is None,
        answer.result == Some(result),
        lookup(s.initialize_routes, answer.id) matches Some(route) && route.session == id
            && route.forward_to_client,
        holds(s.sessions, id),
        id.kind == ChildKind::Lint,
    ensures
        ({
            let (t, _) = child_response(s, answer);
            t.outbox.len() > s.outbox.len() && t.outbox[s.outbox.len() as int] == ActionView::<
                SessionIdView,
            >::Client(
                MessageView::Response(
                    ResponseView {
                        id: answer.id,
                        result: Some(
                            client_result(
                                result,
                                holds(s.sessions, child_for(id.project, ChildKind::Format)),
                            ),
                        ),
                        error: None,
                    },
                ),
            )
        }),
{
}

/// What a child says to the client of its own accord reaches the client as it is.
pub proof fn notifications_of_children_reach_the_client(
    s: ProxyView,
    id: SessionIdView,
    generation: u64,
    notification: NotificationView,
)
    requires
        s.current(id, generation),
    ensures
        session_event(
            s,
            SessionEventView::Message(id, generation, MessageView::Notification(notification)),
        ) == (
            s.doing(ActionView::Client(MessageView::Notification(notification))),
            Ok::<(), Seq<char>>(()),
        ),
{
}

/// What a child asks of the client is asked in the server's name, and what it answers is taken for its
/// answer.
pub proof fn requests_and_answers_of_children_are_taken(
    s: ProxyView,
    id: SessionIdView,
    generation: u64,
    request: RequestView,
    answer: ResponseView,
)
    requires
        s.current(id, generation),
    ensures
        session_event(
            s,
            SessionEventView::Message(id, generation, MessageView::Request(request)),
        ) == (s.asked(id, request, "oxc-lsp/client/"@), Ok::<(), Seq<char>>(())),
        session_event(
            s,
            SessionEventView::Message(id, generation, MessageView::Response(answer)),
        ) == child_response(s, answer),
{
}

/// A child whose writer has closed is noted as reached no more.
pub proof fn closed_writers_are_taken(s: ProxyView, id: SessionIdView, generation: u64)
    requires
        s.current(id, generation),
    ensures
        lookup(
            session_event(s, SessionEventView::WriterClosed(id, generation)).0.sessions,
            id,
        ) == Some(SessionView { open: false, ..lookup(s.sessions, id)->0 }),
{
    put_lookups(s.sessions, id, SessionView { open: false, ..lookup(s.sessions, id)->0 });
}

/// Which tool has failed to initialize, and why, is told to the user and to the requests that wait.
pub proof fn failures_to_initialize_name_the_tool(id: SessionIdView, message: Seq<char>)
    ensures
        id.kind == ChildKind::Lint ==> initialize_failure(id, message)
            == "oxlint initialize failed: "@ + message,
        id.kind == ChildKind::Format ==> initialize_failure(id, message)
            == "oxfmt initialize failed: "@ + message,
{
}

/// Where the search for what serves a notification fails, the user is warned, and where nothing is installed,
/// the notification is passed over.
pub proof fn notifications_without_a_project_go_nowhere(
    s: ProxyView,
    notification: NotificationView,
    uri: Seq<char>,
    message: Seq<char>,
)
    ensures
        discovered(
            s,
            OutcomeView::Failed(message),
            PurposeView::Notification(notification, uri),
        ) == (
            s.warned("failed to resolve notification target: "@ + message),
            NextView::Done,
        ),
        discovered(s, OutcomeView::Absent, PurposeView::Notification(notification, uri)) == (
            s,
            NextView::Done,
        ),
{
}

/// Where the linter is gone before the client's `initialize` has reached it, the client is answered that it has
/// failed.
pub proof fn initialize_fails_without_a_linter(
    s: ProxyView,
    request: RequestView,
    project: SessionKeyView,
)
    requires
        !holds(s.sessions, child_for(project, ChildKind::Lint)),
    ensures
        ({
            let t = arrived(s, project, PurposeView::Initialize(request));
            &&& t.outbox.len() == s.outbox.len() + 2
            &&& t.outbox[s.outbox.len() as int] matches ActionView::Client(
                MessageView::Response(answer),
            )
            &&& answer.id == request.id
            &&& answer.result is None
            &&& answer.error matches Some(error)
            &&& error.code == -32803
            &&& error.message == "default lint session disappeared during initialize"@
        }),
{
}

/// An answer to `initialize` of a child that is gone is passed over.
pub proof fn answers_of_gone_children_go_nowhere(
    s: ProxyView,
    answer: ResponseView,
    id: SessionIdView,
)
    requires
        lookup(s.initialize_routes, answer.id) matches Some(route) && route.session == id,
        !holds(s.sessions, id),
    ensures
        child_response(s, answer).0.outbox == s.outbox,
        child_response(s, answer).0.sessions == s.sessions,
        child_response(s, answer).1 == Ok::<(), Seq<char>>(()),
{
}

/// Where the client's own `initialize` fails, the client gets the failure as the child gave it.
pub proof fn the_client_is_told_that_initialize_has_failed(
    s: ProxyView,
    answer: ResponseView,
    id: SessionIdView,
)
    requires
        tidy(s),
        answer.error is Some,
        answer.result is None,
        lookup(s.initialize_routes, answer.id) matches Some(route) && route.session == id
            && route.forward_to_client,
        holds(s.sessions, id),
    ensures
        ({
            let (t, result) = child_response(s, answer);
            &&& result == Ok::<(), Seq<char>>(())
            &&& grown(s, t)
            &&& t.outbox.len() > s.outbox.len()
            &&& t.outbox[s.outbox.len() as int] == ActionView::<SessionIdView>::Client(
                MessageView::Response(answer),
            )
            &&& !holds(t.sessions, id)
        }),
{
    let session = SessionView { initialized: false, ..lookup(s.sessions, id)->0 };
    without_lookups(s.initialize_routes, answer.id);
    put_lookups(s.sessions, id, session);
    let rest = HubView { initialize_routes: without(s.initialize_routes, answer.id), ..s };
    let told = rest.with_session(id, session).to_client(MessageView::Response(answer));
    let message = initialize_failure(id, answer.error->0.message);
    crate::oxc::routing::dropped_leaves_others(told, id, message);
    assert(told.outbox.take(s.outbox.len() as int) =~= s.outbox);
    let t = child_response(s, answer).0;
    sent_stays_sent(s, told, t, told.outbox.last());
    assert(t.outbox.take(told.outbox.len() as int)[s.outbox.len() as int]
        == t.outbox[s.outbox.len() as int]);
}

/// What the client answers reaches the child that has asked, under the id that the child had given.
pub proof fn the_clients_answers_reach_the_child(
    s: ProxyView,
    answer: ResponseView,
    id: SessionIdView,
    request: RequestIdView,
)
    requires
        lookup(s.child_request_routes, answer.id) matches Some(route) && route.session == id
            && route.request == request,
        lookup(s.sessions, id) matches Some(session) && session.open,
    ensures
        ({
            let (t, result) = client_message(s, MessageView::Response(answer));
            &&& result == Ok::<NextView, Seq<char>>(NextView::Done)
            &&& t.outbox == s.outbox.push(
                ActionView::Child(
                    id,
                    MessageView::Response(
                        ResponseView { id: request, result: answer.result, error: answer.error },
                    ),
                ),
            )
        }),
{
}

} // verus!
