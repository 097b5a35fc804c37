//! What holds of the hub whatever happens.

use vstd::prelude::*;
use crate::hub::{
    asked_elsewhere, deliveries, document_elsewhere, failures, initializes_elsewhere,
    initializes_for_client, is_initialized, waits_elsewhere, waits_for, ActionView, ChildRouteView,
    HubView, InitializeRouteView, SessionView,
};
use crate::json::{json_get, JsonView};
use crate::lsp::{
    err_response, MessageView, NotificationView, RequestIdView, RequestView, ResponseView,
    REQUEST_FAILED,
};
use crate::lsp_laws::warnings_are_log_messages;
use crate::params_laws::{
    a_child_is_given_its_own_root, other_parameters_are_passed_on, rooted_at,
};
use crate::path::PathView;
use crate::project::SessionKeyView;
use crate::table::{
    filter_lookups, find, find_is_first, holds, is_found, keys_differ, lookup, put, put_lookups,
    without_lookups, Ident,
};
use crate::text::{decimal, decimal_is_unique, decimal_reads_back, digits_value};
use crate::url_text::{directory_url, file_url_text};

verus! {

/// Whether nothing stands twice.
pub open spec fn tidy<I: Ident>(s: HubView<I>) -> bool {
    &&& keys_differ(s.sessions)
    &&& keys_differ(s.documents)
    &&& keys_differ(s.client_request_routes)
    &&& keys_differ(s.child_request_routes)
    &&& keys_differ(s.initialize_routes)
}

/// Whether each request of the client that is not answered waits for a child that is there.
pub open spec fn awaits_children<I: Ident>(s: HubView<I>) -> bool {
    forall|r: RequestIdView|
        (#[trigger] lookup(s.client_request_routes, r)) matches Some(id) ==> holds(s.sessions, id)
}

/// Whether the client is told that a request has failed.
pub open spec fn told_failure<I: Ident>(
    s: HubView<I>,
    request: RequestIdView,
    message: Seq<char>,
) -> bool {
    s.outbox.contains(
        ActionView::Client(MessageView::Response(err_response(request, REQUEST_FAILED, message))),
    )
}

proof fn found_among_keys<V>(
    entries: Seq<(RequestIdView, V)>,
    mine: spec_fn((RequestIdView, V)) -> bool,
    request: RequestIdView,
)
    requires
        lookup(entries, request) is Some,
        mine((request, lookup(entries, request)->0)),
    ensures
        entries.filter(mine).map_values(|e: (RequestIdView, V)| e.0).contains(request),
{
    find_is_first(entries, request);
    let i = find(entries, request)->0;
    let e = entries[i];
    assert(entries.contains(e));
    broadcast use vstd::seq_lib::group_filter_ensures;

    let kept = entries.filter(mine);
    assert(mine(entries[i]));
    assert(kept.contains(e));
    let j = choose|j: int| 0 <= j < kept.len() && kept[j] == e;
    assert(kept.map_values(|e: (RequestIdView, V)| e.0)[j] == request);
}

proof fn failure_among<I: Ident>(ids: Seq<RequestIdView>, message: Seq<char>, request: RequestIdView)
    requires
        ids.contains(request),
    ensures
        failures::<I>(ids, message).contains(
            ActionView::Client(
                MessageView::Response(err_response(request, REQUEST_FAILED, message)),
            ),
        ),
{
    let i = choose|i: int| 0 <= i < ids.len() && ids[i] == request;
    assert(failures::<I>(ids, message)[i] == ActionView::<I>::Client(
        MessageView::Response(err_response(request, REQUEST_FAILED, message)),
    ));
}

proof fn contained_in_sum<A>(a: Seq<A>, b: Seq<A>, x: A)
    requires
        a.contains(x) || b.contains(x),
    ensures
        (a + b).contains(x),
{
    if a.contains(x) {
        let i = choose|i: int| 0 <= i < a.len() && a[i] == x;
        assert((a + b)[i] == x);
    } else {
        let i = choose|i: int| 0 <= i < b.len() && b[i] == x;
        assert((a + b)[a.len() + i] == x);
    }
}

/// When a child is dropped, each request of the client that waits for it is answered that it has
/// failed, the client's own `initialize` included.
pub proof fn dropping_answers_every_request<I: Ident>(
    s: HubView<I>,
    id: I,
    owner: Option<SessionKeyView>,
    message: Seq<char>,
    terminate: bool,
    shown: Seq<char>,
    request: RequestIdView,
)
    requires
        is_found(lookup(s.client_request_routes, request), id) || (lookup(
            s.initialize_routes,
            request,
        ) matches Some(route) && route.session.ident() == id.ident() && route.forward_to_client),
    ensures
        told_failure(s.dropped(id, owner, message, terminate, shown), request, message),
{
    let answer = ActionView::<I>::Client(
        MessageView::Response(err_response(request, REQUEST_FAILED, message)),
    );
    let waiting = failures::<I>(s.waiting_for(id), message);
    let initializing = failures::<I>(s.initializing(id), message);
    if is_found(lookup(s.client_request_routes, request), id) {
        found_among_keys(s.client_request_routes, waits_for(id), request);
        failure_among::<I>(s.waiting_for(id), message, request);
        contained_in_sum(s.outbox, waiting, answer);
    } else {
        found_among_keys(s.initialize_routes, initializes_for_client(id), request);
        failure_among::<I>(s.initializing(id), message, request);
    }
    contained_in_sum(s.outbox + waiting, initializing, answer);
    let after = s.dropped(id, owner, message, terminate, shown).outbox;
    let told = s.outbox + waiting + initializing;
    let i = choose|i: int| 0 <= i < told.len() && told[i] == answer;
    assert(after[i] == answer);
}

/// When a child is dropped, nothing waits for it any more, and nothing else changes.
pub proof fn dropping_leaves_nothing_behind<I: Ident>(
    s: HubView<I>,
    id: I,
    owner: Option<SessionKeyView>,
    message: Seq<char>,
    terminate: bool,
    shown: Seq<char>,
)
    requires
        tidy(s),
    ensures
        ({
            let t = s.dropped(id, owner, message, terminate, shown);
            &&& tidy(t)
            &&& !holds(t.sessions, id)
            &&& forall|other: I|
                #![trigger lookup(t.sessions, other)]
                other.ident() != id.ident() ==> lookup(t.sessions, other) == lookup(
                    s.sessions,
                    other,
                )
            &&& forall|r: RequestIdView|
                #[trigger] lookup(t.client_request_routes, r) == (if is_found(
                    lookup(s.client_request_routes, r),
                    id,
                ) {
                    None
                } else {
                    lookup(s.client_request_routes, r)
                })
            &&& forall|r: RequestIdView|
                (#[trigger] lookup(t.initialize_routes, r)) matches Some(route)
                    ==> route.session.ident() != id.ident() && lookup(s.initialize_routes, r) == Some(
                    route,
                )
            &&& forall|r: RequestIdView|
                (#[trigger] lookup(t.child_request_routes, r)) matches Some(route)
                    ==> route.session.ident() != id.ident() && lookup(s.child_request_routes, r)
                    == Some(route)
            &&& forall|uri: Seq<char>|
                #[trigger] lookup(t.documents, uri) == (if owner is Some && is_found(
                    lookup(s.documents, uri),
                    owner->0,
                ) {
                    None
                } else {
                    lookup(s.documents, uri)
                })
            &&& owner is Some ==> !is_found(t.default_project, owner->0)
        }),
{
    without_lookups(s.sessions, id);
    filter_lookups(s.client_request_routes, waits_elsewhere(id));
    filter_lookups(s.child_request_routes, asked_elsewhere(id));
    filter_lookups(s.initialize_routes, initializes_elsewhere(id));
    if let Some(key) = owner {
        filter_lookups(s.documents, document_elsewhere(key));
    }
}

/// The answer to a request of a child goes to that child, under the id that the child had given.
pub proof fn answers_find_their_way<I: Ident>(
    s: HubView<I>,
    id: I,
    request: RequestView,
    prefix: Seq<char>,
    answer: ResponseView,
)
    requires
        tidy(s),
        lookup(s.sessions, id) matches Some(session) && session.open,
        answer.id == s.next_id(prefix),
    ensures
        ({
            let asked = s.asked(id, request, prefix);
            let (t, result) = asked.answered(answer);
            &&& result == Ok::<(), Seq<char>>(())
            &&& t.outbox == asked.outbox.push(
                ActionView::Child(
                    id,
                    MessageView::Response(ResponseView { id: request.id, ..answer }),
                ),
            )
            &&& !holds(t.child_request_routes, answer.id)
        }),
{
    let route = ChildRouteView { session: id, request: request.id };
    put_lookups(s.child_request_routes, answer.id, route);
    without_lookups(put(s.child_request_routes, answer.id, route), answer.id);
}

/// No two requests that the hub makes have the same id.
pub proof fn ids_never_repeat<I: Ident>(s: HubView<I>, t: HubView<I>, prefix: Seq<char>)
    requires
        s.internal_request_counter != t.internal_request_counter,
    ensures
        s.next_id(prefix) != t.next_id(prefix),
{
    let a = (s.internal_request_counter + 1) as nat;
    let b = (t.internal_request_counter + 1) as nat;
    if s.next_id(prefix) == t.next_id(prefix) {
        let left = prefix + decimal(a);
        let right = prefix + decimal(b);
        assert(left.skip(prefix.len() as int) =~= decimal(a));
        assert(right.skip(prefix.len() as int) =~= decimal(b));
        decimal_is_unique(a, b);
    }
}

/// The messages sent to a child one after the other.
pub open spec fn all_dispatched<I: Ident>(
    s: HubView<I>,
    id: I,
    messages: Seq<MessageView>,
    hold_initialized: bool,
) -> HubView<I>
    decreases messages.len(),
{
    if messages.len() == 0 {
        s
    } else {
        all_dispatched(
            s,
            id,
            messages.drop_last(),
            hold_initialized,
        ).dispatched(id, messages.last(), hold_initialized).0
    }
}

/// The messages for a child that has not answered `initialize` are kept, in their order, and nothing
/// is sent.
pub proof fn messages_are_kept_in_order<I: Ident>(
    s: HubView<I>,
    id: I,
    messages: Seq<MessageView>,
    hold_initialized: bool,
)
    requires
        lookup(s.sessions, id) matches Some(session) && !session.initialized,
        hold_initialized ==> forall|i: int|
            0 <= i < messages.len() ==> !is_initialized(#[trigger] messages[i]),
    ensures
        ({
            let session = lookup(s.sessions, id)->0;
            let t = all_dispatched(s, id, messages, hold_initialized);
            &&& lookup(t.sessions, id) == Some(
                SessionView {
                    queued_messages: session.queued_messages + messages,
                    ..session
                },
            )
            &&& t.outbox == s.outbox
            &&& t.client_initialize == s.client_initialize
        }),
    decreases messages.len(),
{
    let session = lookup(s.sessions, id)->0;
    if messages.len() == 0 {
        assert(session.queued_messages + messages =~= session.queued_messages);
    } else {
        let rest = messages.drop_last();
        messages_are_kept_in_order(s, id, rest, hold_initialized);
        let t = all_dispatched(s, id, rest, hold_initialized);
        let kept = SessionView {
            queued_messages: session.queued_messages + rest,
            ..session
        };
        let grown = SessionView {
            queued_messages: kept.queued_messages.push(messages.last()),
            ..kept
        };
        put_lookups(t.sessions, id, grown);
        assert(session.queued_messages + messages =~= kept.queued_messages.push(messages.last()));
        assert(!(hold_initialized && is_initialized(messages[messages.len() - 1])));
    }
}

/// Once a child has answered `initialize`, it gets the client's `initialized` and then each message
/// that was sent to it before, in order, and nothing is left to be sent.
pub proof fn kept_messages_are_delivered<I: Ident>(
    s: HubView<I>,
    id: I,
    messages: Seq<MessageView>,
    hold_initialized: bool,
    notification: NotificationView,
)
    requires
        lookup(s.sessions, id) matches Some(session) && !session.initialized && session.open
            && session.queued_messages.len() == 0,
        s.kept_initialized() == Some(notification),
        hold_initialized ==> forall|i: int|
            0 <= i < messages.len() ==> !is_initialized(#[trigger] messages[i]),
    ensures
        ({
            let t = all_dispatched(s, id, messages, hold_initialized);
            let session = lookup(t.sessions, id)->0;
            let (u, result) = t.released(id, SessionView { initialized: true, ..session });
            &&& result == Ok::<(), Seq<char>>(())
            &&& u.outbox == s.outbox + deliveries(
                id,
                seq![MessageView::Notification(notification)] + messages,
            )
            &&& lookup(u.sessions, id) == Some(
                SessionView { initialized: true, queued_messages: Seq::empty(), ..session },
            )
        }),
{
    messages_are_kept_in_order(s, id, messages, hold_initialized);
    let t = all_dispatched(s, id, messages, hold_initialized);
    let session = lookup(t.sessions, id)->0;
    assert(session.queued_messages =~= messages);
    put_lookups(
        t.sessions,
        id,
        SessionView { initialized: true, queued_messages: Seq::empty(), ..session },
    );
}

/// A child that has not answered `initialize` is not sent the client's `initialized` ahead of time,
/// and so gets it once.
pub proof fn initialized_comes_once<I: Ident>(s: HubView<I>, id: I, notification: NotificationView)
    requires
        lookup(s.sessions, id) matches Some(session) && !session.initialized && session.open,
        s.client_initialize is Some,
        notification.method == "initialized"@,
    ensures
        ({
            let kept = s.with_initialized(notification);
            let (t, _) = kept.dispatched(id, MessageView::Notification(notification), true);
            let session = lookup(t.sessions, id)->0;
            let (u, _) = t.released(id, SessionView { initialized: true, ..session });
            u.outbox == s.outbox + deliveries(
                id,
                seq![MessageView::Notification(notification)] + lookup(
                    s.sessions,
                    id,
                )->0.queued_messages,
            )
        }),
{
}

/// A child that is started once the client has said what it is, is asked to initialize, under an id of
/// its own, with its own root in place of the client's. It is there from then on, but has not answered
/// yet.
pub proof fn a_later_child_is_initialized_with_its_own_root<I: Ident>(
    s: HubView<I>,
    id: I,
    root: PathView,
    generation: u64,
    prefix: Seq<char>,
)
    requires
        s.client_initialize matches Some(state) && state.params is Object,
        file_url_text(root.text) is Some,
        s.has_room(),
    ensures
        ({
            let given = s.client_initialize->0.params;
            let (t, result) = s.installed(id, Some(root), generation, true, prefix);
            &&& result == Ok::<(), Seq<char>>(())
            &&& t.outbox.len() == s.outbox.len() + 1
            &&& t.outbox.drop_last() == s.outbox
            &&& t.outbox.last() matches ActionView::Child(to, MessageView::Request(request))
            &&& to == id
            &&& request.method == "initialize"@
            &&& rooted_at(request.params, given, root, directory_url(root)->0)
            &&& request.id == s.next_id(prefix)
            &&& lookup(t.initialize_routes, request.id) == Some(
                InitializeRouteView { session: id, forward_to_client: false },
            )
            &&& lookup(t.sessions, id) == Some(fresh_session(Some(root), generation))
            &&& t.internal_request_counter == s.internal_request_counter + 1
            &&& t.client_request_routes == s.client_request_routes
            &&& t.child_request_routes == s.child_request_routes
            &&& t.documents == s.documents
            &&& t.default_project == s.default_project
            &&& t.client_initialize == s.client_initialize
        }),
{
    let given = s.client_initialize->0.params;
    a_child_is_given_its_own_root(given, root);
    let (t, _) = s.installed(id, Some(root), generation, true, prefix);
    assert(t.outbox.drop_last() =~= s.outbox);
    put_lookups(
        s.initialize_routes,
        s.next_id(prefix),
        InitializeRouteView { session: id, forward_to_client: false },
    );
    put_lookups(s.sessions, id, fresh_session(Some(root), generation));
}

/// A child that has just been started: it has not answered `initialize`, nothing is kept for it, and
/// it is reached.
pub open spec fn fresh_session(root: Option<PathView>, generation: u64) -> SessionView {
    SessionView {
        root,
        generation,
        initialized: false,
        queued_messages: Seq::empty(),
        open: true,
    }
}

/// A child without a root of its own is asked to initialize with what the client has said.
pub proof fn a_rootless_child_is_initialized_like_the_client<I: Ident>(
    s: HubView<I>,
    id: I,
    generation: u64,
    prefix: Seq<char>,
)
    requires
        s.client_initialize is Some,
        s.has_room(),
    ensures
        ({
            let (t, result) = s.installed(id, None, generation, true, prefix);
            &&& result == Ok::<(), Seq<char>>(())
            &&& t.outbox == s.outbox.push(
                ActionView::Child(
                    id,
                    MessageView::Request(
                        RequestView {
                            id: s.next_id(prefix),
                            method: "initialize"@,
                            params: s.client_initialize->0.params,
                        },
                    ),
                ),
            )
            &&& lookup(t.sessions, id) == Some(fresh_session(None, generation))
        }),
{
    put_lookups(s.sessions, id, fresh_session(None, generation));
}

/// A child for which the client's own `initialize` is meant is not asked by the hub: it is there, and
/// nothing is sent.
pub proof fn the_first_child_waits_for_the_client<I: Ident>(
    s: HubView<I>,
    id: I,
    root: Option<PathView>,
    generation: u64,
    send_initialize: bool,
    prefix: Seq<char>,
)
    requires
        !send_initialize || s.client_initialize is None,
    ensures
        ({
            let (t, result) = s.installed(id, root, generation, send_initialize, prefix);
            &&& result == Ok::<(), Seq<char>>(())
            &&& t == (HubView { sessions: t.sessions, ..s })
            &&& lookup(t.sessions, id) == Some(fresh_session(root, generation))
            &&& forall|other: I|
                #![trigger lookup(t.sessions, other)]
                other.ident() != id.ident() ==> lookup(t.sessions, other) == lookup(
                    s.sessions,
                    other,
                )
        }),
{
    put_lookups(s.sessions, id, fresh_session(root, generation));
}

/// The client's `initialize` goes to the child that is there, under the client's id, with the child's
/// root in place of the client's. The child's project is the default from then on, and the answer is
/// for the client.
pub proof fn the_clients_initialize_reaches_the_child<I: Ident>(
    s: HubView<I>,
    request: RequestView,
    id: I,
    key: SessionKeyView,
    gone: Seq<char>,
)
    requires
        lookup(s.sessions, id) matches Some(session) && session.open,
        lookup(s.sessions, id)->0.root matches Some(root) ==> request.params is Object
            && file_url_text(root.text) is Some,
    ensures
        ({
            let session = lookup(s.sessions, id)->0;
            let (t, result) = s.initialize_sent(request, id, key, gone);
            &&& result == Ok::<(), Seq<char>>(())
            &&& t.default_project == Some(key)
            &&& t.sessions == s.sessions
            &&& lookup(t.initialize_routes, request.id) == Some(
                InitializeRouteView { session: id, forward_to_client: true },
            )
            &&& t.outbox.len() == s.outbox.len() + 1
            &&& t.outbox.drop_last() == s.outbox
            &&& t.outbox.last() matches ActionView::Child(to, MessageView::Request(sent))
            &&& to == id
            &&& sent.id == request.id
            &&& sent.method == request.method
            &&& session.root is None ==> sent.params == request.params
            &&& session.root matches Some(root) ==> rooted_at(
                sent.params,
                request.params,
                root,
                directory_url(root)->0,
            )
        }),
{
    let session = lookup(s.sessions, id)->0;
    if let Some(root) = session.root {
        a_child_is_given_its_own_root(request.params, root);
    }
    put_lookups(
        s.initialize_routes,
        request.id,
        InitializeRouteView { session: id, forward_to_client: true },
    );
    let (t, _) = s.initialize_sent(request, id, key, gone);
    assert(t.outbox.drop_last() =~= s.outbox);
}

/// What is sent to a child that has answered `initialize` and is reached goes out at once, and nothing
/// else changes. To one that has answered but is not reached it cannot be sent, and nothing changes.
pub proof fn messages_go_out_at_once<I: Ident>(
    s: HubView<I>,
    id: I,
    message: MessageView,
    hold_initialized: bool,
)
    requires
        lookup(s.sessions, id) matches Some(session) && session.initialized,
    ensures
        ({
            let session = lookup(s.sessions, id)->0;
            let (t, result) = s.dispatched(id, message, hold_initialized);
            &&& session.open ==> result == Ok::<(), Seq<char>>(()) && t == (HubView {
                outbox: s.outbox.push(ActionView::Child(id, message)),
                ..s
            })
            &&& !session.open ==> result is Err && t == s
        }),
{
}

/// What is sent to a child that has not answered `initialize` is kept behind what is kept already, and
/// nothing is sent. Only the client's `initialized` is not kept where it is held back.
pub proof fn messages_are_kept_until_initialized<I: Ident>(
    s: HubView<I>,
    id: I,
    message: MessageView,
    hold_initialized: bool,
)
    requires
        lookup(s.sessions, id) matches Some(session) && !session.initialized,
    ensures
        ({
            let session = lookup(s.sessions, id)->0;
            let held = hold_initialized && message is Notification && message->Notification_0.method
                == "initialized"@;
            let (t, result) = s.dispatched(id, message, hold_initialized);
            &&& result == Ok::<(), Seq<char>>(())
            &&& t.outbox == s.outbox
            &&& held ==> t == s
            &&& !held ==> lookup(t.sessions, id) == Some(
                SessionView { queued_messages: session.queued_messages.push(message), ..session },
            )
        }),
{
    let session = lookup(s.sessions, id)->0;
    put_lookups(
        s.sessions,
        id,
        SessionView { queued_messages: session.queued_messages.push(message), ..session },
    );
}

/// Nothing is sent to a child that is not there.
pub proof fn nothing_is_sent_to_a_missing_child<I: Ident>(
    s: HubView<I>,
    id: I,
    message: MessageView,
    hold_initialized: bool,
)
    requires
        !holds(s.sessions, id),
    ensures
        s.dispatched(id, message, hold_initialized).0 == s,
        s.dispatched(id, message, hold_initialized).1 is Err,
{
}

/// A request of a child reaches the client as it is, but under an id that no request of the hub has
/// had.
pub proof fn requests_of_children_reach_the_client<I: Ident>(
    s: HubView<I>,
    id: I,
    request: RequestView,
    prefix: Seq<char>,
)
    requires
        s.has_room(),
    ensures
        ({
            let t = s.asked(id, request, prefix);
            &&& t.outbox.len() == s.outbox.len() + 1
            &&& t.outbox.drop_last() == s.outbox
            &&& t.outbox.last() matches ActionView::Client(MessageView::Request(passed_on))
            &&& passed_on.method == request.method
            &&& passed_on.params == request.params
            &&& passed_on.id == s.next_id(prefix)
            &&& lookup(t.child_request_routes, passed_on.id) == Some(
                ChildRouteView { session: id, request: request.id },
            )
            &&& t.internal_request_counter == s.internal_request_counter + 1
            &&& t.sessions == s.sessions
        }),
{
    let t = s.asked(id, request, prefix);
    assert(t.outbox.drop_last() =~= s.outbox);
    put_lookups(
        s.child_request_routes,
        s.next_id(prefix),
        ChildRouteView { session: id, request: request.id },
    );
}

/// The ids that the hub gives begin with the prefix, and a number follows.
pub proof fn ids_are_numbered<I: Ident>(s: HubView<I>, prefix: Seq<char>)
    requires
        s.has_room(),
    ensures
        s.next_id(prefix) matches RequestIdView::Text(text) && text.len() > prefix.len()
            && text.take(prefix.len() as int) == prefix && digits_value(
            text.skip(prefix.len() as int),
        ) == s.internal_request_counter + 1,
{
    let number = decimal((s.internal_request_counter + 1) as nat);
    decimal_reads_back((s.internal_request_counter + 1) as nat);
    let text = prefix + number;
    assert(text.take(prefix.len() as int) =~= prefix);
    assert(text.skip(prefix.len() as int) =~= number);
    assert(number.len() > 0);
}

/// An answer of the client to something that no child has asked, or whose child is gone, goes nowhere.
pub proof fn stray_answers_go_nowhere<I: Ident>(s: HubView<I>, response: ResponseView)
    requires
        match lookup(s.child_request_routes, response.id) {
            None => true,
            Some(route) => !holds(s.sessions, route.session),
        },
    ensures
        s.answered(response).1 == Ok::<(), Seq<char>>(()),
        s.answered(response).0.outbox == s.outbox,
        s.answered(response).0.sessions == s.sessions,
{
}

/// A child is told from another that was started for the same project by its number.
pub proof fn children_are_told_apart_by_number<I: Ident>(s: HubView<I>, id: I, generation: u64)
    ensures
        s.current(id, generation) <==> (lookup(s.sessions, id) matches Some(session)
            && session.generation == generation),
{
}

/// A child whose writer has closed is reached no more, unless another has taken its place. All else
/// about it, and all other children, stay as they were.
pub proof fn closed_writers_are_noted<I: Ident>(s: HubView<I>, id: I, generation: u64)
    ensures
        ({
            let t = s.closed(id, generation);
            &&& s.current(id, generation) ==> lookup(t.sessions, id) == Some(
                SessionView { open: false, ..lookup(s.sessions, id)->0 },
            )
            &&& !s.current(id, generation) ==> t == s
            &&& t.outbox == s.outbox
            &&& forall|other: I|
                #![trigger lookup(t.sessions, other)]
                other.ident() != id.ident() ==> lookup(t.sessions, other) == lookup(
                    s.sessions,
                    other,
                )
        }),
{
    if let Some(session) = lookup(s.sessions, id) {
        put_lookups(s.sessions, id, SessionView { open: false, ..session });
    }
}

/// The client's `initialized` is kept once the client has sent `initialize`, and what it has said of
/// itself stays.
pub proof fn initialized_is_kept<I: Ident>(s: HubView<I>, notification: NotificationView)
    ensures
        s.client_initialize is Some ==> s.with_initialized(notification).kept_initialized() == Some(
            notification,
        ) && s.with_initialized(notification).client_initialize->0.params
            == s.client_initialize->0.params,
        s.client_initialize is None ==> s.with_initialized(notification).kept_initialized() is None,
        s.with_initialized(notification).outbox == s.outbox,
        s.with_initialized(notification).sessions == s.sessions,
{
}

/// When a child is dropped, it is ended or let go of if it was there, the user is warned, and nothing
/// but the answers is said besides.
pub proof fn dropping_tells_the_user<I: Ident>(
    s: HubView<I>,
    id: I,
    owner: Option<SessionKeyView>,
    message: Seq<char>,
    terminate: bool,
    shown: Seq<char>,
)
    ensures
        ({
            let t = s.dropped(id, owner, message, terminate, shown);
            let said = message + ": "@ + shown;
            &&& t.outbox.last() matches ActionView::Client(MessageView::Notification(told))
            &&& told.method == "window/logMessage"@
            &&& json_get(told.params, "message"@) == Some(JsonView::Text(said))
            &&& json_get(told.params, "type"@) matches Some(JsonView::Number(kind))
            &&& kind.integer == Some(2i64)
            &&& holds(s.sessions, id) && terminate ==> t.outbox[t.outbox.len() - 2]
                == ActionView::<I>::Terminate(id)
            &&& holds(s.sessions, id) && !terminate ==> t.outbox[t.outbox.len() - 2]
                == ActionView::<I>::Discard(id)
            &&& s.outbox.len() < t.outbox.len()
            &&& t.outbox.take(s.outbox.len() as int) == s.outbox
            &&& owner is None ==> t.documents == s.documents && t.default_project
                == s.default_project
            &&& t.client_initialize == s.client_initialize
        }),
{
    let t = s.dropped(id, owner, message, terminate, shown);
    assert(t.outbox.take(s.outbox.len() as int) =~= s.outbox);
    warnings_are_log_messages(message + ": "@ + shown);
}

/// What has been put into the outbox since an earlier state.
pub open spec fn since<I>(s: HubView<I>, t: HubView<I>) -> Seq<ActionView<I>> {
    t.outbox.skip(s.outbox.len() as int)
}

/// Whether nothing has been taken out of the outbox since an earlier state.
pub open spec fn grown<I>(s: HubView<I>, t: HubView<I>) -> bool {
    s.outbox.len() <= t.outbox.len() && t.outbox.take(s.outbox.len() as int) == s.outbox
}

/// Whether a message for a child is on its way: it has been sent where the child has answered
/// `initialize`, and else it is the last of what is kept for the child. A child that is not reached is
/// gone.
pub open spec fn delivered<I: Ident>(
    s: HubView<I>,
    t: HubView<I>,
    id: I,
    message: MessageView,
) -> bool {
    match lookup(s.sessions, id) {
        None => true,
        Some(session) => if !session.initialized {
            lookup(t.sessions, id) == Some(
                SessionView { queued_messages: session.queued_messages.push(message), ..session },
            )
        } else if session.open {
            since(s, t).contains(ActionView::Child(id, message)) && lookup(t.sessions, id) == Some(
                session,
            )
        } else {
            !holds(t.sessions, id)
        },
    }
}

/// Whether only the one child may differ.
pub open spec fn others_stay<I: Ident>(s: HubView<I>, t: HubView<I>, id: I) -> bool {
    forall|other: I|
        #![trigger lookup(t.sessions, other)]
        other.ident() != id.ident() ==> lookup(t.sessions, other) == lookup(s.sessions, other)
}

/// What has been put into the outbox stays there.
pub proof fn sent_stays_sent<I: Ident>(
    s: HubView<I>,
    t: HubView<I>,
    u: HubView<I>,
    action: ActionView<I>,
)
    requires
        grown(s, t),
        grown(t, u),
    ensures
        grown(s, u),
        since(s, t).contains(action) ==> since(s, u).contains(action),
        since(t, u).contains(action) ==> since(s, u).contains(action),
{
    let n = s.outbox.len() as int;
    assert(u.outbox.take(n) =~= t.outbox.take(n)) by {
        assert(u.outbox.take(t.outbox.len() as int).take(n) =~= u.outbox.take(n));
    }
    if since(s, t).contains(action) {
        let i = choose|i: int| 0 <= i < since(s, t).len() && since(s, t)[i] == action;
        assert(u.outbox.take(t.outbox.len() as int)[n + i] == action);
        assert(since(s, u)[i] == action);
    }
    if since(t, u).contains(action) {
        let i = choose|i: int| 0 <= i < since(t, u).len() && since(t, u)[i] == action;
        assert(since(s, u)[t.outbox.len() - n + i] == action);
    }
}

/// A child that cannot be asked to initialize, for want of a URL for its root, is let go of, and is not there.
pub proof fn children_that_cannot_be_asked_are_let_go<I: Ident>(
    s: HubView<I>,
    id: I,
    root: PathView,
    generation: u64,
    prefix: Seq<char>,
)
    requires
        s.client_initialize matches Some(state) && state.params is Object,
        file_url_text(root.text) is None,
    ensures
        ({
            let (t, result) = s.installed(id, Some(root), generation, true, prefix);
            &&& result is Err
            &&& t.sessions == s.sessions
            &&& t.outbox == s.outbox.push(ActionView::Discard(id))
        }),
{
    other_parameters_are_passed_on(s.client_initialize->0.params, root);
}

/// What is kept for a child that is reached no more cannot be sent, which is a failure just where there is
/// something to send.
pub proof fn what_is_kept_is_lost_with_the_child<I: Ident>(
    s: HubView<I>,
    id: I,
    session: SessionView,
)
    requires
        !session.open,
    ensures
        s.released(id, session).0.outbox == s.outbox,
        s.released(id, session).1 is Err <==> s.kept_initialized() is Some
            || session.queued_messages.len() > 0,
{
}

/// When a child is dropped, only those requests are answered that wait for it, the client's own `initialize`
/// among them only where the client has made it.
pub proof fn only_waiting_requests_are_answered<I: Ident>(
    s: HubView<I>,
    id: I,
    owner: Option<SessionKeyView>,
    message: Seq<char>,
    terminate: bool,
    shown: Seq<char>,
    i: int,
)
    requires
        s.outbox.len() <= i < s.dropped(id, owner, message, terminate, shown).outbox.len(),
    ensures
        s.dropped(id, owner, message, terminate, shown).outbox[i] matches ActionView::Client(
            MessageView::Response(answer),
        ) ==> {
            ||| exists|k: int|
                0 <= k < s.client_request_routes.len() && (#[trigger] s.client_request_routes[k]).0
                    == answer.id && s.client_request_routes[k].1.ident() == id.ident()
            ||| exists|k: int|
                0 <= k < s.initialize_routes.len() && (#[trigger] s.initialize_routes[k]).0
                    == answer.id && s.initialize_routes[k].1.session.ident() == id.ident()
                    && s.initialize_routes[k].1.forward_to_client
        },
{
    broadcast use vstd::seq_lib::group_filter_ensures;

    let t = s.dropped(id, owner, message, terminate, shown);
    let waiting = s.waiting_for(id);
    let initializing = s.initializing(id);
    let n = s.outbox.len() as int;
    if i < n + waiting.len() {
        let kept = s.client_request_routes.filter(waits_for(id));
        let e = kept[i - n];
        assert(waits_for(id)(e));
        s.client_request_routes.lemma_filter_contains_rev(waits_for(id), e);
        let k = choose|k: int|
            0 <= k < s.client_request_routes.len() && s.client_request_routes[k] == e;
        assert(t.outbox[i] == failures::<I>(waiting, message)[i - n]);
        assert(waiting[i - n] == e.0);
        assert(s.client_request_routes[k].0 == e.0);
    } else if i < n + waiting.len() + initializing.len() {
        let j = i - n - waiting.len();
        let kept = s.initialize_routes.filter(initializes_for_client(id));
        let e = kept[j];
        assert(initializes_for_client(id)(e));
        s.initialize_routes.lemma_filter_contains_rev(initializes_for_client(id), e);
        let k = choose|k: int| 0 <= k < s.initialize_routes.len() && s.initialize_routes[k] == e;
        assert(t.outbox[i] == failures::<I>(initializing, message)[j]);
        assert(initializing[j] == e.0);
        assert(s.initialize_routes[k].0 == e.0);
    } else {
        assert(!(t.outbox[i] matches ActionView::Client(MessageView::Response(_))));
    }
}

} // verus!
