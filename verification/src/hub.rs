//! A hub between one client and several children: who waits for an answer from whom.
//!
//! The hub sends nothing itself. What is to be sent stands in its outbox, in order.

use vstd::prelude::*;
use crate::json::{Json, JsonView};
use crate::lsp::{
    err_response, new_warning, warning, Message, MessageView, Notification, NotificationView,
    Request, RequestId, RequestIdView, RequestView, Response, ResponseView, REQUEST_FAILED,
};
use crate::params::{rewrite_initialize_params, rewritten_params};
use crate::path::{FsPath, PathView};
use crate::project::{SessionKey, SessionKeyView};
use crate::table::{holds, lookup, put, without, Ident, Key, Owned, Table};
use crate::text::{concat2, decimal, decimal_text, same_text};
use crate::views::{each, opt};

verus! {

/// A child that has been started.
#[derive(Debug)]
pub struct Session {
    pub root: Option<FsPath>,
    /// Which of the children that were started this is.
    pub generation: u64,
    /// Whether the child has answered `initialize`.
    pub initialized: bool,
    /// What is sent once the child has answered `initialize`.
    pub queued_messages: Vec<Message>,
    /// Whether what is sent still reaches the child.
    pub open: bool,
}

/// A child that has been started.
#[verifier::ext_equal]
pub struct SessionView {
    pub root: Option<PathView>,
    pub generation: u64,
    pub initialized: bool,
    pub queued_messages: Seq<MessageView>,
    pub open: bool,
}

impl View for Session {
    type V = SessionView;

    open spec fn view(&self) -> SessionView {
        SessionView {
            root: opt(self.root),
            generation: self.generation,
            initialized: self.initialized,
            queued_messages: each(self.queued_messages@),
            open: self.open,
        }
    }
}

/// A request of a child that waits for the client's answer.
#[derive(Debug)]
pub struct ChildRoute<I> {
    pub session: I,
    pub request: RequestId,
}

/// A request of a child that waits for the client's answer.
#[verifier::ext_equal]
pub struct ChildRouteView<I> {
    pub session: I,
    pub request: RequestIdView,
}

impl<I: View> View for ChildRoute<I> {
    type V = ChildRouteView<I::V>;

    open spec fn view(&self) -> ChildRouteView<I::V> {
        ChildRouteView { session: self.session@, request: self.request@ }
    }
}

impl<I: Key> Owned<I> for ChildRoute<I> where I::V: Ident {
    open spec fn owned_by(value: ChildRouteView<I::V>, owner: I::V) -> bool {
        value.session.ident() == owner.ident()
    }

    fn belongs_to(&self, owner: &I) -> (r: bool) {
        self.session.same(owner)
    }
}

/// A child that has been asked to initialize.
#[derive(Debug)]
pub struct InitializeRoute<I> {
    pub session: I,
    pub forward_to_client: bool,
}

/// A child that has been asked to initialize.
#[verifier::ext_equal]
pub struct InitializeRouteView<I> {
    pub session: I,
    pub forward_to_client: bool,
}

impl<I: View> View for InitializeRoute<I> {
    type V = InitializeRouteView<I::V>;

    open spec fn view(&self) -> InitializeRouteView<I::V> {
        InitializeRouteView {
            session: self.session@,
            forward_to_client: self.forward_to_client,
        }
    }
}

impl<I: Key> Owned<I> for InitializeRoute<I> where I::V: Ident {
    open spec fn owned_by(value: InitializeRouteView<I::V>, owner: I::V) -> bool {
        value.session.ident() == owner.ident()
    }

    fn belongs_to(&self, owner: &I) -> (r: bool) {
        self.session.same(owner)
    }
}

/// A child whose answer to `initialize` the client waits for.
pub struct Awaited<I> {
    pub session: I,
}

impl<I: View> View for Awaited<I> {
    type V = I::V;

    open spec fn view(&self) -> I::V {
        self.session@
    }
}

impl<I: Key> Owned<Awaited<I>> for InitializeRoute<I> where I::V: Ident {
    open spec fn owned_by(value: InitializeRouteView<I::V>, owner: I::V) -> bool {
        value.session.ident() == owner.ident() && value.forward_to_client
    }

    fn belongs_to(&self, owner: &Awaited<I>) -> (r: bool) {
        self.session.same(&owner.session) && self.forward_to_client
    }
}

/// What the client has said about itself.
#[derive(Debug)]
pub struct ClientInitialize {
    pub params: Json,
    pub initialized: Option<Notification>,
}

/// What the client has said about itself.
#[verifier::ext_equal]
pub struct ClientInitializeView {
    pub params: JsonView,
    pub initialized: Option<NotificationView>,
}

impl View for ClientInitialize {
    type V = ClientInitializeView;

    open spec fn view(&self) -> ClientInitializeView {
        ClientInitializeView { params: self.params@, initialized: opt(self.initialized) }
    }
}

/// What is to be done outside.
#[derive(Debug, PartialEq, Eq)]
pub enum Action<I> {
    /// Send the client a message.
    Client(Message),
    /// Send a child a message.
    Child(I, Message),
    /// End a child.
    Terminate(I),
    /// Let go of a child.
    Discard(I),
    /// Look after the files below the root of a child.
    Watch(I, FsPath),
    /// Look after the files of a child no more.
    Unwatch(I),
}

/// What is to be done outside.
#[verifier::ext_equal]
pub enum ActionView<I> {
    Client(MessageView),
    Child(I, MessageView),
    Terminate(I),
    Discard(I),
    Watch(I, PathView),
    Unwatch(I),
}

impl<I: View> View for Action<I> {
    type V = ActionView<I::V>;

    open spec fn view(&self) -> ActionView<I::V> {
        match self {
            Action::Client(message) => ActionView::Client(message@),
            Action::Child(id, message) => ActionView::Child(id@, message@),
            Action::Terminate(id) => ActionView::Terminate(id@),
            Action::Discard(id) => ActionView::Discard(id@),
            Action::Watch(id, root) => ActionView::Watch(id@, root@),
            Action::Unwatch(id) => ActionView::Unwatch(id@),
        }
    }
}

/// The children, the documents and what is waited for.
#[derive(Debug)]
pub struct Hub<I> {
    pub sessions: Table<I, Session>,
    pub documents: Table<String, SessionKey>,
    pub client_request_routes: Table<RequestId, I>,
    pub child_request_routes: Table<RequestId, ChildRoute<I>>,
    pub initialize_routes: Table<RequestId, InitializeRoute<I>>,
    pub client_initialize: Option<ClientInitialize>,
    pub default_project: Option<SessionKey>,
    pub internal_request_counter: usize,
    pub session_generation: u64,
    pub shutdown_requested: bool,
    pub outbox: Vec<Action<I>>,
}

/// The children, the documents and what is waited for.
#[verifier::ext_equal]
pub struct HubView<I> {
    pub sessions: Seq<(I, SessionView)>,
    pub documents: Seq<(Seq<char>, SessionKeyView)>,
    pub client_request_routes: Seq<(RequestIdView, I)>,
    pub child_request_routes: Seq<(RequestIdView, ChildRouteView<I>)>,
    pub initialize_routes: Seq<(RequestIdView, InitializeRouteView<I>)>,
    pub client_initialize: Option<ClientInitializeView>,
    pub default_project: Option<SessionKeyView>,
    pub internal_request_counter: usize,
    pub session_generation: u64,
    pub shutdown_requested: bool,
    pub outbox: Seq<ActionView<I>>,
}

impl<I: View> View for Hub<I> {
    type V = HubView<I::V>;

    open spec fn view(&self) -> HubView<I::V> {
        HubView {
            sessions: self.sessions@,
            documents: self.documents@,
            client_request_routes: self.client_request_routes@,
            child_request_routes: self.child_request_routes@,
            initialize_routes: self.initialize_routes@,
            client_initialize: opt(self.client_initialize),
            default_project: opt(self.default_project),
            internal_request_counter: self.internal_request_counter,
            session_generation: self.session_generation,
            shutdown_requested: self.shutdown_requested,
            outbox: each(self.outbox@),
        }
    }
}

/// What became of something that can fail.
pub open spec fn result_view(r: Result<(), String>) -> Result<(), Seq<char>> {
    match r {
        Ok(_) => Ok(()),
        Err(message) => Err(message@),
    }
}

/// That a message does not reach a child.
pub open spec fn send_failure() -> Seq<char> {
    "failed to forward message to session: sending on a disconnected channel"@
}

/// Whether a message is the notification `initialized`.
pub open spec fn is_initialized(message: MessageView) -> bool {
    message matches MessageView::Notification(n) && n.method == "initialized"@
}

/// The answers that the requests have failed.
pub open spec fn failures<I>(ids: Seq<RequestIdView>, message: Seq<char>) -> Seq<ActionView<I>> {
    ids.map_values(
        |id: RequestIdView|
            ActionView::Client(MessageView::Response(err_response(id, REQUEST_FAILED, message))),
    )
}

/// The messages as sendings to a child.
pub open spec fn deliveries<I>(id: I, messages: Seq<MessageView>) -> Seq<ActionView<I>> {
    messages.map_values(|m: MessageView| ActionView::Child(id, m))
}

/// The documents that do not belong to the project.
pub open spec fn document_elsewhere(key: SessionKeyView) -> spec_fn((Seq<char>, SessionKeyView)) -> bool {
    |e: (Seq<char>, SessionKeyView)| e.1.ident() != key.ident()
}

/// The requests that wait for the child.
pub open spec fn waits_for<I: Ident>(id: I) -> spec_fn((RequestIdView, I)) -> bool {
    |e: (RequestIdView, I)| e.1.ident() == id.ident()
}

/// The requests that do not wait for the child.
pub open spec fn waits_elsewhere<I: Ident>(id: I) -> spec_fn((RequestIdView, I)) -> bool {
    |e: (RequestIdView, I)| e.1.ident() != id.ident()
}

/// The requests that the child has not made.
pub open spec fn asked_elsewhere<I: Ident>(id: I) -> spec_fn(
    (RequestIdView, ChildRouteView<I>),
) -> bool {
    |e: (RequestIdView, ChildRouteView<I>)| e.1.session.ident() != id.ident()
}

/// The `initialize` that waits for the child and that the client has made.
pub open spec fn initializes_for_client<I: Ident>(id: I) -> spec_fn(
    (RequestIdView, InitializeRouteView<I>),
) -> bool {
    |e: (RequestIdView, InitializeRouteView<I>)|
        e.1.session.ident() == id.ident() && e.1.forward_to_client
}

/// The `initialize` that does not wait for the child.
pub open spec fn initializes_elsewhere<I: Ident>(id: I) -> spec_fn(
    (RequestIdView, InitializeRouteView<I>),
) -> bool {
    |e: (RequestIdView, InitializeRouteView<I>)| e.1.session.ident() != id.ident()
}

impl<I: Ident> HubView<I> {
    /// The hub at the start.
    pub open spec fn fresh() -> HubView<I> {
        HubView {
            sessions: Seq::empty(),
            documents: Seq::empty(),
            client_request_routes: Seq::empty(),
            child_request_routes: Seq::empty(),
            initialize_routes: Seq::empty(),
            client_initialize: None,
            default_project: None,
            internal_request_counter: 0,
            session_generation: 0,
            shutdown_requested: false,
            outbox: Seq::empty(),
        }
    }

    /// Whether one more child can be started and one more request made.
    pub open spec fn has_room(self) -> bool {
        self.internal_request_counter < usize::MAX && self.session_generation < u64::MAX
    }

    /// One more thing to be done.
    pub open spec fn doing(self, action: ActionView<I>) -> HubView<I> {
        HubView { outbox: self.outbox.push(action), ..self }
    }

    /// A message to the client.
    pub open spec fn to_client(self, message: MessageView) -> HubView<I> {
        self.doing(ActionView::Client(message))
    }

    /// A warning to the client.
    pub open spec fn warned(self, message: Seq<char>) -> HubView<I> {
        self.to_client(MessageView::Notification(warning(message)))
    }

    /// A message to a child, if it still reaches it.
    pub open spec fn sent(self, id: I, session: SessionView, message: MessageView) -> (
        HubView<I>,
        Result<(), Seq<char>>,
    ) {
        if session.open {
            (self.doing(ActionView::Child(id, message)), Ok(()))
        } else {
            (self, Err(send_failure()))
        }
    }

    /// Another state of a child.
    pub open spec fn with_session(self, id: I, session: SessionView) -> HubView<I> {
        HubView { sessions: put(self.sessions, id, session), ..self }
    }

    /// A message to a child, which is kept until the child has answered `initialize`. Where
    /// `hold_initialized` is set, the notification `initialized` is not kept: the child gets it
    /// anyway.
    pub open spec fn dispatched(self, id: I, message: MessageView, hold_initialized: bool) -> (
        HubView<I>,
        Result<(), Seq<char>>,
    ) {
        match lookup(self.sessions, id) {
            None => (self, Err("attempted to route to a missing session"@)),
            Some(session) => if session.initialized {
                self.sent(id, session, message)
            } else if hold_initialized && is_initialized(message) {
                (self, Ok(()))
            } else {
                (
                    self.with_session(
                        id,
                        SessionView {
                            queued_messages: session.queued_messages.push(message),
                            ..session
                        },
                    ),
                    Ok(()),
                )
            },
        }
    }

    /// The requests of the client that a child has not answered.
    pub open spec fn waiting_for(self, id: I) -> Seq<RequestIdView> {
        self.client_request_routes.filter(waits_for(id)).map_values(
            |e: (RequestIdView, I)| e.0,
        )
    }

    /// The client's own `initialize`, if it waits for the child.
    pub open spec fn initializing(self, id: I) -> Seq<RequestIdView> {
        self.initialize_routes.filter(initializes_for_client(id)).map_values(
            |e: (RequestIdView, InitializeRouteView<I>)| e.0,
        )
    }

    /// The hub without a child. Each request that waited for it has failed. `owner` is the project
    /// whose documents go with it, and `shown` is how the child is shown to the user.
    pub open spec fn dropped(
        self,
        id: I,
        owner: Option<SessionKeyView>,
        message: Seq<char>,
        terminate: bool,
        shown: Seq<char>,
    ) -> HubView<I> {
        let ending = if !holds(self.sessions, id) {
            Seq::empty()
        } else if terminate {
            seq![ActionView::Terminate(id)]
        } else {
            seq![ActionView::Discard(id)]
        };
        HubView {
            sessions: without(self.sessions, id),
            documents: match owner {
                Some(key) => self.documents.filter(document_elsewhere(key)),
                None => self.documents,
            },
            client_request_routes: self.client_request_routes.filter(waits_elsewhere(id)),
            child_request_routes: self.child_request_routes.filter(asked_elsewhere(id)),
            initialize_routes: self.initialize_routes.filter(initializes_elsewhere(id)),
            default_project: match (self.default_project, owner) {
                (Some(default), Some(key)) => if default.ident() == key.ident() {
                    None
                } else {
                    self.default_project
                },
                _ => self.default_project,
            },
            outbox: self.outbox + failures(self.waiting_for(id), message) + failures(
                self.initializing(id),
                message,
            ) + ending,
            ..self
        }.warned(message + ": "@ + shown)
    }

    /// The id of the next request that the hub itself makes.
    pub open spec fn next_id(self, prefix: Seq<char>) -> RequestIdView {
        RequestIdView::Text(prefix + decimal((self.internal_request_counter + 1) as nat))
    }

    /// A request of a child, passed on to the client under an id of the hub.
    pub open spec fn asked(self, id: I, request: RequestView, prefix: Seq<char>) -> HubView<I> {
        let client_id = self.next_id(prefix);
        HubView {
            internal_request_counter: (self.internal_request_counter + 1) as usize,
            child_request_routes: put(
                self.child_request_routes,
                client_id,
                ChildRouteView { session: id, request: request.id },
            ),
            ..self
        }.to_client(
            MessageView::Request(
                RequestView { id: client_id, method: request.method, params: request.params },
            ),
        )
    }

    /// An answer of the client, passed on to the child that has asked, under the child's own id.
    pub open spec fn answered(self, response: ResponseView) -> (HubView<I>, Result<(), Seq<char>>) {
        match lookup(self.child_request_routes, response.id) {
            None => (self, Ok(())),
            Some(route) => {
                let rest = HubView {
                    child_request_routes: without(self.child_request_routes, response.id),
                    ..self
                };
                match lookup(self.sessions, route.session) {
                    None => (rest, Ok(())),
                    Some(session) => rest.sent(
                        route.session,
                        session,
                        MessageView::Response(ResponseView { id: route.request, ..response }),
                    ),
                }
            },
        }
    }

    /// The client's notification `initialized`, kept for children that are started later.
    pub open spec fn with_initialized(self, notification: NotificationView) -> HubView<I> {
        HubView {
            client_initialize: match self.client_initialize {
                Some(state) => Some(
                    ClientInitializeView { initialized: Some(notification), ..state },
                ),
                None => None,
            },
            ..self
        }
    }

    /// The client's notification `initialized`, where it has come.
    pub open spec fn kept_initialized(self) -> Option<NotificationView> {
        match self.client_initialize {
            Some(state) => state.initialized,
            None => None,
        }
    }

    /// What has been kept for a child that has now answered `initialize`: the client's notification
    /// `initialized`, and then what was queued.
    pub open spec fn released(self, id: I, session: SessionView) -> (
        HubView<I>,
        Result<(), Seq<char>>,
    ) {
        let first = match self.kept_initialized() {
            Some(notification) => seq![MessageView::Notification(notification)],
            None => Seq::empty(),
        };
        let emptied = SessionView { queued_messages: Seq::empty(), ..session };
        if session.open {
            let messages = first + session.queued_messages;
            (
                HubView {
                    outbox: self.outbox + deliveries(id, messages),
                    ..self.with_session(id, emptied)
                },
                Ok(()),
            )
        } else if first.len() > 0 {
            (self, Err(send_failure()))
        } else if session.queued_messages.len() > 0 {
            (self.with_session(id, emptied), Err(send_failure()))
        } else {
            (self.with_session(id, emptied), Ok(()))
        }
    }

    /// A child that has been started. Where `send_initialize` is set and the client has said what it
    /// is, the child is asked to initialize.
    pub open spec fn installed(
        self,
        id: I,
        root: Option<PathView>,
        generation: u64,
        send_initialize: bool,
        prefix: Seq<char>,
    ) -> (HubView<I>, Result<(), Seq<char>>) {
        let session = SessionView {
            root,
            generation,
            initialized: false,
            queued_messages: Seq::empty(),
            open: true,
        };
        match self.client_initialize {
            Some(state) if send_initialize => {
                let init_id = self.next_id(prefix);
                let asking = HubView {
                    internal_request_counter: (self.internal_request_counter + 1) as usize,
                    initialize_routes: put(
                        self.initialize_routes,
                        init_id,
                        InitializeRouteView { session: id, forward_to_client: false },
                    ),
                    ..self
                };
                match rewritten_params(state.params, root) {
                    Err(message) => (asking.doing(ActionView::Discard(id)), Err(message)),
                    Ok(params) => (
                        asking.doing(
                            ActionView::Child(
                                id,
                                MessageView::Request(
                                    RequestView { id: init_id, method: "initialize"@, params },
                                ),
                            ),
                        ).with_session(id, session),
                        Ok(()),
                    ),
                }
            },
            _ => (self.with_session(id, session), Ok(())),
        }
    }

    /// The client's `initialize`, passed on to the child of the project that is the default from
    /// now on. `gone` says that there is no such child.
    pub open spec fn initialize_sent(
        self,
        request: RequestView,
        id: I,
        key: SessionKeyView,
        gone: Seq<char>,
    ) -> (HubView<I>, Result<(), Seq<char>>) {
        let routed = HubView {
            default_project: Some(key),
            initialize_routes: put(
                self.initialize_routes,
                request.id,
                InitializeRouteView { session: id, forward_to_client: true },
            ),
            ..self
        };
        let root = match lookup(self.sessions, id) {
            Some(session) => session.root,
            None => None,
        };
        match rewritten_params(request.params, root) {
            Err(message) => (routed, Err(message)),
            Ok(params) => match lookup(self.sessions, id) {
                None => (routed, Err(gone)),
                Some(session) => routed.sent(
                    id,
                    session,
                    MessageView::Request(RequestView { params, ..request }),
                ),
            },
        }
    }

    /// Whether a child is the one that was started as the given one.
    pub open spec fn current(self, id: I, generation: u64) -> bool {
        lookup(self.sessions, id) matches Some(session) && session.generation == generation
    }

    /// A child that is reached no more.
    pub open spec fn closed(self, id: I, generation: u64) -> HubView<I> {
        match lookup(self.sessions, id) {
            Some(session) => if session.generation == generation {
                self.with_session(id, SessionView { open: false, ..session })
            } else {
                self
            },
            None => self,
        }
    }
}

impl<I: Key + Owned<I>> Hub<I> {
    /// The hub at the start.
    pub fn new() -> (r: Hub<I>)
        ensures
            r@ == HubView::<I::V>::fresh(),
    {
        let r = Hub {
            sessions: Table::new(),
            documents: Table::new(),
            client_request_routes: Table::new(),
            child_request_routes: Table::new(),
            initialize_routes: Table::new(),
            client_initialize: None,
            default_project: None,
            internal_request_counter: 0,
            session_generation: 0,
            shutdown_requested: false,
            outbox: Vec::new(),
        };
        proof {
            assert(each(r.outbox@) =~= Seq::<ActionView<I::V>>::empty());
        }
        r
    }

    /// Whether one more child can be started and one more request made.
    pub fn has_room(&self) -> (r: bool)
        ensures
            r == self@.has_room(),
    {
        self.internal_request_counter < usize::MAX && self.session_generation < u64::MAX
    }

    /// Adds something to be done.
    pub fn act(&mut self, action: Action<I>)
        ensures
            final(self)@ == old(self)@.doing(action@),
    {
        let ghost before = self@;
        self.outbox.push(action);
        proof {
            assert(each(self.outbox@) =~= before.outbox.push(action@));
        }
    }

    /// Sends the client a message.
    pub fn tell_client(&mut self, message: Message)
        ensures
            final(self)@ == old(self)@.to_client(message@),
    {
        self.act(Action::Client(message));
    }

    /// Warns the user.
    pub fn log_warning(&mut self, message: String)
        ensures
            final(self)@ == old(self)@.warned(message@),
    {
        self.tell_client(Message::Notification(new_warning(message)));
    }

    /// Sends a child a message, if `open` says that it reaches it.
    pub fn send(&mut self, id: &I, open: bool, message: Message) -> (r: Result<(), String>)
        ensures
            open ==> r is Ok && final(self)@ == old(self)@.doing(ActionView::Child(id@, message@)),
            !open ==> r is Err && r->Err_0@ == send_failure() && final(self)@ == old(self)@,
    {
        if open {
            self.act(Action::Child(id.again(), message));
            Ok(())
        } else {
            Err(
                "failed to forward message to session: sending on a disconnected channel".to_owned(),
            )
        }
    }

    /// Sends a child a message, or keeps it until the child has answered `initialize`.
    pub fn dispatch_to_session(&mut self, id: &I, message: Message, hold_initialized: bool) -> (r:
        Result<(), String>)
        ensures
            (final(self)@, result_view(r)) == old(self)@.dispatched(
                id@,
                message@,
                hold_initialized,
            ),
    {
        let (initialized, open) = match self.sessions.get(id) {
            None => {
                return Err("attempted to route to a missing session".to_owned());
            },
            Some(session) => (session.initialized, session.open),
        };
        if initialized {
            return self.send(id, open, message);
        }
        let held = match &message {
            Message::Notification(notification) => hold_initialized && same_text(
                notification.method.as_str(),
                "initialized",
            ),
            _ => false,
        };
        if !held {
            match self.sessions.get_mut(id) {
                Some(session) => {
                    let ghost queued = each(session.queued_messages@);
                    session.queued_messages.push(message);
                    proof {
                        assert(each(session.queued_messages@) =~= queued.push(message@));
                    }
                },
                None => {},
            }
        }
        Ok(())
    }

    fn fail_requests(&mut self, ids: &Vec<RequestId>, message: &str)
        ensures
            final(self)@ == (HubView {
                outbox: old(self)@.outbox + failures(each(ids@), message@),
                ..old(self)@
            }),
    {
        let ghost before = self@;
        let ghost all = failures::<I::V>(each(ids@), message@);
        let mut i: usize = 0;
        proof {
            assert(before.outbox + all.take(0) =~= before.outbox);
        }
        while i < ids.len()
            invariant
                i <= ids@.len(),
                all == failures::<I::V>(each(ids@), message@),
                self@ == (HubView { outbox: before.outbox + all.take(i as int), ..before }),
            decreases ids@.len() - i,
        {
            proof {
                assert(before.outbox + all.take(i + 1) =~= (before.outbox + all.take(
                    i as int,
                )).push(all[i as int]));
            }
            self.tell_client(
                Message::Response(
                    Response::new_err(ids[i].clone(), REQUEST_FAILED, message.to_owned()),
                ),
            );
            i += 1;
        }
        proof {
            assert(all.take(i as int) =~= all);
        }
    }

    /// Drops a child, and answers each request that waits for it that it has failed.
    pub fn drop_session(
        &mut self,
        id: &I,
        owner: Option<&SessionKey>,
        message: &str,
        terminate: bool,
        shown: &str,
    )
        requires
            forall|a: I::V, b: I::V| I::owned_by(a, b) == (a.ident() == b.ident()),
        ensures
            final(self)@ == old(self)@.dropped(
                id@,
                match owner {
                    Some(key) => Some(key@),
                    None => None,
                },
                message@,
                terminate,
                shown@,
            ),
    {
        let ghost before = self@;
        let ghost owner_view = match owner {
            Some(key) => Some(key@),
            None => None,
        };
        if let Some(key) = owner {
            self.documents.drop_owned(key);
            proof {
                let kept = |e: (Seq<char>, SessionKeyView)|
                    !<SessionKey as Owned<SessionKey>>::owned_by(e.1, key@);
                assert(kept =~= document_elsewhere(key@));
            }
        }
        let waiting = self.client_request_routes.keys_owned(id);
        self.client_request_routes.drop_owned(id);
        proof {
            assert((|e: (RequestIdView, I::V)| I::owned_by(e.1, id@)) =~= waits_for(id@));
            assert((|e: (RequestIdView, I::V)| !I::owned_by(e.1, id@)) =~= waits_elsewhere(id@));
            assert(each(waiting@) =~= before.waiting_for(id@));
        }
        self.fail_requests(&waiting, message);
        let awaited = Awaited { session: id.again() };
        let initializing = self.initialize_routes.keys_owned(&awaited);
        proof {
            assert((|e: (RequestIdView, InitializeRouteView<I::V>)|
                <InitializeRoute<I> as Owned<Awaited<I>>>::owned_by(e.1, id@))
                =~= initializes_for_client(id@));
            assert(each(initializing@) =~= before.initializing(id@));
        }
        self.fail_requests(&initializing, message);
        self.initialize_routes.drop_owned(id);
        self.child_request_routes.drop_owned(id);
        proof {
            assert((|e: (RequestIdView, InitializeRouteView<I::V>)|
                !<InitializeRoute<I> as Owned<I>>::owned_by(e.1, id@)) =~= initializes_elsewhere(
                id@,
            ));
            assert((|e: (RequestIdView, ChildRouteView<I::V>)|
                !<ChildRoute<I> as Owned<I>>::owned_by(e.1, id@)) =~= asked_elsewhere(id@));
        }
        if self.sessions.remove(id).is_some() {
            if terminate {
                self.act(Action::Terminate(id.again()));
            } else {
                self.act(Action::Discard(id.again()));
            }
        }
        if let Some(key) = owner {
            let is_default = match &self.default_project {
                Some(default) => default.same(key),
                None => false,
            };
            if is_default {
                self.default_project = None;
            }
        }
        let start = concat2(message, ": ");
        let text = concat2(start.as_str(), shown);
        self.log_warning(text);
        proof {
            assert(self@.outbox =~= before.dropped(
                id@,
                owner_view,
                message@,
                terminate,
                shown@,
            ).outbox);
        }
    }

    /// Takes the id of the next request that the hub itself makes.
    pub fn next_internal_request_id(&mut self, prefix: &str) -> (r: RequestId)
        requires
            old(self)@.internal_request_counter < usize::MAX,
        ensures
            r@ == old(self)@.next_id(prefix@),
            final(self)@ == (HubView {
                internal_request_counter: (old(self)@.internal_request_counter + 1) as usize,
                ..old(self)@
            }),
    {
        self.internal_request_counter = self.internal_request_counter + 1;
        let number = decimal_text(self.internal_request_counter as u64);
        RequestId::Text(concat2(prefix, number.as_str()))
    }

    /// Passes a request of a child on to the client.
    pub fn handle_child_request(&mut self, id: &I, request: Request, prefix: &str)
        requires
            old(self)@.internal_request_counter < usize::MAX,
        ensures
            final(self)@ == old(self)@.asked(id@, request@, prefix@),
    {
        let client_id = self.next_internal_request_id(prefix);
        self.child_request_routes.insert(
            client_id.clone(),
            ChildRoute { session: id.again(), request: request.id },
        );
        self.tell_client(
            Message::Request(
                Request { id: client_id, method: request.method, params: request.params },
            ),
        );
    }

    /// Passes an answer of the client on to the child that has asked.
    pub fn handle_client_response(&mut self, response: Response) -> (r: Result<(), String>)
        ensures
            (final(self)@, result_view(r)) == old(self)@.answered(response@),
    {
        let route = match self.child_request_routes.remove(&response.id) {
            None => {
                proof {
                    assert(without(old(self)@.child_request_routes, response.id@)
                        == old(self)@.child_request_routes);
                }
                return Ok(());
            },
            Some(route) => route,
        };
        let open = match self.sessions.get(&route.session) {
            None => {
                return Ok(());
            },
            Some(session) => session.open,
        };
        self.send(
            &route.session,
            open,
            Message::Response(
                Response { id: route.request, result: response.result, error: response.error },
            ),
        )
    }

    /// Keeps the client's notification `initialized`.
    pub fn store_initialized(&mut self, notification: Notification)
        ensures
            final(self)@ == old(self)@.with_initialized(notification@),
    {
        match &mut self.client_initialize {
            Some(state) => {
                state.initialized = Some(notification);
            },
            None => {},
        }
    }

    /// Sends a child what has been kept for it.
    pub fn release(&mut self, id: &I) -> (r: Result<(), String>)
        requires
            holds(old(self)@.sessions, id@),
        ensures
            (final(self)@, result_view(r)) == old(self)@.released(
                id@,
                lookup(old(self)@.sessions, id@)->0,
            ),
    {
        let ghost before = self@;
        let ghost session_before = lookup(before.sessions, id@)->0;
        let open = match self.sessions.get(id) {
            Some(session) => session.open,
            None => false,
        };
        let kept = match &self.client_initialize {
            Some(state) => match &state.initialized {
                Some(notification) => Some(notification.clone()),
                None => None,
            },
            None => None,
        };
        let ghost first = match before.kept_initialized() {
            Some(notification) => seq![MessageView::Notification(notification)],
            None => Seq::empty(),
        };
        if let Some(notification) = kept {
            match self.send(id, open, Message::Notification(notification)) {
                Ok(()) => {},
                Err(message) => {
                    return Err(message);
                },
            }
        }
        let mut queued: Vec<Message> = Vec::new();
        match self.sessions.get_mut(id) {
            Some(session) => {
                let ghost kept_before = each(session.queued_messages@);
                queued.append(&mut session.queued_messages);
                proof {
                    assert(each(session.queued_messages@) =~= Seq::<MessageView>::empty());
                    assert(each(queued@) =~= kept_before);
                }
            },
            None => {},
        }
        let ghost emptied = self@;
        let ghost messages = each(queued@);
        proof {
            assert(messages == session_before.queued_messages);
            if open {
                assert(emptied.outbox =~= before.outbox + deliveries(id@, first));
            }
        }
        let mut at: usize = 0;
        proof {
            assert(emptied.outbox + deliveries(id@, messages.take(0)) =~= emptied.outbox);
        }
        while at < queued.len()
            invariant
                at <= queued@.len(),
                messages == each(queued@),
                open || at == 0,
                self@ == (HubView {
                    outbox: emptied.outbox + deliveries(id@, messages.take(at as int)),
                    ..emptied
                }),
                !open ==> self@ == emptied && first.len() == 0,
                emptied == (HubView { outbox: emptied.outbox, ..before }.with_session(
                    id@,
                    SessionView { queued_messages: Seq::empty(), ..session_before },
                )),
                !open ==> emptied.outbox == before.outbox,
                before == old(self)@,
                session_before == lookup(before.sessions, id@)->0,
                session_before.open == open,
                messages == session_before.queued_messages,
                first == (match before.kept_initialized() {
                    Some(notification) => seq![MessageView::Notification(notification)],
                    None => Seq::empty(),
                }),
            decreases queued@.len() - at,
        {
            match self.send(id, open, queued[at].clone()) {
                Ok(()) => {},
                Err(message) => {
                    return Err(message);
                },
            }
            proof {
                assert(emptied.outbox + deliveries(id@, messages.take(at + 1)) =~= (emptied.outbox
                    + deliveries(id@, messages.take(at as int))).push(
                    ActionView::Child(id@, messages[at as int]),
                ));
            }
            at += 1;
        }
        proof {
            assert(messages.take(at as int) =~= messages);
            if open {
                assert(emptied.outbox + deliveries(id@, messages) =~= before.outbox + deliveries(
                    id@,
                    first + messages,
                ));
            }
        }
        Ok(())
    }

    /// Takes up a child that has been started.
    pub fn install(
        &mut self,
        id: &I,
        root: Option<FsPath>,
        generation: u64,
        send_initialize: bool,
        prefix: &str,
    ) -> (r: Result<(), String>)
        requires
            old(self)@.internal_request_counter < usize::MAX,
        ensures
            (final(self)@, result_view(r)) == old(self)@.installed(
                id@,
                opt(root),
                generation,
                send_initialize,
                prefix@,
            ),
    {
        let params = match &self.client_initialize {
            Some(state) => Some(state.params.clone()),
            None => None,
        };
        if send_initialize {
            if let Some(params) = params {
                let init_id = self.next_internal_request_id(prefix);
                self.initialize_routes.insert(
                    init_id.clone(),
                    InitializeRoute { session: id.again(), forward_to_client: false },
                );
                let rewritten = match rewrite_initialize_params(&params, root.as_ref()) {
                    Ok(rewritten) => rewritten,
                    Err(message) => {
                        self.act(Action::Discard(id.again()));
                        return Err(message);
                    },
                };
                self.act(
                    Action::Child(
                        id.again(),
                        Message::Request(
                            Request {
                                id: init_id,
                                method: "initialize".to_owned(),
                                params: rewritten,
                            },
                        ),
                    ),
                );
            }
        }
        let session = Session {
            root,
            generation,
            initialized: false,
            queued_messages: Vec::new(),
            open: true,
        };
        proof {
            assert(each(session.queued_messages@) =~= Seq::<MessageView>::empty());
        }
        self.sessions.insert(id.again(), session);
        Ok(())
    }

    /// Passes the client's `initialize` on to the child of the default project.
    pub fn send_initialize(&mut self, request: Request, id: &I, key: SessionKey, gone: &str) -> (r:
        Result<(), String>)
        ensures
            (final(self)@, result_view(r)) == old(self)@.initialize_sent(
                request@,
                id@,
                key@,
                gone@,
            ),
    {
        self.default_project = Some(key);
        self.initialize_routes.insert(
            request.id.clone(),
            InitializeRoute { session: id.again(), forward_to_client: true },
        );
        let (root, open, found) = match self.sessions.get(id) {
            Some(session) => (
                match &session.root {
                    Some(root) => Some(root.clone()),
                    None => None,
                },
                session.open,
                true,
            ),
            None => (None, false, false),
        };
        let params = match rewrite_initialize_params(&request.params, root.as_ref()) {
            Ok(params) => params,
            Err(message) => {
                return Err(message);
            },
        };
        if !found {
            return Err(gone.to_owned());
        }
        self.send(
            id,
            open,
            Message::Request(Request { id: request.id, method: request.method, params }),
        )
    }

    /// Whether a child is the one that was started as the given one.
    pub fn session_generation_matches(&self, id: &I, generation: u64) -> (r: bool)
        ensures
            r == self@.current(id@, generation),
    {
        match self.sessions.get(id) {
            Some(session) => session.generation == generation,
            None => false,
        }
    }

    /// Notes that a child is reached no more.
    pub fn writer_closed(&mut self, id: &I, generation: u64)
        ensures
            final(self)@ == old(self)@.closed(id@, generation),
    {
        if self.session_generation_matches(id, generation) {
            match self.sessions.get_mut(id) {
                Some(session) => {
                    session.open = false;
                },
                None => {},
            }
        }
    }

    /// Takes what is to be done.
    pub fn take_actions(&mut self) -> (r: Vec<Action<I>>)
        ensures
            each(r@) == old(self)@.outbox,
            final(self)@ == (HubView { outbox: Seq::empty(), ..old(self)@ }),
    {
        let mut taken: Vec<Action<I>> = Vec::new();
        taken.append(&mut self.outbox);
        proof {
            assert(each(taken@) =~= old(self)@.outbox);
            assert(each(self.outbox@) =~= Seq::<ActionView<I::V>>::empty());
        }
        taken
    }
}

} // verus!
