//! The decisions of a connection's receiver: which incoming messages it handles, what each
//! request asks the runtime for, and the reply that the client gets.
use vstd::prelude::*;

use super::{ActorPath, Error, Event, Interface, Response, ResponseResult, RouteMessage, ScopeId};
use crate::actor::Service;

verus! {

/// The receiver of a websocket connection: a handle of the connection's sender, and the
/// incoming half of the connection until its channel is built.
pub struct WebsocketReceiver<H, S> {
    sender_handle: H,
    split_stream: Option<S>,
}

impl<H, S> WebsocketReceiver<H, S> {
    /// The incoming half that the receiver still holds, if any.
    pub closed spec fn stream(&self) -> Option<S> {
        self.split_stream
    }

    /// The handle of the connection's sender.
    pub closed spec fn handle(&self) -> H {
        self.sender_handle
    }

    /// Create new WebsocketReceiver struct.
    pub fn new(split_stream: S, sender_handle: H) -> (r: Self)
        ensures
            r.stream() == Some(split_stream),
            r.handle() == sender_handle,
    {
        Self { sender_handle, split_stream: Some(split_stream) }
    }

    /// Hands the incoming half over to build the receiver's channel: the first time it is
    /// asked, and never again (`None`, where the runtime then exits the receiver).
    pub fn build_channel(&mut self) -> (r: Option<S>)
        ensures
            r == old(self).stream(),
            final(self).stream() is None,
            final(self).handle() == old(self).handle(),
    {
        self.split_stream.take()
    }

    /// The handle of the connection's sender.
    pub fn sender_handle(&self) -> (r: &H)
        ensures
            *r == self.handle(),
    {
        &self.sender_handle
    }
}

/// The kind of an incoming websocket message, with the text of a text message.
pub enum WsMessage {
    /// A text message.
    Text(String),
    /// The client closes the connection.
    Close,
    /// Any other message (binary, ping, pong, frame).
    Other,
    /// The connection yielded an error in place of a message.
    Failed,
}

/// What the receiver does with an incoming message.
pub enum MessageAction {
    /// Parse this text as a request and handle it.
    Handle(String),
    /// Stop receiving.
    Stop,
    /// Skip the message.
    Skip,
}

/// What a request asks the runtime for.
pub enum Route {
    /// Shut down the scope; the reply names `actor_path`.
    ShutdownScope { scope_id: ScopeId, actor_path: ActorPath },
    /// Look up the service of the scope.
    LookupService { scope_id: ScopeId },
    /// Send `message` to the scope; a failure names `actor_path`.
    Cast { scope_id: ScopeId, message: RouteMessage, actor_path: ActorPath },
    /// Send this reply to the client right away.
    Reply(ResponseResult),
    /// Nothing to do.
    Nothing,
}

/// The reason given for a request whose path leads to no scope.
pub open spec fn unreachable_path() -> Seq<char> {
    "Unreachable ActorPath"@
}

/// The reason given for a service that the runtime does not have.
pub open spec fn service_not_available() -> Seq<char> {
    "Service not available"@
}

/// What the receiver does with an incoming item: a text message is handled, a close message or
/// an error stops the receiver, any other message is skipped.
pub open spec fn spec_on_message(message: WsMessage) -> MessageAction {
    match message {
        WsMessage::Text(text) => MessageAction::Handle(text),
        WsMessage::Close => MessageAction::Stop,
        WsMessage::Failed => MessageAction::Stop,
        WsMessage::Other => MessageAction::Skip,
    }
}

/// Text messages are handled, a close message or an error stops the receiver, others are
/// skipped.
pub fn on_message(message: WsMessage) -> (r: MessageAction)
    ensures
        r == spec_on_message(message),
{
    match message {
        WsMessage::Text(text) => MessageAction::Handle(text),
        WsMessage::Close => MessageAction::Stop,
        WsMessage::Failed => MessageAction::Stop,
        WsMessage::Other => MessageAction::Skip,
    }
}

/// The item stops the receiver.
pub open spec fn stops(message: WsMessage) -> bool {
    message is Close || message is Failed
}

/// The position of the first item of `inbox` that stops the receiver; the length of `inbox`
/// when none does.
pub open spec fn first_stop(inbox: Seq<WsMessage>) -> nat
    decreases inbox.len(),
{
    if inbox.len() == 0 {
        0
    } else if stops(inbox[0]) {
        0
    } else {
        1 + first_stop(inbox.drop_first())
    }
}

/// The actions of the receiver over an inbox, item by item, up to and including the first
/// item that stops it.
pub open spec fn inbox_actions(inbox: Seq<WsMessage>) -> Seq<MessageAction>
    decreases inbox.len(),
{
    if inbox.len() == 0 {
        Seq::empty()
    } else if spec_on_message(inbox[0]) is Stop {
        seq![spec_on_message(inbox[0])]
    } else {
        seq![spec_on_message(inbox[0])] + inbox_actions(inbox.drop_first())
    }
}

/// The texts that the receiver handles from an inbox, in order: those of the text messages
/// before the first item that stops it.
pub open spec fn handled_texts(inbox: Seq<WsMessage>) -> Seq<String>
    decreases inbox.len(),
{
    if inbox.len() == 0 || stops(inbox[0]) {
        Seq::empty()
    } else {
        match inbox[0] {
            WsMessage::Text(t) => seq![t] + handled_texts(inbox.drop_first()),
            _ => handled_texts(inbox.drop_first()),
        }
    }
}

/// Over a whole inbox, the receiver reads the items up to the first that stops it (a close or
/// an error) and none after it; it acts on each item read as `on_message` says; and the texts it
/// handles are those of the text messages before that item, in order.
pub proof fn lemma_inbox(inbox: Seq<WsMessage>)
    ensures
        first_stop(inbox) <= inbox.len(),
        inbox_actions(inbox).len() == if first_stop(inbox) < inbox.len() {
            first_stop(inbox) + 1
        } else {
            inbox.len() as nat
        },
        forall|i: int| 0 <= i < inbox_actions(inbox).len() ==> #[trigger] inbox_actions(inbox)[i] == spec_on_message(inbox[i]),
        forall|i: int| 0 <= i < first_stop(inbox) ==> !stops(#[trigger] inbox[i]),
        first_stop(inbox) < inbox.len() ==> stops(inbox[first_stop(inbox) as int]),
        handled_texts(inbox) == inbox_actions(inbox).filter(|a: MessageAction| a is Handle).map_values(
            |a: MessageAction| a->Handle_0,
        ),
    decreases inbox.len(),
{
    if inbox.len() > 0 {
        let rest = inbox.drop_first();
        lemma_inbox(rest);
        let a = spec_on_message(inbox[0]);
        if stops(inbox[0]) {
            assert(inbox_actions(inbox) == seq![a]);
            reveal_with_fuel(Seq::filter, 2);
            assert(seq![a].drop_last() =~= Seq::<MessageAction>::empty());
            assert(seq![a].filter(|a: MessageAction| a is Handle) =~= Seq::<MessageAction>::empty());
        } else {
            assert(inbox_actions(inbox) == seq![a] + inbox_actions(rest));
            assert forall|i: int| 0 <= i < inbox_actions(inbox).len() implies #[trigger] inbox_actions(inbox)[i]
                == spec_on_message(inbox[i]) by {
                if i > 0 {
                    assert(inbox_actions(inbox)[i] == inbox_actions(rest)[i - 1]);
                    assert(rest[i - 1] == inbox[i]);
                }
            }
            assert forall|i: int| 0 <= i < first_stop(inbox) implies !stops(#[trigger] inbox[i]) by {
                if i > 0 {
                    assert(rest[i - 1] == inbox[i]);
                }
            }
            if first_stop(inbox) < inbox.len() {
                assert(rest[first_stop(rest) as int] == inbox[first_stop(inbox) as int]);
            }
            lemma_filter_prepend(a, inbox_actions(rest));
        }
    }
}

proof fn lemma_filter_prepend(a: MessageAction, rest: Seq<MessageAction>)
    ensures
        (seq![a] + rest).filter(|x: MessageAction| x is Handle) == if a is Handle {
            seq![a] + rest.filter(|x: MessageAction| x is Handle)
        } else {
            rest.filter(|x: MessageAction| x is Handle)
        },
        (seq![a] + rest).filter(|x: MessageAction| x is Handle).map_values(|x: MessageAction| x->Handle_0)
            == if a is Handle {
            seq![a->Handle_0] + rest.filter(|x: MessageAction| x is Handle).map_values(
                |x: MessageAction| x->Handle_0,
            )
        } else {
            rest.filter(|x: MessageAction| x is Handle).map_values(|x: MessageAction| x->Handle_0)
        },
{
    let p = |x: MessageAction| x is Handle;
    Seq::filter_distributes_over_add(seq![a], rest, p);
    reveal_with_fuel(Seq::filter, 2);
    assert(seq![a].drop_last() =~= Seq::<MessageAction>::empty());
    if a is Handle {
        assert(seq![a].filter(p) =~= seq![a]);
        assert((seq![a] + rest.filter(p)).map_values(|x: MessageAction| x->Handle_0) =~= seq![a->Handle_0]
            + rest.filter(p).map_values(|x: MessageAction| x->Handle_0));
    } else {
        assert(seq![a].filter(p) =~= Seq::<MessageAction>::empty());
        assert(Seq::<MessageAction>::empty() + rest.filter(p) =~= rest.filter(p));
    }
}

/// The number of replies that a route leads to: one for each request that the runtime is asked
/// about or that is answered right away, none for a call.
pub open spec fn reply_count(r: Route) -> nat {
    match r {
        Route::Nothing => 0,
        _ => 1,
    }
}

/// `r` is what the request `interface` asks for, given the scope its path leads to (`target`):
/// a shutdown, a service lookup or a cast goes to the target scope; when the path leads nowhere,
/// the client is told right away that the path is unreachable; a call is not handled.
pub open spec fn is_route(interface: Interface, target: Option<ScopeId>, r: Route) -> bool {
    match (interface.event, target) {
        (Event::Shutdown, Some(s)) => r == (Route::ShutdownScope {
            scope_id: s,
            actor_path: interface.actor_path,
        }),
        (Event::Shutdown, None) => r matches Route::Reply(Err(Error::Shutdown(p, e)))
            && p == interface.actor_path && e@ == unreachable_path(),
        (Event::RequestServiceTree, Some(s)) => r == (Route::LookupService { scope_id: s }),
        (Event::RequestServiceTree, None) => r matches Route::Reply(Err(Error::ServiceTree(e)))
            && e@ == unreachable_path(),
        (Event::Cast(m), Some(s)) => r == (Route::Cast {
            scope_id: s,
            message: m,
            actor_path: interface.actor_path,
        }),
        (Event::Cast(m), None) => r matches Route::Reply(Err(Error::Cast(p, m2, e)))
            && p == interface.actor_path && m2 == m && e@ == unreachable_path(),
        (Event::Call(_), _) => r is Nothing,
    }
}

/// What the request `interface` asks for, given the scope its path leads to (`target`): a
/// shutdown, a service lookup or a cast goes to the target scope; when the path leads nowhere,
/// the client is told right away that the path is unreachable; a call is not handled.
pub fn route(interface: Interface, target: Option<ScopeId>) -> (r: Route)
    ensures
        is_route(interface, target, r),
        reply_count(r) == if interface.event is Call {
            0nat
        } else {
            1nat
        },
{
    let Interface { actor_path, event } = interface;
    match event {
        Event::Shutdown => match target {
            Some(scope_id) => Route::ShutdownScope { scope_id, actor_path },
            None => Route::Reply(
                Err(Error::Shutdown(actor_path, String::from_str("Unreachable ActorPath"))),
            ),
        },
        Event::RequestServiceTree => match target {
            Some(scope_id) => Route::LookupService { scope_id },
            None => Route::Reply(Err(Error::ServiceTree(String::from_str("Unreachable ActorPath")))),
        },
        Event::Cast(message) => match target {
            Some(scope_id) => Route::Cast { scope_id, message, actor_path },
            None => Route::Reply(
                Err(Error::Cast(actor_path, message, String::from_str("Unreachable ActorPath"))),
            ),
        },
        Event::Call(_) => Route::Nothing,
    }
}

/// The reply to a shutdown of the scope under `actor_path`, given how it went (`Err` with the
/// runtime's reason).
pub fn shutdown_reply(actor_path: ActorPath, outcome: Result<(), String>) -> (r: ResponseResult)
    ensures
        match outcome {
            Ok(()) => r == Ok::<Response, Error>(Response::Shutdown(actor_path)),
            Err(e) => r == Err::<Response, Error>(Error::Shutdown(actor_path, e)),
        },
        reply_view(r) == shutdown_view(actor_path, outcome_view(outcome)),
{
    match outcome {
        Ok(()) => Ok(Response::Shutdown(actor_path)),
        Err(e) => Err(Error::Shutdown(actor_path, e)),
    }
}

/// The reply to a service lookup, given the service found, if any.
pub fn lookup_reply(found: Option<Service>) -> (r: ResponseResult)
    ensures
        match found {
            Some(s) => r == Ok::<Response, Error>(Response::ServiceTree(s)),
            None => r matches Err(Error::ServiceTree(e)) && e@ == service_not_available(),
        },
        reply_view(r) == lookup_view(found),
{
    match found {
        Some(service) => Ok(Response::ServiceTree(service)),
        None => Err(Error::ServiceTree(String::from_str("Service not available"))),
    }
}

/// The reply to a cast of `message` to the scope under `actor_path`, given how the send went
/// (`Err` with the runtime's reason).
pub fn cast_reply(actor_path: ActorPath, message: RouteMessage, outcome: Result<(), String>) -> (r:
    ResponseResult)
    ensures
        match outcome {
            Ok(()) => r == Ok::<Response, Error>(Response::Sent(message)),
            Err(e) => r == Err::<Response, Error>(Error::Cast(actor_path, message, e)),
        },
        reply_view(r) == cast_view(actor_path, message, outcome_view(outcome)),
{
    match outcome {
        Ok(()) => Ok(Response::Sent(message)),
        Err(e) => Err(Error::Cast(actor_path, message, e)),
    }
}

// ---------------------------------------------------------------------------------------
// The replies over a whole connection.

/// A reply as the client reads it, each reason taken as its characters.
pub enum ReplyView {
    /// The request succeeded with this response.
    Success(Response),
    /// Shutting down the actor under the path failed, for the reason.
    ShutdownFailed(ActorPath, Seq<char>),
    /// Casting the message to the path failed, for the reason.
    CastFailed(ActorPath, RouteMessage, Seq<char>),
    /// Calling the path with the message failed, for the reason.
    CallFailed(ActorPath, RouteMessage, Seq<char>),
    /// The service could not be fetched, for the reason.
    ServiceTreeFailed(Seq<char>),
}

/// The reply `r` as the client reads it.
pub open spec fn reply_view(r: ResponseResult) -> ReplyView {
    match r {
        Ok(response) => ReplyView::Success(response),
        Err(Error::Shutdown(p, e)) => ReplyView::ShutdownFailed(p, e@),
        Err(Error::Cast(p, m, e)) => ReplyView::CastFailed(p, m, e@),
        Err(Error::Call(p, m, e)) => ReplyView::CallFailed(p, m, e@),
        Err(Error::ServiceTree(e)) => ReplyView::ServiceTreeFailed(e@),
    }
}

/// The runtime's answer to a shutdown or a send, its reason taken as its characters.
pub open spec fn outcome_view(outcome: Result<(), String>) -> Result<(), Seq<char>> {
    match outcome {
        Ok(()) => Ok(()),
        Err(e) => Err(e@),
    }
}

/// The reply to a shutdown of the scope under `actor_path` that went as `outcome` says.
pub open spec fn shutdown_view(actor_path: ActorPath, outcome: Result<(), Seq<char>>) -> ReplyView {
    match outcome {
        Ok(()) => ReplyView::Success(Response::Shutdown(actor_path)),
        Err(e) => ReplyView::ShutdownFailed(actor_path, e),
    }
}

/// The reply to a service lookup that found `found`.
pub open spec fn lookup_view(found: Option<Service>) -> ReplyView {
    match found {
        Some(s) => ReplyView::Success(Response::ServiceTree(s)),
        None => ReplyView::ServiceTreeFailed(service_not_available()),
    }
}

/// The reply to a cast of `message` to the scope under `actor_path` that went as `outcome`
/// says.
pub open spec fn cast_view(actor_path: ActorPath, message: RouteMessage, outcome: Result<(), Seq<char>>) -> ReplyView {
    match outcome {
        Ok(()) => ReplyView::Success(Response::Sent(message)),
        Err(e) => ReplyView::CastFailed(actor_path, message, e),
    }
}

/// The reply that the receiver sends for the route `r`, given the runtime's answers: to a
/// shutdown (`shut`), to a lookup (`found`) and to a send (`sent`); none for a call.
pub open spec fn route_reply(
    r: Route,
    shut: Result<(), Seq<char>>,
    found: Option<Service>,
    sent: Result<(), Seq<char>>,
) -> Option<ReplyView> {
    match r {
        Route::ShutdownScope { actor_path, .. } => Some(shutdown_view(actor_path, shut)),
        Route::LookupService { .. } => Some(lookup_view(found)),
        Route::Cast { message, actor_path, .. } => Some(cast_view(actor_path, message, sent)),
        Route::Reply(result) => Some(reply_view(result)),
        Route::Nothing => None,
    }
}

/// The reply that the request `interface` gets, given the scope its path leads to and the
/// runtime's answers: a shutdown is reported done or failed with the runtime's reason; a service
/// lookup gives the service or says that it is not available; a cast gives back the message or
/// fails with the runtime's reason; a path that leads nowhere fails as unreachable; a call gets
/// no reply.
pub open spec fn expected_reply(
    interface: Interface,
    target: Option<ScopeId>,
    shut: Result<(), Seq<char>>,
    found: Option<Service>,
    sent: Result<(), Seq<char>>,
) -> Option<ReplyView> {
    let p = interface.actor_path;
    match (interface.event, target) {
        (Event::Shutdown, Some(_)) => Some(
            match shut {
                Ok(()) => ReplyView::Success(Response::Shutdown(p)),
                Err(e) => ReplyView::ShutdownFailed(p, e),
            },
        ),
        (Event::Shutdown, None) => Some(ReplyView::ShutdownFailed(p, unreachable_path())),
        (Event::RequestServiceTree, Some(_)) => Some(
            match found {
                Some(s) => ReplyView::Success(Response::ServiceTree(s)),
                None => ReplyView::ServiceTreeFailed(service_not_available()),
            },
        ),
        (Event::RequestServiceTree, None) => Some(ReplyView::ServiceTreeFailed(unreachable_path())),
        (Event::Cast(m), Some(_)) => Some(
            match sent {
                Ok(()) => ReplyView::Success(Response::Sent(m)),
                Err(e) => ReplyView::CastFailed(p, m, e),
            },
        ),
        (Event::Cast(m), None) => Some(ReplyView::CastFailed(p, m, unreachable_path())),
        (Event::Call(_), _) => None,
    }
}

/// What the runtime answered while the receiver handled the item at each position of an inbox:
/// the request that the item's text parsed to (`None` when it did not parse), the scope that the
/// request's path led to, and the answers to a shutdown, a lookup and a send.
pub struct RuntimeAnswers {
    /// The request parsed from the text at each position.
    pub parsed: spec_fn(int) -> Option<Interface>,
    /// The scope that the path of the request at each position led to.
    pub target: spec_fn(int) -> Option<ScopeId>,
    /// The answer to a shutdown asked at each position.
    pub shut: spec_fn(int) -> Result<(), Seq<char>>,
    /// The service found by a lookup asked at each position.
    pub found: spec_fn(int) -> Option<Service>,
    /// The answer to a send asked at each position.
    pub sent: spec_fn(int) -> Result<(), Seq<char>>,
}

/// The replies that the receiver sends over the items of `inbox` from position `from` on, given
/// the routes it took (`routes`) and the runtime's answers: it acts on each item as `on_message`
/// says, stops at the first close or error, and for each text that parsed sends the reply of its
/// route.
pub open spec fn receiver_replies(
    inbox: Seq<WsMessage>,
    from: nat,
    routes: spec_fn(int) -> Route,
    answers: RuntimeAnswers,
) -> Seq<ReplyView>
    decreases inbox.len() - from,
{
    if from >= inbox.len() {
        Seq::empty()
    } else {
        let i = from as int;
        let rest = receiver_replies(inbox, from + 1, routes, answers);
        match spec_on_message(inbox[i]) {
            MessageAction::Stop => Seq::empty(),
            MessageAction::Skip => rest,
            MessageAction::Handle(_) => match (answers.parsed)(i) {
                None => rest,
                Some(_) => match route_reply(routes(i), (answers.shut)(i), (answers.found)(i), (answers.sent)(i)) {
                    Some(v) => seq![v] + rest,
                    None => rest,
                },
            },
        }
    }
}

/// The item at position `i` is a text that parsed to a request other than a call.
pub open spec fn answered_at(inbox: Seq<WsMessage>, answers: RuntimeAnswers, i: int) -> bool {
    &&& inbox[i] is Text
    &&& (answers.parsed)(i) is Some
    &&& !((answers.parsed)(i).unwrap().event is Call)
}

/// The positions, in increasing order, of the items before the first close or error that are
/// texts parsed to a request other than a call.
pub open spec fn answered_positions(inbox: Seq<WsMessage>, answers: RuntimeAnswers) -> Seq<int> {
    positions(0, first_stop(inbox)).filter(|i: int| answered_at(inbox, answers, i))
}

/// The positions `from`, `from + 1`, ..., `from + n - 1`.
pub open spec fn positions(from: int, n: nat) -> Seq<int> {
    Seq::new(n, |k: int| from + k)
}

/// The reply that the request at position `i` gets.
pub open spec fn expected_at(answers: RuntimeAnswers, i: int) -> ReplyView {
    expected_reply(
        (answers.parsed)(i).unwrap(),
        (answers.target)(i),
        (answers.shut)(i),
        (answers.found)(i),
        (answers.sent)(i),
    ).unwrap()
}

/// The route `r` taken for `interface` leads to the reply that the request should get, whatever
/// the runtime answers.
pub proof fn lemma_route_reply(
    interface: Interface,
    target: Option<ScopeId>,
    r: Route,
    shut: Result<(), Seq<char>>,
    found: Option<Service>,
    sent: Result<(), Seq<char>>,
)
    requires
        is_route(interface, target, r),
    ensures
        route_reply(r, shut, found, sent) == expected_reply(interface, target, shut, found, sent),
{
}

/// Over a whole connection, when each text read that parsed was routed by `route`, the receiver
/// sends one reply per shutdown, service-tree or cast request before the first close or error, in
/// the order of the requests, each the reply that `expected_reply` gives; it sends nothing for a
/// call, for a text that does not parse, for any other message, or for anything after the first
/// close or error (which, by `lemma_inbox`, it never reads).
pub proof fn lemma_connection_replies(
    inbox: Seq<WsMessage>,
    routes: spec_fn(int) -> Route,
    answers: RuntimeAnswers,
)
    requires
        forall|i: int|
            0 <= i < first_stop(inbox) && inbox[i] is Text && (#[trigger] (answers.parsed)(i)) is Some
                ==> is_route((answers.parsed)(i).unwrap(), (answers.target)(i), routes(i)),
    ensures
        receiver_replies(inbox, 0, routes, answers) == answered_positions(inbox, answers).map_values(
            |i: int| expected_at(answers, i),
        ),
{
    lemma_inbox(inbox);
    lemma_replies_from(inbox, 0, routes, answers);
}

proof fn lemma_replies_from(inbox: Seq<WsMessage>, from: nat, routes: spec_fn(int) -> Route, answers: RuntimeAnswers)
    requires
        from <= first_stop(inbox) <= inbox.len(),
        forall|i: int| 0 <= i < first_stop(inbox) ==> !stops(#[trigger] inbox[i]),
        first_stop(inbox) < inbox.len() ==> stops(inbox[first_stop(inbox) as int]),
        forall|i: int|
            0 <= i < first_stop(inbox) && inbox[i] is Text && (#[trigger] (answers.parsed)(i)) is Some
                ==> is_route((answers.parsed)(i).unwrap(), (answers.target)(i), routes(i)),
    ensures
        receiver_replies(inbox, from, routes, answers) == positions(from as int, (first_stop(inbox) - from) as nat).filter(
            |i: int| answered_at(inbox, answers, i),
        ).map_values(|i: int| expected_at(answers, i)),
    decreases first_stop(inbox) - from,
{
    let p = |i: int| answered_at(inbox, answers, i);
    let f = |i: int| expected_at(answers, i);
    let n = (first_stop(inbox) - from) as nat;
    if n == 0 {
        assert(positions(from as int, n) =~= Seq::<int>::empty());
        assert(Seq::<int>::empty().filter(p) =~= Seq::<int>::empty()) by {
            reveal_with_fuel(Seq::filter, 1);
        }
        assert(Seq::<int>::empty().map_values(f) =~= Seq::<ReplyView>::empty());
    } else {
        let i = from as int;
        lemma_replies_from(inbox, from + 1, routes, answers);
        assert(positions(i, n) =~= seq![i] + positions(i + 1, (n - 1) as nat));
        lemma_filter_map_prepend(i, positions(i + 1, (n - 1) as nat), p, f);
        assert(!stops(inbox[i]));
        if inbox[i] is Text && (answers.parsed)(i) is Some {
            lemma_route_reply(
                (answers.parsed)(i).unwrap(),
                (answers.target)(i),
                routes(i),
                (answers.shut)(i),
                (answers.found)(i),
                (answers.sent)(i),
            );
        }
    }
}

proof fn lemma_filter_map_prepend<A, B>(a: A, rest: Seq<A>, p: spec_fn(A) -> bool, f: spec_fn(A) -> B)
    ensures
        (seq![a] + rest).filter(p).map_values(f) == if p(a) {
            seq![f(a)] + rest.filter(p).map_values(f)
        } else {
            rest.filter(p).map_values(f)
        },
{
    Seq::filter_distributes_over_add(seq![a], rest, p);
    reveal_with_fuel(Seq::filter, 2);
    assert(seq![a].drop_last() =~= Seq::<A>::empty());
    if p(a) {
        assert(seq![a].filter(p) =~= seq![a]);
        assert((seq![a] + rest.filter(p)).map_values(f) =~= seq![f(a)] + rest.filter(p).map_values(f));
    } else {
        assert(seq![a].filter(p) =~= Seq::<A>::empty());
        assert(Seq::<A>::empty() + rest.filter(p) =~= rest.filter(p));
    }
}

} // verus!
