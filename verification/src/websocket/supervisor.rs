//! The decisions of the websocket supervisor: it accepts connections, keeps track of the
//! services of its children, and stops once asked to and all of them have stopped.
use vstd::prelude::*;

use super::ScopeId;
use crate::actor::{Service, ServiceStatus};

verus! {

#[verifier::external_type_specification]
#[verifier::external_body]
pub struct ExTcpStream(tokio::net::TcpStream);

/// An event of the websocket supervisor; `R` is the result with which a child's life ended.
pub enum WebsocketEvent<R> {
    /// Stop.
    Shutdown,
    /// A child reported its service; the result is present once the child's life ended.
    Microservice(ScopeId, Service, Option<R>),
    /// A new connection from the listener.
    TcpStream(tokio::net::TcpStream),
}

impl<R> WebsocketEvent<R> {
    /// The report of a child's service, while the child lives.
    pub fn report_event(scope_id: ScopeId, service: Service) -> (r: Self)
        ensures
            r == WebsocketEvent::<R>::Microservice(scope_id, service, None),
    {
        WebsocketEvent::Microservice(scope_id, service, None)
    }

    /// The report of a child's service at the end of its life, with the result it ended with.
    pub fn eol_event(scope_id: ScopeId, service: Service, result: R) -> (r: Self)
        ensures
            r == WebsocketEvent::<R>::Microservice(scope_id, service, Some(result)),
    {
        WebsocketEvent::Microservice(scope_id, service, Some(result))
    }

    /// The stop request.
    pub fn shutdown_event() -> (r: Self)
        ensures
            r is Shutdown,
    {
        WebsocketEvent::Shutdown
    }
}

/// What the supervisor does with an event.
pub enum WebsocketAction {
    /// Ask all children to stop.
    StopChildren,
    /// Upgrade the connection to a websocket and spawn its sender and receiver.
    Accept(tokio::net::TcpStream),
    /// Forget the stopped child of this scope.
    RemoveMicroservice(ScopeId),
    /// Record the service of the child of this scope.
    UpsertMicroservice(ScopeId, Service),
}

/// A stop request stops the children; a connection is accepted; a child's service is forgotten
/// once the child is stopped and recorded otherwise.
pub fn websocket_step<R>(event: WebsocketEvent<R>) -> (r: WebsocketAction)
    ensures
        match event {
            WebsocketEvent::Shutdown => r is StopChildren,
            WebsocketEvent::TcpStream(s) => r == WebsocketAction::Accept(s),
            WebsocketEvent::Microservice(id, service, _) => if service.status == ServiceStatus::Stopped {
                r == WebsocketAction::RemoveMicroservice(id)
            } else {
                r == WebsocketAction::UpsertMicroservice(id, service)
            },
        },
{
    match event {
        WebsocketEvent::Shutdown => WebsocketAction::StopChildren,
        WebsocketEvent::TcpStream(stream) => WebsocketAction::Accept(stream),
        WebsocketEvent::Microservice(scope_id, service, _result) => {
            if service.is_stopped() {
                WebsocketAction::RemoveMicroservice(scope_id)
            } else {
                WebsocketAction::UpsertMicroservice(scope_id, service)
            }
        },
    }
}

/// Whether the supervisor's loop ends after `action` once all its children have stopped:
/// after every action but accepting a connection.
pub fn ends_when_stopped(action: &WebsocketAction) -> (r: bool)
    ensures
        r == !(action is Accept),
{
    match action {
        WebsocketAction::Accept(_) => false,
        _ => true,
    }
}

/// The name of the sender of the connection from `peer`: `Sender@` and the peer.
pub fn sender_name(peer: &str) -> (r: String)
    ensures
        r@ == "Sender@"@ + peer@,
{
    String::from_str("Sender@").concat(peer)
}

/// The name of the receiver of the connection from `peer`: `Receiver@` and the peer.
pub fn receiver_name(peer: &str) -> (r: String)
    ensures
        r@ == "Receiver@"@ + peer@,
{
    String::from_str("Receiver@").concat(peer)
}

} // verus!
