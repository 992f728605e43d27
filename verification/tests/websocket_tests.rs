use backstage::actor::{Service, ServiceStatus};
use backstage::websocket::receiver::{cast_reply, lookup_reply, on_message, route, shutdown_reply, MessageAction, Route, WebsocketReceiver, WsMessage};
use backstage::websocket::supervisor::{ends_when_stopped, receiver_name, sender_name, websocket_step, WebsocketAction, WebsocketEvent};
use backstage::websocket::{ActorPath, Error, Event, Interface, Response, ResponseResult, RouteMessage, Scope, ScopeTable};

fn table() -> ScopeTable {
    let mut scopes = std::collections::HashMap::new();
    scopes.insert(0, Scope { active_directories: vec![("apps".to_string(), 1), ("ws".to_string(), 2)] });
    scopes.insert(1, Scope { active_directories: vec![("broker".to_string(), 3), ("broker".to_string(), 99)] });
    scopes.insert(2, Scope { active_directories: vec![] });
    ScopeTable { scopes }
}

#[test]
fn destination_follows_directories() {
    let t = table();
    assert_eq!(ActorPath::new().destination(&t), Some(0));
    assert_eq!(ActorPath::with_scope_id(5).destination(&t), Some(5));
    assert_eq!(ActorPath::new().push("apps".to_string()).destination(&t), Some(1));
    assert_eq!(ActorPath::new().push("apps".to_string()).push("broker".to_string()).destination(&t), Some(3));
    assert_eq!(ActorPath::new().push("ws".to_string()).destination(&t), Some(2));
}

#[test]
fn destination_of_missing_scope_or_directory() {
    let t = table();
    assert_eq!(ActorPath::new().push("nowhere".to_string()).destination(&t), None);
    assert_eq!(ActorPath::new().push("ws".to_string()).push("x".to_string()).destination(&t), None);
    assert_eq!(ActorPath::with_scope_id(3).push("broker".to_string()).destination(&t), None);
}

#[test]
fn destination_push_is_one_more_hop() {
    let t = table();
    let base = ActorPath::new().push("apps".to_string());
    let reached = base.destination(&t).unwrap();
    assert_eq!(t.hop(reached, &"broker".to_string()), Some(3));
    assert_eq!(base.push("broker".to_string()).destination(&t), Some(3));
}

#[test]
fn event_constructors() {
    assert!(matches!(Event::shutdown(), Event::Shutdown));
    assert!(matches!(Event::service(), Event::RequestServiceTree));
    match Event::cast("hello".to_string()) {
        Event::Cast(RouteMessage(m)) => assert_eq!(m, "hello"),
        _ => panic!("expected a cast"),
    }
    let s: String = RouteMessage("text".to_string()).into();
    assert_eq!(s, "text");
}

#[test]
fn messages_are_handled_stopped_or_skipped() {
    match on_message(WsMessage::Text("{}".to_string())) {
        MessageAction::Handle(t) => assert_eq!(t, "{}"),
        _ => panic!("expected handling"),
    }
    assert!(matches!(on_message(WsMessage::Close), MessageAction::Stop));
    assert!(matches!(on_message(WsMessage::Other), MessageAction::Skip));
    assert!(matches!(on_message(WsMessage::Failed), MessageAction::Stop));
}

#[test]
fn inbox_is_read_up_to_the_first_close() {
    let inbox = vec![
        WsMessage::Text("a".to_string()),
        WsMessage::Other,
        WsMessage::Text("b".to_string()),
        WsMessage::Close,
        WsMessage::Text("never".to_string()),
    ];
    let mut handled = Vec::new();
    let mut read = 0;
    for item in inbox {
        read += 1;
        match on_message(item) {
            MessageAction::Handle(t) => handled.push(t),
            MessageAction::Skip => {}
            MessageAction::Stop => break,
        }
    }
    assert_eq!(read, 4);
    assert_eq!(handled, vec!["a".to_string(), "b".to_string()]);
}

#[test]
fn default_actor_path_is_the_root() {
    let t = table();
    assert_eq!(ActorPath::default().destination(&t), Some(0));
    assert_eq!(ActorPath::default().root_scope(), 0);
    assert!(ActorPath::default().directory_names().is_empty());
    assert_eq!(ActorPath::new().root_scope(), ActorPath::with_scope_id(0).root_scope());
}

fn path() -> ActorPath {
    ActorPath::new().push("apps".to_string())
}

#[test]
fn reachable_requests_go_to_the_runtime() {
    assert!(matches!(route(Interface::new(path(), Event::shutdown()), Some(4)), Route::ShutdownScope { scope_id: 4, .. }));
    assert!(matches!(route(Interface::new(path(), Event::service()), Some(4)), Route::LookupService { scope_id: 4 }));
    match route(Interface::new(path(), Event::cast("m".to_string())), Some(4)) {
        Route::Cast { scope_id, message, .. } => {
            assert_eq!(scope_id, 4);
            assert_eq!(message.0, "m");
        }
        _ => panic!("expected a cast"),
    }
    assert!(matches!(route(Interface::new(path(), Event::Call(RouteMessage("c".to_string()))), Some(4)), Route::Nothing));
    assert!(matches!(route(Interface::new(path(), Event::Call(RouteMessage("c".to_string()))), None), Route::Nothing));
}

#[test]
fn unreachable_requests_are_answered_right_away() {
    match route(Interface::new(path(), Event::shutdown()), None) {
        Route::Reply(Err(Error::Shutdown(_, e))) => assert_eq!(e, "Unreachable ActorPath"),
        _ => panic!("expected an error reply"),
    }
    match route(Interface::new(path(), Event::service()), None) {
        Route::Reply(Err(Error::ServiceTree(e))) => assert_eq!(e, "Unreachable ActorPath"),
        _ => panic!("expected an error reply"),
    }
    match route(Interface::new(path(), Event::cast("m".to_string())), None) {
        Route::Reply(Err(Error::Cast(_, m, e))) => {
            assert_eq!(m.0, "m");
            assert_eq!(e, "Unreachable ActorPath");
        }
        _ => panic!("expected an error reply"),
    }
}

#[test]
fn replies_after_the_runtime_answered() {
    assert!(matches!(shutdown_reply(path(), Ok(())), Ok(Response::Shutdown(_))));
    match shutdown_reply(path(), Err("busy".to_string())) {
        Err(Error::Shutdown(_, e)) => assert_eq!(e, "busy"),
        _ => panic!("expected an error"),
    }
    match lookup_reply(Some(Service::new().set_name("svc".to_string()))) {
        Ok(Response::ServiceTree(s)) => assert_eq!(s.name, "svc"),
        _ => panic!("expected the service tree"),
    }
    match lookup_reply(None) {
        Err(Error::ServiceTree(e)) => assert_eq!(e, "Service not available"),
        _ => panic!("expected an error"),
    }
    match cast_reply(path(), RouteMessage("m".to_string()), Ok(())) {
        Ok(Response::Sent(m)) => assert_eq!(m.0, "m"),
        _ => panic!("expected sent"),
    }
    match cast_reply(path(), RouteMessage("m".to_string()), Err("closed".to_string())) {
        Err(Error::Cast(_, m, e)) => {
            assert_eq!(m.0, "m");
            assert_eq!(e, "closed");
        }
        _ => panic!("expected an error"),
    }
}

#[test]
fn supervisor_decisions() {
    assert!(matches!(websocket_step::<()>(WebsocketEvent::Shutdown), WebsocketAction::StopChildren));
    let stopped = Service::new().set_status(ServiceStatus::Stopped);
    assert!(matches!(websocket_step::<()>(WebsocketEvent::Microservice(3, stopped, None)), WebsocketAction::RemoveMicroservice(3)));
    let running = Service::new().set_status(ServiceStatus::Running).set_name("r".to_string());
    match websocket_step(WebsocketEvent::Microservice(4, running, Some(()))) {
        WebsocketAction::UpsertMicroservice(4, s) => assert_eq!(s.name, "r"),
        _ => panic!("expected an upsert"),
    }
    assert!(ends_when_stopped(&WebsocketAction::StopChildren));
    assert!(ends_when_stopped(&WebsocketAction::RemoveMicroservice(1)));
    assert!(ends_when_stopped(&WebsocketAction::UpsertMicroservice(1, Service::new())));
    assert_eq!(sender_name("127.0.0.1:80"), "Sender@127.0.0.1:80");
    assert_eq!(receiver_name("127.0.0.1:80"), "Receiver@127.0.0.1:80");
}

#[test]
fn supervisor_event_constructors() {
    assert!(matches!(WebsocketEvent::<u8>::shutdown_event(), WebsocketEvent::Shutdown));
    match WebsocketEvent::<u8>::report_event(2, Service::new().set_name("a".to_string())) {
        WebsocketEvent::Microservice(2, s, None) => assert_eq!(s.name, "a"),
        _ => panic!("expected a report"),
    }
    match WebsocketEvent::eol_event(3, Service::new(), 9u8) {
        WebsocketEvent::Microservice(3, _, Some(9)) => {}
        _ => panic!("expected an end-of-life report"),
    }
}

#[test]
fn receiver_channel_is_built_once() {
    let mut receiver = WebsocketReceiver::new(vec![1u8, 2], "sender");
    assert_eq!(*receiver.sender_handle(), "sender");
    assert_eq!(receiver.build_channel(), Some(vec![1u8, 2]));
    assert_eq!(receiver.build_channel(), None);
    assert_eq!(*receiver.sender_handle(), "sender");
}

fn summary(r: &ResponseResult) -> String {
    match r {
        Ok(Response::Shutdown(_)) => "shutdown".to_string(),
        Ok(Response::Sent(m)) => format!("sent {}", m.0),
        Ok(Response::Response(m)) => format!("response {}", m.0),
        Ok(Response::ServiceTree(s)) => format!("service {}", s.name),
        Err(Error::Shutdown(_, e)) => format!("shutdown failed: {}", e),
        Err(Error::Cast(_, m, e)) => format!("cast {} failed: {}", m.0, e),
        Err(Error::Call(_, m, e)) => format!("call {} failed: {}", m.0, e),
        Err(Error::ServiceTree(e)) => format!("service failed: {}", e),
    }
}

#[test]
fn connection_replies_one_per_request_in_order() {
    // Each text names the request it parses to; "bad" does not parse.
    let inbox = vec![
        WsMessage::Text("cast-ok".to_string()),
        WsMessage::Other,
        WsMessage::Text("bad".to_string()),
        WsMessage::Text("call".to_string()),
        WsMessage::Text("shutdown-unreachable".to_string()),
        WsMessage::Text("service".to_string()),
        WsMessage::Text("cast-fails".to_string()),
        WsMessage::Failed,
        WsMessage::Text("shutdown".to_string()),
    ];
    let parse = |text: &str| -> Option<(Interface, Option<usize>)> {
        match text {
            "cast-ok" => Some((Interface::new(path(), Event::cast("a".to_string())), Some(1))),
            "call" => Some((Interface::new(path(), Event::Call(RouteMessage("c".to_string()))), Some(1))),
            "shutdown-unreachable" => Some((Interface::new(path(), Event::shutdown()), None)),
            "service" => Some((Interface::new(path(), Event::service()), Some(2))),
            "cast-fails" => Some((Interface::new(path(), Event::cast("b".to_string())), Some(3))),
            "shutdown" => Some((Interface::new(path(), Event::shutdown()), Some(1))),
            _ => None,
        }
    };
    let mut replies = Vec::new();
    let mut read = 0;
    for item in inbox {
        read += 1;
        match on_message(item) {
            MessageAction::Handle(text) => {
                if let Some((interface, target)) = parse(&text) {
                    match route(interface, target) {
                        Route::ShutdownScope { actor_path, .. } => replies.push(shutdown_reply(actor_path, Ok(()))),
                        Route::LookupService { .. } => replies.push(lookup_reply(None)),
                        Route::Cast { scope_id, message, actor_path } => {
                            let outcome = if scope_id == 1 { Ok(()) } else { Err("closed".to_string()) };
                            replies.push(cast_reply(actor_path, message, outcome));
                        }
                        Route::Reply(result) => replies.push(result),
                        Route::Nothing => {}
                    }
                }
            }
            MessageAction::Skip => {}
            MessageAction::Stop => break,
        }
    }
    assert_eq!(read, 8);
    let got: Vec<String> = replies.iter().map(summary).collect();
    assert_eq!(
        got,
        vec![
            "sent a".to_string(),
            "shutdown failed: Unreachable ActorPath".to_string(),
            "service failed: Service not available".to_string(),
            "cast b failed: closed".to_string(),
        ]
    );
}
