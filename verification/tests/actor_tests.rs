use backstage::actor::launcher::{abort_order, after_status_reply, launcher_handle, launcher_init, launcher_run, launcher_teardown};
use backstage::actor::lifecycle::{Interruption, Lifecycle, LifecycleAction, LifecycleEvent, LoopOutcome, Phase, StartMode};
use backstage::actor::{AddressBook, Event, LauncherAction, Mailbox, Need, Registry, ResultSource, Service, ServiceStatus};

fn ok() -> Result<(), Need> {
    Ok(())
}

fn is_init(r: &ResultSource, want_ok: bool) -> bool {
    match r {
        ResultSource::Init(res) => res.is_ok() == want_ok,
        _ => false,
    }
}

fn run(mode: StartMode, init: Result<(), Need>, outcome: LoopOutcome, teardown: Result<(), Need>) -> (Vec<LifecycleAction>, ResultSource) {
    let mut lc = Lifecycle::new(mode);
    let mut actions = Vec::new();
    let a = lc.step(LifecycleEvent::InitDone(init));
    let run_loop = matches!(a, LifecycleAction::RunEventLoop);
    actions.push(a);
    if run_loop {
        actions.push(lc.step(LifecycleEvent::LoopDone(outcome)));
    }
    let last = lc.step(LifecycleEvent::TeardownDone(teardown));
    actions.push(last);
    let result = match last {
        LifecycleAction::Finish(r) => r,
        _ => panic!("the run did not finish"),
    };
    match lc.phase {
        Phase::Finished(_) => {}
        _ => panic!("the run is not finished"),
    }
    (actions, result)
}

fn teardown_count(actions: &[LifecycleAction]) -> usize {
    actions.iter().filter(|a| matches!(a, LifecycleAction::RunTeardown { .. })).count()
}

#[test]
fn plain_start_all_stages_succeed() {
    let (actions, result) = run(StartMode::Plain, ok(), LoopOutcome::Returned(ok()), Err(Need::Restart));
    assert_eq!(actions.len(), 3);
    assert!(matches!(actions[0], LifecycleAction::RunEventLoop));
    assert!(matches!(
        actions[1],
        LifecycleAction::RunTeardown { status: ResultSource::Loop(Ok(())), interruption: Interruption::Completed }
    ));
    assert!(matches!(result, ResultSource::Teardown(Err(Need::Restart))));
    assert_eq!(teardown_count(&actions), 1);
}

#[test]
fn failed_init_skips_event_loop() {
    let (actions, result) = run(StartMode::Plain, Err(Need::Abort), LoopOutcome::Returned(ok()), ok());
    assert_eq!(actions.len(), 2);
    assert!(matches!(
        actions[0],
        LifecycleAction::RunTeardown { status: ResultSource::Init(Err(Need::Abort)), interruption: Interruption::Completed }
    ));
    assert!(matches!(result, ResultSource::Init(Err(Need::Abort))));
    assert_eq!(teardown_count(&actions), 1);
}

#[test]
fn plain_start_loop_failure_is_reported() {
    let (actions, result) = run(StartMode::Plain, ok(), LoopOutcome::Returned(Err(Need::Restart)), ok());
    assert!(matches!(actions[1], LifecycleAction::RunTeardown { status: ResultSource::Loop(Err(Need::Restart)), .. }));
    assert!(matches!(result, ResultSource::Loop(Err(Need::Restart))));
}

#[test]
fn abortable_start_loop_failure_keeps_init_source() {
    let (actions, result) = run(StartMode::Abortable, ok(), LoopOutcome::Returned(Err(Need::Restart)), Err(Need::Abort));
    assert!(matches!(actions[1], LifecycleAction::RunTeardown { status: ResultSource::Init(Ok(())), .. }));
    assert!(is_init(&result, true));
}

#[test]
fn aborted_loop_ends_with_abort() {
    let (actions, result) = run(StartMode::Abortable, ok(), LoopOutcome::Aborted, ok());
    assert!(matches!(
        actions[1],
        LifecycleAction::RunTeardown { status: ResultSource::Loop(Err(Need::Abort)), interruption: Interruption::Aborted }
    ));
    assert!(matches!(result, ResultSource::Loop(Err(Need::Abort))));
    assert_eq!(teardown_count(&actions), 1);
}

#[test]
fn timed_out_loop_ends_with_abort() {
    let (actions, result) = run(StartMode::Timeout, ok(), LoopOutcome::TimedOut, Err(Need::Restart));
    assert!(matches!(
        actions[1],
        LifecycleAction::RunTeardown { status: ResultSource::Loop(Err(Need::Abort)), interruption: Interruption::TimedOut }
    ));
    assert!(matches!(result, ResultSource::Loop(Err(Need::Abort))));
}

#[test]
fn timeout_start_success_keeps_teardown_result() {
    let (_actions, result) = run(StartMode::Timeout, ok(), LoopOutcome::Returned(ok()), ok());
    assert!(matches!(result, ResultSource::Teardown(Ok(()))));
}

#[test]
fn reschedule_need_is_carried_through() {
    let need = Need::RescheduleAfter(std::time::Duration::from_millis(250));
    let (_actions, result) = run(StartMode::Plain, Err(need), LoopOutcome::Returned(ok()), ok());
    match result {
        ResultSource::Init(Err(Need::RescheduleAfter(d))) => assert_eq!(d, std::time::Duration::from_millis(250)),
        _ => panic!("unexpected result"),
    }
}

#[test]
fn new_service_defaults() {
    let s = Service::new();
    assert_eq!(s.status, ServiceStatus::Starting);
    assert_eq!(s.name, "");
    assert_eq!(s.downtime_ms, 0);
    assert_eq!(s.microservices.len(), 0);
    assert!(s.log_path.is_none());
    let d = Service::default();
    assert_eq!(d.status, ServiceStatus::Starting);
    assert_eq!(d.microservices.len(), 0);
}

#[test]
fn service_new_at_given_instant() {
    let t = std::time::UNIX_EPOCH + std::time::Duration::from_secs(1_000);
    let s = Service::new_at(t);
    assert_eq!(s.up_since, t);
    assert_eq!(s.status, ServiceStatus::Starting);
    assert_eq!(s.name, "");
    assert_eq!(s.downtime_ms, 0);
    assert_eq!(s.microservices.len(), 0);
    assert!(s.log_path.is_none());
}

#[test]
fn service_builders() {
    let s = Service::new()
        .set_name("chronicle".to_string())
        .set_status(ServiceStatus::Running)
        .set_downtime_ms(42)
        .set_log("/var/log/app.log".to_string());
    assert_eq!(s.get_name(), "chronicle");
    assert!(s.is_running());
    assert_eq!(*s.service_status(), ServiceStatus::Running);
    assert_eq!(s.downtime_ms, 42);
    assert_eq!(s.log_path.as_deref(), Some("/var/log/app.log"));
}

#[test]
fn service_status_predicates() {
    let mut s = Service::new();
    let all = [
        ServiceStatus::Starting,
        ServiceStatus::Initializing,
        ServiceStatus::Degraded,
        ServiceStatus::Running,
        ServiceStatus::Stopping,
        ServiceStatus::Maintenance,
        ServiceStatus::Stopped,
    ];
    for st in all.iter() {
        s.update_status(st.clone());
        assert_eq!(s.is_initializing(), *st == ServiceStatus::Initializing);
        assert_eq!(s.is_degraded(), *st == ServiceStatus::Degraded);
        assert_eq!(s.is_running(), *st == ServiceStatus::Running);
        assert_eq!(s.is_stopping(), *st == ServiceStatus::Stopping);
        assert_eq!(s.is_maintenance(), *st == ServiceStatus::Maintenance);
        assert_eq!(s.is_stopped(), *st == ServiceStatus::Stopped);
    }
    s.update_name("renamed".to_string());
    assert_eq!(s.get_name(), "renamed");
}

#[test]
fn microservices_update_replace_status_delete() {
    let mut s = Service::new();
    s.update_microservice("a".to_string(), Service::new().set_name("first".to_string()));
    s.update_microservice("b".to_string(), Service::new());
    assert_eq!(s.microservices.len(), 2);
    s.update_microservice("a".to_string(), Service::new().set_name("second".to_string()));
    assert_eq!(s.microservices.len(), 2);
    assert_eq!(s.microservices.get(&"a".to_string()).unwrap().name, "second");
    s.update_microservice_status("a", ServiceStatus::Degraded);
    assert_eq!(s.microservices.get(&"a".to_string()).unwrap().status, ServiceStatus::Degraded);
    assert_eq!(s.microservices.get(&"a".to_string()).unwrap().name, "second");
    assert_eq!(s.microservices.get(&"b".to_string()).unwrap().status, ServiceStatus::Starting);
    s.delete_microservice("a");
    assert!(s.microservices.get(&"a".to_string()).is_none());
    assert_eq!(s.microservices.len(), 1);
    s.delete_microservice("missing");
    assert_eq!(s.microservices.len(), 1);
}

#[test]
fn service_clone_copies_the_tree() {
    let mut inner = Service::new().set_name("inner".to_string());
    inner.update_microservice("leaf".to_string(), Service::new().set_status(ServiceStatus::Stopped));
    let mut s = Service::new().set_name("root".to_string()).set_log("x".to_string());
    s.update_microservice("inner".to_string(), inner);
    let c = s.clone();
    assert_eq!(c.name, "root");
    assert_eq!(c.log_path.as_deref(), Some("x"));
    assert_eq!(c.up_since, s.up_since);
    let ci = c.microservices.get(&"inner".to_string()).unwrap();
    assert_eq!(ci.name, "inner");
    assert!(ci.microservices.get(&"leaf".to_string()).unwrap().is_stopped());
}

#[test]
fn launcher_statuses_over_a_run() {
    let mut s = Service::new();
    assert!(launcher_init(&mut s).is_ok());
    assert!(s.is_initializing());
    launcher_run(&mut s);
    assert!(s.is_running());
    assert!(launcher_teardown(&mut s, ResultSource::Loop(Err(Need::Abort))).is_ok());
    assert!(s.is_stopped());
}

#[test]
fn launcher_exit_stops_and_aborts_in_reverse() {
    let mut s = Service::new().set_status(ServiceStatus::Running);
    let action = launcher_handle(&mut s, &7usize, Some(Event::ExitProgram { using_ctrl_c: true }), 3);
    assert!(s.is_stopping());
    match action {
        LauncherAction::Exit { abort_order } => assert_eq!(abort_order, vec![2, 1, 0]),
        _ => panic!("expected exit"),
    }
    let again = launcher_handle(&mut s, &7usize, Some(Event::ExitProgram { using_ctrl_c: false }), 0);
    assert!(s.is_stopping());
    match again {
        LauncherAction::Exit { abort_order } => assert!(abort_order.is_empty()),
        _ => panic!("expected exit"),
    }
}

#[test]
fn launcher_routes_events() {
    let mut s = Service::new().set_status(ServiceStatus::Running);
    assert!(matches!(launcher_handle(&mut s, &1usize, Some(Event::StartApp(5)), 0), LauncherAction::StartApp(5)));
    assert!(matches!(launcher_handle(&mut s, &1usize, Some(Event::ShutdownApp(6)), 0), LauncherAction::ShutdownApp(6)));
    assert!(matches!(launcher_handle(&mut s, &1usize, Some(Event::RequestService(1)), 0), LauncherAction::ReplyStatus));
    assert!(matches!(launcher_handle(&mut s, &1usize, Some(Event::RequestService(2)), 0), LauncherAction::Ignore));
    match launcher_handle(&mut s, &1usize, Some(Event::StatusChange(Service::new().set_name("x".to_string()))), 0) {
        LauncherAction::ReportStatus(r) => assert_eq!(r.name, "x"),
        _ => panic!("expected a status report"),
    }
    assert!(matches!(launcher_handle::<usize>(&mut s, &1usize, None, 0), LauncherAction::Finish));
    assert!(s.is_running());
}

#[test]
fn abort_order_and_status_reply() {
    assert_eq!(abort_order(0), Vec::<usize>::new());
    assert_eq!(abort_order(4), vec![3, 2, 1, 0]);
    assert!(after_status_reply(true).is_none());
    assert!(matches!(after_status_reply(false), Some(Err(Need::Abort))));
}

struct Letterbox(u32);

impl Mailbox for Letterbox {
    type Mail = u32;
    type Mailbox = u32;
    type SendError = ();

    fn get_mailbox(&self) -> &u32 {
        &self.0
    }

    fn send(&self, _mail: u32) -> Result<(), ()> {
        Ok(())
    }
}

struct Postbox;

impl Mailbox for Postbox {
    type Mail = ();
    type Mailbox = ();
    type SendError = ();

    fn get_mailbox(&self) -> &() {
        &()
    }

    fn send(&self, _mail: ()) -> Result<(), ()> {
        Ok(())
    }
}

#[test]
fn registry_hands_out_fresh_addresses() {
    let mut registry: Registry<usize> = Registry::default();
    let a = registry.insert(Letterbox(10));
    let b = registry.insert(Letterbox(20));
    let c = registry.insert(Postbox);
    assert_eq!((a, b, c), (0, 1, 2));
    assert_eq!(registry.get::<Letterbox>(a).unwrap().0, 10);
    assert_eq!(registry.get::<Letterbox>(b).unwrap().0, 20);
    assert!(registry.get::<Letterbox>(c).is_none());
    assert!(registry.get::<Postbox>(c).is_some());
    assert!(registry.get::<Letterbox>(99).is_none());
    assert_eq!(registry.remove::<Letterbox>(a).unwrap().0, 10);
    assert!(registry.get::<Letterbox>(a).is_none());
    assert!(registry.remove::<Letterbox>(a).is_none());
    assert_eq!(registry.insert(Postbox), 3);
}
