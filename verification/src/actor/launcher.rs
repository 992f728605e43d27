//! The decisions of the launcher: the actor that owns the program's apps, moves its own service
//! through its statuses and handles the events sent to it.
use vstd::prelude::*;

use vstd::std_specs::cmp::PartialEqSpec;

use super::{Event, Need, NeedResult, ResultSource, Service, ServiceStatus};

verus! {

/// What the launcher does with an event.
pub enum LauncherAction<A: Clone + Send + Sync> {
    /// Start the app with this address.
    StartApp(A),
    /// Shut down the app with this address.
    ShutdownApp(A),
    /// Tell the active apps about this service's new status.
    ReportStatus(Service),
    /// Send the launcher's own service, as a status change, on its own channel.
    ReplyStatus,
    /// The event is for another address; nothing to do.
    Ignore,
    /// Abort the apps in this order, await each, and end the event loop with `Err(Need::Abort)`.
    Exit { abort_order: Vec<usize> },
    /// The channel is closed: end the event loop with `Ok(())`.
    Finish,
}

/// `order` visits the `n` spawned apps from the last spawned to the first.
pub open spec fn reverse_order(order: Seq<usize>, n: usize) -> bool {
    &&& order.len() == n
    &&& forall|k: int| 0 <= k < n ==> #[trigger] order[k] == n - 1 - k
}

/// The service with the status `status` and everything else unchanged.
pub open spec fn restatused(after: Service, before: Service, status: ServiceStatus) -> bool {
    after.same_fields_but_microservices(before.with_status(status))
        && after.microservices == before.microservices
}

/// The status of the launcher's service after it handles `event`: an exit request makes it
/// `Stopping`; every other event leaves it as it was.
pub open spec fn status_after<A: Clone + Send + Sync>(status: ServiceStatus, event: Option<Event<A>>) -> ServiceStatus {
    match event {
        Some(Event::ExitProgram { .. }) => ServiceStatus::Stopping,
        _ => status,
    }
}

/// Once the launcher is stopping, no event moves it out of `Stopping`; an exit request always
/// leaves it `Stopping`.
pub proof fn lemma_stopping_is_kept<A: Clone + Send + Sync>(status: ServiceStatus, event: Option<Event<A>>)
    ensures
        status == ServiceStatus::Stopping ==> status_after(status, event) == ServiceStatus::Stopping,
        event matches Some(Event::ExitProgram { .. }) ==> status_after(status, event) == ServiceStatus::Stopping,
{
}

/// The indices `n - 1`, ..., `0` of the spawned apps, in the order in which they are aborted.
pub fn abort_order(n: usize) -> (r: Vec<usize>)
    ensures
        reverse_order(r@, n),
{
    let mut r: Vec<usize> = Vec::new();
    let mut k: usize = n;
    while k > 0
        invariant
            k <= n,
            r@.len() == n - k,
            forall|j: int| 0 <= j < n - k ==> #[trigger] r@[j] == n - 1 - j,
        decreases k,
    {
        k = k - 1;
        r.push(k);
    }
    r
}

/// The launcher's `init`: its service becomes `Initializing`.
pub fn launcher_init(service: &mut Service) -> (r: NeedResult)
    ensures
        restatused(*final(service), *old(service), ServiceStatus::Initializing),
        r is Ok,
{
    service.update_status(ServiceStatus::Initializing);
    Ok(())
}

/// The start of the launcher's event loop: its service becomes `Running`.
pub fn launcher_run(service: &mut Service)
    ensures
        restatused(*final(service), *old(service), ServiceStatus::Running),
{
    service.update_status(ServiceStatus::Running);
}

/// The launcher's `teardown`, whatever the status it is given: its service becomes `Stopped`.
pub fn launcher_teardown(service: &mut Service, status: ResultSource) -> (r: NeedResult)
    ensures
        restatused(*final(service), *old(service), ServiceStatus::Stopped),
        r is Ok,
{
    service.update_status(ServiceStatus::Stopped);
    Ok(())
}

/// The action for one received event (`None` once the channel is closed), for a launcher with
/// address `own` that has spawned `app_count` apps.
///
/// An exit request makes a service that is not already stopping `Stopping`; no other event
/// changes the service.
pub fn launcher_handle<A: Clone + Send + Sync + PartialEq>(
    service: &mut Service,
    own: &A,
    event: Option<Event<A>>,
    app_count: usize,
) -> (action: LauncherAction<A>)
    ensures
        match event {
            Some(Event::ExitProgram { .. }) => {
                &&& restatused(*final(service), *old(service), ServiceStatus::Stopping)
                &&& action matches LauncherAction::Exit { abort_order } && reverse_order(
                    abort_order@,
                    app_count,
                )
            },
            _ => *final(service) == *old(service),
        },
        final(service).status == status_after(old(service).status, event),
        match event {
            None => action is Finish,
            Some(Event::StartApp(a)) => action == LauncherAction::StartApp(a),
            Some(Event::ShutdownApp(a)) => action == LauncherAction::ShutdownApp(a),
            Some(Event::StatusChange(s)) => action == LauncherAction::<A>::ReportStatus(s),
            Some(Event::ExitProgram { .. }) => action is Exit,
            Some(Event::RequestService(a)) => A::obeys_eq_spec() ==> (
                if a.eq_spec(own) {
                    action is ReplyStatus
                } else {
                    action is Ignore
                }),
        },
{
    match event {
        None => LauncherAction::Finish,
        Some(Event::StartApp(address)) => LauncherAction::StartApp(address),
        Some(Event::ShutdownApp(address)) => LauncherAction::ShutdownApp(address),
        Some(Event::StatusChange(s)) => LauncherAction::ReportStatus(s),
        Some(Event::ExitProgram { using_ctrl_c: _ }) => {
            if !service.is_stopping() {
                service.update_status(ServiceStatus::Stopping);
            }
            LauncherAction::Exit { abort_order: abort_order(app_count) }
        },
        Some(Event::RequestService(address)) => {
            if address == *own {
                LauncherAction::ReplyStatus
            } else {
                LauncherAction::Ignore
            }
        },
    }
}

/// The result of the event loop after the launcher sent its service on its own channel:
/// a failed send ends the loop with `Err(Need::Abort)`, a successful one lets it go on (`None`).
pub fn after_status_reply(sent: bool) -> (r: Option<NeedResult>)
    ensures
        sent ==> r is None,
        !sent ==> r == Some(Err::<(), Need>(Need::Abort)),
{
    if sent {
        None
    } else {
        Some(Err(Need::Abort))
    }
}

} // verus!
