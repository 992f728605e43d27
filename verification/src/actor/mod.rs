//! The actor model: addresses, mailboxes, the lifecycle of a started actor, the launcher's
//! decisions, the registry of mailboxes and the status tree of services.
pub mod launcher;
pub mod lifecycle;
pub mod registry;
pub mod service;

pub use launcher::LauncherAction;
pub use lifecycle::{Interruption, Lifecycle, LifecycleAction, LifecycleEvent, LoopOutcome, Phase, StartMode};
pub use registry::{Address, Registry};
pub use service::{Microservices, Service, ServiceStatus};

use vstd::prelude::*;

verus! {

/// The events that the launcher's event loop handles.
#[derive(Clone)]
pub enum Event<A: Clone + Send + Sync> {
    /// Start the app with this address.
    StartApp(A),
    /// Shut down the app with this address.
    ShutdownApp(A),
    /// Ask for the service of the app with this address.
    RequestService(A),
    /// A service changed its status.
    StatusChange(Service),
    /// Exit the program, saying whether ctrl-c asked for it.
    ExitProgram { using_ctrl_c: bool },
}

/// A book of mailboxes, each filed under an identifier.
pub trait AddressBook {
    /// The identifiers handed out for mailboxes.
    type Identifier;

    /// Files `mailbox` and returns its identifier.
    fn insert<M: 'static + Mailbox + Send>(&mut self, mailbox: M) -> Self::Identifier;

    /// The mailbox of type `M` filed under `id`, if any.
    fn get<M: 'static + Mailbox + Send>(&self, id: Self::Identifier) -> Option<&M>;

    /// Takes out the mailbox of type `M` filed under `id`, if any.
    fn remove<M: 'static + Mailbox + Send>(&mut self, id: Self::Identifier) -> Option<M>;
}

/// Something that mail can be sent to.
pub trait Mailbox {
    /// What is sent.
    type Mail;
    /// The underlying channel.
    type Mailbox;
    /// The error of a failed send.
    type SendError;

    /// The underlying channel.
    fn get_mailbox(&self) -> &Self::Mailbox;

    /// Sends `mail`.
    fn send(&self, mail: Self::Mail) -> Result<(), Self::SendError>;
}

/// What an actor reports from each stage of its lifecycle.
pub type NeedResult = Result<(), Need>;

/// The stage whose result an actor's run ended with.
#[derive(Copy, Clone, Debug)]
pub enum ResultSource {
    /// The result of `init`.
    Init(NeedResult),
    /// The result of the event loop.
    Loop(NeedResult),
    /// The result of `teardown`.
    Teardown(NeedResult),
}

/// Something with an address.
pub trait Addressable<A: Clone + Send + Sync> {
    /// Its address.
    fn address(&self) -> A;
}

/// What an actor that failed needs from its supervisor.
#[derive(Clone, Copy, Debug)]
pub enum Need {
    /// Restart it.
    Restart,
    /// Reschedule it after the given time.
    RescheduleAfter(core::time::Duration),
    /// Abort it.
    Abort,
}

} // verus!
