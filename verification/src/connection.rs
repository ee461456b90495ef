//! One inbound connection: the greeting, the decision and one operation.
use vstd::prelude::*;

use crate::ids::DeviceId;
use crate::net_error::NetError;
use crate::text::opt_view;
use crate::trust::{
    has_offer_pull, pulls_offers, v1_client_refusal_reason, version_refusal, ClientHello,
    TrustDecision,
};
use crate::wire::{V2_MAX_INBOUND_HANDLERS, V2_PROTOCOL_VERSION};

verus! {

/// The connections that a listener serves.
#[derive(Debug)]
pub struct HandlerSlots {
    active: u32,
}

impl HandlerSlots {
    pub closed spec fn in_use(self) -> u32 {
        self.active
    }

    /// No more connections are served than there are slots.
    pub open spec fn wf(self) -> bool {
        self.in_use() <= V2_MAX_INBOUND_HANDLERS
    }

    /// Slots that are all free.
    #[must_use]
    pub fn new() -> (r: Self)
        ensures
            r.wf(),
            r.in_use() == 0,
    {
        HandlerSlots { active: 0 }
    }

    /// Takes a free slot, if there is one; else the connection is refused.
    pub fn try_acquire(&mut self) -> (r: bool)
        requires
            old(self).wf(),
        ensures
            final(self).wf(),
            r == (old(self).in_use() < V2_MAX_INBOUND_HANDLERS),
            final(self).in_use() == old(self).in_use() + if r {
                1int
            } else {
                0int
            },
    {
        if self.active < V2_MAX_INBOUND_HANDLERS {
            self.active = self.active + 1;
            true
        } else {
            false
        }
    }

    /// Gives a slot back.
    pub fn release(&mut self)
        requires
            old(self).wf(),
        ensures
            final(self).wf(),
            final(self).in_use() == if old(self).in_use() > 0 {
                old(self).in_use() - 1
            } else {
                0
            },
    {
        if self.active > 0 {
            self.active = self.active - 1;
        }
    }
}

/// What to do next; `S` is the type of the texts.
#[derive(Debug)]
pub enum ConnectionStep<S = String> {
    ReadHello,
    /// Ask whether this device is trusted.
    AskGate(DeviceId),
    /// Answer the greeting; with a device where it is accepted, with a reason where not.
    WriteHello { accepted: Option<DeviceId>, reason: Option<S> },
    Shutdown,
    /// Read the one operation of this device.
    ReadOperation(DeviceId),
    HandleAnnouncement(DeviceId),
    WriteAck,
    HandleFetch(DeviceId),
    Finished(Result<(), NetError<S>>),
}

/// An operation that a client asks for.
#[derive(Debug)]
pub enum Operation {
    Announcement,
    /// A fetch, and what is wrong with its message, if anything.
    Fetch(Result<(), String>),
    Other,
}

/// The outcome of a step.
#[allow(inconsistent_fields)]
#[derive(Debug)]
pub enum ConnectionEvent {
    /// The greeting, and whether the client signed it.
    HelloRead { result: Result<ClientHello, NetError>, signature_valid: bool },
    GateAnswered(TrustDecision),
    /// The outcome of a write, of a shutdown or of a handler.
    Done(Result<(), NetError>),
    OperationRead(Result<Operation, NetError>),
}

pub open spec fn connection_step_view(step: ConnectionStep) -> ConnectionStep<Seq<char>> {
    match step {
        ConnectionStep::ReadHello => ConnectionStep::ReadHello,
        ConnectionStep::AskGate(device) => ConnectionStep::AskGate(device),
        ConnectionStep::WriteHello { accepted, reason } => ConnectionStep::WriteHello {
            accepted,
            reason: opt_view(reason),
        },
        ConnectionStep::Shutdown => ConnectionStep::Shutdown,
        ConnectionStep::ReadOperation(device) => ConnectionStep::ReadOperation(device),
        ConnectionStep::HandleAnnouncement(device) => ConnectionStep::HandleAnnouncement(device),
        ConnectionStep::WriteAck => ConnectionStep::WriteAck,
        ConnectionStep::HandleFetch(device) => ConnectionStep::HandleFetch(device),
        ConnectionStep::Finished(Ok(())) => ConnectionStep::Finished(Ok(())),
        ConnectionStep::Finished(Err(error)) => ConnectionStep::Finished(Err(error@)),
    }
}

pub open spec fn turned_away(reason: Seq<char>) -> ConnectionStep<Seq<char>> {
    ConnectionStep::WriteHello { accepted: None, reason: Some(reason) }
}

pub open spec fn failed(error: NetError<Seq<char>>) -> ConnectionStep<Seq<char>> {
    ConnectionStep::Finished(Err(error))
}

/// The step after a greeting.
pub open spec fn after_hello(hello: ClientHello, signature_valid: bool) -> ConnectionStep<
    Seq<char>,
> {
    if hello.protocol_version != V2_PROTOCOL_VERSION {
        turned_away(
            version_refusal(hello.device_name@, hello.device_id, hello.protocol_version),
        )
    } else if !signature_valid {
        turned_away("client hello signature is invalid"@)
    } else if !pulls_offers(hello.capabilities@) {
        turned_away("client hello does not advertise offer-pull-v2"@)
    } else {
        ConnectionStep::AskGate(hello.device_id)
    }
}

/// The step after a write, a shutdown or a handler.
pub open spec fn after_done(
    step: ConnectionStep<Seq<char>>,
    result: Result<(), NetError>,
) -> ConnectionStep<Seq<char>> {
    if step is ReadHello || step is AskGate || step is ReadOperation || step is Finished {
        step
    } else {
        match result {
            Err(error) => failed(error@),
            Ok(()) => match step {
                ConnectionStep::WriteHello { accepted: Some(device), .. } =>
                    ConnectionStep::ReadOperation(device),
                ConnectionStep::WriteHello { accepted: None, .. } => ConnectionStep::Shutdown,
                ConnectionStep::HandleAnnouncement(_) => ConnectionStep::WriteAck,
                _ => ConnectionStep::Finished(Ok(())),
            },
        }
    }
}

/// The step after an event; one that does not answer the current step changes nothing.
pub open spec fn connection_next(
    step: ConnectionStep<Seq<char>>,
    event: ConnectionEvent,
) -> ConnectionStep<Seq<char>> {
    match (step, event) {
        (
            ConnectionStep::ReadHello,
            ConnectionEvent::HelloRead { result: Ok(hello), signature_valid },
        ) => after_hello(hello, signature_valid),
        (ConnectionStep::ReadHello, ConnectionEvent::HelloRead { result: Err(error), .. }) =>
            failed(error@),
        (ConnectionStep::AskGate(device), ConnectionEvent::GateAnswered(decision)) =>
            match decision@ {
                TrustDecision::Allow => ConnectionStep::WriteHello {
                    accepted: Some(device),
                    reason: None,
                },
                TrustDecision::Deny(reason) => turned_away(reason),
            },
        (ConnectionStep::ReadOperation(_), ConnectionEvent::OperationRead(Err(error))) => failed(
            error@,
        ),
        (ConnectionStep::ReadOperation(device), ConnectionEvent::OperationRead(Ok(operation))) =>
            match operation {
                Operation::Announcement => ConnectionStep::HandleAnnouncement(device),
                Operation::Fetch(Ok(())) => ConnectionStep::HandleFetch(device),
                Operation::Fetch(Err(detail)) => failed(NetError::Protocol(detail@)),
                Operation::Other => failed(
                    NetError::UnexpectedMessage(
                        "unsupported v2 operation; announcement and fetch request are enabled"@,
                    ),
                ),
            },
        (step, ConnectionEvent::Done(result)) => after_done(step, result),
        _ => step,
    }
}

fn turn_away(reason: String) -> (r: ConnectionStep)
    ensures
        connection_step_view(r) == turned_away(reason@),
{
    ConnectionStep::WriteHello { accepted: None, reason: Some(reason) }
}

fn on_hello(hello: ClientHello, signature_valid: bool) -> (r: ConnectionStep)
    ensures
        connection_step_view(r) == after_hello(hello, signature_valid),
{
    if hello.protocol_version != V2_PROTOCOL_VERSION {
        return turn_away(
            v1_client_refusal_reason(
                hello.device_name.as_str(),
                hello.device_id,
                hello.protocol_version,
            ),
        );
    }
    if !signature_valid {
        return turn_away("client hello signature is invalid".to_owned());
    }
    if !has_offer_pull(&hello.capabilities) {
        return turn_away("client hello does not advertise offer-pull-v2".to_owned());
    }
    ConnectionStep::AskGate(hello.device_id)
}

fn on_done(step: ConnectionStep, result: Result<(), NetError>) -> (r: ConnectionStep)
    ensures
        connection_step_view(r) == after_done(connection_step_view(step), result),
{
    match &step {
        ConnectionStep::ReadHello
        | ConnectionStep::AskGate(_)
        | ConnectionStep::ReadOperation(_)
        | ConnectionStep::Finished(_) => {
            return step;
        },
        _ => {},
    }
    if let Err(error) = result {
        return ConnectionStep::Finished(Err(error));
    }
    match step {
        ConnectionStep::WriteHello { accepted, .. } => match accepted {
            Some(device) => ConnectionStep::ReadOperation(device),
            None => ConnectionStep::Shutdown,
        },
        ConnectionStep::HandleAnnouncement(_) => ConnectionStep::WriteAck,
        _ => ConnectionStep::Finished(Ok(())),
    }
}

/// Takes the outcome of the current step of a connection.
pub fn handle_v2_connection(step: ConnectionStep, event: ConnectionEvent) -> (r: ConnectionStep)
    ensures
        connection_step_view(r) == connection_next(connection_step_view(step), event),
{
    match event {
        ConnectionEvent::HelloRead { result, signature_valid } => match step {
            ConnectionStep::ReadHello => match result {
                Ok(hello) => on_hello(hello, signature_valid),
                Err(error) => ConnectionStep::Finished(Err(error)),
            },
            step => step,
        },
        ConnectionEvent::GateAnswered(decision) => match step {
            ConnectionStep::AskGate(device) => match decision {
                TrustDecision::Allow => ConnectionStep::WriteHello {
                    accepted: Some(device),
                    reason: None,
                },
                TrustDecision::Deny(reason) => turn_away(reason),
            },
            step => step,
        },
        ConnectionEvent::OperationRead(result) => match step {
            ConnectionStep::ReadOperation(device) => match result {
                Err(error) => ConnectionStep::Finished(Err(error)),
                Ok(Operation::Announcement) => ConnectionStep::HandleAnnouncement(device),
                Ok(Operation::Fetch(Ok(()))) => ConnectionStep::HandleFetch(device),
                Ok(Operation::Fetch(Err(detail))) => ConnectionStep::Finished(
                    Err(NetError::Protocol(detail)),
                ),
                Ok(Operation::Other) => ConnectionStep::Finished(
                    Err(
                        NetError::UnexpectedMessage(
                            "unsupported v2 operation; announcement and fetch request are enabled".to_owned(),
                        ),
                    ),
                ),
            },
            step => step,
        },
        ConnectionEvent::Done(result) => on_done(step, result),
    }
}

/// An operation is read only of a device that was allowed in, after a signed
/// greeting of the second protocol version, and it is handled as that device's.
pub proof fn lemma_operations_need_trust(
    step: ConnectionStep<Seq<char>>,
    event: ConnectionEvent,
    device: DeviceId,
)
    requires
        connection_next(step, event) != step,
    ensures
        connection_next(step, event) == ConnectionStep::<Seq<char>>::AskGate(device) ==> (
        event matches ConnectionEvent::HelloRead { result: Ok(hello), signature_valid } && {
            &&& hello.device_id == device
            &&& hello.protocol_version == V2_PROTOCOL_VERSION
            &&& signature_valid
            &&& pulls_offers(hello.capabilities@)
        }),
        connection_next(step, event) matches ConnectionStep::WriteHello { accepted, .. }
            && accepted == Some(device) ==> step == ConnectionStep::<Seq<char>>::AskGate(device)
            && (event matches ConnectionEvent::GateAnswered(decision) && decision is Allow),
        connection_next(step, event) == ConnectionStep::<Seq<char>>::ReadOperation(device) ==> (
        step matches ConnectionStep::WriteHello { accepted, .. } && accepted == Some(device)),
        connection_next(step, event) == ConnectionStep::<Seq<char>>::HandleFetch(device)
            || connection_next(step, event) == ConnectionStep::<Seq<char>>::HandleAnnouncement(
            device,
        ) ==> step == ConnectionStep::<Seq<char>>::ReadOperation(device),
{
}

} // verus!
