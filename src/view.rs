use vstd::prelude::*;

use crate::display_bus::{AppEvents, Color};
use crate::emulator::EmulatorEvents;

verus! {

/// Port on which a host listens for its client.
pub const PORT: u16 = 4442;

/// The address a host advertises to its client.
#[derive(Debug, PartialEq, Eq, Clone)]
pub enum HostIp {
    Empty,
    NotFound,
    Ip(String),
}

/// The topology an emulator is started in.
#[derive(Debug, PartialEq, Eq, Clone)]
pub enum EmulatorKind {
    Single,
    Server { ip: HostIp },
    Client { host_ip: String },
}

/// Declares std's `io::Error`, carried opaquely by [`EmulatorSpawnError`];
/// nothing is assumed of it.
#[verifier::external_type_specification]
#[verifier::external_body]
pub struct ExIoError(std::io::Error);

/// Why a role could not be started.
#[derive(Debug)]
pub enum EmulatorSpawnError {
    /// A host was requested without a known address.
    NoServerIp,
    /// The given text is not an IP address.
    IpConvertionError(String),
    /// Binding, accepting or connecting failed.
    IoError(std::io::Error),
}

/// The role that holds no emulator.
pub struct OffView {}

/// The role of this process: the tag of the live topology.
#[derive(Debug, PartialEq, Eq, Structural, Clone, Copy)]
pub enum Role {
    Off,
    Single,
    Host,
    Client,
}

/// Where a control event goes.
#[derive(Debug, PartialEq, Eq, Structural, Clone, Copy)]
pub enum SendRoute {
    /// To the local machine's control channel.
    Channel,
    /// Nowhere but the local frame buffer, repainted in this colour.
    Recolor(Color),
    /// Nowhere.
    Drop,
}

/// What a spawn request resolves to before any socket is opened.
#[derive(Debug, PartialEq, Eq, Clone)]
pub enum SpawnPlan {
    Single,
    Host { ip: String },
    Client { host_ip: String },
}

pub open spec fn send_route_spec(role: Role, event: EmulatorEvents) -> SendRoute {
    match role {
        Role::Single | Role::Host => SendRoute::Channel,
        Role::Client => match event {
            EmulatorEvents::ChangeColor(c) => SendRoute::Recolor(c),
            _ => SendRoute::Drop,
        },
        Role::Off => SendRoute::Drop,
    }
}

/// Routes a control event: roles with a local machine hand it to the
/// machine; a client, which has none, only repaints for a colour change.
pub fn send_route(role: Role, event: EmulatorEvents) -> (r: SendRoute)
    ensures
        r == send_route_spec(role, event),
{
    match role {
        Role::Single | Role::Host => SendRoute::Channel,
        Role::Client => match event {
            EmulatorEvents::ChangeColor(c) => SendRoute::Recolor(c),
            _ => SendRoute::Drop,
        },
        Role::Off => SendRoute::Drop,
    }
}

/// An application event is written to the peer: a host forwards every
/// event verbatim, a client only its own key-input messages.
pub fn relays_to_peer(role: Role, event: &AppEvents) -> (r: bool)
    ensures
        r == (role == Role::Host || (role == Role::Client && *event is ClientMessage)),
{
    match role {
        Role::Host => true,
        Role::Client => matches!(event, AppEvents::ClientMessage(_)),
        _ => false,
    }
}

/// An event read from the peer is taken in: a host accepts only client
/// messages, a client replays everything its host sent.
pub fn accepts_from_peer(role: Role, event: &AppEvents) -> (r: bool)
    ensures
        r == (role == Role::Client || (role == Role::Host && *event is ClientMessage)),
{
    match role {
        Role::Client => true,
        Role::Host => matches!(event, AppEvents::ClientMessage(_)),
        _ => false,
    }
}

/// Client key input takes effect only on a host.
pub fn applies_client_input(role: Role) -> (r: bool)
    ensures
        r == (role == Role::Host),
{
    matches!(role, Role::Host)
}

/// Resolves a spawn request: a host needs a known address.
pub fn spawn_plan(kind: EmulatorKind) -> (r: Result<SpawnPlan, EmulatorSpawnError>)
    ensures
        match kind {
            EmulatorKind::Single => r matches Ok(SpawnPlan::Single),
            EmulatorKind::Server { ip: HostIp::Ip(ip) } => r matches Ok(SpawnPlan::Host { ip: a }) && a == ip,
            EmulatorKind::Server { ip: _ } => r matches Err(EmulatorSpawnError::NoServerIp),
            EmulatorKind::Client { host_ip } => r matches Ok(SpawnPlan::Client { host_ip: a }) && a == host_ip,
        },
{
    match kind {
        EmulatorKind::Single => Ok(SpawnPlan::Single),
        EmulatorKind::Server { ip } => match ip {
            HostIp::Ip(ip) => Ok(SpawnPlan::Host { ip }),
            _ => Err(EmulatorSpawnError::NoServerIp),
        },
        EmulatorKind::Client { host_ip } => Ok(SpawnPlan::Client { host_ip }),
    }
}

/// The role that a resolved spawn request starts.
pub fn plan_role(plan: &SpawnPlan) -> (r: Role)
    ensures
        r == match *plan {
            SpawnPlan::Single => Role::Single,
            SpawnPlan::Host { .. } => Role::Host,
            SpawnPlan::Client { .. } => Role::Client,
        },
{
    match plan {
        SpawnPlan::Single => Role::Single,
        SpawnPlan::Host { .. } => Role::Host,
        SpawnPlan::Client { .. } => Role::Client,
    }
}

} // verus!
