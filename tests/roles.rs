use chip8::debug_map::map_op;
use chip8::display_bus::{AppEvents, ClientMessage, Color};
use chip8::emulator::EmulatorEvents;
use chip8::io::InputState;
use chip8::view::{
    accepts_from_peer, applies_client_input, plan_role, relays_to_peer, send_route, spawn_plan, EmulatorKind,
    EmulatorSpawnError, HostIp, Role, SendRoute, SpawnPlan,
};

#[test]
fn input_merges_local_and_client_keys() {
    let mut input = InputState::default();
    assert_eq!(input.pressed(), 0);
    input.update_key(3, true, false);
    input.set_client_keys(0b1);
    assert_eq!(input.pressed(), 0b1001);
    input.update_key(3, false, true);
    assert_eq!(input.pressed(), 0b1);
    input.update_key(4, true, true);
    assert_eq!(input.keys, 0);
}

#[test]
fn control_events_route_by_role() {
    let red = Color::from_rgba(255, 0, 0, 255);
    assert_eq!(send_route(Role::Single, EmulatorEvents::DisplaySynced), SendRoute::Channel);
    assert_eq!(send_route(Role::Host, EmulatorEvents::QuitEmulator), SendRoute::Channel);
    assert_eq!(send_route(Role::Client, EmulatorEvents::ChangeColor(red)), SendRoute::Recolor(red));
    assert_eq!(send_route(Role::Client, EmulatorEvents::FpsChange(10)), SendRoute::Drop);
    assert_eq!(send_route(Role::Off, EmulatorEvents::ChangeColor(red)), SendRoute::Drop);
    assert_eq!(red.to_array(), [255, 0, 0, 255]);
}

#[test]
fn relay_filters_by_role() {
    let key = AppEvents::ClientMessage(ClientMessage::KeyInput(4));
    let clear = AppEvents::ClearScreen;
    assert!(relays_to_peer(Role::Host, &clear));
    assert!(relays_to_peer(Role::Client, &key));
    assert!(!relays_to_peer(Role::Client, &clear));
    assert!(!relays_to_peer(Role::Single, &key));
    assert!(accepts_from_peer(Role::Host, &key));
    assert!(!accepts_from_peer(Role::Host, &clear));
    assert!(accepts_from_peer(Role::Client, &clear));
    assert!(!accepts_from_peer(Role::Off, &key));
    assert!(applies_client_input(Role::Host));
    assert!(!applies_client_input(Role::Client));
}

#[test]
fn spawn_requests_resolve() {
    assert_eq!(spawn_plan(EmulatorKind::Single).unwrap(), SpawnPlan::Single);
    let host = spawn_plan(EmulatorKind::Server { ip: HostIp::Ip("::1".to_string()) }).unwrap();
    assert_eq!(host, SpawnPlan::Host { ip: "::1".to_string() });
    assert_eq!(plan_role(&host), Role::Host);
    assert!(matches!(spawn_plan(EmulatorKind::Server { ip: HostIp::Empty }), Err(EmulatorSpawnError::NoServerIp)));
    assert!(matches!(spawn_plan(EmulatorKind::Server { ip: HostIp::NotFound }), Err(EmulatorSpawnError::NoServerIp)));
    let client = spawn_plan(EmulatorKind::Client { host_ip: "10.0.0.2".to_string() }).unwrap();
    assert_eq!(plan_role(&client), Role::Client);
}

#[test]
fn instruction_descriptions() {
    assert_eq!(map_op(0x00E0), "clear");
    assert_eq!(map_op(0x1ABC), "jmp to abc");
    assert_eq!(map_op(0x3A0F), "skip if r[10] == f");
    assert_eq!(map_op(0x8124), "r[1] = r[1] + r[2]");
    assert_eq!(map_op(0xA123), "i = 291");
    assert_eq!(map_op(0xE39E), "skip if r[3]) pressed");
    assert_eq!(map_op(0x5121), "");
}
