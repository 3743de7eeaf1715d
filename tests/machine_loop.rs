use chip8::display_bus::{update_debugger, AppEvents, Color, DebugState, Debugger};
use chip8::emulator::{Chip8, EmulatorConfig, EmulatorEvents, Quit};
use chip8::hardware::{Fault, Generation};
use chip8::runner::{Chip8Runner, Chip8RunnerKind, CYCLES_PER_TICK};

const FRAME_LEN: usize = 64 * 32 * 4;

fn machine(program: &[u8], debug: bool) -> Chip8 {
    let config = EmulatorConfig::new(Color::from_rgba(200, 200, 200, 255), Generation::Super, debug, None, 60);
    Chip8::new(config, program)
}

#[test]
fn clear_then_jump_back() {
    let mut chip8 = machine(&[0x00, 0xE0, 0x12, 0x00], false);
    let frame = vec![0u8; FRAME_LEN];
    let first = chip8.run_hardware_cycle(&frame, 0);
    assert_eq!(first, Ok(Some(AppEvents::ClearScreen)));
    assert_eq!(chip8.hardware.pc, 0x202);
    let second = chip8.run_hardware_cycle(&frame, 0);
    assert_eq!(second, Ok(None));
    assert_eq!(chip8.hardware.pc, 0x200);
}

#[test]
fn cycle_at_end_of_memory_is_a_fault() {
    let mut chip8 = machine(&[], false);
    chip8.hardware.pc = 4095;
    let frame = vec![0u8; FRAME_LEN];
    assert_eq!(chip8.run_hardware_cycle(&frame, 0), Err(Fault::PcOutOfRange));
    assert_eq!(chip8.hardware.pc, 4095);
}

#[test]
fn fault_leaves_machine_before_fetch() {
    let mut chip8 = machine(&[0xFF, 0xFF], false);
    let frame = vec![0u8; FRAME_LEN];
    assert_eq!(chip8.run_hardware_cycle(&frame, 0), Err(Fault::UnknownOpcode(0xFFFF)));
    assert_eq!(chip8.hardware.pc, 0x200);
}

#[test]
fn runner_budget_and_cadence() {
    let mut runner = Chip8Runner::new(true);
    assert!(runner.is_debug());
    assert!(!runner.can_run());
    assert!(runner.hardware_clock_tick());
    let mut normal = Chip8Runner::new(false);
    assert!(!normal.is_debug());
    assert!(normal.can_run());
    for _ in 0..CYCLES_PER_TICK - 1 {
        normal.advance();
        assert!(!normal.hardware_clock_tick());
    }
    normal.advance();
    assert!(normal.hardware_clock_tick());
    assert_eq!(normal.cycles, 18);
    runner.kind = Chip8RunnerKind::DebugRunner { cycles_to_run: 1 };
    assert!(runner.can_run());
    runner.advance();
    assert!(!runner.can_run());
    assert_eq!(runner.kind, Chip8RunnerKind::DebugRunner { cycles_to_run: 0 });
}

#[test]
fn debug_steps_run_only_the_budget() {
    let mut chip8 = machine(&[0x60, 0x01, 0x61, 0x02, 0x62, 0x03], true);
    let mut frame = vec![0u8; FRAME_LEN];
    let idle = chip8.step(&frame, 0).unwrap();
    assert!(!idle.ran);
    assert_eq!(chip8.hardware.pc, 0x200);
    assert_eq!(chip8.handle_event(Some(EmulatorEvents::NextDebugCycle(2)), &mut frame), Quit::False);
    let one = chip8.step(&frame, 0).unwrap();
    assert!(one.ran);
    assert!(!one.pace);
    let snapshot = one.debug_state.unwrap();
    assert_eq!(snapshot.pc, 0x202);
    assert_eq!(snapshot.op, 0x6102);
    assert_eq!(snapshot.reg[0], 1);
    let two = chip8.step(&frame, 0).unwrap();
    assert!(two.ran);
    let three = chip8.step(&frame, 0).unwrap();
    assert!(!three.ran);
    assert_eq!(chip8.hardware.pc, 0x204);
    assert_eq!(chip8.hardware.registers[1], 2);
    assert_eq!(chip8.hardware.registers[2], 0);
}

#[test]
fn real_time_ticks_timers_and_paces() {
    let mut program = Vec::new();
    for _ in 0..18 {
        program.extend_from_slice(&[0x70, 0x01]);
    }
    let mut chip8 = machine(&program, false);
    chip8.hardware.delay_timer = 3;
    let frame = vec![0u8; FRAME_LEN];
    for k in 1..=18 {
        let report = chip8.step(&frame, 0).unwrap();
        assert!(report.ran);
        assert!(report.debug_state.is_none());
        assert_eq!(report.ticked, k == 18);
        assert_eq!(report.pace, k == 18);
    }
    assert_eq!(chip8.hardware.delay_timer, 2);
    assert_eq!(chip8.hardware.registers[0], 18);
}

#[test]
fn events_update_settings() {
    let mut chip8 = machine(&[], false);
    let mut frame = vec![0u8; FRAME_LEN];
    frame[4] = 9;
    assert_eq!(chip8.handle_event(None, &mut frame), Quit::False);
    assert_eq!(chip8.handle_event(Some(EmulatorEvents::FpsChange(30)), &mut frame), Quit::False);
    assert_eq!(chip8.config.fps, 30);
    let red = Color::from_rgba(255, 0, 0, 255);
    chip8.handle_event(Some(EmulatorEvents::ChangeColor(red)), &mut frame);
    assert_eq!(chip8.config.color, red);
    assert_eq!(&frame[0..8], &[0, 0, 0, 0, 255, 0, 0, 255]);
    chip8.hardware.display_sync = false;
    chip8.handle_event(Some(EmulatorEvents::DisplaySynced), &mut frame);
    assert!(chip8.hardware.display_sync);
    assert_eq!(chip8.handle_event(Some(EmulatorEvents::QuitEmulator), &mut frame), Quit::True);
}

#[test]
fn debug_mode_switching() {
    let mut chip8 = machine(&[], false);
    let mut frame = vec![0u8; FRAME_LEN];
    chip8.handle_event(Some(EmulatorEvents::NextDebugCycle(5)), &mut frame);
    assert_eq!(chip8.config.runner.kind, Chip8RunnerKind::NormalRunner);
    chip8.handle_event(Some(EmulatorEvents::SetDebug(true)), &mut frame);
    assert!(chip8.runner().is_debug());
    chip8.handle_event(Some(EmulatorEvents::NextDebugCycle(5)), &mut frame);
    chip8.handle_event(Some(EmulatorEvents::SetDebug(true)), &mut frame);
    assert_eq!(chip8.config.runner.kind, Chip8RunnerKind::DebugRunner { cycles_to_run: 5 });
    chip8.handle_event(Some(EmulatorEvents::NextDebugCycle(usize::MAX)), &mut frame);
    assert_eq!(chip8.config.runner.kind, Chip8RunnerKind::DebugRunner { cycles_to_run: usize::MAX });
    chip8.handle_event(Some(EmulatorEvents::SetDebug(false)), &mut frame);
    assert_eq!(chip8.config.runner.kind, Chip8RunnerKind::NormalRunner);
    assert_eq!(chip8.config.runner.cycles, 0);
}

#[test]
fn debugger_history() {
    let mut debugger: Option<Debugger> = None;
    let state = DebugState { pc: 0x202, i: 0, reg: [0; 16], op: 0x6001 };
    update_debugger(&mut debugger, state);
    assert_eq!(debugger.as_ref().unwrap().pc_hist, vec![0x6001]);
    let next = DebugState { pc: 0x204, i: 1, reg: [1; 16], op: 0x1200 };
    update_debugger(&mut debugger, next);
    let d = debugger.unwrap();
    assert_eq!(d.pc_hist, vec![0x6001, 0x204]);
    assert_eq!(d.current, next);
    assert_eq!(Debugger::default().pc_hist, Vec::<u16>::new());
}
