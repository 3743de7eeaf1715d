use vstd::prelude::*;

use crate::display_bus::{AppEvents, Color, DebugState};
use crate::hardware::{
    emits, follows, is_random, op_of, power_on, pc_ok, step, word_at, Effect, Fault, Generation, Hardware, HardwareView,
    MEMORY_SIZE, PROGRAM_START, STACK_DEPTH,
};
use crate::runner::{Chip8Runner, Chip8RunnerKind};
use crate::screen::{recolor, recolored};

verus! {

/// Control events that the interface or the network sends to the machine.
#[derive(Debug, PartialEq, Eq, Structural, Clone, Copy)]
pub enum EmulatorEvents {
    ChangeColor(Color),
    FpsChange(u32),
    NextDebugCycle(usize),
    SetDebug(bool),
    QuitEmulator,
    DisplaySynced,
}

/// Whether the machine loop must stop.
#[derive(Debug, PartialEq, Eq, Structural, Clone, Copy)]
pub enum Quit {
    True,
    False,
}

/// The settings a machine runs with.
pub struct EmulatorConfig {
    pub color: Color,
    pub generation: Generation,
    pub runner: Chip8Runner,
    pub path: Option<String>,
    pub fps: u32,
}

impl EmulatorConfig {
    pub fn new(color: Color, generation: Generation, debug: bool, path: Option<String>, fps: u32) -> (r:
        EmulatorConfig)
        ensures
            r.color == color,
            r.generation == generation,
            r.runner == Chip8Runner::spec_new(debug),
            r.path == path,
            r.fps == fps,
    {
        EmulatorConfig { color, generation, runner: Chip8Runner::new(debug), path, fps }
    }
}

/// The address is far enough from the end of memory for a fetch.
pub open spec fn fetchable(pc: u16) -> bool {
    pc_ok(pc as int) && pc + 1 < MEMORY_SIZE
}

/// One hardware cycle: fetch the word at `pc`, then execute it. A fault
/// leaves the machine as it was before the fetch.
pub open spec fn cycle(h: HardwareView, frame: Seq<u8>, keys: u16, random: u8) -> Result<(HardwareView, Option<Effect>), Fault> {
    if fetchable(h.pc) {
        step(h.with_pc((h.pc + 2) as u16), word_at(h.memory, h.pc as int), frame, keys, random)
    } else {
        Err(Fault::PcOutOfRange)
    }
}

/// The word at `pc`, or 0 when `pc` is too close to the end of memory for a
/// whole word.
pub open spec fn word_at_pc(h: HardwareView) -> u16 {
    if h.pc + 1 < MEMORY_SIZE {
        word_at(h.memory, h.pc as int)
    } else {
        0
    }
}

/// `s` is the debug snapshot of `h`.
pub open spec fn snapshot_of(s: DebugState, h: HardwareView) -> bool {
    s.pc == h.pc && s.i == h.i && s.reg@ == h.registers && s.op == word_at_pc(h)
}

/// The timers after one tick.
pub open spec fn ticked(h: HardwareView) -> HardwareView {
    HardwareView {
        delay_timer: if h.delay_timer > 0 { (h.delay_timer - 1) as u8 } else { 0 },
        sound_timer: if h.sound_timer > 0 { (h.sound_timer - 1) as u8 } else { 0 },
        ..h
    }
}

/// A loop iteration that ran a cycle with outcome `outcome`, leaving the
/// scheduler as `runner`, went from `before` to `after` and reported `r`.
pub open spec fn step_follows(
    outcome: Result<(HardwareView, Option<Effect>), Fault>,
    before: HardwareView,
    runner: Chip8Runner,
    after: HardwareView,
    r: Result<StepReport, Fault>,
) -> bool {
    match (outcome, r) {
        (Ok((next, effect)), Ok(report)) => {
            &&& report.ran
            &&& emits(report.effect, effect)
            &&& report.ticked == runner.tick_spec()
            &&& after == if runner.tick_spec() { ticked(next) } else { next }
            &&& report.pace == (!runner.is_debug_spec() && runner.tick_spec())
            &&& match report.debug_state {
                Some(s) => runner.is_debug_spec() && snapshot_of(s, after),
                None => !runner.is_debug_spec(),
            }
        },
        (Err(f), Err(g)) => f == g && after == before,
        _ => false,
    }
}

/// What one iteration of the machine loop did.
#[derive(Debug, PartialEq, Eq, Clone)]
pub struct StepReport {
    /// A cycle was executed.
    pub ran: bool,
    /// The output effect of that cycle.
    pub effect: Option<AppEvents>,
    /// The timers were decremented.
    pub ticked: bool,
    /// The snapshot to publish, in debug mode.
    pub debug_state: Option<DebugState>,
    /// The loop should now sleep out the rest of its frame interval.
    pub pace: bool,
}

/// The virtual machine together with its scheduler and settings.
pub struct Chip8 {
    pub hardware: Hardware,
    pub config: EmulatorConfig,
}

impl Chip8 {
    pub open spec fn wf(&self) -> bool {
        self.hardware.wf()
    }

    /// A machine with the given settings and program.
    pub fn new(config: EmulatorConfig, program: &[u8]) -> (r: Chip8)
        requires
            program@.len() <= MEMORY_SIZE - PROGRAM_START,
        ensures
            r.wf(),
            r.hardware@ == (HardwareView {
                memory: power_on().memory.subrange(0, PROGRAM_START as int) + program@
                    + power_on().memory.subrange(PROGRAM_START + program@.len(), MEMORY_SIZE as int),
                generation: config.generation,
                ..power_on()
            }),
            r.config == config,
    {
        let mut hardware = Hardware::default();
        hardware.set_generation(config.generation);
        hardware.load_program(program);
        Chip8 { hardware, config }
    }

    /// The scheduler.
    pub fn runner(&self) -> (r: &Chip8Runner)
        ensures
            *r == self.config.runner,
    {
        &self.config.runner
    }

    /// Fetches and executes one instruction against the frame buffer and the
    /// pressed keys. On a fault the machine is left as it was.
    pub fn run_hardware_cycle(&mut self, frame: &[u8], keys: u16) -> (r: Result<Option<AppEvents>, Fault>)
        requires
            old(self).wf(),
        ensures
            final(self).wf(),
            final(self).config == old(self).config,
            exists|random: u8|
                follows(cycle(old(self).hardware@, frame@, keys, random), old(self).hardware@, final(self).hardware@, r),
            fetchable(old(self).hardware.pc) && !is_random(word_at(old(self).hardware@.memory, old(self).hardware.pc as int))
                ==> forall|random: u8|
                follows(#[trigger] cycle(old(self).hardware@, frame@, keys, random), old(self).hardware@, final(self).hardware@, r),
    {
        let pc = self.hardware.pc;
        if pc < PROGRAM_START || pc as usize + 1 >= MEMORY_SIZE {
            assert(follows(cycle(self.hardware@, frame@, keys, 0), self.hardware@, self.hardware@, Err(Fault::PcOutOfRange)));
            return Err(Fault::PcOutOfRange);
        }
        let instr = self.hardware.fetch();
        let ghost fetched = self.hardware@;
        let r = self.hardware.decode(instr, frame, keys);
        let ghost decoded = self.hardware@;
        if r.is_err() {
            self.hardware.pc = pc;
        }
        proof {
            let rnd = choose|rnd: u8| follows(step(fetched, instr, frame@, keys, rnd), fetched, decoded, r);
            assert(cycle(old(self).hardware@, frame@, keys, rnd) == step(fetched, instr, frame@, keys, rnd));
            if r.is_err() {
                assert(self.hardware@ == old(self).hardware@);
            }
            assert(follows(cycle(old(self).hardware@, frame@, keys, rnd), old(self).hardware@, self.hardware@, r));
            if !is_random(instr) {
                assert forall|b: u8| follows(#[trigger] cycle(old(self).hardware@, frame@, keys, b), old(self).hardware@, self.hardware@, r) by {
                    assert(cycle(old(self).hardware@, frame@, keys, b) == step(fetched, instr, frame@, keys, b));
                    assert(follows(step(fetched, instr, frame@, keys, b), fetched, decoded, r));
                }
            }
        }
        r
    }

    /// Applies one control event (or none). The quit event asks the loop
    /// to stop; a colour change also repaints the lit pixels of `frame`.
    pub fn handle_event(&mut self, event: Option<EmulatorEvents>, frame: &mut [u8]) -> (r: Quit)
        ensures
            r == (if event == Some(EmulatorEvents::QuitEmulator) { Quit::True } else { Quit::False }),
            final(frame)@ == (match event {
                Some(EmulatorEvents::ChangeColor(c)) => recolored(old(frame)@, seq![c.r, c.g, c.b, c.a]),
                _ => old(frame)@,
            }),
            final(self).hardware@ == (match event {
                Some(EmulatorEvents::DisplaySynced) => HardwareView { display_sync: true, ..old(self).hardware@ },
                _ => old(self).hardware@,
            }),
            final(self).config.color == (match event {
                Some(EmulatorEvents::ChangeColor(c)) => c,
                _ => old(self).config.color,
            }),
            final(self).config.fps == (match event {
                Some(EmulatorEvents::FpsChange(f)) => f,
                _ => old(self).config.fps,
            }),
            final(self).config.runner == (match event {
                Some(EmulatorEvents::NextDebugCycle(count)) => match old(self).config.runner.kind {
                    Chip8RunnerKind::DebugRunner { cycles_to_run } => Chip8Runner {
                        kind: Chip8RunnerKind::DebugRunner {
                            cycles_to_run: if cycles_to_run + count > usize::MAX {
                                usize::MAX
                            } else {
                                (cycles_to_run + count) as usize
                            },
                        },
                        ..old(self).config.runner
                    },
                    Chip8RunnerKind::NormalRunner => old(self).config.runner,
                },
                Some(EmulatorEvents::SetDebug(debug)) => if debug && old(self).config.runner.is_debug_spec() {
                    old(self).config.runner
                } else {
                    Chip8Runner::spec_new(debug)
                },
                _ => old(self).config.runner,
            }),
            final(self).config.generation == old(self).config.generation,
            final(self).config.path == old(self).config.path,
    {
        match event {
            None => Quit::False,
            Some(EmulatorEvents::ChangeColor(c)) => {
                self.config.color = c;
                recolor(frame, c.to_array());
                Quit::False
            },
            Some(EmulatorEvents::NextDebugCycle(count)) => {
                if let Chip8RunnerKind::DebugRunner { cycles_to_run } = &mut self.config.runner.kind {
                    *cycles_to_run = cycles_to_run.saturating_add(count);
                }
                Quit::False
            },
            Some(EmulatorEvents::QuitEmulator) => Quit::True,
            Some(EmulatorEvents::DisplaySynced) => {
                self.hardware.display_sync = true;
                Quit::False
            },
            Some(EmulatorEvents::FpsChange(fps)) => {
                self.config.fps = fps;
                Quit::False
            },
            Some(EmulatorEvents::SetDebug(debug)) => {
                if debug && self.config.runner.is_debug() {
                    return Quit::False;
                }
                self.config.runner = Chip8Runner::new(debug);
                Quit::False
            },
        }
    }

    /// The snapshot published in debug mode: `pc`, the index register, the
    /// registers and the word at `pc`.
    pub fn debug_state(&self) -> (r: DebugState)
        ensures
            snapshot_of(r, self.hardware@),
    {
        let pc = self.hardware.pc as usize;
        let op = if pc + 1 < MEMORY_SIZE {
            self.hardware.memory[pc] as u16 * 0x100 + self.hardware.memory[pc + 1] as u16
        } else {
            0
        };
        DebugState { pc: self.hardware.pc, i: self.hardware.i, reg: self.hardware.registers, op }
    }

    /// One iteration of the machine loop after its control event: when the
    /// scheduler permits, count the cycle, execute it, tick the timers on a
    /// cadence boundary, and in debug mode take a snapshot. In real-time mode
    /// a tick also asks the loop to sleep out its frame interval.
    pub fn step(&mut self, frame: &[u8], keys: u16) -> (r: Result<StepReport, Fault>)
        requires
            old(self).wf(),
        ensures
            final(self).wf(),
            !old(self).config.runner.kind.can_run_spec() ==> r == Ok::<StepReport, Fault>(
                StepReport { ran: false, effect: None, ticked: false, debug_state: None, pace: false },
            ) && final(self).hardware == old(self).hardware && final(self).config == old(self).config,
            old(self).config.runner.kind.can_run_spec() ==> {
                let runner = final(self).config.runner;
                &&& runner.kind == match old(self).config.runner.kind {
                    Chip8RunnerKind::DebugRunner { cycles_to_run } => Chip8RunnerKind::DebugRunner {
                        cycles_to_run: (cycles_to_run - 1) as usize,
                    },
                    Chip8RunnerKind::NormalRunner => Chip8RunnerKind::NormalRunner,
                }
                &&& runner.cycles == (old(self).config.runner.cycles + 1) % 0x1_0000_0000
                &&& exists|random: u8|
                    step_follows(#[trigger] cycle(old(self).hardware@, frame@, keys, random), old(self).hardware@, runner, final(self).hardware@, r)
            },
    {
        if !self.config.runner.can_run() {
            return Ok(StepReport { ran: false, effect: None, ticked: false, debug_state: None, pace: false });
        }
        self.config.runner.advance();
        let effect = match self.run_hardware_cycle(frame, keys) {
            Ok(effect) => effect,
            Err(f) => return Err(f),
        };
        let ticked = self.config.runner.hardware_clock_tick();
        if ticked {
            self.hardware.tick_cpu_clock();
        }
        let debug = self.config.runner.is_debug();
        let debug_state = if debug {
            Some(self.debug_state())
        } else {
            None
        };
        Ok(StepReport { ran: true, effect, ticked, debug_state, pace: !debug && ticked })
    }
}

/// A cycle that succeeds leaves `pc` in the program area and the stack
/// depth within the stack's capacity.
pub proof fn lemma_cycle_stays_in_bounds(h: HardwareView, frame: Seq<u8>, keys: u16, random: u8)
    requires
        h.stack_frame <= STACK_DEPTH,
    ensures
        cycle(h, frame, keys, random) matches Ok((next, e)) ==> pc_ok(next.pc as int) && next.stack_frame
            <= STACK_DEPTH,
{
}

/// The machine after `n` cycles, cycle `k` seeing `frames[k]`, `keys[k]` and
/// `randoms[k]`; the first fault stops the run.
pub open spec fn run_cycles(
    h: HardwareView,
    frames: Seq<Seq<u8>>,
    keys: Seq<u16>,
    randoms: Seq<u8>,
    n: nat,
) -> Result<HardwareView, Fault>
    decreases n,
{
    if n == 0 {
        Ok(h)
    } else {
        match run_cycles(h, frames, keys, randoms, (n - 1) as nat) {
            Ok(prev) => match cycle(prev, frames[n - 1], keys[n - 1], randoms[n - 1]) {
                Ok((next, _)) => Ok(next),
                Err(f) => Err(f),
            },
            Err(f) => Err(f),
        }
    }
}

/// Whatever the program and inputs, every state a run reaches without a
/// fault has `pc` in the program area and the stack depth within the stack.
pub proof fn lemma_run_stays_in_bounds(
    h: HardwareView,
    frames: Seq<Seq<u8>>,
    keys: Seq<u16>,
    randoms: Seq<u8>,
    n: nat,
)
    requires
        pc_ok(h.pc as int),
        h.stack_frame <= STACK_DEPTH,
    ensures
        run_cycles(h, frames, keys, randoms, n) matches Ok(last) ==> pc_ok(last.pc as int) && last.stack_frame
            <= STACK_DEPTH,
    decreases n,
{
    if n > 0 {
        lemma_run_stays_in_bounds(h, frames, keys, randoms, (n - 1) as nat);
        if let Ok(prev) = run_cycles(h, frames, keys, randoms, (n - 1) as nat) {
            lemma_cycle_stays_in_bounds(prev, frames[n - 1], keys[n - 1], randoms[n - 1]);
        }
    }
}

/// A call with every stack frame in use, or a return with none, is a fault.
pub proof fn lemma_stack_faults(h: HardwareView, frame: Seq<u8>, keys: u16, random: u8)
    requires
        fetchable(h.pc),
    ensures
        op_of(word_at(h.memory, h.pc as int)) == 2 && h.stack_frame >= STACK_DEPTH ==> cycle(
            h,
            frame,
            keys,
            random,
        ) == Err::<(HardwareView, Option<Effect>), Fault>(Fault::StackOverflow),
        word_at(h.memory, h.pc as int) == 0x00EE && h.stack_frame == 0 ==> cycle(h, frame, keys, random)
            == Err::<(HardwareView, Option<Effect>), Fault>(Fault::StackUnderflow),
{
}

/// While a drawn sprite awaits acknowledgement, a draw is retried: the
/// cycle leaves the machine exactly as it was (same `pc`) and emits nothing.
pub proof fn lemma_draw_waits_for_credit(h: HardwareView, frame: Seq<u8>, keys: u16, random: u8)
    requires
        fetchable(h.pc),
        !h.display_sync,
        op_of(word_at(h.memory, h.pc as int)) == 0xD,
    ensures
        cycle(h, frame, keys, random) == Ok::<(HardwareView, Option<Effect>), Fault>((h, None)),
{
    assert(h.with_pc((h.pc + 2) as u16).with_pc((h.pc + 2 - 2) as u16) == h);
}

/// A draw that goes through takes the credit and emits the sprite.
pub proof fn lemma_draw_takes_credit(h: HardwareView, frame: Seq<u8>, keys: u16, random: u8)
    requires
        fetchable(h.pc),
        h.display_sync,
        op_of(word_at(h.memory, h.pc as int)) == 0xD,
    ensures
        cycle(h, frame, keys, random) matches Ok((next, e)) ==> !next.display_sync && e matches Some(
            Effect::Draw { .. },
        ),
{
}

} // verus!
