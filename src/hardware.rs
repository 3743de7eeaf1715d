use vstd::prelude::*;

use crate::display_bus::AppEvents;
use crate::screen::{collides, sprite_collides, SCREEN_HEIGHT, SCREEN_WIDTH};

verus! {

/// Number of bytes of addressable memory.
pub const MEMORY_SIZE: usize = 4096;

/// Address at which programs are loaded and execution starts.
pub const PROGRAM_START: u16 = 0x200;

/// Depth of the return-address stack.
pub const STACK_DEPTH: usize = 32;

/// Index of the flag register (carry, borrow, collision).
pub const FLAG: usize = 15;

/// Instruction-quirk profile, fixed when the machine is built.
#[derive(Debug, PartialEq, Eq, Structural, Clone, Copy)]
pub enum Generation {
    /// Legacy profile: shifts copy `reg[y]` first, `B` jumps from `reg[0]`,
    /// bulk load/store advance the index register.
    COSMAC,
    /// Extended profile (the default).
    Super,
}

impl Default for Generation {
    fn default() -> (r: Generation)
        ensures
            r == Generation::Super,
    {
        Generation::Super
    }
}

/// The state of the virtual machine.
#[derive(Clone, Copy)]
pub struct Hardware {
    pub memory: [u8; 4096],
    pub stack: [u16; 32],
    /// Number of live frames on the return-address stack.
    pub stack_frame: u8,
    pub i: u16,
    pub registers: [u8; 16],
    pub pc: u16,
    pub delay_timer: u8,
    pub sound_timer: u8,
    pub generation: Generation,
    /// Single draw credit: `false` while a sprite draw awaits acknowledgement.
    pub display_sync: bool,
}

/// Mathematical view of [`Hardware`].
pub struct HardwareView {
    pub memory: Seq<u8>,
    pub stack: Seq<u16>,
    pub stack_frame: u8,
    pub i: u16,
    pub registers: Seq<u8>,
    pub pc: u16,
    pub delay_timer: u8,
    pub sound_timer: u8,
    pub generation: Generation,
    pub display_sync: bool,
}

impl View for Hardware {
    type V = HardwareView;

    open spec fn view(&self) -> HardwareView {
        HardwareView {
            memory: self.memory@,
            stack: self.stack@,
            stack_frame: self.stack_frame,
            i: self.i,
            registers: self.registers@,
            pc: self.pc,
            delay_timer: self.delay_timer,
            sound_timer: self.sound_timer,
            generation: self.generation,
            display_sync: self.display_sync,
        }
    }
}

impl HardwareView {
    pub open spec fn set_reg(self, x: int, v: u8) -> HardwareView {
        HardwareView { registers: self.registers.update(x, v), ..self }
    }

    pub open spec fn set_flag(self, is_set: bool) -> HardwareView {
        self.set_reg(FLAG as int, if is_set { 1u8 } else { 0u8 })
    }

    pub open spec fn with_pc(self, pc: u16) -> HardwareView {
        HardwareView { pc, ..self }
    }

    pub open spec fn with_i(self, i: u16) -> HardwareView {
        HardwareView { i, ..self }
    }
}

/// Why a cycle could not be executed.
#[derive(Debug, PartialEq, Eq, Structural, Clone, Copy)]
pub enum Fault {
    /// The instruction is not in the instruction set.
    UnknownOpcode(u16),
    /// A call with all stack frames in use.
    StackOverflow,
    /// A return with no stack frame in use.
    StackUnderflow,
    /// The program counter would leave the program area.
    PcOutOfRange,
    /// A memory access past the end of memory.
    MemoryOutOfRange,
}

/// The output effect of one instruction, as a mathematical value.
pub enum Effect {
    Clear,
    Draw { sprite: Seq<u8>, x: u8, y: u8 },
}

/// `e` is the event that carries the effect `f`.
pub open spec fn emits(e: Option<AppEvents>, f: Option<Effect>) -> bool {
    match (e, f) {
        (None, None) => true,
        (Some(AppEvents::ClearScreen), Some(Effect::Clear)) => true,
        (Some(AppEvents::DrawSprite { sprite, x, y }), Some(Effect::Draw { sprite: s, x: x2, y: y2 })) => {
            sprite@ == s && x == x2 && y == y2
        },
        _ => false,
    }
}

pub open spec fn op_of(instr: u16) -> u16 {
    instr / 0x1000
}

pub open spec fn x_of(instr: u16) -> u16 {
    (instr / 0x100) % 0x10
}

pub open spec fn y_of(instr: u16) -> u16 {
    (instr / 0x10) % 0x10
}

pub open spec fn n_of(instr: u16) -> u16 {
    instr % 0x10
}

pub open spec fn nn_of(instr: u16) -> u8 {
    (instr % 0x100) as u8
}

pub open spec fn nnn_of(instr: u16) -> u16 {
    instr % 0x1000
}

/// The program counter lies in the program area.
pub open spec fn pc_ok(pc: int) -> bool {
    PROGRAM_START <= pc < MEMORY_SIZE
}

/// The big-endian instruction word at `addr`.
pub open spec fn word_at(memory: Seq<u8>, addr: int) -> u16 {
    (memory[addr] as u16 * 0x100 + memory[addr + 1] as u16) as u16
}

/// Addition modulo 256.
pub open spec fn add8(a: u8, b: u8) -> u8 {
    if a + b > 255 {
        (a + b - 256) as u8
    } else {
        (a + b) as u8
    }
}

/// Subtraction modulo 256.
pub open spec fn sub8(a: u8, b: u8) -> u8 {
    if a >= b {
        (a - b) as u8
    } else {
        (a - b + 256) as u8
    }
}

/// Doubling modulo 256.
pub open spec fn dbl8(a: u8) -> u8 {
    if a >= 128 {
        (2 * a - 256) as u8
    } else {
        (2 * a) as u8
    }
}

/// Key `k` is down in the bitmask `keys`.
pub open spec fn key_down(keys: u16, k: u16) -> bool {
    (keys >> k) & 1u16 == 1u16
}

/// The lowest-numbered key at or above `k` that is down, 16 if none.
pub open spec fn lowest_key_from(keys: u16, k: int) -> int
    decreases 16 - k,
{
    if k >= 16 {
        16
    } else if key_down(keys, k as u16) {
        k
    } else {
        lowest_key_from(keys, k + 1)
    }
}

/// The lowest-numbered key that is down.
pub open spec fn lowest_key(keys: u16) -> int {
    lowest_key_from(keys, 0)
}

/// The sprite rows that a draw of height `n` reads from `index`.
pub open spec fn sprite_rows(memory: Seq<u8>, index: int, n: int) -> Seq<u8> {
    Seq::new(16, |k: int| if k < n { memory[index + k] } else { 0u8 })
}

pub open spec fn skip_if(h: HardwareView, cond: bool) -> Result<(HardwareView, Option<Effect>), Fault> {
    Ok((if cond { h.with_pc((h.pc + 2) as u16) } else { h }, None))
}

pub open spec fn set_only(h: HardwareView) -> Result<(HardwareView, Option<Effect>), Fault> {
    Ok((h, None))
}

/// The register operations `8XYN`.
pub open spec fn alu_step(h: HardwareView, instr: u16) -> Result<(HardwareView, Option<Effect>), Fault> {
    let x = x_of(instr) as int;
    let n = n_of(instr);
    let vx = h.registers[x];
    let vy = h.registers[y_of(instr) as int];
    let src = if h.generation == Generation::COSMAC { vy } else { vx };
    if n == 0 {
        set_only(h.set_reg(x, vy))
    } else if n == 1 {
        set_only(h.set_reg(x, vx | vy))
    } else if n == 2 {
        set_only(h.set_reg(x, vx & vy))
    } else if n == 3 {
        set_only(h.set_reg(x, vx ^ vy))
    } else if n == 4 {
        set_only(h.set_reg(x, add8(vx, vy)).set_flag(vx + vy > 255))
    } else if n == 5 {
        set_only(h.set_reg(x, sub8(vx, vy)).set_flag(vx >= vy))
    } else if n == 6 {
        set_only(h.set_reg(x, src / 2).set_flag(src % 2 == 1))
    } else if n == 7 {
        set_only(h.set_reg(x, sub8(vy, vx)).set_flag(vx <= vy))
    } else if n == 0xE {
        set_only(h.set_reg(x, dbl8(src)).set_flag(src >= 128))
    } else {
        Err(Fault::UnknownOpcode(instr))
    }
}

/// The memory, timer and key operations `FX__`.
pub open spec fn misc_step(h: HardwareView, instr: u16, keys: u16) -> Result<(HardwareView, Option<Effect>), Fault> {
    let x = x_of(instr) as int;
    let low = instr % 0x100;
    let vx = h.registers[x];
    let advance = h.generation == Generation::COSMAC;
    if low == 0x07 {
        set_only(h.set_reg(x, h.delay_timer))
    } else if low == 0x15 {
        set_only(HardwareView { delay_timer: vx, ..h })
    } else if low == 0x18 {
        set_only(HardwareView { sound_timer: vx, ..h })
    } else if low == 0x1E {
        set_only(h.with_i(((h.i + vx) % 0x10000) as u16))
    } else if low == 0x0A {
        if keys == 0 {
            set_only(h.with_pc((h.pc - 2) as u16))
        } else {
            set_only(h.set_reg(x, lowest_key(keys) as u8))
        }
    } else if low == 0x29 {
        set_only(h.with_i((5 * vx) as u16))
    } else if low == 0x33 {
        if h.i + 3 > MEMORY_SIZE {
            Err(Fault::MemoryOutOfRange)
        } else {
            set_only(HardwareView {
                memory: h.memory.update(h.i as int, vx / 100).update(h.i + 1, (vx % 100) / 10).update(
                    h.i + 2,
                    vx % 10,
                ),
                ..h
            })
        }
    } else if low == 0x55 || low == 0x65 {
        if h.i + x + 1 > MEMORY_SIZE {
            Err(Fault::MemoryOutOfRange)
        } else {
            let moved = if low == 0x55 {
                HardwareView {
                    memory: Seq::new(
                        4096,
                        |k: int|
                            if h.i <= k <= h.i + x {
                                h.registers[k - h.i]
                            } else {
                                h.memory[k]
                            },
                    ),
                    ..h
                }
            } else {
                HardwareView {
                    registers: Seq::new(
                        16,
                        |k: int|
                            if k <= x {
                                h.memory[h.i + k]
                            } else {
                                h.registers[k]
                            },
                    ),
                    ..h
                }
            };
            set_only(
                if advance {
                    moved.with_i(((h.i + x + 1) % 0x10000) as u16)
                } else {
                    moved
                },
            )
        }
    } else {
        Err(Fault::UnknownOpcode(instr))
    }
}

/// The draw instruction `DXYN`, gated by the draw credit.
pub open spec fn draw_step(h: HardwareView, instr: u16, frame: Seq<u8>) -> Result<(HardwareView, Option<Effect>), Fault> {
    let n = n_of(instr) as int;
    if !h.display_sync {
        set_only(h.with_pc((h.pc - 2) as u16))
    } else if h.i + n > MEMORY_SIZE {
        Err(Fault::MemoryOutOfRange)
    } else {
        let sx = (h.registers[x_of(instr) as int] % SCREEN_WIDTH as u8) as u8;
        let sy = (h.registers[y_of(instr) as int] % SCREEN_HEIGHT as u8) as u8;
        let sprite = sprite_rows(h.memory, h.i as int, n);
        Ok(
            (
                HardwareView { display_sync: false, ..h }.set_flag(collides(frame, sprite, sx as int, sy as int)),
                Some(Effect::Draw { sprite, x: sx, y: sy }),
            ),
        )
    }
}

/// Returns and jumps: `00E0`, `00EE`, `1NNN`, `2NNN`.
pub open spec fn flow_step(h: HardwareView, instr: u16) -> Result<(HardwareView, Option<Effect>), Fault> {
    let op = op_of(instr);
    let nnn = nnn_of(instr);
    if op == 0 {
        if instr == 0x00E0 {
            Ok((h, Some(Effect::Clear)))
        } else if instr == 0x00EE {
            if h.stack_frame == 0 {
                Err(Fault::StackUnderflow)
            } else {
                set_only(HardwareView {
                    stack_frame: (h.stack_frame - 1) as u8,
                    pc: h.stack[h.stack_frame - 1],
                    ..h
                })
            }
        } else {
            Err(Fault::UnknownOpcode(instr))
        }
    } else if op == 1 {
        set_only(h.with_pc(nnn))
    } else {
        if h.stack_frame >= STACK_DEPTH {
            Err(Fault::StackOverflow)
        } else {
            set_only(HardwareView {
                stack: h.stack.update(h.stack_frame as int, h.pc),
                stack_frame: (h.stack_frame + 1) as u8,
                pc: nnn,
                ..h
            })
        }
    }
}

/// Conditional skips and register loads: `3XNN` to `7XNN`.
pub open spec fn reg_step(h: HardwareView, instr: u16) -> Result<(HardwareView, Option<Effect>), Fault> {
    let op = op_of(instr);
    let x = x_of(instr) as int;
    let nn = nn_of(instr);
    let vx = h.registers[x];
    let vy = h.registers[y_of(instr) as int];
    if op == 3 {
        skip_if(h, vx == nn)
    } else if op == 4 {
        skip_if(h, vx != nn)
    } else if op == 5 {
        if n_of(instr) == 0 {
            skip_if(h, vx == vy)
        } else {
            Err(Fault::UnknownOpcode(instr))
        }
    } else if op == 6 {
        set_only(h.set_reg(x, nn))
    } else {
        set_only(h.set_reg(x, add8(vx, nn)))
    }
}

/// Arithmetic, index and jump-with-offset: `8XYN` to `CXNN`.
pub open spec fn calc_step(h: HardwareView, instr: u16, random: u8) -> Result<(HardwareView, Option<Effect>), Fault> {
    let op = op_of(instr);
    let x = x_of(instr) as int;
    let vx = h.registers[x];
    if op == 8 {
        alu_step(h, instr)
    } else if op == 9 {
        if n_of(instr) == 0 {
            skip_if(h, vx != h.registers[y_of(instr) as int])
        } else {
            Err(Fault::UnknownOpcode(instr))
        }
    } else if op == 0xA {
        set_only(h.with_i(nnn_of(instr)))
    } else if op == 0xB {
        let base = if h.generation == Generation::COSMAC { h.registers[0] } else { vx };
        set_only(h.with_pc((base + nnn_of(instr)) as u16))
    } else {
        set_only(h.set_reg(x, random & nn_of(instr)))
    }
}

/// Drawing, keys, timers and memory: `DXYN` to `FX65`.
pub open spec fn io_step(h: HardwareView, instr: u16, frame: Seq<u8>, keys: u16) -> Result<(HardwareView, Option<Effect>), Fault> {
    let op = op_of(instr);
    let vx = h.registers[x_of(instr) as int];
    if op == 0xD {
        draw_step(h, instr, frame)
    } else if op == 0xE {
        if instr % 0x100 == 0x9E {
            skip_if(h, key_down(keys, (vx % 16) as u16))
        } else if instr % 0x100 == 0xA1 {
            skip_if(h, !key_down(keys, (vx % 16) as u16))
        } else {
            Err(Fault::UnknownOpcode(instr))
        }
    } else {
        misc_step(h, instr, keys)
    }
}

/// One instruction applied to a machine whose program counter already
/// points past it, before the program-counter range is checked.
pub open spec fn instr_step(h: HardwareView, instr: u16, frame: Seq<u8>, keys: u16, random: u8) -> Result<(HardwareView, Option<Effect>), Fault> {
    let op = op_of(instr);
    if op <= 2 {
        flow_step(h, instr)
    } else if op <= 7 {
        reg_step(h, instr)
    } else if op <= 0xC {
        calc_step(h, instr, random)
    } else {
        io_step(h, instr, frame, keys)
    }
}

/// One decoded instruction: its effect, or the fault that stops the machine
/// when the instruction is unknown or would leave memory, the stack or the
/// program area.
pub open spec fn step(h: HardwareView, instr: u16, frame: Seq<u8>, keys: u16, random: u8) -> Result<(HardwareView, Option<Effect>), Fault> {
    match instr_step(h, instr, frame, keys, random) {
        Ok((next, effect)) => if pc_ok(next.pc as int) {
            Ok((next, effect))
        } else {
            Err(Fault::PcOutOfRange)
        },
        Err(f) => Err(f),
    }
}

/// The machine went from `before` to `after` and returned `r` as the
/// semantics `s` prescribes; on a fault it is left unchanged.
pub open spec fn follows(
    s: Result<(HardwareView, Option<Effect>), Fault>,
    before: HardwareView,
    after: HardwareView,
    r: Result<Option<AppEvents>, Fault>,
) -> bool {
    match (s, r) {
        (Ok((next, effect)), Ok(e)) => after == next && emits(e, effect),
        (Err(f), Err(g)) => f == g && after == before,
        _ => false,
    }
}

/// The instruction reads the random byte.
pub open spec fn is_random(instr: u16) -> bool {
    op_of(instr) == 0xC
}

impl Hardware {
    /// The stack depth never exceeds the stack's capacity.
    pub open spec fn wf(&self) -> bool {
        self.stack_frame <= STACK_DEPTH
    }

    /// An instruction has just been fetched from the program area.
    pub open spec fn fetched(&self) -> bool {
        self.wf() && PROGRAM_START + 2 <= self.pc <= MEMORY_SIZE
    }

    /// Sets the flag register to 1 or 0.
    pub fn set_flag(&mut self, is_set: bool)
        ensures
            final(self)@ == old(self)@.set_flag(is_set),
    {
        if is_set {
            self.registers[FLAG] = 1;
        } else {
            self.registers[FLAG] = 0;
        }
    }

    /// One 60 Hz tick: both timers count down, never below zero.
    pub fn tick_cpu_clock(&mut self)
        ensures
            final(self)@ == (HardwareView {
                delay_timer: if old(self).delay_timer > 0 { (old(self).delay_timer - 1) as u8 } else { 0 },
                sound_timer: if old(self).sound_timer > 0 { (old(self).sound_timer - 1) as u8 } else { 0 },
                ..old(self)@
            }),
    {
        self.delay_timer = self.delay_timer.saturating_sub(1);
        self.sound_timer = self.sound_timer.saturating_sub(1);
    }
}

/// The lowest-numbered key that is down, 16 when none is.
pub fn lowest_pressed(keys: u16) -> (r: u8)
    ensures
        r as int == lowest_key(keys),
{
    let mut k: u16 = 0;
    while k < 16
        invariant
            k <= 16,
            lowest_key(keys) == lowest_key_from(keys, k as int),
        decreases 16 - k,
    {
        if (keys >> k) & 1 == 1 {
            return k as u8;
        }
        k += 1;
    }
    16
}

impl Hardware {
    fn skip_when(&mut self, cond: bool) -> (r: Result<Option<AppEvents>, Fault>)
        requires
            old(self).fetched(),
        ensures
            follows(skip_if(old(self)@, cond), old(self)@, final(self)@, r),
    {
        if cond {
            self.pc = self.pc + 2;
        }
        Ok(None)
    }

    fn alu_bits(&mut self, instr: u16) -> (r: Result<Option<AppEvents>, Fault>)
        requires
            old(self).fetched(),
            op_of(instr) == 8,
            n_of(instr) <= 3,
        ensures
            follows(alu_step(old(self)@, instr), old(self)@, final(self)@, r),
    {
        let x = ((instr / 0x100) % 0x10) as usize;
        let y = ((instr / 0x10) % 0x10) as usize;
        let n = instr % 0x10;
        let vx = self.registers[x];
        let vy = self.registers[y];
        if n == 0 {
            self.registers[x] = vy;
        } else if n == 1 {
            self.registers[x] = vx | vy;
        } else if n == 2 {
            self.registers[x] = vx & vy;
        } else {
            self.registers[x] = vx ^ vy;
        }
        Ok(None)
    }

    fn alu_carry(&mut self, instr: u16) -> (r: Result<Option<AppEvents>, Fault>)
        requires
            old(self).fetched(),
            op_of(instr) == 8,
            n_of(instr) == 4 || n_of(instr) == 5 || n_of(instr) == 7,
        ensures
            follows(alu_step(old(self)@, instr), old(self)@, final(self)@, r),
    {
        let x = ((instr / 0x100) % 0x10) as usize;
        let y = ((instr / 0x10) % 0x10) as usize;
        let n = instr % 0x10;
        let vx = self.registers[x];
        let vy = self.registers[y];
        if n == 4 {
            let overflow = vx.checked_add(vy).is_none();
            self.registers[x] = vx.wrapping_add(vy);
            self.set_flag(overflow);
        } else if n == 5 {
            self.registers[x] = vx.wrapping_sub(vy);
            self.set_flag(vx >= vy);
        } else {
            self.registers[x] = vy.wrapping_sub(vx);
            self.set_flag(vx <= vy);
        }
        Ok(None)
    }

    fn alu_shift(&mut self, instr: u16) -> (r: Result<Option<AppEvents>, Fault>)
        requires
            old(self).fetched(),
            op_of(instr) == 8,
            n_of(instr) == 6 || n_of(instr) == 0xE,
        ensures
            follows(alu_step(old(self)@, instr), old(self)@, final(self)@, r),
    {
        let x = ((instr / 0x100) % 0x10) as usize;
        let y = ((instr / 0x10) % 0x10) as usize;
        let src = if self.generation == Generation::COSMAC {
            self.registers[y]
        } else {
            self.registers[x]
        };
        if instr % 0x10 == 6 {
            self.registers[x] = src / 2;
            self.set_flag(src % 2 == 1);
        } else {
            self.registers[x] = if src >= 128 {
                (src - 128) * 2
            } else {
                src * 2
            };
            self.set_flag(src >= 128);
        }
        Ok(None)
    }

    fn alu(&mut self, instr: u16) -> (r: Result<Option<AppEvents>, Fault>)
        requires
            old(self).fetched(),
            op_of(instr) == 8,
        ensures
            follows(alu_step(old(self)@, instr), old(self)@, final(self)@, r),
    {
        let n = instr % 0x10;
        if n <= 3 {
            self.alu_bits(instr)
        } else if n == 4 || n == 5 || n == 7 {
            self.alu_carry(instr)
        } else if n == 6 || n == 0xE {
            self.alu_shift(instr)
        } else {
            Err(Fault::UnknownOpcode(instr))
        }
    }

    fn misc(&mut self, instr: u16, keys: u16) -> (r: Result<Option<AppEvents>, Fault>)
        requires
            old(self).fetched(),
            op_of(instr) == 0xF,
        ensures
            follows(misc_step(old(self)@, instr, keys), old(self)@, final(self)@, r),
    {
        let x = ((instr / 0x100) % 0x10) as usize;
        let low = instr % 0x100;
        let vx = self.registers[x];
        let ghost h = self@;
        if low == 0x07 {
            self.registers[x] = self.delay_timer;
        } else if low == 0x15 {
            self.delay_timer = vx;
        } else if low == 0x18 {
            self.sound_timer = vx;
        } else if low == 0x1E {
            self.i = self.i.wrapping_add(vx as u16);
        } else if low == 0x0A {
            if keys == 0 {
                self.pc = self.pc - 2;
            } else {
                self.registers[x] = lowest_pressed(keys);
            }
        } else if low == 0x29 {
            self.i = 5 * vx as u16;
        } else if low == 0x33 {
            if self.i as usize + 3 > MEMORY_SIZE {
                return Err(Fault::MemoryOutOfRange);
            }
            let base = self.i as usize;
            self.memory[base] = vx / 100;
            self.memory[base + 1] = (vx % 100) / 10;
            self.memory[base + 2] = vx % 10;
            proof {
                assert(self@.memory =~= h.memory.update(h.i as int, vx / 100).update(h.i + 1, (vx % 100) / 10).update(
                    h.i + 2,
                    vx % 10,
                ));
            }
        } else if low == 0x55 || low == 0x65 {
            if self.i as usize + x + 1 > MEMORY_SIZE {
                return Err(Fault::MemoryOutOfRange);
            }
            let base = self.i as usize;
            let mut k: usize = 0;
            if low == 0x55 {
                while k <= x
                    invariant
                        x < 16,
                        base == h.i,
                        base + x + 1 <= MEMORY_SIZE,
                        0 <= k <= x + 1,
                        self@ == (HardwareView { memory: self@.memory, ..h }),
                        forall|j: int|
                            0 <= j < 4096 ==> #[trigger] self@.memory[j] == if base <= j < base + k {
                                h.registers[j - base]
                            } else {
                                h.memory[j]
                            },
                    decreases x + 1 - k,
                {
                    self.memory[base + k] = self.registers[k];
                    k += 1;
                }
                proof {
                    assert(self@.memory =~= Seq::new(
                        4096,
                        |j: int|
                            if h.i <= j <= h.i + x {
                                h.registers[j - h.i]
                            } else {
                                h.memory[j]
                            },
                    ));
                }
            } else {
                while k <= x
                    invariant
                        x < 16,
                        base == h.i,
                        base + x + 1 <= MEMORY_SIZE,
                        0 <= k <= x + 1,
                        self@ == (HardwareView { registers: self@.registers, ..h }),
                        forall|j: int|
                            0 <= j < 16 ==> #[trigger] self@.registers[j] == if j < k {
                                h.memory[base + j]
                            } else {
                                h.registers[j]
                            },
                    decreases x + 1 - k,
                {
                    self.registers[k] = self.memory[base + k];
                    k += 1;
                }
                proof {
                    assert(self@.registers =~= Seq::new(
                        16,
                        |j: int|
                            if j <= x {
                                h.memory[h.i + j]
                            } else {
                                h.registers[j]
                            },
                    ));
                }
            }
            if self.generation == Generation::COSMAC {
                self.i = self.i.wrapping_add(x as u16 + 1);
            }
        } else {
            return Err(Fault::UnknownOpcode(instr));
        }
        Ok(None)
    }
}

impl Hardware {
    fn draw(&mut self, instr: u16, frame: &[u8]) -> (r: Result<Option<AppEvents>, Fault>)
        requires
            old(self).fetched(),
        ensures
            follows(draw_step(old(self)@, instr, frame@), old(self)@, final(self)@, r),
    {
        if !self.display_sync {
            self.pc = self.pc - 2;
            return Ok(None);
        }
        let n = (instr % 0x10) as usize;
        if self.i as usize + n > MEMORY_SIZE {
            return Err(Fault::MemoryOutOfRange);
        }
        let x = self.registers[((instr / 0x100) % 0x10) as usize] % SCREEN_WIDTH as u8;
        let y = self.registers[((instr / 0x10) % 0x10) as usize] % SCREEN_HEIGHT as u8;
        let base = self.i as usize;
        let mut sprite: [u8; 16] = [0; 16];
        let mut k: usize = 0;
        while k < n
            invariant
                n <= 16,
                base + n <= MEMORY_SIZE,
                base == self.i,
                0 <= k <= n,
                forall|j: int|
                    0 <= j < 16 ==> #[trigger] sprite@[j] == if j < k {
                        self.memory@[base + j]
                    } else {
                        0u8
                    },
            decreases n - k,
        {
            sprite[k] = self.memory[base + k];
            k += 1;
        }
        proof {
            assert(sprite@ =~= sprite_rows(self.memory@, self.i as int, n as int));
        }
        self.display_sync = false;
        let hit = sprite_collides(frame, &sprite, x, y);
        self.set_flag(hit);
        Ok(Some(AppEvents::DrawSprite { sprite, x, y }))
    }

    fn apply_flow(&mut self, instr: u16) -> (r: Result<Option<AppEvents>, Fault>)
        requires
            old(self).fetched(),
            op_of(instr) <= 2,
        ensures
            follows(flow_step(old(self)@, instr), old(self)@, final(self)@, r),
    {
        let op = instr / 0x1000;
        let nnn = instr % 0x1000;
        if op == 0 {
            if instr == 0x00E0 {
                Ok(Some(AppEvents::ClearScreen))
            } else if instr == 0x00EE {
                if self.stack_frame == 0 {
                    return Err(Fault::StackUnderflow);
                }
                self.stack_frame = self.stack_frame - 1;
                self.pc = self.stack[self.stack_frame as usize];
                Ok(None)
            } else {
                Err(Fault::UnknownOpcode(instr))
            }
        } else if op == 1 {
            self.pc = nnn;
            Ok(None)
        } else {
            if self.stack_frame as usize >= STACK_DEPTH {
                return Err(Fault::StackOverflow);
            }
            self.stack[self.stack_frame as usize] = self.pc;
            self.stack_frame = self.stack_frame + 1;
            self.pc = nnn;
            Ok(None)
        }
    }

    fn apply_reg(&mut self, instr: u16) -> (r: Result<Option<AppEvents>, Fault>)
        requires
            old(self).fetched(),
            3 <= op_of(instr) <= 7,
        ensures
            follows(reg_step(old(self)@, instr), old(self)@, final(self)@, r),
    {
        let op = instr / 0x1000;
        let x = ((instr / 0x100) % 0x10) as usize;
        let nn = (instr % 0x100) as u8;
        let vx = self.registers[x];
        let vy = self.registers[((instr / 0x10) % 0x10) as usize];
        if op == 3 {
            self.skip_when(vx == nn)
        } else if op == 4 {
            self.skip_when(vx != nn)
        } else if op == 5 {
            if instr % 0x10 == 0 {
                self.skip_when(vx == vy)
            } else {
                Err(Fault::UnknownOpcode(instr))
            }
        } else if op == 6 {
            self.registers[x] = nn;
            Ok(None)
        } else {
            self.registers[x] = vx.wrapping_add(nn);
            Ok(None)
        }
    }

    fn apply_calc(&mut self, instr: u16, random: u8) -> (r: Result<Option<AppEvents>, Fault>)
        requires
            old(self).fetched(),
            8 <= op_of(instr) <= 0xC,
        ensures
            follows(calc_step(old(self)@, instr, random), old(self)@, final(self)@, r),
    {
        let op = instr / 0x1000;
        let x = ((instr / 0x100) % 0x10) as usize;
        let vx = self.registers[x];
        if op == 8 {
            self.alu(instr)
        } else if op == 9 {
            if instr % 0x10 == 0 {
                let vy = self.registers[((instr / 0x10) % 0x10) as usize];
                self.skip_when(vx != vy)
            } else {
                Err(Fault::UnknownOpcode(instr))
            }
        } else if op == 0xA {
            self.i = instr % 0x1000;
            Ok(None)
        } else if op == 0xB {
            let base = if self.generation == Generation::COSMAC {
                self.registers[0]
            } else {
                vx
            };
            self.pc = base as u16 + instr % 0x1000;
            Ok(None)
        } else {
            self.registers[x] = random & (instr % 0x100) as u8;
            Ok(None)
        }
    }

    fn apply_io(&mut self, instr: u16, frame: &[u8], keys: u16) -> (r: Result<Option<AppEvents>, Fault>)
        requires
            old(self).fetched(),
            0xD <= op_of(instr),
        ensures
            follows(io_step(old(self)@, instr, frame@, keys), old(self)@, final(self)@, r),
    {
        let op = instr / 0x1000;
        let vx = self.registers[((instr / 0x100) % 0x10) as usize];
        if op == 0xD {
            self.draw(instr, frame)
        } else if op == 0xE {
            let down = (keys >> (vx % 16) as u16) & 1 == 1;
            if instr % 0x100 == 0x9E {
                self.skip_when(down)
            } else if instr % 0x100 == 0xA1 {
                self.skip_when(!down)
            } else {
                Err(Fault::UnknownOpcode(instr))
            }
        } else {
            self.misc(instr, keys)
        }
    }

    /// Applies one instruction, without the program-counter range check.
    fn apply(&mut self, instr: u16, frame: &[u8], keys: u16, random: u8) -> (r: Result<Option<AppEvents>, Fault>)
        requires
            old(self).fetched(),
        ensures
            follows(instr_step(old(self)@, instr, frame@, keys, random), old(self)@, final(self)@, r),
    {
        let op = instr / 0x1000;
        if op <= 2 {
            self.apply_flow(instr)
        } else if op <= 7 {
            self.apply_reg(instr)
        } else if op <= 0xC {
            self.apply_calc(instr, random)
        } else {
            self.apply_io(instr, frame, keys)
        }
    }

    /// Executes one fetched instruction with the given frame buffer, pressed
    /// keys and random byte. On a fault the machine is left unchanged.
    pub fn execute(&mut self, instr: u16, frame: &[u8], keys: u16, random: u8) -> (r: Result<
        Option<AppEvents>,
        Fault,
    >)
        requires
            old(self).fetched(),
        ensures
            follows(step(old(self)@, instr, frame@, keys, random), old(self)@, final(self)@, r),
    {
        let saved = *self;
        match self.apply(instr, frame, keys, random) {
            Ok(effect) => {
                if self.pc < PROGRAM_START || self.pc as usize >= MEMORY_SIZE {
                    *self = saved;
                    Err(Fault::PcOutOfRange)
                } else {
                    Ok(effect)
                }
            },
            Err(f) => Err(f),
        }
    }
}

/// Relies on `fastrand::u8` over the full range `..`: it returns some byte
/// and does not panic (it panics only on an empty range).
#[verifier::external_body]
fn random_byte() -> u8 {
    fastrand::u8(..)
}

/// The built-in hexadecimal font: five rows for each glyph `0`..`F`.
pub open spec fn font() -> Seq<u8> {
    seq![
        0xF0, 0x90, 0x90, 0x90, 0xF0, 0x20, 0x60, 0x20, 0x20, 0x70,
        0xF0, 0x10, 0xF0, 0x80, 0xF0, 0xF0, 0x10, 0xF0, 0x10, 0xF0,
        0x90, 0x90, 0xF0, 0x10, 0x10, 0xF0, 0x80, 0xF0, 0x10, 0xF0,
        0xF0, 0x80, 0xF0, 0x90, 0xF0, 0xF0, 0x10, 0x20, 0x40, 0x40,
        0xF0, 0x90, 0xF0, 0x90, 0xF0, 0xF0, 0x90, 0xF0, 0x10, 0xF0,
        0xF0, 0x90, 0xF0, 0x90, 0x90, 0xE0, 0x90, 0xE0, 0x90, 0xE0,
        0xF0, 0x80, 0x80, 0x80, 0xF0, 0xE0, 0x90, 0x90, 0x90, 0xE0,
        0xF0, 0x80, 0xF0, 0x80, 0xF0, 0xF0, 0x80, 0xF0, 0x80, 0x80,
    ]
}

/// The machine at power-on: the font at address 0, the rest of memory, the
/// registers, timers and stack zero, `pc` at the program start, the draw
/// credit available and the extended profile.
pub open spec fn power_on() -> HardwareView {
    HardwareView {
        memory: font() + Seq::new((MEMORY_SIZE - 80) as nat, |k: int| 0u8),
        stack: Seq::new(STACK_DEPTH as nat, |k: int| 0u16),
        stack_frame: 0,
        i: 0,
        registers: Seq::new(16, |k: int| 0u8),
        pc: PROGRAM_START,
        delay_timer: 0,
        sound_timer: 0,
        generation: Generation::Super,
        display_sync: true,
    }
}

fn font_glyphs() -> (r: [u8; 80])
    ensures
        r@ == font(),
{
    let r: [u8; 80] = [
        0xF0, 0x90, 0x90, 0x90, 0xF0, 0x20, 0x60, 0x20, 0x20, 0x70,
        0xF0, 0x10, 0xF0, 0x80, 0xF0, 0xF0, 0x10, 0xF0, 0x10, 0xF0,
        0x90, 0x90, 0xF0, 0x10, 0x10, 0xF0, 0x80, 0xF0, 0x10, 0xF0,
        0xF0, 0x80, 0xF0, 0x90, 0xF0, 0xF0, 0x10, 0x20, 0x40, 0x40,
        0xF0, 0x90, 0xF0, 0x90, 0xF0, 0xF0, 0x90, 0xF0, 0x10, 0xF0,
        0xF0, 0x90, 0xF0, 0x90, 0x90, 0xE0, 0x90, 0xE0, 0x90, 0xE0,
        0xF0, 0x80, 0x80, 0x80, 0xF0, 0xE0, 0x90, 0x90, 0x90, 0xE0,
        0xF0, 0x80, 0xF0, 0x80, 0xF0, 0xF0, 0x80, 0xF0, 0x80, 0x80,
    ];
    proof {
        assert(r@ =~= font());
    }
    r
}

impl Default for Hardware {
    /// A machine at power-on.
    fn default() -> (h: Hardware)
        ensures
            h@ == power_on(),
    {
        let glyphs = font_glyphs();
        let mut memory: [u8; 4096] = [0; 4096];
        let mut k: usize = 0;
        while k < 80
            invariant
                0 <= k <= 80,
                glyphs@ == font(),
                forall|j: int|
                    0 <= j < 4096 ==> #[trigger] memory@[j] == if j < k {
                        font()[j]
                    } else {
                        0u8
                    },
            decreases 80 - k,
        {
            memory[k] = glyphs[k];
            k += 1;
        }
        let h = Hardware {
            memory,
            stack: [0; 32],
            stack_frame: 0,
            i: 0,
            registers: [0; 16],
            pc: PROGRAM_START,
            delay_timer: 0,
            sound_timer: 0,
            generation: Generation::default(),
            display_sync: true,
        };
        proof {
            assert(h@.memory =~= font() + Seq::new((MEMORY_SIZE - 80) as nat, |k: int| 0u8));
            assert(h@.stack =~= Seq::new(STACK_DEPTH as nat, |k: int| 0u16));
            assert(h@.registers =~= Seq::new(16, |k: int| 0u8));
        }
        h
    }
}

impl Hardware {
    pub fn set_generation(&mut self, generation: Generation)
        ensures
            final(self)@ == (HardwareView { generation, ..old(self)@ }),
    {
        self.generation = generation;
    }

    /// Copies a program into memory at the program start.
    pub fn load_program(&mut self, program: &[u8])
        requires
            program@.len() <= MEMORY_SIZE - PROGRAM_START,
        ensures
            final(self)@ == (HardwareView {
                memory: old(self)@.memory.subrange(0, PROGRAM_START as int) + program@
                    + old(self)@.memory.subrange(PROGRAM_START + program@.len(), MEMORY_SIZE as int),
                ..old(self)@
            }),
    {
        let ghost h = self@;
        let len = program.len();
        let mut k: usize = 0;
        while k < len
            invariant
                len == program@.len(),
                len <= MEMORY_SIZE - PROGRAM_START,
                0 <= k <= len,
                self@ == (HardwareView { memory: self@.memory, ..h }),
                forall|j: int|
                    0 <= j < 4096 ==> #[trigger] self@.memory[j] == if PROGRAM_START <= j < PROGRAM_START + k {
                        program@[j - PROGRAM_START]
                    } else {
                        h.memory[j]
                    },
            decreases len - k,
        {
            self.memory[PROGRAM_START as usize + k] = program[k];
            k += 1;
        }
        proof {
            assert(self@.memory =~= h.memory.subrange(0, PROGRAM_START as int) + program@
                + h.memory.subrange(PROGRAM_START + program@.len(), MEMORY_SIZE as int));
        }
    }

    /// The program counter as an address.
    pub fn pc(&self) -> (r: usize)
        ensures
            r == self.pc,
    {
        self.pc as usize
    }

    /// Reads the big-endian instruction word at `pc` and advances `pc` by 2.
    pub fn fetch(&mut self) -> (r: u16)
        requires
            old(self).pc + 1 < MEMORY_SIZE,
        ensures
            r == word_at(old(self)@.memory, old(self).pc as int),
            final(self)@ == old(self)@.with_pc((old(self).pc + 2) as u16),
    {
        let pc = self.pc();
        let instr = self.memory[pc] as u16 * 0x100 + self.memory[pc + 1] as u16;
        self.pc = self.pc + 2;
        instr
    }

    /// Decodes and executes one fetched instruction; the random opcode draws
    /// its byte from the process-wide generator. On a fault the machine is
    /// left unchanged.
    pub fn decode(&mut self, instr: u16, frame: &[u8], keys: u16) -> (r: Result<Option<AppEvents>, Fault>)
        requires
            old(self).fetched(),
        ensures
            exists|random: u8| follows(step(old(self)@, instr, frame@, keys, random), old(self)@, final(self)@, r),
            !is_random(instr) ==> forall|random: u8|
                follows(#[trigger] step(old(self)@, instr, frame@, keys, random), old(self)@, final(self)@, r),
    {
        let random = if instr / 0x1000 == 0xC {
            random_byte()
        } else {
            0
        };
        let r = self.execute(instr, frame, keys, random);
        proof {
            if !is_random(instr) {
                assert forall|b: u8| step(old(self)@, instr, frame@, keys, b) == step(old(self)@, instr, frame@, keys, random) by {}
            }
        }
        r
    }
}

/// `8XY4` and `8XY5` set the flag register to 1 exactly on carry and on
/// no borrow, and store the wrapped sum or difference in `reg[x]` (unless
/// `x` is the flag register itself, which the flag then overwrites).
pub proof fn lemma_add_sub_flags(h: HardwareView, instr: u16, frame: Seq<u8>, keys: u16, random: u8)
    requires
        op_of(instr) == 8,
        n_of(instr) == 4 || n_of(instr) == 5,
        pc_ok(h.pc as int),
        h.registers.len() == 16,
    ensures
        ({
            let x = x_of(instr) as int;
            let vx = h.registers[x];
            let vy = h.registers[y_of(instr) as int];
            let carry = if n_of(instr) == 4 { vx + vy > 255 } else { vx >= vy };
            let value = if n_of(instr) == 4 { add8(vx, vy) } else { sub8(vx, vy) };
            step(h, instr, frame, keys, random) matches Ok((next, e)) && e is None
                && next.registers[FLAG as int] == (if carry { 1u8 } else { 0u8 })
                && (x != FLAG ==> next.registers[x] == value)
                && next == h.set_reg(x, value).set_flag(carry)
        }),
{
}

/// Shifts read their operand by profile: the legacy profile shifts a copy
/// of `reg[y]`, the extended one shifts `reg[x]` in place.
pub proof fn lemma_shift_quirk(h: HardwareView, instr: u16, frame: Seq<u8>, keys: u16, random: u8)
    requires
        op_of(instr) == 8,
        n_of(instr) == 6 || n_of(instr) == 0xE,
        x_of(instr) != FLAG,
        pc_ok(h.pc as int),
        h.registers.len() == 16,
    ensures
        ({
            let x = x_of(instr) as int;
            let src = if h.generation == Generation::COSMAC {
                h.registers[y_of(instr) as int]
            } else {
                h.registers[x]
            };
            step(h, instr, frame, keys, random) matches Ok((next, e)) && e is None
                && next.registers[x] == (if n_of(instr) == 6 { src / 2 } else { dbl8(src) })
                && next.registers[FLAG as int] == (if (n_of(instr) == 6 && src % 2 == 1) || (n_of(instr)
                == 0xE && src >= 128) { 1u8 } else { 0u8 })
        }),
{
}

/// `7XNN` adds with wraparound and leaves the flag register alone.
pub proof fn lemma_add_immediate_keeps_flag(h: HardwareView, instr: u16, frame: Seq<u8>, keys: u16, random: u8)
    requires
        op_of(instr) == 7,
        x_of(instr) != FLAG,
        pc_ok(h.pc as int),
        h.registers.len() == 16,
    ensures
        step(h, instr, frame, keys, random) matches Ok((next, e)) && e is None
            && next.registers[x_of(instr) as int] == add8(h.registers[x_of(instr) as int], nn_of(instr))
            && next.registers[FLAG as int] == h.registers[FLAG as int]
            && next == h.set_reg(x_of(instr) as int, add8(h.registers[x_of(instr) as int], nn_of(instr))),
{
}

} // verus!
