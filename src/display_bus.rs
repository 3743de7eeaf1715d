use vstd::prelude::*;

use crate::emulator::EmulatorEvents;
use crate::hardware::Generation;
use crate::view::EmulatorKind;

verus! {

/// An RGBA colour.
#[derive(Debug, PartialEq, Eq, Structural, Clone, Copy)]
pub struct Color {
    pub r: u8,
    pub g: u8,
    pub b: u8,
    pub a: u8,
}

impl Color {
    pub fn from_rgba(r: u8, g: u8, b: u8, a: u8) -> (c: Color)
        ensures
            c == (Color { r, g, b, a }),
    {
        Color { r, g, b, a }
    }

    pub fn to_array(self) -> (r: [u8; 4])
        ensures
            r@ == seq![self.r, self.g, self.b, self.a],
    {
        let r = [self.r, self.g, self.b, self.a];
        proof {
            assert(r@ =~= seq![self.r, self.g, self.b, self.a]);
        }
        r
    }
}

/// A message that a client sends to its host.
#[derive(Debug, PartialEq, Eq, Structural, Clone, Copy)]
pub enum ClientMessage {
    /// The client's currently pressed keys, bit `i` for key `i`.
    KeyInput(u16),
}

/// A snapshot of the machine published after each debug cycle.
#[derive(Debug, PartialEq, Eq, Clone, Copy)]
pub struct DebugState {
    pub pc: u16,
    pub i: u16,
    pub reg: [u8; 16],
    pub op: u16,
}

/// Everything that travels to the application: output effects of the
/// machine, requests of the interface, and client messages.
#[derive(Debug, PartialEq, Eq, Clone)]
pub enum AppEvents {
    Nop,
    EmulatorEvent(EmulatorEvents),
    ClearScreen,
    DrawSprite { sprite: [u8; 16], x: u8, y: u8 },
    SpawnEmulator {
        kind: EmulatorKind,
        generation: Generation,
        debugger: bool,
        path: Option<String>,
        fps: u32,
    },
    DebugEmulatorState(DebugState),
    ClientMessage(ClientMessage),
}

impl Default for DebugState {
    fn default() -> (r: DebugState)
        ensures
            r.pc == 0 && r.i == 0 && r.op == 0 && r.reg@ == Seq::new(16, |k: int| 0u8),
    {
        let r = DebugState { pc: 0, i: 0, reg: [0; 16], op: 0 };
        proof {
            assert(r.reg@ =~= Seq::new(16, |k: int| 0u8));
        }
        r
    }
}

/// The debugger's record: the latest snapshot and the history of
/// program-counter values.
#[derive(Debug, PartialEq)]
pub struct Debugger {
    pub current: DebugState,
    pub pc_hist: Vec<u16>,
}

impl Default for Debugger {
    fn default() -> (r: Debugger)
        ensures
            r.current.pc == 0 && r.current.i == 0 && r.current.op == 0,
            r.current.reg@ == Seq::new(16, |k: int| 0u8),
            r.pc_hist@ == Seq::<u16>::empty(),
    {
        Debugger { current: DebugState::default(), pc_hist: Vec::new() }
    }
}

/// Records a published snapshot: an open debugger appends the snapshot's
/// `pc` to its history; otherwise a debugger is opened whose history starts
/// with the snapshot's instruction word.
pub fn update_debugger(debugger: &mut Option<Debugger>, state: DebugState)
    ensures
        *final(debugger) matches Some(d) && d.current == state && d.pc_hist@ == match *old(debugger) {
            Some(old_d) => old_d.pc_hist@.push(state.pc),
            None => seq![state.op],
        },
{
    match debugger {
        Some(d) => {
            d.pc_hist.push(state.pc);
            d.current = state;
        },
        None => {
            let mut pc_hist: Vec<u16> = Vec::new();
            pc_hist.push(state.op);
            proof {
                assert(pc_hist@ =~= seq![state.op]);
            }
            *debugger = Some(Debugger { current: state, pc_hist });
        },
    }
}

} // verus!
