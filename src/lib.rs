//! A CHIP-8 virtual machine: instruction decoder, execution scheduler,
//! frame-buffer helpers and the host/client relay rules.
//!
//! - [`hardware`]: machine state, the instruction semantics and the decoder.
//! - [`runner`]: the real-time and debug schedulers and the timer cadence.
//! - [`emulator`]: one machine-loop iteration and the control events.
//! - [`screen`]: the RGBA frame buffer: drawing, collision, recolouring.
//! - [`wire`]: length-prefixed frames of the peer stream.
//! - [`view`]: which role routes, relays and accepts which event.
//! - [`display_bus`], [`io`], [`debug_map`]: events, key state, and the
//!   debugger's record and instruction descriptions.

pub mod hardware;
pub mod screen;
pub mod display_bus;
pub mod emulator;
pub mod view;
pub mod runner;
pub mod wire;
pub mod io;
pub mod debug_map;
