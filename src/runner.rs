use vstd::prelude::*;

verus! {

/// Executed cycles per 60 Hz timer tick.
pub const CYCLES_PER_TICK: u32 = 18;

/// Whether cycles run freely or on an operator-granted budget.
#[derive(Debug, PartialEq, Eq, Structural, Clone, Copy)]
pub enum Chip8RunnerKind {
    DebugRunner { cycles_to_run: usize },
    NormalRunner,
}

impl Chip8RunnerKind {
    pub open spec fn can_run_spec(&self) -> bool {
        match self {
            Chip8RunnerKind::DebugRunner { cycles_to_run } => *cycles_to_run > 0,
            Chip8RunnerKind::NormalRunner => true,
        }
    }

    pub open spec fn spec_new(debug: bool) -> Chip8RunnerKind {
        if debug {
            Chip8RunnerKind::DebugRunner { cycles_to_run: 0 }
        } else {
            Chip8RunnerKind::NormalRunner
        }
    }

    /// A debug runner starts with an empty budget.
    pub fn new(debug: bool) -> (r: Chip8RunnerKind)
        ensures
            r == Chip8RunnerKind::spec_new(debug),
    {
        if debug {
            Chip8RunnerKind::DebugRunner { cycles_to_run: 0 }
        } else {
            Chip8RunnerKind::NormalRunner
        }
    }

    /// Spends one cycle of a debug budget.
    pub fn advance(&mut self)
        requires
            old(self).can_run_spec(),
        ensures
            *final(self) == match *old(self) {
                Chip8RunnerKind::DebugRunner { cycles_to_run } => Chip8RunnerKind::DebugRunner {
                    cycles_to_run: (cycles_to_run - 1) as usize,
                },
                Chip8RunnerKind::NormalRunner => Chip8RunnerKind::NormalRunner,
            },
    {
        if let Chip8RunnerKind::DebugRunner { cycles_to_run } = self {
            *cycles_to_run = *cycles_to_run - 1;
        }
    }

    pub fn can_run(&self) -> (r: bool)
        ensures
            r == self.can_run_spec(),
    {
        match self {
            Chip8RunnerKind::DebugRunner { cycles_to_run } => *cycles_to_run > 0,
            Chip8RunnerKind::NormalRunner => true,
        }
    }
}

/// The execution scheduler: the runner kind and the count of executed
/// cycles, which sets the timer cadence.
#[derive(Debug, PartialEq, Eq, Structural, Clone, Copy)]
pub struct Chip8Runner {
    pub kind: Chip8RunnerKind,
    pub cycles: u32,
}

impl Chip8Runner {
    pub open spec fn spec_new(debug: bool) -> Chip8Runner {
        Chip8Runner { kind: Chip8RunnerKind::spec_new(debug), cycles: 0 }
    }

    pub open spec fn is_debug_spec(&self) -> bool {
        self.kind is DebugRunner
    }

    pub open spec fn tick_spec(&self) -> bool {
        self.cycles % CYCLES_PER_TICK == 0
    }

    pub fn new(debug: bool) -> (r: Chip8Runner)
        ensures
            r == Chip8Runner::spec_new(debug),
    {
        Chip8Runner { kind: Chip8RunnerKind::new(debug), cycles: 0 }
    }

    pub fn is_debug(&self) -> (r: bool)
        ensures
            r == self.is_debug_spec(),
    {
        matches!(self.kind, Chip8RunnerKind::DebugRunner { cycles_to_run: _ })
    }

    /// The cycle count lands on a timer-tick boundary.
    pub fn hardware_clock_tick(&self) -> (r: bool)
        ensures
            r == self.tick_spec(),
    {
        self.cycles % CYCLES_PER_TICK == 0
    }

    /// Counts one executed cycle against the budget and the cadence.
    pub fn advance(&mut self)
        requires
            old(self).kind.can_run_spec(),
        ensures
            final(self).kind == match old(self).kind {
                Chip8RunnerKind::DebugRunner { cycles_to_run } => Chip8RunnerKind::DebugRunner {
                    cycles_to_run: (cycles_to_run - 1) as usize,
                },
                Chip8RunnerKind::NormalRunner => Chip8RunnerKind::NormalRunner,
            },
            final(self).cycles == (old(self).cycles + 1) % 0x1_0000_0000,
    {
        self.kind.advance();
        self.cycles = self.cycles.wrapping_add(1);
    }

    pub fn can_run(&self) -> (r: bool)
        ensures
            r == self.kind.can_run_spec(),
    {
        self.kind.can_run()
    }
}

} // verus!
