use crate::execution::{dispatch, fault_of, valid_nibbles, InstructionHandler};
use crate::graphics::{blank_screen, screen_shaped, Graphics};
use vstd::prelude::*;

verus! {

/// Number of addressable memory cells.
pub const MEMORY_SIZE: usize = 4096;

/// Address at which a ROM image is loaded and execution starts.
pub const ROM_START: usize = 0x200;

/// Address of the first font glyph.
pub const FONT_START: usize = 0;

/// Bytes per font glyph.
pub const GLYPH_SIZE: usize = 5;

/// Number of general-purpose registers; the last one, `VF`, is the flag register.
pub const REGISTER_COUNT: usize = 16;

/// Number of keys on the keypad.
pub const KEY_COUNT: usize = 16;

/// Index of the flag register `VF`.
pub const FLAG: usize = 15;

/// A condition that halts the interpreter.
#[derive(PartialEq, Eq, Structural, Clone, Copy, Debug)]
pub enum Fault {
    /// The instruction word matches none of the instruction patterns.
    UnknownInstruction,
    /// A return was executed with an empty call stack.
    StackUnderflow,
    /// An instruction fetch or memory access reached past the last memory cell.
    AddressOutOfRange,
    /// A key instruction named a key above `0xF`.
    InvalidKey,
}

/// The built-in hexadecimal glyphs `0` to `F`, five rows each.
pub open spec fn font() -> Seq<u8> {
    seq![
        0xF0u8, 0x90, 0x90, 0x90, 0xF0, 0x20, 0x60, 0x20, 0x20, 0x70,
        0xF0, 0x10, 0xF0, 0x80, 0xF0, 0xF0, 0x10, 0xF0, 0x10, 0xF0,
        0x90, 0x90, 0xF0, 0x10, 0x10, 0xF0, 0x80, 0xF0, 0x10, 0xF0,
        0xF0, 0x80, 0xF0, 0x90, 0xF0, 0xF0, 0x10, 0x20, 0x40, 0x40,
        0xF0, 0x90, 0xF0, 0x90, 0xF0, 0xF0, 0x90, 0xF0, 0x10, 0xF0,
        0xF0, 0x90, 0xF0, 0x90, 0x90, 0xE0, 0x90, 0xE0, 0x90, 0xE0,
        0xF0, 0x80, 0x80, 0x80, 0xF0, 0xE0, 0x90, 0x90, 0x90, 0xE0,
        0xF0, 0x80, 0xF0, 0x80, 0xF0, 0xF0, 0x80, 0xF0, 0x80, 0x80,
    ]
}

/// Memory at start-up: the font at `FONT_START`, zero elsewhere.
pub open spec fn initial_memory() -> Seq<u8> {
    Seq::new(
        MEMORY_SIZE as nat,
        |a: int|
            if FONT_START <= a < FONT_START + font().len() {
                font()[a - FONT_START]
            } else {
                0
            },
    )
}

/// The abstract state of the interpreter.
pub struct Machine {
    pub pc: usize,
    pub index: u16,
    pub v: Seq<u8>,
    pub delay_timer: u8,
    pub sound_timer: u8,
    pub memory: Seq<u8>,
    pub stack: Seq<usize>,
    pub screen: Seq<Seq<bool>>,
    pub redraw: bool,
    pub keys: Seq<bool>,
}

/// The shapes every processor state has: sixteen registers and keys, the full memory,
/// and a 64 x 32 display.
pub open spec fn machine_shaped(m: Machine) -> bool {
    &&& m.v.len() == REGISTER_COUNT
    &&& m.memory.len() == MEMORY_SIZE
    &&& m.keys.len() == KEY_COUNT
    &&& screen_shaped(m.screen)
}

/// The state right after start-up, with `keys` as the pressed-key snapshot.
pub open spec fn initial_machine(keys: Seq<bool>) -> Machine {
    Machine {
        pc: ROM_START,
        index: 0,
        v: Seq::new(REGISTER_COUNT as nat, |i: int| 0u8),
        delay_timer: 0,
        sound_timer: 0,
        memory: initial_memory(),
        stack: Seq::empty(),
        screen: blank_screen(),
        redraw: false,
        keys,
    }
}

/// A timer after one 60 Hz tick: one less, but never below zero.
pub open spec fn timer_tick(t: u8) -> u8 {
    if t > 0 {
        (t - 1) as u8
    } else {
        0
    }
}

/// The natural nibble decomposition of the instruction word `b1 b2`, most significant
/// first.
pub open spec fn decode(b1: u8, b2: u8) -> Seq<u8> {
    seq![b1 / 16, b1 % 16, b2 / 16, b2 % 16]
}

/// The instruction at the program counter, if it lies within memory.
pub open spec fn fetch(m: Machine) -> Option<Seq<u8>> {
    if m.pc + 1 < MEMORY_SIZE {
        Some(decode(m.memory[m.pc as int], m.memory[m.pc + 1]))
    } else {
        None
    }
}

/// The fatal condition, if any, that the next step meets: the instruction at the program
/// counter lies past the end of memory, or meets one of its own (`fault_of`).
pub open spec fn step_fault(m: Machine) -> Option<Fault> {
    match fetch(m) {
        None => Some(Fault::AddressOutOfRange),
        Some(n) => fault_of(m, n),
    }
}

/// One processor step when `step_fault(m)` is `None`: fetch and decode the instruction at
/// the program counter, apply it, then move to the next instruction unless it set the
/// program counter itself. `rnd` is the byte that `CXNN` masks.
pub open spec fn step(m: Machine, rnd: u8) -> Machine
    recommends
        step_fault(m) is None,
{
    let (next, pc_set) = dispatch(m, fetch(m)->Some_0, rnd);
    if pc_set {
        next
    } else {
        Machine { pc: (next.pc + 2) as usize, ..next }
    }
}

/// The steps taken with the random bytes `rnds`, one per step, in order; the first step
/// that meets a fatal condition ends the run with it.
pub open spec fn run(m: Machine, rnds: Seq<u8>) -> Result<Machine, Fault>
    decreases rnds.len(),
{
    if rnds.len() == 0 {
        Ok(m)
    } else {
        match step_fault(m) {
            Some(e) => Err(e),
            None => run(step(m, rnds[0]), rnds.drop_first()),
        }
    }
}

/// Whether the instruction at the program counter is `CXNN`, the one that uses a random byte.
pub open spec fn fetches_random(m: Machine) -> bool {
    m.pc + 1 < MEMORY_SIZE && m.memory[m.pc as int] / 16 == 0xC
}

/// The processor: registers, timers, memory, call stack, the display surface it draws
/// on and the snapshot of pressed keys it reads.
#[allow(non_snake_case)]
#[derive(Debug)]
pub struct Processor {
    /// Program counter.
    pub PC: usize,
    /// Index register.
    pub I: u16,
    /// General-purpose registers; the last one is the flag register `VF`.
    pub V_REGS: [u8; 16],
    pub delay_timer: u8,
    pub sound_timer: u8,
    pub memory: [u8; 4096],
    /// Return addresses of the subroutine calls in progress, innermost last.
    pub stack: Vec<usize>,
    pub pixels: Graphics,
    /// Which of the keys `0x0` to `0xF` are held down.
    pub pressed_keys: [bool; 16],
}

impl View for Processor {
    type V = Machine;

    open spec fn view(&self) -> Machine {
        Machine {
            pc: self.PC,
            index: self.I,
            v: self.V_REGS@,
            delay_timer: self.delay_timer,
            sound_timer: self.sound_timer,
            memory: self.memory@,
            stack: self.stack@,
            screen: self.pixels@,
            redraw: self.pixels.redraw_requested(),
            keys: self.pressed_keys@,
        }
    }
}

fn font_glyphs() -> (r: [u8; 80])
    ensures
        r@ == font(),
{
    let r: [u8; 80] = [
        0xF0, 0x90, 0x90, 0x90, 0xF0, 0x20, 0x60, 0x20, 0x20, 0x70,
        0xF0, 0x10, 0xF0, 0x80, 0xF0, 0xF0, 0x10, 0xF0, 0x10, 0xF0,
        0x90, 0x90, 0xF0, 0x10, 0x10, 0xF0, 0x80, 0xF0, 0x10, 0xF0,
        0xF0, 0x80, 0xF0, 0x90, 0xF0, 0xF0, 0x10, 0x20, 0x40, 0x40,
        0xF0, 0x90, 0xF0, 0x90, 0xF0, 0xF0, 0x90, 0xF0, 0x10, 0xF0,
        0xF0, 0x90, 0xF0, 0x90, 0x90, 0xE0, 0x90, 0xE0, 0x90, 0xE0,
        0xF0, 0x80, 0x80, 0x80, 0xF0, 0xE0, 0x90, 0x90, 0x90, 0xE0,
        0xF0, 0x80, 0xF0, 0x80, 0xF0, 0xF0, 0x80, 0xF0, 0x80, 0x80,
    ];
    assert(r@ =~= font());
    r
}

impl Processor {
    /// The state of every processor has the expected shapes.
    pub proof fn lemma_shaped(&self)
        ensures
            machine_shaped(self@),
    {
        self.pixels.lemma_shaped();
    }

    /// A processor in its start-up state: font loaded, registers, timers and display
    /// cleared, empty call stack, program counter at `ROM_START`.
    pub fn new(pressed_keys: [bool; 16]) -> (r: Self)
        ensures
            r@ == initial_machine(pressed_keys@),
    {
        let mut processor = Processor {
            PC: ROM_START,
            I: 0,
            V_REGS: [0; 16],
            delay_timer: 0,
            sound_timer: 0,
            memory: [0; 4096],
            stack: Vec::new(),
            pixels: Graphics::new(),
            pressed_keys,
        };
        let glyphs = font_glyphs();
        let mut i: usize = 0;
        while i < glyphs.len()
            invariant
                i <= 80,
                glyphs@ == font(),
                processor.PC == ROM_START,
                processor.I == 0,
                processor.V_REGS@ == Seq::new(REGISTER_COUNT as nat, |i: int| 0u8),
                processor.delay_timer == 0,
                processor.sound_timer == 0,
                processor.stack@ == Seq::<usize>::empty(),
                processor.pixels@ == blank_screen(),
                !processor.pixels.redraw_requested(),
                processor.pressed_keys == pressed_keys,
                forall|a: int|
                    0 <= a < MEMORY_SIZE ==> #[trigger] processor.memory@[a] == if FONT_START <= a
                        < FONT_START + i {
                        font()[a - FONT_START]
                    } else {
                        0
                    },
            decreases 80 - i,
        {
            processor.memory[FONT_START + i] = glyphs[i];
            i = i + 1;
        }
        assert(processor.memory@ =~= initial_memory());
        assert(processor.V_REGS@ =~= Seq::new(REGISTER_COUNT as nat, |i: int| 0u8));
        processor
    }

    /// One 60 Hz timer tick: each nonzero timer goes down by one.
    pub fn tick_timers(&mut self)
        ensures
            final(self)@ == (Machine {
                delay_timer: timer_tick(old(self).delay_timer),
                sound_timer: timer_tick(old(self).sound_timer),
                ..old(self)@
            }),
    {
        if self.delay_timer > 0 {
            self.delay_timer = self.delay_timer - 1;
        }
        if self.sound_timer > 0 {
            self.sound_timer = self.sound_timer - 1;
        }
    }

    /// Whether the tone should sound: exactly while the sound timer is nonzero.
    pub fn sound_enabled(&self) -> (r: bool)
        ensures
            r == (self.sound_timer > 0),
    {
        self.sound_timer > 0
    }
    /// The fatal condition, if any, that the next step meets; `None` when it can run.
    pub fn fault(&self) -> (r: Option<Fault>)
        ensures
            r == step_fault(self@),
    {
        if self.PC >= MEMORY_SIZE - 1 {
            return Some(Fault::AddressOutOfRange);
        }
        let nibbles = self.fetch_nibbles();
        InstructionHandler::fault(self, nibbles)
    }

    /// The nibbles of the instruction at the program counter.
    fn fetch_nibbles(&self) -> (r: [u8; 4])
        requires
            self.PC + 1 < MEMORY_SIZE,
        ensures
            fetch(self@) == Some(r@),
            valid_nibbles(r@),
    {
        let byte1 = self.memory[self.PC];
        let byte2 = self.memory[self.PC + 1];
        let nibbles = [byte1 >> 4u8, byte1 & 0xF, byte2 >> 4u8, byte2 & 0xF];
        assert(byte1 >> 4u8 == byte1 / 16 && byte1 & 0xF == byte1 % 16 && byte2 >> 4u8 == byte2
            / 16 && byte2 & 0xF == byte2 % 16) by (bit_vector);
        assert(nibbles@ =~= decode(byte1, byte2));
        nibbles
    }

    /// One step with `random` as the byte that `CXNN` masks: fetch the two bytes at the
    /// program counter, decode them into nibbles, apply the instruction, and advance the
    /// program counter by two unless the instruction set it. The step must meet no fatal
    /// condition (see `fault`).
    pub fn execute_with(&mut self, random: u8)
        requires
            step_fault(old(self)@) is None,
        ensures
            final(self)@ == step(old(self)@, random),
    {
        let nibbles = self.fetch_nibbles();
        let ghost n = nibbles@;
        let pc_set = InstructionHandler::execute_with(self, nibbles, random);
        if !pc_set {
            proof {
                lemma_dispatch_advance(old(self)@, n, random);
            }
            self.PC = self.PC + 2;
        }
    }

    /// One step, drawing the byte that `CXNN` masks from the thread-local random generator
    /// when the instruction is `CXNN`. The outcome is that of `execute_with` for some
    /// byte, and for any other instruction exactly that of `execute_with`. The step must
    /// meet no fatal condition (see `fault`).
    pub fn execute(&mut self)
        requires
            step_fault(old(self)@) is None,
        ensures
            exists|random: u8| final(self)@ == #[trigger] step(old(self)@, random),
            !fetches_random(old(self)@) ==> final(self)@ == step(old(self)@, 0),
    {
        let byte1 = self.memory[self.PC];
        assert(byte1 >> 4u8 == byte1 / 16) by (bit_vector);
        let random = if byte1 >> 4u8 == 0xC {
            crate::execution::random_byte()
        } else {
            0
        };
        self.execute_with(random)
    }
}

/// An instruction that does not set the program counter moves it by at most two.
proof fn lemma_dispatch_advance(m: Machine, n: Seq<u8>, rnd: u8)
    requires
        valid_nibbles(n),
        m.pc + 1 < MEMORY_SIZE,
        fault_of(m, n) is None,
        !dispatch(m, n, rnd).1,
    ensures
        dispatch(m, n, rnd).0.pc <= m.pc + 2,
{
}

} // verus!
