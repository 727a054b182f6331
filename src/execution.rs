use crate::graphics::{
    blank_screen, collides, drawn, on_screen, with_pixel, PixelState, REAL_HEIGHT, REAL_WIDTH,
};
use crate::processor::{
    Fault, Machine, Processor, FLAG, FONT_START, GLYPH_SIZE, KEY_COUNT, MEMORY_SIZE,
};
use crate::utils::{all_nibbles, hex_value, Utils};
use vstd::prelude::*;

verus! {

/// Relies on rand::random: a byte drawn from the thread-local generator. Nothing is
/// promised of its value.
#[verifier::external_body]
pub(crate) fn random_byte() -> u8 {
    rand::random::<u8>()
}

/// Four decoded nibbles of an instruction word, most significant first.
pub open spec fn valid_nibbles(n: Seq<u8>) -> bool {
    n.len() == 4 && all_nibbles(n)
}

/// The 8-bit immediate `NN` held in the low byte.
pub open spec fn immediate(n: Seq<u8>) -> u8 {
    (n[2] * 16 + n[3]) as u8
}

/// The 12-bit address `NNN` held in the low three nibbles.
pub open spec fn address(n: Seq<u8>) -> u16 {
    (n[1] * 256 + n[2] * 16 + n[3]) as u16
}

/// `m` with register `x` set to `val`.
pub open spec fn with_reg(m: Machine, x: int, val: u8) -> Machine {
    Machine { v: m.v.update(x, val), ..m }
}

/// `m` with register `x` set to `val` and then the flag register set to `flag`.
pub open spec fn with_reg_flag(m: Machine, x: int, val: u8, flag: bool) -> Machine {
    Machine { v: m.v.update(x, val).update(FLAG as int, if flag { 1u8 } else { 0u8 }), ..m }
}

/// `m` with the next instruction skipped when `cond` holds.
pub open spec fn skip_when(m: Machine, cond: bool) -> Machine {
    if cond {
        Machine { pc: (m.pc + 2) as usize, ..m }
    } else {
        m
    }
}

/// `00E0`: every pixel off, display flagged for presentation.
/// `00E0`: every pixel off, display flagged for presentation.
pub open spec fn op_clear(m: Machine) -> Machine {
    Machine { screen: blank_screen(), redraw: true, ..m }
}

/// `00EE`: pop the innermost return address and jump there.
pub open spec fn op_return(m: Machine) -> Machine {
    Machine { pc: m.stack.last(), stack: m.stack.drop_last(), ..m }
}

/// `2NNN`: push the address of the next instruction and jump to `NNN`.
pub open spec fn op_call(m: Machine, target: u16) -> Machine {
    Machine { pc: target as usize, stack: m.stack.push((m.pc + 2) as usize), ..m }
}

/// The register-register group `8XY_`, selected by `op`.
pub open spec fn op_alu(m: Machine, x: int, y: int, op: u8) -> Machine {
    let vx = m.v[x];
    let vy = m.v[y];
    if op == 0 {
        with_reg(m, x, vy)
    } else if op == 1 {
        with_reg(m, x, vx | vy)
    } else if op == 2 {
        with_reg(m, x, vx & vy)
    } else if op == 3 {
        with_reg(m, x, vx ^ vy)
    } else if op == 4 {
        with_reg_flag(m, x, ((vx + vy) % 256) as u8, vx + vy > 255)
    } else if op == 5 {
        with_reg_flag(m, x, ((vx - vy) % 256) as u8, vx >= vy)
    } else if op == 6 {
        with_reg_flag(m, x, vy / 2, vy % 2 == 1)
    } else if op == 7 {
        with_reg_flag(m, x, ((vy - vx) % 256) as u8, vy >= vx)
    } else {
        with_reg_flag(m, x, ((vy * 2) % 256) as u8, vy / 128 == 1)
    }
}

/// The rows of the `height`-row sprite at `I`.
pub open spec fn sprite_rows(m: Machine, height: int) -> Seq<u8> {
    m.memory.subrange(m.index as int, m.index + height)
}

/// `DXYN`: XOR the `N`-row sprite at `I` onto the display at `(VX mod 64, VY mod 32)`,
/// clipping at the edges; `VF` tells whether a lit pixel was turned off.
pub open spec fn op_draw(m: Machine, x: int, y: int, height: int) -> Machine {
    let rows = sprite_rows(m, height);
    let x0 = (m.v[x] % 64) as int;
    let y0 = (m.v[y] % 32) as int;
    let hit = collides(m.screen, rows, x0, y0);
    Machine {
        screen: drawn(m.screen, rows, x0, y0),
        redraw: true,
        v: m.v.update(FLAG as int, if hit { 1u8 } else { 0u8 }),
        ..m
    }
}

/// `EX9E` / `EXA1`: skip when key `VX` is pressed (`when_pressed`) or not pressed.
pub open spec fn op_skip_key(m: Machine, x: int, when_pressed: bool) -> Machine {
    skip_when(m, m.keys[m.v[x] as int] == when_pressed)
}

/// The highest-numbered pressed key among the first `n`, if any.
pub open spec fn highest_pressed(keys: Seq<bool>, n: int) -> Option<int>
    decreases n,
{
    if n <= 0 {
        None
    } else if keys[n - 1] {
        Some(n - 1)
    } else {
        highest_pressed(keys, n - 1)
    }
}

/// `FX0A`: with a key pressed, store the highest pressed key in `VX`; with none, move the
/// program counter back by two so that the usual advance fetches this instruction again.
pub open spec fn op_wait_key(m: Machine, x: int) -> Machine {
    match highest_pressed(m.keys, KEY_COUNT as int) {
        Some(k) => with_reg(m, x, k as u8),
        None => Machine { pc: (m.pc - 2) as usize, ..m },
    }
}

/// `FX1E`: `I = (I + VX) mod 0x1000`; `VF` tells whether the sum passed `0xFFF`.
pub open spec fn op_add_index(m: Machine, x: int) -> Machine {
    let sum = m.index + m.v[x];
    Machine {
        index: (sum % 4096) as u16,
        v: m.v.update(FLAG as int, if sum > 0xFFF { 1u8 } else { 0u8 }),
        ..m
    }
}

/// `FX33`: the three decimal digits of `VX` at `I`, `I + 1`, `I + 2`.
pub open spec fn op_bcd(m: Machine, x: int) -> Machine {
    let vx = m.v[x];
    let i = m.index as int;
    Machine {
        memory: m.memory.update(i, vx / 100).update(i + 1, (vx / 10) % 10).update(i + 2, vx % 10),
        ..m
    }
}

/// `FX55`: registers `V0` to `VX` stored at `I` onwards.
pub open spec fn op_store(m: Machine, x: int) -> Machine {
    let i = m.index as int;
    Machine {
        memory: Seq::new(
            MEMORY_SIZE as nat,
            |a: int|
                if i <= a <= i + x {
                    m.v[a - i]
                } else {
                    m.memory[a]
                },
        ),
        ..m
    }
}

/// `FX65`: registers `V0` to `VX` loaded from `I` onwards.
pub open spec fn op_load(m: Machine, x: int) -> Machine {
    let i = m.index as int;
    Machine {
        v: Seq::new(
            16,
            |r: int|
                if r <= x {
                    m.memory[i + r]
                } else {
                    m.v[r]
                },
        ),
        ..m
    }
}

/// The fatal condition, if any, that the instruction with nibbles `n` meets in `m`: a word
/// that matches no instruction pattern, a return with an empty call stack, a memory access
/// past the last cell, a key above `0xF`, or a key wait that would move the program
/// counter below address zero.
pub open spec fn fault_of(m: Machine, n: Seq<u8>) -> Option<Fault> {
    let x = n[1] as int;
    let vx = m.v[x];
    let i = m.index as int;
    if n[0] == 0x0 {
        if n[1] == 0 && n[2] == 0xE && n[3] == 0x0 {
            None
        } else if n[1] == 0 && n[2] == 0xE && n[3] == 0xE {
            if m.stack.len() == 0 {
                Some(Fault::StackUnderflow)
            } else {
                None
            }
        } else {
            Some(Fault::UnknownInstruction)
        }
    } else if n[0] == 0x5 || n[0] == 0x9 {
        if n[3] == 0 {
            None
        } else {
            Some(Fault::UnknownInstruction)
        }
    } else if n[0] == 0x8 {
        if n[3] <= 7 || n[3] == 0xE {
            None
        } else {
            Some(Fault::UnknownInstruction)
        }
    } else if n[0] == 0xD {
        if i + n[3] > MEMORY_SIZE {
            Some(Fault::AddressOutOfRange)
        } else {
            None
        }
    } else if n[0] == 0xE {
        if (n[2] == 0x9 && n[3] == 0xE) || (n[2] == 0xA && n[3] == 0x1) {
            if vx >= KEY_COUNT {
                Some(Fault::InvalidKey)
            } else {
                None
            }
        } else {
            Some(Fault::UnknownInstruction)
        }
    } else if n[0] == 0xF {
        if (n[2] == 0x0 && n[3] == 0x7) || (n[2] == 0x1 && n[3] == 0x5) || (n[2] == 0x1 && n[3]
            == 0x8) || (n[2] == 0x1 && n[3] == 0xE) || (n[2] == 0x2 && n[3] == 0x9) {
            None
        } else if n[2] == 0x0 && n[3] == 0xA {
            if highest_pressed(m.keys, KEY_COUNT as int) is None && m.pc < 2 {
                Some(Fault::AddressOutOfRange)
            } else {
                None
            }
        } else if n[2] == 0x3 && n[3] == 0x3 {
            if i + 3 > MEMORY_SIZE {
                Some(Fault::AddressOutOfRange)
            } else {
                None
            }
        } else if (n[2] == 0x5 || n[2] == 0x6) && n[3] == 0x5 {
            if i + x + 1 > MEMORY_SIZE {
                Some(Fault::AddressOutOfRange)
            } else {
                None
            }
        } else {
            Some(Fault::UnknownInstruction)
        }
    } else {
        None
    }
}

/// The effect of one instruction, given as its nibbles `n`, on `m` when `fault_of(m, n)`
/// is `None`: the new state, and whether the instruction set the program counter itself
/// (a jump, call, return or jump with offset). `rnd` is the random byte that `CXNN` masks.
pub open spec fn dispatch(m: Machine, n: Seq<u8>, rnd: u8) -> (Machine, bool)
    recommends
        fault_of(m, n) is None,
{
    let x = n[1] as int;
    let y = n[2] as int;
    let vx = m.v[x];
    let vy = m.v[y];
    let nn = immediate(n);
    let nnn = address(n);
    if n[0] == 0x0 {
        if n[3] == 0x0 {
            (op_clear(m), false)
        } else {
            (op_return(m), true)
        }
    } else if n[0] == 0x1 {
        (Machine { pc: nnn as usize, ..m }, true)
    } else if n[0] == 0x2 {
        (op_call(m, nnn), true)
    } else if n[0] == 0x3 {
        (skip_when(m, vx == nn), false)
    } else if n[0] == 0x4 {
        (skip_when(m, vx != nn), false)
    } else if n[0] == 0x5 {
        (skip_when(m, vx == vy), false)
    } else if n[0] == 0x6 {
        (with_reg(m, x, nn), false)
    } else if n[0] == 0x7 {
        (with_reg(m, x, ((vx + nn) % 256) as u8), false)
    } else if n[0] == 0x8 {
        (op_alu(m, x, y, n[3]), false)
    } else if n[0] == 0x9 {
        (skip_when(m, vx != vy), false)
    } else if n[0] == 0xA {
        (Machine { index: nnn, ..m }, false)
    } else if n[0] == 0xB {
        (Machine { pc: (nnn + m.v[0]) as usize, ..m }, true)
    } else if n[0] == 0xC {
        (with_reg(m, x, rnd & nn), false)
    } else if n[0] == 0xD {
        (op_draw(m, x, y, n[3] as int), false)
    } else if n[0] == 0xE {
        (op_skip_key(m, x, n[2] == 0x9), false)
    } else {
        let next = if n[2] == 0x0 && n[3] == 0x7 {
            with_reg(m, x, m.delay_timer)
        } else if n[2] == 0x1 && n[3] == 0x5 {
            Machine { delay_timer: vx, ..m }
        } else if n[2] == 0x1 && n[3] == 0x8 {
            Machine { sound_timer: vx, ..m }
        } else if n[2] == 0x1 && n[3] == 0xE {
            op_add_index(m, x)
        } else if n[2] == 0x0 && n[3] == 0xA {
            op_wait_key(m, x)
        } else if n[2] == 0x2 && n[3] == 0x9 {
            Machine { index: (FONT_START + (vx % 16) * GLYPH_SIZE) as u16, ..m }
        } else if n[2] == 0x3 && n[3] == 0x3 {
            op_bcd(m, x)
        } else if n[2] == 0x5 {
            op_store(m, x)
        } else {
            op_load(m, x)
        };
        (next, false)
    }
}

proof fn lemma_hex_pair(a: u8, b: u8)
    ensures
        hex_value(seq![a, b]) == a * 16 + b,
{
    let one = seq![a];
    let two = seq![a, b];
    assert(two.drop_last() =~= one);
    assert(one.drop_last() =~= Seq::<u8>::empty());
    assert(hex_value(Seq::<u8>::empty()) == 0);
    assert(hex_value(one) == a);
    assert(two.last() == b);
}

proof fn lemma_hex_triple(a: u8, b: u8, c: u8)
    ensures
        hex_value(seq![a, b, c]) == a * 256 + b * 16 + c,
{
    assert(seq![a, b, c].drop_last() =~= seq![a, b]);
    lemma_hex_pair(a, b);
}

pub struct InstructionHandler {}

impl InstructionHandler {
    fn immediate_of(nibbles: [u8; 4]) -> (r: u8)
        requires
            valid_nibbles(nibbles@),
        ensures
            r == immediate(nibbles@),
    {
        let pair = [nibbles[2], nibbles[3]];
        proof {
            assert(pair@ =~= seq![nibbles[2], nibbles[3]]);
            lemma_hex_pair(nibbles[2], nibbles[3]);
        }
        Utils::resolve_hex(&pair) as u8
    }

    fn address_of(nibbles: [u8; 4]) -> (r: u16)
        requires
            valid_nibbles(nibbles@),
        ensures
            r == address(nibbles@),
            r < 4096,
    {
        let triple = [nibbles[1], nibbles[2], nibbles[3]];
        proof {
            assert(triple@ =~= seq![nibbles[1], nibbles[2], nibbles[3]]);
            lemma_hex_triple(nibbles[1], nibbles[2], nibbles[3]);
        }
        Utils::resolve_hex(&triple)
    }
    /// `1NNN`
    fn jump(processor: &mut Processor, nibbles: [u8; 4])
        requires
            valid_nibbles(nibbles@),
        ensures
            final(processor)@ == (Machine { pc: address(nibbles@) as usize, ..old(processor)@ }),
    {
        let address = Self::address_of(nibbles);
        processor.PC = address as usize;
    }

    /// `2NNN`
    fn sub_call(processor: &mut Processor, nibbles: [u8; 4])
        requires
            valid_nibbles(nibbles@),
            old(processor).PC + 1 < MEMORY_SIZE,
        ensures
            final(processor)@ == op_call(old(processor)@, address(nibbles@)),
    {
        let address = Self::address_of(nibbles);
        processor.stack.push(processor.PC + 2);
        processor.PC = address as usize;
    }

    /// `00EE`
    fn sub_return(processor: &mut Processor)
        requires
            old(processor).stack@.len() > 0,
        ensures
            final(processor)@ == op_return(old(processor)@),
    {
        match processor.stack.pop() {
            Some(return_address) => {
                processor.PC = return_address;
            },
            None => {},
        }
    }

    /// `3XNN`
    fn skip_immediate_equal(processor: &mut Processor, nibbles: [u8; 4])
        requires
            valid_nibbles(nibbles@),
            old(processor).PC + 1 < MEMORY_SIZE,
        ensures
            final(processor)@ == skip_when(
                old(processor)@,
                old(processor)@.v[nibbles@[1] as int] == immediate(nibbles@),
            ),
    {
        let value = Self::immediate_of(nibbles);
        if processor.V_REGS[nibbles[1] as usize] == value {
            processor.PC = processor.PC + 2;
        }
    }

    /// `4XNN`
    fn skip_immediate_not_equal(processor: &mut Processor, nibbles: [u8; 4])
        requires
            valid_nibbles(nibbles@),
            old(processor).PC + 1 < MEMORY_SIZE,
        ensures
            final(processor)@ == skip_when(
                old(processor)@,
                old(processor)@.v[nibbles@[1] as int] != immediate(nibbles@),
            ),
    {
        let value = Self::immediate_of(nibbles);
        if processor.V_REGS[nibbles[1] as usize] != value {
            processor.PC = processor.PC + 2;
        }
    }

    /// `5XY0`
    fn skip_registers_equal(processor: &mut Processor, nibbles: [u8; 4])
        requires
            valid_nibbles(nibbles@),
            old(processor).PC + 1 < MEMORY_SIZE,
        ensures
            final(processor)@ == skip_when(
                old(processor)@,
                old(processor)@.v[nibbles@[1] as int] == old(processor)@.v[nibbles@[2] as int],
            ),
    {
        let value_x = processor.V_REGS[nibbles[1] as usize];
        let value_y = processor.V_REGS[nibbles[2] as usize];
        if value_x == value_y {
            processor.PC = processor.PC + 2;
        }
    }

    /// `9XY0`
    fn skip_registers_not_equal(processor: &mut Processor, nibbles: [u8; 4])
        requires
            valid_nibbles(nibbles@),
            old(processor).PC + 1 < MEMORY_SIZE,
        ensures
            final(processor)@ == skip_when(
                old(processor)@,
                old(processor)@.v[nibbles@[1] as int] != old(processor)@.v[nibbles@[2] as int],
            ),
    {
        let value_x = processor.V_REGS[nibbles[1] as usize];
        let value_y = processor.V_REGS[nibbles[2] as usize];
        if value_x != value_y {
            processor.PC = processor.PC + 2;
        }
    }

    /// `6XNN`
    fn set_register_immediate(processor: &mut Processor, nibbles: [u8; 4])
        requires
            valid_nibbles(nibbles@),
        ensures
            final(processor)@ == with_reg(old(processor)@, nibbles@[1] as int, immediate(nibbles@)),
    {
        let value = Self::immediate_of(nibbles);
        processor.V_REGS[nibbles[1] as usize] = value;
    }

    /// `7XNN`
    fn add_immediate(processor: &mut Processor, nibbles: [u8; 4])
        requires
            valid_nibbles(nibbles@),
        ensures
            final(processor)@ == with_reg(
                old(processor)@,
                nibbles@[1] as int,
                ((old(processor)@.v[nibbles@[1] as int] + immediate(nibbles@)) % 256) as u8,
            ),
    {
        let register = nibbles[1] as usize;
        let value = Self::immediate_of(nibbles);
        let sum = processor.V_REGS[register] as u16 + value as u16;
        processor.V_REGS[register] = (sum % 256) as u8;
    }

    /// `ANNN`
    fn set_index(processor: &mut Processor, nibbles: [u8; 4])
        requires
            valid_nibbles(nibbles@),
        ensures
            final(processor)@ == (Machine { index: address(nibbles@), ..old(processor)@ }),
    {
        processor.I = Self::address_of(nibbles);
    }

    /// `BNNN`
    fn jump_with_offset(processor: &mut Processor, nibbles: [u8; 4])
        requires
            valid_nibbles(nibbles@),
        ensures
            final(processor)@ == (Machine {
                pc: (address(nibbles@) + old(processor)@.v[0]) as usize,
                ..old(processor)@
            }),
    {
        let address = Self::address_of(nibbles) as usize;
        processor.PC = address + processor.V_REGS[0] as usize;
    }

    /// `CXNN`, with `random` as the drawn byte.
    fn random(processor: &mut Processor, nibbles: [u8; 4], random: u8)
        requires
            valid_nibbles(nibbles@),
        ensures
            final(processor)@ == with_reg(
                old(processor)@,
                nibbles@[1] as int,
                random & immediate(nibbles@),
            ),
    {
        let mask = Self::immediate_of(nibbles);
        processor.V_REGS[nibbles[1] as usize] = random & mask;
    }

    /// `FX07`
    fn get_delay_timer(processor: &mut Processor, nibbles: [u8; 4])
        requires
            valid_nibbles(nibbles@),
        ensures
            final(processor)@ == with_reg(
                old(processor)@,
                nibbles@[1] as int,
                old(processor).delay_timer,
            ),
    {
        processor.V_REGS[nibbles[1] as usize] = processor.delay_timer;
    }

    /// `FX15`
    fn set_delay_timer(processor: &mut Processor, nibbles: [u8; 4])
        requires
            valid_nibbles(nibbles@),
        ensures
            final(processor)@ == (Machine {
                delay_timer: old(processor)@.v[nibbles@[1] as int],
                ..old(processor)@
            }),
    {
        processor.delay_timer = processor.V_REGS[nibbles[1] as usize];
    }

    /// `FX18`
    fn set_sound_timer(processor: &mut Processor, nibbles: [u8; 4])
        requires
            valid_nibbles(nibbles@),
        ensures
            final(processor)@ == (Machine {
                sound_timer: old(processor)@.v[nibbles@[1] as int],
                ..old(processor)@
            }),
    {
        processor.sound_timer = processor.V_REGS[nibbles[1] as usize];
    }
    /// `8XY0`
    fn set_register_register(processor: &mut Processor, nibbles: [u8; 4])
        requires
            valid_nibbles(nibbles@),
        ensures
            final(processor)@ == op_alu(old(processor)@, nibbles@[1] as int, nibbles@[2] as int, 0),
    {
        let value_y = processor.V_REGS[nibbles[2] as usize];
        processor.V_REGS[nibbles[1] as usize] = value_y;
    }

    /// `8XY1`
    fn or(processor: &mut Processor, nibbles: [u8; 4])
        requires
            valid_nibbles(nibbles@),
        ensures
            final(processor)@ == op_alu(old(processor)@, nibbles@[1] as int, nibbles@[2] as int, 1),
    {
        let register_x = nibbles[1] as usize;
        let value_x = processor.V_REGS[register_x];
        let value_y = processor.V_REGS[nibbles[2] as usize];
        processor.V_REGS[register_x] = value_x | value_y;
    }

    /// `8XY2`
    fn and(processor: &mut Processor, nibbles: [u8; 4])
        requires
            valid_nibbles(nibbles@),
        ensures
            final(processor)@ == op_alu(old(processor)@, nibbles@[1] as int, nibbles@[2] as int, 2),
    {
        let register_x = nibbles[1] as usize;
        let value_x = processor.V_REGS[register_x];
        let value_y = processor.V_REGS[nibbles[2] as usize];
        processor.V_REGS[register_x] = value_x & value_y;
    }

    /// `8XY3`
    fn xor(processor: &mut Processor, nibbles: [u8; 4])
        requires
            valid_nibbles(nibbles@),
        ensures
            final(processor)@ == op_alu(old(processor)@, nibbles@[1] as int, nibbles@[2] as int, 3),
    {
        let register_x = nibbles[1] as usize;
        let value_x = processor.V_REGS[register_x];
        let value_y = processor.V_REGS[nibbles[2] as usize];
        processor.V_REGS[register_x] = value_x ^ value_y;
    }

    /// `8XY4`: add with carry into `VF`.
    fn add_register(processor: &mut Processor, nibbles: [u8; 4])
        requires
            valid_nibbles(nibbles@),
        ensures
            final(processor)@ == op_alu(old(processor)@, nibbles@[1] as int, nibbles@[2] as int, 4),
    {
        let register_x = nibbles[1] as usize;
        let value_x = processor.V_REGS[register_x];
        let value_y = processor.V_REGS[nibbles[2] as usize];
        let sum = value_x as u16 + value_y as u16;
        processor.V_REGS[register_x] = (sum % 256) as u8;
        processor.V_REGS[FLAG] = if sum > 255 {
            1
        } else {
            0
        };
    }

    /// `8XY5`: `VX - VY`, `VF` set when there is no borrow.
    fn subtraction_regular(processor: &mut Processor, nibbles: [u8; 4])
        requires
            valid_nibbles(nibbles@),
        ensures
            final(processor)@ == op_alu(old(processor)@, nibbles@[1] as int, nibbles@[2] as int, 5),
    {
        let register_x = nibbles[1] as usize;
        let value_x = processor.V_REGS[register_x];
        let value_y = processor.V_REGS[nibbles[2] as usize];
        let difference = ((256 + value_x as u16 - value_y as u16) % 256) as u8;
        processor.V_REGS[register_x] = difference;
        processor.V_REGS[FLAG] = if value_x >= value_y {
            1
        } else {
            0
        };
    }

    /// `8XY7`: `VY - VX`, `VF` set when there is no borrow.
    fn subtraction_reversed(processor: &mut Processor, nibbles: [u8; 4])
        requires
            valid_nibbles(nibbles@),
        ensures
            final(processor)@ == op_alu(old(processor)@, nibbles@[1] as int, nibbles@[2] as int, 7),
    {
        let register_x = nibbles[1] as usize;
        let value_x = processor.V_REGS[register_x];
        let value_y = processor.V_REGS[nibbles[2] as usize];
        let difference = ((256 + value_y as u16 - value_x as u16) % 256) as u8;
        processor.V_REGS[register_x] = difference;
        processor.V_REGS[FLAG] = if value_y >= value_x {
            1
        } else {
            0
        };
    }

    /// `8XY6`: `VX = VY >> 1`, `VF` is the bit shifted out.
    fn shift_right(processor: &mut Processor, nibbles: [u8; 4])
        requires
            valid_nibbles(nibbles@),
        ensures
            final(processor)@ == op_alu(old(processor)@, nibbles@[1] as int, nibbles@[2] as int, 6),
    {
        let value_y = processor.V_REGS[nibbles[2] as usize];
        let shifted = value_y >> 1u8;
        let out = value_y & 1;
        assert(shifted == value_y / 2 && out == value_y % 2) by (bit_vector)
            requires
                shifted == value_y >> 1u8,
                out == value_y & 1,
        ;
        processor.V_REGS[nibbles[1] as usize] = shifted;
        processor.V_REGS[FLAG] = out;
    }

    /// `8XYE`: `VX = VY << 1`, `VF` is the bit shifted out.
    fn shift_left(processor: &mut Processor, nibbles: [u8; 4])
        requires
            valid_nibbles(nibbles@),
        ensures
            final(processor)@ == op_alu(old(processor)@, nibbles@[1] as int, nibbles@[2] as int, 0xE),
    {
        let value_y = processor.V_REGS[nibbles[2] as usize];
        let shifted = value_y << 1u8;
        let out = value_y >> 7u8;
        assert(shifted == ((value_y * 2) % 256) as u8 && out == value_y / 128) by (bit_vector)
            requires
                shifted == value_y << 1u8,
                out == value_y >> 7u8,
        ;
        processor.V_REGS[nibbles[1] as usize] = shifted;
        processor.V_REGS[FLAG] = out;
    }
    /// `FX1E`
    fn add_to_index(processor: &mut Processor, nibbles: [u8; 4])
        requires
            valid_nibbles(nibbles@),
        ensures
            final(processor)@ == op_add_index(old(processor)@, nibbles@[1] as int),
    {
        let value_x = processor.V_REGS[nibbles[1] as usize];
        let sum = processor.I as u32 + value_x as u32;
        processor.V_REGS[FLAG] = if sum > 0xFFF {
            1
        } else {
            0
        };
        processor.I = (sum % 4096) as u16;
    }

    /// `FX29`
    fn get_font_character(processor: &mut Processor, nibbles: [u8; 4])
        requires
            valid_nibbles(nibbles@),
        ensures
            final(processor)@ == (Machine {
                index: (FONT_START + (old(processor)@.v[nibbles@[1] as int] % 16) * GLYPH_SIZE) as u16,
                ..old(processor)@
            }),
    {
        let value_x = processor.V_REGS[nibbles[1] as usize];
        let character = value_x & 0xF;
        assert(character == value_x % 16) by (bit_vector)
            requires
                character == value_x & 0xF,
        ;
        processor.I = (FONT_START + character as usize * GLYPH_SIZE) as u16;
    }

    /// `FX33`
    fn decimal_store(processor: &mut Processor, nibbles: [u8; 4])
        requires
            valid_nibbles(nibbles@),
            old(processor).I + 3 <= MEMORY_SIZE,
        ensures
            final(processor)@ == op_bcd(old(processor)@, nibbles@[1] as int),
    {
        let value_x = processor.V_REGS[nibbles[1] as usize];
        let address = processor.I as usize;
        processor.memory[address] = value_x / 100;
        processor.memory[address + 1] = (value_x / 10) % 10;
        processor.memory[address + 2] = value_x % 10;
    }

    /// `FX55`
    fn store_memory(processor: &mut Processor, nibbles: [u8; 4])
        requires
            valid_nibbles(nibbles@),
            old(processor).I + nibbles@[1] + 1 <= MEMORY_SIZE,
        ensures
            final(processor)@ == op_store(old(processor)@, nibbles@[1] as int),
    {
        let register_x = nibbles[1] as usize;
        let base = processor.I as usize;
        let ghost m = processor@;
        let mut i: usize = 0;
        while i <= register_x
            invariant
                register_x < 16,
                base == m.index,
                base + register_x + 1 <= MEMORY_SIZE,
                i <= register_x + 1,
                processor@ == (Machine { memory: processor@.memory, ..m }),
                forall|a: int|
                    0 <= a < MEMORY_SIZE ==> #[trigger] processor.memory@[a] == if base <= a < base
                        + i {
                        m.v[a - base]
                    } else {
                        m.memory[a]
                    },
            decreases register_x + 1 - i,
        {
            processor.memory[base + i] = processor.V_REGS[i];
            i = i + 1;
        }
        assert(processor.memory@ =~= op_store(m, register_x as int).memory);
    }

    /// `FX65`
    fn load_memory(processor: &mut Processor, nibbles: [u8; 4])
        requires
            valid_nibbles(nibbles@),
            old(processor).I + nibbles@[1] + 1 <= MEMORY_SIZE,
        ensures
            final(processor)@ == op_load(old(processor)@, nibbles@[1] as int),
    {
        let register_x = nibbles[1] as usize;
        let base = processor.I as usize;
        let ghost m = processor@;
        let mut i: usize = 0;
        while i <= register_x
            invariant
                register_x < 16,
                base == m.index,
                base + register_x + 1 <= MEMORY_SIZE,
                i <= register_x + 1,
                processor@ == (Machine { v: processor@.v, ..m }),
                forall|r: int|
                    0 <= r < 16 ==> #[trigger] processor.V_REGS@[r] == if r < i {
                        m.memory[base + r]
                    } else {
                        m.v[r]
                    },
            decreases register_x + 1 - i,
        {
            processor.V_REGS[i] = processor.memory[base + i];
            i = i + 1;
        }
        assert(processor.V_REGS@ =~= op_load(m, register_x as int).v);
    }

    /// `EX9E`
    fn skip_if_pressed(processor: &mut Processor, nibbles: [u8; 4])
        requires
            valid_nibbles(nibbles@),
            old(processor).PC + 1 < MEMORY_SIZE,
            old(processor).V_REGS@[nibbles@[1] as int] < KEY_COUNT,
        ensures
            final(processor)@ == op_skip_key(old(processor)@, nibbles@[1] as int, true),
    {
        let value_x = processor.V_REGS[nibbles[1] as usize];
        if processor.pressed_keys[value_x as usize] {
            processor.PC = processor.PC + 2;
        }
    }

    /// `EXA1`
    fn skip_if_not_pressed(processor: &mut Processor, nibbles: [u8; 4])
        requires
            valid_nibbles(nibbles@),
            old(processor).PC + 1 < MEMORY_SIZE,
            old(processor).V_REGS@[nibbles@[1] as int] < KEY_COUNT,
        ensures
            final(processor)@ == op_skip_key(old(processor)@, nibbles@[1] as int, false),
    {
        let value_x = processor.V_REGS[nibbles[1] as usize];
        if !processor.pressed_keys[value_x as usize] {
            processor.PC = processor.PC + 2;
        }
    }

    /// The highest-numbered pressed key, if any.
    fn pressed_key(keys: &[bool; 16]) -> (r: Option<u8>)
        ensures
            match r {
                Some(k) => highest_pressed(keys@, KEY_COUNT as int) == Some(k as int),
                None => highest_pressed(keys@, KEY_COUNT as int) == None::<int>,
            },
    {
        let mut key: Option<u8> = None;
        let mut ind: usize = 0;
        while ind < KEY_COUNT
            invariant
                ind <= KEY_COUNT,
                keys@.len() == KEY_COUNT,
                match key {
                    Some(k) => highest_pressed(keys@, ind as int) == Some(k as int),
                    None => highest_pressed(keys@, ind as int) == None::<int>,
                },
            decreases KEY_COUNT - ind,
        {
            if keys[ind] {
                key = Some(ind as u8);
            }
            ind = ind + 1;
        }
        key
    }

    /// `FX0A`: with a key pressed, stores the highest pressed key in `VX`; with none,
    /// moves the program counter back by two so that the next advance lands on this
    /// instruction again.
    fn get_key(processor: &mut Processor, nibbles: [u8; 4])
        requires
            valid_nibbles(nibbles@),
            highest_pressed(old(processor).pressed_keys@, KEY_COUNT as int) is None ==> old(
                processor,
            ).PC >= 2,
        ensures
            final(processor)@ == op_wait_key(old(processor)@, nibbles@[1] as int),
    {
        match Self::pressed_key(&processor.pressed_keys) {
            Some(k) => {
                processor.V_REGS[nibbles[1] as usize] = k;
            },
            None => {
                processor.PC = processor.PC - 2;
            },
        }
    }

    /// `DXYN`: draws the `N`-row sprite at `I` at `(VX mod 64, VY mod 32)`, clipped at the
    /// display's edges, sets `VF` to whether a lit pixel was turned off, and flags the
    /// display for presentation. The sprite must lie within memory.
    pub fn draw_sprite(processor: &mut Processor, nibbles: [u8; 4])
        requires
            valid_nibbles(nibbles@),
            old(processor).I + nibbles@[3] <= MEMORY_SIZE,
        ensures
            final(processor)@ == op_draw(
                old(processor)@,
                nibbles@[1] as int,
                nibbles@[2] as int,
                nibbles@[3] as int,
            ),
    {
        let x = processor.V_REGS[nibbles[1] as usize] % (REAL_WIDTH as u8);
        let y = processor.V_REGS[nibbles[2] as usize] % (REAL_HEIGHT as u8);
        let height = nibbles[3] as usize;
        let base = processor.I as usize;
        let rows = vstd::slice::slice_subrange(processor.memory.as_slice(), base, base + height);
        let collision = processor.pixels.draw_sprite(rows, x as usize, y as usize);
        processor.V_REGS[FLAG] = if collision {
            1
        } else {
            0
        };
        processor.pixels.present();
    }

    /// The state of pixel `(x, y)`, or `None` off the display.
    pub fn get_pixel(processor: &Processor, x: usize, y: usize) -> (r: Option<PixelState>)
        ensures
            r == if on_screen(x as int, y as int) {
                Some(PixelState::from_lit(processor@.screen[y as int][x as int]))
            } else {
                None::<PixelState>
            },
    {
        if x >= REAL_WIDTH || y >= REAL_HEIGHT {
            return None;
        }
        Some(processor.pixels.get_pixel(x, y))
    }

    /// Sets pixel `(x, y)`; off the display nothing changes.
    pub fn set_pixel(processor: &mut Processor, x: usize, y: usize, state: PixelState)
        ensures
            final(processor)@ == (Machine {
                screen: with_pixel(
                    old(processor)@.screen,
                    x as int,
                    y as int,
                    state == PixelState::On,
                ),
                ..old(processor)@
            }),
    {
        processor.pixels.set_pixel(x, y, state);
    }

    /// `00E0`: turns every pixel off and flags the display for presentation.
    pub fn clear_screen(processor: &mut Processor)
        ensures
            final(processor)@ == op_clear(old(processor)@),
    {
        processor.pixels.clear_screen();
        processor.pixels.present();
    }
    /// The fatal condition, if any, that the instruction with nibbles `nibbles` meets on
    /// `processor`; `None` when it can be executed.
    pub fn fault(processor: &Processor, nibbles: [u8; 4]) -> (r: Option<Fault>)
        requires
            valid_nibbles(nibbles@),
        ensures
            r == fault_of(processor@, nibbles@),
    {
        let kind = nibbles[0];
        let high = nibbles[2];
        let last = nibbles[3];
        let index = processor.I as usize;
        if kind == 0x0 {
            if nibbles[1] == 0x0 && high == 0xE && last == 0x0 {
                None
            } else if nibbles[1] == 0x0 && high == 0xE && last == 0xE {
                if processor.stack.len() == 0 {
                    Some(Fault::StackUnderflow)
                } else {
                    None
                }
            } else {
                Some(Fault::UnknownInstruction)
            }
        } else if kind == 0x5 || kind == 0x9 {
            if last == 0x0 {
                None
            } else {
                Some(Fault::UnknownInstruction)
            }
        } else if kind == 0x8 {
            if last <= 0x7 || last == 0xE {
                None
            } else {
                Some(Fault::UnknownInstruction)
            }
        } else if kind == 0xD {
            if index + last as usize > MEMORY_SIZE {
                Some(Fault::AddressOutOfRange)
            } else {
                None
            }
        } else if kind == 0xE {
            if (high == 0x9 && last == 0xE) || (high == 0xA && last == 0x1) {
                if processor.V_REGS[nibbles[1] as usize] as usize >= KEY_COUNT {
                    Some(Fault::InvalidKey)
                } else {
                    None
                }
            } else {
                Some(Fault::UnknownInstruction)
            }
        } else if kind == 0xF {
            if (high == 0x0 && last == 0x7) || (high == 0x1 && last == 0x5) || (high == 0x1 && last
                == 0x8) || (high == 0x1 && last == 0xE) || (high == 0x2 && last == 0x9) {
                None
            } else if high == 0x0 && last == 0xA {
                if Self::pressed_key(&processor.pressed_keys).is_none() && processor.PC < 2 {
                    Some(Fault::AddressOutOfRange)
                } else {
                    None
                }
            } else if high == 0x3 && last == 0x3 {
                if index + 3 > MEMORY_SIZE {
                    Some(Fault::AddressOutOfRange)
                } else {
                    None
                }
            } else if (high == 0x5 || high == 0x6) && last == 0x5 {
                if index + nibbles[1] as usize + 1 > MEMORY_SIZE {
                    Some(Fault::AddressOutOfRange)
                } else {
                    None
                }
            } else {
                Some(Fault::UnknownInstruction)
            }
        } else {
            None
        }
    }

    /// Applies the instruction with nibbles `nibbles` to `processor`, with `random` as the
    /// byte that `CXNN` masks. Returns whether the instruction set the program counter
    /// itself (a jump, call, return or jump with offset). The instruction must meet no
    /// fatal condition (see `fault`).
    pub fn execute_with(processor: &mut Processor, nibbles: [u8; 4], random: u8) -> (pc_set:
        bool)
        requires
            valid_nibbles(nibbles@),
            old(processor).PC + 1 < MEMORY_SIZE,
            fault_of(old(processor)@, nibbles@) is None,
        ensures
            (final(processor)@, pc_set) == dispatch(old(processor)@, nibbles@, random),
    {
        let kind = nibbles[0];
        let last = nibbles[3];
        if kind == 0x0 {
            if last == 0x0 {
                Self::clear_screen(processor);
                false
            } else {
                Self::sub_return(processor);
                true
            }
        } else if kind == 0x1 {
            Self::jump(processor, nibbles);
            true
        } else if kind == 0x2 {
            Self::sub_call(processor, nibbles);
            true
        } else if kind == 0x3 {
            Self::skip_immediate_equal(processor, nibbles);
            false
        } else if kind == 0x4 {
            Self::skip_immediate_not_equal(processor, nibbles);
            false
        } else if kind == 0x5 {
            Self::skip_registers_equal(processor, nibbles);
            false
        } else if kind == 0x6 {
            Self::set_register_immediate(processor, nibbles);
            false
        } else if kind == 0x7 {
            Self::add_immediate(processor, nibbles);
            false
        } else if kind == 0x8 {
            if last == 0x0 {
                Self::set_register_register(processor, nibbles);
            } else if last == 0x1 {
                Self::or(processor, nibbles);
            } else if last == 0x2 {
                Self::and(processor, nibbles);
            } else if last == 0x3 {
                Self::xor(processor, nibbles);
            } else if last == 0x4 {
                Self::add_register(processor, nibbles);
            } else if last == 0x5 {
                Self::subtraction_regular(processor, nibbles);
            } else if last == 0x6 {
                Self::shift_right(processor, nibbles);
            } else if last == 0x7 {
                Self::subtraction_reversed(processor, nibbles);
            } else {
                Self::shift_left(processor, nibbles);
            }
            false
        } else if kind == 0x9 {
            Self::skip_registers_not_equal(processor, nibbles);
            false
        } else if kind == 0xA {
            Self::set_index(processor, nibbles);
            false
        } else if kind == 0xB {
            Self::jump_with_offset(processor, nibbles);
            true
        } else if kind == 0xC {
            Self::random(processor, nibbles, random);
            false
        } else if kind == 0xD {
            Self::draw_sprite(processor, nibbles);
            false
        } else if kind == 0xE {
            if nibbles[2] == 0x9 {
                Self::skip_if_pressed(processor, nibbles);
            } else {
                Self::skip_if_not_pressed(processor, nibbles);
            }
            false
        } else {
            Self::execute_misc(processor, nibbles);
            false
        }
    }

    /// The `FX__` group.
    fn execute_misc(processor: &mut Processor, nibbles: [u8; 4])
        requires
            valid_nibbles(nibbles@),
            nibbles@[0] == 0xF,
            fault_of(old(processor)@, nibbles@) is None,
        ensures
            (final(processor)@, false) == dispatch(old(processor)@, nibbles@, 0),
    {
        let high = nibbles[2];
        let low = nibbles[3];
        if high == 0x0 && low == 0x7 {
            Self::get_delay_timer(processor, nibbles);
        } else if high == 0x1 && low == 0x5 {
            Self::set_delay_timer(processor, nibbles);
        } else if high == 0x1 && low == 0x8 {
            Self::set_sound_timer(processor, nibbles);
        } else if high == 0x1 && low == 0xE {
            Self::add_to_index(processor, nibbles);
        } else if high == 0x0 && low == 0xA {
            Self::get_key(processor, nibbles);
        } else if high == 0x2 && low == 0x9 {
            Self::get_font_character(processor, nibbles);
        } else if high == 0x3 && low == 0x3 {
            Self::decimal_store(processor, nibbles);
        } else if high == 0x5 {
            Self::store_memory(processor, nibbles);
        } else {
            Self::load_memory(processor, nibbles);
        }
    }

    /// Applies the instruction with nibbles `nibbles` to `processor`, drawing the byte
    /// that `CXNN` masks from the thread-local random generator. The outcome is that of
    /// `execute_with` for some byte, and for any instruction but `CXNN` it is exactly that
    /// of `execute_with`. The instruction must meet no fatal condition (see `fault`).
    pub fn execute(processor: &mut Processor, nibbles: [u8; 4]) -> (pc_set: bool)
        requires
            valid_nibbles(nibbles@),
            old(processor).PC + 1 < MEMORY_SIZE,
            fault_of(old(processor)@, nibbles@) is None,
        ensures
            exists|random: u8|
                (final(processor)@, pc_set) == #[trigger] dispatch(
                    old(processor)@,
                    nibbles@,
                    random,
                ),
            nibbles@[0] != 0xC ==> (final(processor)@, pc_set) == dispatch(
                old(processor)@,
                nibbles@,
                0,
            ),
    {
        let random = if nibbles[0] == 0xC {
            random_byte()
        } else {
            0
        };
        Self::execute_with(processor, nibbles, random)
    }
}

} // verus!
