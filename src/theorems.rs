use crate::execution::{dispatch, fault_of, highest_pressed, immediate, op_clear, valid_nibbles};
use crate::graphics::{blank_screen, collides, drawn, on_screen, sprite_covers};
use crate::processor::{
    decode, fetch, machine_shaped, run, step, step_fault, Fault, Machine, FLAG, KEY_COUNT, MEMORY_SIZE,
};
use vstd::prelude::*;

verus! {

/// `7XNN` adds `NN` to `VX` modulo 256 and never sets the program counter; unless `X` is
/// `F` itself, `VF` keeps its value.
pub proof fn lemma_add_immediate_wraps(m: Machine, n: Seq<u8>, rnd: u8)
    requires
        machine_shaped(m),
        valid_nibbles(n),
        n[0] == 0x7,
    ensures
        fault_of(m, n) is None,
        !dispatch(m, n, rnd).1,
        dispatch(m, n, rnd).0.v[n[1] as int] == (m.v[n[1] as int] + immediate(n)) % 256,
        n[1] != FLAG ==> dispatch(m, n, rnd).0.v[FLAG as int] == m.v[FLAG as int],
{
}

/// `8XY4` leaves in `VF` whether `VX + VY` exceeds 255; unless `X` is `F`, `VX` holds the
/// sum modulo 256.
pub proof fn lemma_add_register_carry(m: Machine, n: Seq<u8>, rnd: u8)
    requires
        machine_shaped(m),
        valid_nibbles(n),
        n[0] == 0x8,
        n[3] == 0x4,
    ensures
        fault_of(m, n) is None,
        ({
            let vx = m.v[n[1] as int];
            let vy = m.v[n[2] as int];
            let next = dispatch(m, n, rnd).0;
            &&& next.v[FLAG as int] == if vx + vy > 255 {
                1u8
            } else {
                0u8
            }
            &&& n[1] != FLAG ==> next.v[n[1] as int] == (vx + vy) % 256
        }),
{
}

/// `8XY5` leaves in `VF` whether `VX >= VY` (no borrow); unless `X` is `F`, `VX` holds
/// `VX - VY` modulo 256.
pub proof fn lemma_subtract_borrow(m: Machine, n: Seq<u8>, rnd: u8)
    requires
        machine_shaped(m),
        valid_nibbles(n),
        n[0] == 0x8,
        n[3] == 0x5,
    ensures
        fault_of(m, n) is None,
        ({
            let vx = m.v[n[1] as int];
            let vy = m.v[n[2] as int];
            let next = dispatch(m, n, rnd).0;
            &&& next.v[FLAG as int] == if vx >= vy {
                1u8
            } else {
                0u8
            }
            &&& n[1] != FLAG ==> next.v[n[1] as int] == (vx - vy) % 256
        }),
{
}

/// The shifts `8XY6` and `8XYE` take `VF` from the source `VY` before the shift (its
/// lowest and highest bit), so the old value of the destination `VX` never affects it.
pub proof fn lemma_shift_flag_from_source(m: Machine, n: Seq<u8>, rnd: u8, other: u8)
    requires
        machine_shaped(m),
        valid_nibbles(n),
        n[0] == 0x8,
        n[3] == 0x6 || n[3] == 0xE,
    ensures
        fault_of(m, n) is None,
        ({
            let vy = m.v[n[2] as int];
            let flag = dispatch(m, n, rnd).0.v[FLAG as int];
            &&& n[3] == 0x6 ==> flag == vy % 2
            &&& n[3] == 0xE ==> flag == vy / 128
            &&& n[1] != n[2] ==> dispatch(
                Machine { v: m.v.update(n[1] as int, other), ..m },
                n,
                rnd,
            ).0.v[FLAG as int] == flag
        }),
{
}

/// The sprite that `DXYN` draws in `m`: its rows, and its corner on the display.
pub open spec fn sprite_of(m: Machine, n: Seq<u8>) -> (Seq<u8>, int, int) {
    (
        m.memory.subrange(m.index as int, m.index + n[3]),
        (m.v[n[1] as int] % 64) as int,
        (m.v[n[2] as int] % 32) as int,
    )
}

/// `DXYN` executed twice in a row restores the display it started from (XOR undoes
/// itself), provided neither coordinate register is `VF`, which the first draw rewrites.
/// The second draw reports a collision exactly when the sprite covers a visible pixel
/// that was off before the first one.
pub proof fn lemma_draw_twice_restores(m: Machine, n: Seq<u8>, rnd: u8)
    requires
        machine_shaped(m),
        valid_nibbles(n),
        n[0] == 0xD,
        n[1] != FLAG,
        n[2] != FLAG,
        fault_of(m, n) is None,
    ensures
        ({
            let (rows, x0, y0) = sprite_of(m, n);
            let first = dispatch(m, n, rnd).0;
            let second = dispatch(first, n, rnd).0;
            &&& fault_of(first, n) is None
            &&& second.screen == m.screen
            &&& second.v[FLAG as int] == if exists|x: int, y: int|
                on_screen(x, y) && !#[trigger] m.screen[y][x] && sprite_covers(rows, x0, y0, x, y) {
                1u8
            } else {
                0u8
            }
        }),
{
    let (rows, x0, y0) = sprite_of(m, n);
    let first = dispatch(m, n, rnd).0;
    assert(first.memory == m.memory && first.index == m.index);
    assert(first.v[n[1] as int] == m.v[n[1] as int] && first.v[n[2] as int] == m.v[n[2] as int]);
    assert(first.screen == drawn(m.screen, rows, x0, y0));
    let twice = drawn(first.screen, rows, x0, y0);
    assert forall|y: int| 0 <= y < 32 implies #[trigger] twice[y] =~= m.screen[y] by {}
    assert(twice =~= m.screen);
    let hit = collides(first.screen, rows, x0, y0);
    let fresh = exists|x: int, y: int|
        on_screen(x, y) && !#[trigger] m.screen[y][x] && sprite_covers(rows, x0, y0, x, y);
    if hit {
        let (wx, wy) = choose|wx: int, wy: int|
            on_screen(wx, wy) && #[trigger] first.screen[wy][wx] && sprite_covers(
                rows,
                x0,
                y0,
                wx,
                wy,
            );
        assert(!m.screen[wy][wx]);
    }
    if fresh {
        let (wx, wy) = choose|wx: int, wy: int|
            on_screen(wx, wy) && !#[trigger] m.screen[wy][wx] && sprite_covers(
                rows,
                x0,
                y0,
                wx,
                wy,
            );
        assert(first.screen[wy][wx]);
    }
    assert(hit == fresh);
}

/// The second of two identical `DXYN` draws reports no collision when every visible
/// pixel that the sprite covers was lit before the first draw.
pub proof fn lemma_redraw_no_collision(m: Machine, n: Seq<u8>, rnd: u8)
    requires
        machine_shaped(m),
        valid_nibbles(n),
        n[0] == 0xD,
        n[1] != FLAG,
        n[2] != FLAG,
        fault_of(m, n) is None,
        forall|x: int, y: int|
            on_screen(x, y) && sprite_covers(sprite_of(m, n).0, sprite_of(m, n).1, sprite_of(m, n).2, x, y)
                ==> #[trigger] m.screen[y][x],
    ensures
        dispatch(dispatch(m, n, rnd).0, n, rnd).0.v[FLAG as int] == 0,
{
    lemma_draw_twice_restores(m, n, rnd);
}

/// After `00E0` every pixel of the display is off.
pub proof fn lemma_clear_blanks(m: Machine, rnd: u8)
    ensures
        fault_of(m, seq![0x0u8, 0x0, 0xE, 0x0]) is None,
        dispatch(m, seq![0x0u8, 0x0, 0xE, 0x0], rnd) == (op_clear(m), false),
        forall|x: int, y: int| on_screen(x, y) ==> !#[trigger] op_clear(m).screen[y][x],
{
}

/// `highest_pressed` finds a key exactly when one of the first `n` is pressed, and the
/// key it finds is pressed.
pub proof fn lemma_highest_pressed(keys: Seq<bool>, n: int)
    requires
        0 <= n <= keys.len(),
    ensures
        highest_pressed(keys, n) is Some <==> exists|k: int| 0 <= k < n && #[trigger] keys[k],
        highest_pressed(keys, n) matches Some(k) ==> 0 <= k < n && keys[k],
    decreases n,
{
    if n > 0 {
        lemma_highest_pressed(keys, n - 1);
        if !keys[n - 1] && exists|k: int| 0 <= k < n && #[trigger] keys[k] {
            let k = choose|k: int| 0 <= k < n && #[trigger] keys[k];
            assert(k < n - 1);
        }
    }
}

/// The instruction at the program counter is `FX0A`.
pub open spec fn waits_for_key(m: Machine) -> bool {
    &&& m.pc + 1 < MEMORY_SIZE
    &&& m.memory[m.pc as int] / 16 == 0xF
    &&& m.memory[m.pc + 1] == 0x0A
}

/// With no key pressed, `FX0A` stalls: the instruction moves the program counter back by
/// two and reports it as not set, so a whole step changes nothing, and any number of steps
/// leave the processor, and its program counter, where it was. (At an address below two
/// the rewind is a fault.)
pub proof fn lemma_wait_key_stalls(m: Machine, rnds: Seq<u8>)
    requires
        machine_shaped(m),
        waits_for_key(m),
        m.pc >= 2,
        forall|k: int| 0 <= k < KEY_COUNT ==> !#[trigger] m.keys[k],
    ensures
        ({
            let n = fetch(m)->Some_0;
            &&& fault_of(m, n) is None
            &&& dispatch(m, n, 0) == (Machine { pc: (m.pc - 2) as usize, ..m }, false)
        }),
        step_fault(m) is None,
        run(m, rnds) == Ok::<Machine, Fault>(m),
    decreases rnds.len(),
{
    lemma_highest_pressed(m.keys, KEY_COUNT as int);
    let n = decode(m.memory[m.pc as int], m.memory[m.pc + 1]);
    assert(fetch(m) == Some(n));
    assert(valid_nibbles(n));
    if rnds.len() > 0 {
        assert(step(m, rnds[0]) == m);
        lemma_wait_key_stalls(m, rnds.drop_first());
    }
}

/// With a key pressed, one step of `FX0A` stores the highest pressed key in `VX` and moves
/// to the next instruction.
pub proof fn lemma_wait_key_resumes(m: Machine, rnd: u8)
    requires
        machine_shaped(m),
        waits_for_key(m),
        exists|k: int| 0 <= k < KEY_COUNT && #[trigger] m.keys[k],
    ensures
        ({
            let x = (m.memory[m.pc as int] % 16) as int;
            let k = highest_pressed(m.keys, KEY_COUNT as int)->Some_0;
            &&& 0 <= k < KEY_COUNT && m.keys[k]
            &&& step_fault(m) is None
            &&& step(m, rnd) == (Machine { v: m.v.update(x, k as u8), pc: (m.pc + 2) as usize, ..m })
        }),
{
    lemma_highest_pressed(m.keys, KEY_COUNT as int);
    let n = decode(m.memory[m.pc as int], m.memory[m.pc + 1]);
    assert(fetch(m) == Some(n));
    assert(valid_nibbles(n));
}

} // verus!
