use chip8::execution::InstructionHandler;
use chip8::processor::{Fault, Processor, ROM_START};

fn fresh() -> Processor {
    Processor::new([false; 16])
}

/// Executes one instruction unless it meets a fatal condition, which is returned instead.
fn run(p: &mut Processor, nibbles: [u8; 4]) -> Result<bool, Fault> {
    match InstructionHandler::fault(p, nibbles) {
        Some(fault) => Err(fault),
        None => Ok(InstructionHandler::execute(p, nibbles)),
    }
}

#[test]
fn add_immediate_wraps_and_keeps_flag() {
    let mut p = fresh();
    p.V_REGS[3] = 250;
    p.V_REGS[0xF] = 7;
    assert_eq!(run(&mut p, [0x7, 0x3, 0x0, 0xA]), Ok(false));
    assert_eq!(p.V_REGS[3], 4);
    assert_eq!(p.V_REGS[0xF], 7);
    assert_eq!(run(&mut p, [0x7, 0x3, 0x0, 0x1]), Ok(false));
    assert_eq!(p.V_REGS[3], 5);
}

#[test]
fn add_register_sets_carry() {
    let mut p = fresh();
    p.V_REGS[1] = 200;
    p.V_REGS[2] = 100;
    run(&mut p, [0x8, 0x1, 0x2, 0x4]).unwrap();
    assert_eq!(p.V_REGS[1], 44);
    assert_eq!(p.V_REGS[0xF], 1);
    p.V_REGS[1] = 155;
    p.V_REGS[2] = 100;
    run(&mut p, [0x8, 0x1, 0x2, 0x4]).unwrap();
    assert_eq!(p.V_REGS[1], 255);
    assert_eq!(p.V_REGS[0xF], 0);
}

#[test]
fn add_register_into_flag_register_leaves_flag() {
    let mut p = fresh();
    p.V_REGS[0xF] = 200;
    p.V_REGS[2] = 100;
    run(&mut p, [0x8, 0xF, 0x2, 0x4]).unwrap();
    assert_eq!(p.V_REGS[0xF], 1);
}

#[test]
fn subtract_sets_no_borrow_flag() {
    let mut p = fresh();
    p.V_REGS[4] = 10;
    p.V_REGS[5] = 3;
    run(&mut p, [0x8, 0x4, 0x5, 0x5]).unwrap();
    assert_eq!(p.V_REGS[4], 7);
    assert_eq!(p.V_REGS[0xF], 1);
    p.V_REGS[4] = 3;
    p.V_REGS[5] = 10;
    run(&mut p, [0x8, 0x4, 0x5, 0x5]).unwrap();
    assert_eq!(p.V_REGS[4], 249);
    assert_eq!(p.V_REGS[0xF], 0);
    p.V_REGS[4] = 9;
    p.V_REGS[5] = 9;
    run(&mut p, [0x8, 0x4, 0x5, 0x5]).unwrap();
    assert_eq!(p.V_REGS[4], 0);
    assert_eq!(p.V_REGS[0xF], 1);
}

#[test]
fn subtract_reversed_sets_no_borrow_flag() {
    let mut p = fresh();
    p.V_REGS[4] = 10;
    p.V_REGS[5] = 3;
    run(&mut p, [0x8, 0x4, 0x5, 0x7]).unwrap();
    assert_eq!(p.V_REGS[4], 249);
    assert_eq!(p.V_REGS[0xF], 0);
    p.V_REGS[4] = 3;
    p.V_REGS[5] = 10;
    run(&mut p, [0x8, 0x4, 0x5, 0x7]).unwrap();
    assert_eq!(p.V_REGS[4], 7);
    assert_eq!(p.V_REGS[0xF], 1);
}

#[test]
fn shifts_take_flag_from_source_before_shift() {
    let mut p = fresh();
    p.V_REGS[1] = 0b1111_1110;
    p.V_REGS[2] = 0b0000_0011;
    run(&mut p, [0x8, 0x1, 0x2, 0x6]).unwrap();
    assert_eq!(p.V_REGS[1], 0b0000_0001);
    assert_eq!(p.V_REGS[0xF], 1);

    p.V_REGS[1] = 0b0000_0001;
    p.V_REGS[2] = 0b1000_0001;
    run(&mut p, [0x8, 0x1, 0x2, 0xE]).unwrap();
    assert_eq!(p.V_REGS[1], 0b0000_0010);
    assert_eq!(p.V_REGS[0xF], 1);

    p.V_REGS[1] = 0b1000_0000;
    p.V_REGS[2] = 0b0100_0000;
    run(&mut p, [0x8, 0x1, 0x2, 0xE]).unwrap();
    assert_eq!(p.V_REGS[1], 0b1000_0000);
    assert_eq!(p.V_REGS[0xF], 0);
}

#[test]
fn bitwise_and_assign() {
    let mut p = fresh();
    p.V_REGS[1] = 0b1100;
    p.V_REGS[2] = 0b1010;
    run(&mut p, [0x8, 0x1, 0x2, 0x1]).unwrap();
    assert_eq!(p.V_REGS[1], 0b1110);
    p.V_REGS[1] = 0b1100;
    run(&mut p, [0x8, 0x1, 0x2, 0x2]).unwrap();
    assert_eq!(p.V_REGS[1], 0b1000);
    p.V_REGS[1] = 0b1100;
    run(&mut p, [0x8, 0x1, 0x2, 0x3]).unwrap();
    assert_eq!(p.V_REGS[1], 0b0110);
    run(&mut p, [0x8, 0x1, 0x2, 0x0]).unwrap();
    assert_eq!(p.V_REGS[1], 0b1010);
}

#[test]
fn bcd_of_255_and_7() {
    let mut p = fresh();
    p.I = 0x300;
    p.V_REGS[6] = 255;
    run(&mut p, [0xF, 0x6, 0x3, 0x3]).unwrap();
    assert_eq!(&p.memory[0x300..0x303], &[2, 5, 5]);
    p.V_REGS[6] = 7;
    run(&mut p, [0xF, 0x6, 0x3, 0x3]).unwrap();
    assert_eq!(&p.memory[0x300..0x303], &[0, 0, 7]);
    p.V_REGS[6] = 120;
    run(&mut p, [0xF, 0x6, 0x3, 0x3]).unwrap();
    assert_eq!(&p.memory[0x300..0x303], &[1, 2, 0]);
}

#[test]
fn bcd_past_memory_end_faults() {
    let mut p = fresh();
    p.I = 0xFFE;
    assert_eq!(run(&mut p, [0xF, 0x0, 0x3, 0x3]), Err(Fault::AddressOutOfRange));
    assert_eq!(p.memory[0xFFE], 0);
}

#[test]
fn add_to_index_overflow_wraps() {
    let mut p = fresh();
    p.I = 0xFFE;
    p.V_REGS[2] = 2;
    run(&mut p, [0xF, 0x2, 0x1, 0xE]).unwrap();
    assert_eq!(p.V_REGS[0xF], 1);
    assert_eq!(p.I, 0x000);
    p.I = 0x100;
    p.V_REGS[2] = 0x20;
    run(&mut p, [0xF, 0x2, 0x1, 0xE]).unwrap();
    assert_eq!(p.V_REGS[0xF], 0);
    assert_eq!(p.I, 0x120);
}

#[test]
fn store_and_load_registers_inclusive() {
    let mut p = fresh();
    for r in 0..16 {
        p.V_REGS[r] = (r as u8) * 3 + 1;
    }
    p.I = 0x400;
    run(&mut p, [0xF, 0x3, 0x5, 0x5]).unwrap();
    assert_eq!(&p.memory[0x400..0x405], &[1, 4, 7, 10, 0]);
    p.V_REGS = [0; 16];
    run(&mut p, [0xF, 0x3, 0x6, 0x5]).unwrap();
    assert_eq!(&p.V_REGS[0..5], &[1, 4, 7, 10, 0]);
    p.I = 0xFFD;
    assert_eq!(run(&mut p, [0xF, 0x3, 0x5, 0x5]), Err(Fault::AddressOutOfRange));
    assert_eq!(run(&mut p, [0xF, 0x3, 0x6, 0x5]), Err(Fault::AddressOutOfRange));
}

#[test]
fn font_character_address() {
    let mut p = fresh();
    p.V_REGS[0] = 0x1A;
    run(&mut p, [0xF, 0x0, 0x2, 0x9]).unwrap();
    assert_eq!(p.I, 50);
    assert_eq!(&p.memory[50..55], &[0xF0, 0x90, 0xF0, 0x90, 0x90]);
}

#[test]
fn timers_move_through_registers() {
    let mut p = fresh();
    p.V_REGS[5] = 42;
    run(&mut p, [0xF, 0x5, 0x1, 0x5]).unwrap();
    assert_eq!(p.delay_timer, 42);
    p.V_REGS[6] = 9;
    run(&mut p, [0xF, 0x6, 0x1, 0x8]).unwrap();
    assert_eq!(p.sound_timer, 9);
    run(&mut p, [0xF, 0x7, 0x0, 0x7]).unwrap();
    assert_eq!(p.V_REGS[7], 42);
}

#[test]
fn jumps_calls_and_returns() {
    let mut p = fresh();
    assert_eq!(run(&mut p, [0x1, 0x3, 0x4, 0x5]), Ok(true));
    assert_eq!(p.PC, 0x345);
    assert_eq!(run(&mut p, [0x2, 0x6, 0x0, 0x0]), Ok(true));
    assert_eq!(p.PC, 0x600);
    assert_eq!(p.stack, vec![0x347]);
    assert_eq!(run(&mut p, [0x0, 0x0, 0xE, 0xE]), Ok(true));
    assert_eq!(p.PC, 0x347);
    assert!(p.stack.is_empty());
    assert_eq!(run(&mut p, [0x0, 0x0, 0xE, 0xE]), Err(Fault::StackUnderflow));
    assert_eq!(p.PC, 0x347);
    p.V_REGS[0] = 0x10;
    assert_eq!(run(&mut p, [0xB, 0x3, 0x0, 0x0]), Ok(true));
    assert_eq!(p.PC, 0x310);
}

#[test]
fn nested_calls_sixteen_deep() {
    let mut p = fresh();
    for depth in 0..16 {
        run(&mut p, [0x2, 0x4, 0x0, 0x0]).unwrap();
        assert_eq!(p.stack.len(), depth + 1);
    }
    for _ in 0..16 {
        run(&mut p, [0x0, 0x0, 0xE, 0xE]).unwrap();
    }
    assert_eq!(p.PC, ROM_START + 2);
}

#[test]
fn skips_on_comparisons() {
    let mut p = fresh();
    p.V_REGS[1] = 0x42;
    p.V_REGS[2] = 0x42;
    run(&mut p, [0x3, 0x1, 0x4, 0x2]).unwrap();
    assert_eq!(p.PC, ROM_START + 2);
    run(&mut p, [0x4, 0x1, 0x4, 0x2]).unwrap();
    assert_eq!(p.PC, ROM_START + 2);
    run(&mut p, [0x5, 0x1, 0x2, 0x0]).unwrap();
    assert_eq!(p.PC, ROM_START + 4);
    run(&mut p, [0x9, 0x1, 0x2, 0x0]).unwrap();
    assert_eq!(p.PC, ROM_START + 4);
    run(&mut p, [0x4, 0x1, 0x0, 0x0]).unwrap();
    assert_eq!(p.PC, ROM_START + 6);
}

#[test]
fn set_index_and_register() {
    let mut p = fresh();
    run(&mut p, [0xA, 0xA, 0xB, 0xC]).unwrap();
    assert_eq!(p.I, 0xABC);
    run(&mut p, [0x6, 0xD, 0x7, 0xF]).unwrap();
    assert_eq!(p.V_REGS[0xD], 0x7F);
}

#[test]
fn random_is_masked() {
    let mut p = fresh();
    for _ in 0..50 {
        run(&mut p, [0xC, 0x4, 0x0, 0xF]).unwrap();
        assert!(p.V_REGS[4] <= 0x0F);
    }
    run(&mut p, [0xC, 0x4, 0x0, 0x0]).unwrap();
    assert_eq!(p.V_REGS[4], 0);
    assert!(!InstructionHandler::execute_with(&mut p, [0xC, 0x4, 0x3, 0xC], 0xA5));
    assert_eq!(p.V_REGS[4], 0x24);
}

#[test]
fn key_skips() {
    let mut p = fresh();
    p.pressed_keys[0xB] = true;
    p.V_REGS[1] = 0xB;
    run(&mut p, [0xE, 0x1, 0x9, 0xE]).unwrap();
    assert_eq!(p.PC, ROM_START + 2);
    run(&mut p, [0xE, 0x1, 0xA, 0x1]).unwrap();
    assert_eq!(p.PC, ROM_START + 2);
    p.V_REGS[1] = 0x3;
    run(&mut p, [0xE, 0x1, 0xA, 0x1]).unwrap();
    assert_eq!(p.PC, ROM_START + 4);
    p.V_REGS[1] = 0x10;
    assert_eq!(run(&mut p, [0xE, 0x1, 0x9, 0xE]), Err(Fault::InvalidKey));
    assert_eq!(run(&mut p, [0xE, 0x1, 0xA, 0x1]), Err(Fault::InvalidKey));
}

#[test]
fn unknown_instructions_fault() {
    let mut p = fresh();
    for nibbles in [
        [0x0, 0x1, 0x2, 0x3],
        [0x5, 0x1, 0x2, 0x1],
        [0x8, 0x1, 0x2, 0x8],
        [0x9, 0x1, 0x2, 0xF],
        [0xE, 0x1, 0x0, 0x0],
        [0xF, 0x1, 0x9, 0x9],
    ] {
        assert_eq!(run(&mut p, nibbles), Err(Fault::UnknownInstruction));
    }
    assert_eq!(p.PC, ROM_START);
}
