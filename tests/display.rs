use chip8::execution::InstructionHandler;
use chip8::graphics::{Graphics, PixelState};
use chip8::processor::{Fault, Processor};

#[test]
fn new_display_is_blank() {
    let g = Graphics::new();
    for y in 0..32 {
        for x in 0..64 {
            assert_eq!(g.get_pixel(x, y), PixelState::Off);
        }
    }
}

#[test]
fn set_and_get_pixel_with_off_screen_no_op() {
    let mut g = Graphics::new();
    g.set_pixel(63, 31, PixelState::On);
    assert_eq!(g.get_pixel(63, 31), PixelState::On);
    g.set_pixel(64, 0, PixelState::On);
    g.set_pixel(0, 32, PixelState::On);
    assert_eq!(g.get_pixel(64, 0), PixelState::Off);
    assert_eq!(g.get_pixel(0, 32), PixelState::Off);
    g.set_pixel(63, 31, PixelState::Off);
    assert_eq!(g.get_pixel(63, 31), PixelState::Off);
}

#[test]
fn rgba_frame_encoding() {
    let mut g = Graphics::new();
    g.set_pixel(1, 0, PixelState::On);
    g.set_pixel(0, 1, PixelState::On);
    let frame = g.to_rgba();
    assert_eq!(frame.len(), 64 * 32 * 4);
    assert_eq!(&frame[0..4], &[0, 0, 0, 0xff]);
    assert_eq!(&frame[4..8], &[0xff, 0xff, 0xff, 0xff]);
    assert_eq!(&frame[256..260], &[0xff, 0xff, 0xff, 0xff]);
}

#[test]
fn draw_sprite_clips_at_edges() {
    let mut g = Graphics::new();
    let hit = g.draw_sprite(&[0xFF, 0xFF], 60, 31);
    assert!(!hit);
    for x in 60..64 {
        assert_eq!(g.get_pixel(x, 31), PixelState::On);
    }
    for x in 0..4 {
        assert_eq!(g.get_pixel(x, 31), PixelState::Off);
        assert_eq!(g.get_pixel(x, 0), PixelState::Off);
    }
    assert_eq!(g.get_pixel(60, 0), PixelState::Off);
}

#[test]
fn draw_sprite_reports_collision() {
    let mut g = Graphics::new();
    assert!(!g.draw_sprite(&[0b1000_0000], 0, 0));
    assert!(g.draw_sprite(&[0b1100_0000], 0, 0));
    assert_eq!(g.get_pixel(0, 0), PixelState::Off);
    assert_eq!(g.get_pixel(1, 0), PixelState::On);
}

#[test]
fn present_request_is_taken_once() {
    let mut g = Graphics::new();
    assert!(!g.take_redraw_request());
    g.present();
    assert!(g.take_redraw_request());
    assert!(!g.take_redraw_request());
}

#[test]
fn clear_then_every_pixel_is_off() {
    let mut p = Processor::new([false; 16]);
    for y in 0..32 {
        for x in (y % 3..64).step_by(3) {
            InstructionHandler::set_pixel(&mut p, x, y, PixelState::On);
        }
    }
    assert_eq!(InstructionHandler::get_pixel(&p, 0, 0), Some(PixelState::On));
    assert_eq!(InstructionHandler::fault(&p, [0x0, 0x0, 0xE, 0x0]), None);
    assert!(!InstructionHandler::execute(&mut p, [0x0, 0x0, 0xE, 0x0]));
    for y in 0..32 {
        for x in 0..64 {
            assert_eq!(InstructionHandler::get_pixel(&p, x, y), Some(PixelState::Off));
        }
    }
    assert_eq!(InstructionHandler::get_pixel(&p, 64, 0), None);
    assert!(p.pixels.take_redraw_request());
}

#[test]
fn drawing_twice_restores_display() {
    let mut p = Processor::new([false; 16]);
    InstructionHandler::set_pixel(&mut p, 10, 3, PixelState::On);
    let before = p.pixels.to_rgba();
    p.memory[0x300] = 0b1011_0001;
    p.memory[0x301] = 0b0111_1110;
    p.I = 0x300;
    p.V_REGS[1] = 74;
    p.V_REGS[2] = 34;
    InstructionHandler::execute(&mut p, [0xD, 0x1, 0x2, 0x2]);
    assert_eq!(p.V_REGS[0xF], 0);
    assert_eq!(InstructionHandler::get_pixel(&p, 10, 2), Some(PixelState::On));
    assert_eq!(InstructionHandler::get_pixel(&p, 10, 3), Some(PixelState::On));
    assert_eq!(InstructionHandler::get_pixel(&p, 11, 3), Some(PixelState::On));
    assert_eq!(InstructionHandler::get_pixel(&p, 11, 2), Some(PixelState::Off));
    InstructionHandler::execute(&mut p, [0xD, 0x1, 0x2, 0x2]);
    assert_eq!(p.pixels.to_rgba(), before);
    assert_eq!(p.V_REGS[0xF], 1);
}

#[test]
fn redraw_over_lit_pixels_has_no_collision() {
    let mut p = Processor::new([false; 16]);
    InstructionHandler::set_pixel(&mut p, 0, 0, PixelState::On);
    p.memory[0x300] = 0b1000_0000;
    p.I = 0x300;
    InstructionHandler::execute(&mut p, [0xD, 0x1, 0x2, 0x1]);
    assert_eq!(p.V_REGS[0xF], 1);
    assert_eq!(InstructionHandler::get_pixel(&p, 0, 0), Some(PixelState::Off));
    InstructionHandler::execute(&mut p, [0xD, 0x1, 0x2, 0x1]);
    assert_eq!(p.V_REGS[0xF], 0);
    assert_eq!(InstructionHandler::get_pixel(&p, 0, 0), Some(PixelState::On));
}

#[test]
fn draw_sprite_past_memory_end_faults() {
    let mut p = Processor::new([false; 16]);
    p.I = 0xFFE;
    assert_eq!(InstructionHandler::fault(&p, [0xD, 0x0, 0x0, 0x3]), Some(Fault::AddressOutOfRange));
    assert_eq!(InstructionHandler::fault(&p, [0xD, 0x0, 0x0, 0x2]), None);
    InstructionHandler::draw_sprite(&mut p, [0xD, 0x0, 0x0, 0x2]);
    assert_eq!(p.V_REGS[0xF], 0);
}
