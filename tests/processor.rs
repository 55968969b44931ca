use chip8::{Fault, LoadError, Output, Processor};

const IDLE: [bool; 16] = [false; 16];

fn machine(program: &[u8]) -> Processor {
    let mut p = Processor::new();
    p.load(&program.to_vec()).unwrap();
    p
}

fn run(p: &mut Processor, ticks: usize) -> Output {
    let mut last = p.tick(IDLE).unwrap();
    for _ in 1..ticks {
        last = p.tick(IDLE).unwrap();
    }
    last
}

fn lit_count(frame: &[[u8; 64]; 32]) -> usize {
    frame.iter().map(|row| row.iter().filter(|&&px| px == 1).count()).sum()
}

#[test]
fn new_machine_has_font_and_starts_at_program_space() {
    let p = Processor::new();
    assert_eq!(p.program_counter(), 0x200);
    assert_eq!(p.index_register(), 0);
    assert_eq!(p.stack_depth(), 0);
    assert_eq!(p.memory_at(0), Some(0xF0));
    assert_eq!(p.memory_at(5), Some(0x20));
    assert_eq!(p.memory_at(79), Some(0x80));
    assert_eq!(p.memory_at(80), Some(0));
    assert_eq!(p.memory_at(0xFFF), Some(0));
    assert_eq!(p.memory_at(0x1000), None);
    for x in 0..16 {
        assert_eq!(p.register(x), 0);
    }
    assert_eq!(lit_count(&p.frame()), 0);
}

#[test]
fn load_then_add_zero_keeps_byte() {
    for x in 0u8..16 {
        let mut p = machine(&[0x60 | x, 0xAB, 0x70 | x, 0x00]);
        run(&mut p, 2);
        assert_eq!(p.register(x), 0xAB);
        assert_eq!(p.program_counter(), 0x204);
    }
}

#[test]
fn add_with_carry_wraps() {
    for x in 0u8..15 {
        for y in 0u8..16 {
            if x == y {
                continue;
            }
            let mut p = machine(&[0x60 | x, 200, 0x60 | y, 100, 0x80 | x, (y << 4) | 0x4]);
            run(&mut p, 3);
            assert_eq!(p.register(x), 44);
            assert_eq!(p.register(0xF), 1);
        }
    }
}

#[test]
fn add_without_carry_clears_flag() {
    let mut p = machine(&[0x6F, 0x01, 0x61, 10, 0x62, 20, 0x81, 0x24]);
    run(&mut p, 4);
    assert_eq!(p.register(1), 30);
    assert_eq!(p.register(0xF), 0);
}

#[test]
fn sub_with_borrow_wraps() {
    for x in 0u8..15 {
        for y in 0u8..16 {
            if x == y {
                continue;
            }
            let mut p = machine(&[0x60 | x, 100, 0x60 | y, 200, 0x80 | x, (y << 4) | 0x5]);
            run(&mut p, 3);
            assert_eq!(p.register(x), 156);
            assert_eq!(p.register(0xF), 0);
        }
    }
}

#[test]
fn sub_of_equal_values_sets_no_borrow_flag() {
    let mut p = machine(&[0x61, 7, 0x62, 7, 0x81, 0x25]);
    run(&mut p, 3);
    assert_eq!(p.register(1), 0);
    assert_eq!(p.register(0xF), 1);
}

#[test]
fn subn_subtracts_vx_from_vy() {
    let mut p = machine(&[0x61, 5, 0x62, 3, 0x81, 0x27]);
    run(&mut p, 3);
    assert_eq!(p.register(1), 254);
    assert_eq!(p.register(0xF), 0);
    let mut q = machine(&[0x61, 3, 0x62, 5, 0x81, 0x27]);
    run(&mut q, 3);
    assert_eq!(q.register(1), 2);
    assert_eq!(q.register(0xF), 1);
}

#[test]
fn shifts_set_flag_from_lost_bit() {
    let mut p = machine(&[0x61, 0x81, 0x81, 0x06]);
    run(&mut p, 2);
    assert_eq!(p.register(1), 0x40);
    assert_eq!(p.register(0xF), 1);
    let mut q = machine(&[0x61, 0x81, 0x81, 0x0E]);
    run(&mut q, 2);
    assert_eq!(q.register(1), 0x02);
    assert_eq!(q.register(0xF), 1);
    let mut r = machine(&[0x61, 0x42, 0x81, 0x0E]);
    run(&mut r, 2);
    assert_eq!(r.register(1), 0x84);
    assert_eq!(r.register(0xF), 0);
}

#[test]
fn bitwise_register_operations() {
    let mut p = machine(&[
        0x61, 0b1100, 0x62, 0b1010, 0x63, 0b1100, 0x64, 0b1100, 0x81, 0x21, 0x83, 0x22, 0x84,
        0x23, 0x85, 0x20,
    ]);
    run(&mut p, 8);
    assert_eq!(p.register(1), 0b1110);
    assert_eq!(p.register(3), 0b1000);
    assert_eq!(p.register(4), 0b0110);
    assert_eq!(p.register(5), 0b1010);
}

#[test]
fn add_byte_wraps_without_touching_flag() {
    let mut p = machine(&[0x6F, 0x05, 0x61, 0xFF, 0x71, 0x02]);
    run(&mut p, 3);
    assert_eq!(p.register(1), 0x01);
    assert_eq!(p.register(0xF), 0x05);
}

#[test]
fn skips_on_register_comparisons() {
    // 3xkk taken, 4xkk not taken, 5xy0 taken, 9xy0 not taken.
    let mut p = machine(&[0x61, 0x07, 0x31, 0x07]);
    run(&mut p, 2);
    assert_eq!(p.program_counter(), 0x206);
    let mut q = machine(&[0x61, 0x07, 0x41, 0x07]);
    run(&mut q, 2);
    assert_eq!(q.program_counter(), 0x204);
    let mut r = machine(&[0x61, 0x07, 0x62, 0x07, 0x51, 0x20]);
    run(&mut r, 3);
    assert_eq!(r.program_counter(), 0x208);
    let mut s = machine(&[0x61, 0x07, 0x62, 0x07, 0x91, 0x20]);
    run(&mut s, 3);
    assert_eq!(s.program_counter(), 0x206);
}

#[test]
fn jumps_set_program_counter() {
    let mut p = machine(&[0x13, 0x45]);
    run(&mut p, 1);
    assert_eq!(p.program_counter(), 0x345);
    let mut q = machine(&[0x02, 0x46]);
    run(&mut q, 1);
    assert_eq!(q.program_counter(), 0x246);
    let mut r = machine(&[0x60, 0x10, 0xB3, 0x00]);
    run(&mut r, 2);
    assert_eq!(r.program_counter(), 0x310);
}

#[test]
fn unknown_opcode_only_advances() {
    let mut p = machine(&[0x61, 0x09, 0x81, 0x28, 0xE1, 0x00, 0xF1, 0xFF, 0x51, 0x11, 0x91, 0x21]);
    run(&mut p, 6);
    assert_eq!(p.program_counter(), 0x20C);
    assert_eq!(p.register(1), 0x09);
}

#[test]
fn empty_sprite_reads_no_memory() {
    let mut p = machine(&[0xAF, 0xFF, 0x61, 0xFF, 0xF1, 0x1E, 0x6F, 0x07, 0xD0, 0x10]);
    run(&mut p, 4);
    assert_eq!(p.index_register(), 0x10FE);
    let out = p.tick(IDLE).unwrap();
    assert!(out.vram_changed);
    assert_eq!(p.register(0xF), 0);
    assert_eq!(p.program_counter(), 0x20A);
    assert_eq!(lit_count(&out.vram), 0);
}

#[test]
fn clear_and_draw_report_frame_change() {
    let mut p = machine(&[0x00, 0xE0, 0x61, 0x00]);
    let out = p.tick(IDLE).unwrap();
    assert!(out.vram_changed);
    let out = p.tick(IDLE).unwrap();
    assert!(!out.vram_changed);
}

#[test]
fn draw_twice_after_clear() {
    // Draw the glyph for 0 at (5, 3) twice.
    let mut p = machine(&[0x00, 0xE0, 0xA0, 0x00, 0x60, 0x05, 0x61, 0x03, 0xD0, 0x15, 0xD0, 0x15]);
    run(&mut p, 4);
    let out = p.tick(IDLE).unwrap();
    assert!(out.vram_changed);
    assert_eq!(p.register(0xF), 0);
    assert_eq!(lit_count(&out.vram), 14);
    assert_eq!(out.vram[3][5..9], [1, 1, 1, 1]);
    assert_eq!(out.vram[4][5..9], [1, 0, 0, 1]);
    let out = p.tick(IDLE).unwrap();
    assert_eq!(p.register(0xF), 1);
    assert_eq!(lit_count(&out.vram), 0);
}

#[test]
fn draw_wraps_around_edges() {
    // Sprite of four 0xFF rows at 0x20A, drawn at (60, 30).
    let mut p = machine(&[
        0xA2, 0x0A, 0x60, 60, 0x61, 30, 0xD0, 0x14, 0x12, 0x08, 0xFF, 0xFF, 0xFF, 0xFF,
    ]);
    let out = run(&mut p, 4);
    assert_eq!(p.register(0xF), 0);
    assert_eq!(lit_count(&out.vram), 32);
    for row in [30usize, 31, 0, 1] {
        for col in [60usize, 61, 62, 63, 0, 1, 2, 3] {
            assert_eq!(out.vram[row][col], 1, "row {} col {}", row, col);
        }
        assert_eq!(out.vram[row][4], 0);
        assert_eq!(out.vram[row][59], 0);
    }
    assert_eq!(out.vram[2][0], 0);
    assert_eq!(out.vram[29][60], 0);
}

#[test]
fn wait_for_key_resumes_after_press() {
    let mut p = machine(&[0xF3, 0x0A, 0x6A, 0x01]);
    run(&mut p, 1);
    assert!(p.is_waiting());
    assert_eq!(p.program_counter(), 0x202);
    for _ in 0..3 {
        p.tick(IDLE).unwrap();
        assert!(p.is_waiting());
        assert_eq!(p.program_counter(), 0x202);
        assert_eq!(p.register(3), 0);
        assert_eq!(p.register(0xA), 0);
    }
    let mut keys = IDLE;
    keys[7] = true;
    keys[9] = true;
    p.tick(keys).unwrap();
    assert!(!p.is_waiting());
    assert_eq!(p.register(3), 7);
    assert_eq!(p.program_counter(), 0x202);
    assert_eq!(p.register(0xA), 0);
    p.tick(IDLE).unwrap();
    assert_eq!(p.register(0xA), 1);
    assert_eq!(p.program_counter(), 0x204);
}

#[test]
fn timers_count_down_while_waiting() {
    let mut p = machine(&[0x61, 0x03, 0xF1, 0x15, 0xF2, 0x0A]);
    run(&mut p, 3);
    assert_eq!(p.delay_timer(), 2);
    run(&mut p, 1);
    assert_eq!(p.delay_timer(), 1);
    run(&mut p, 2);
    assert_eq!(p.delay_timer(), 0);
    assert!(p.is_waiting());
}

#[test]
fn beep_once() {
    let mut p = machine(&[0x61, 0x01, 0xF1, 0x18, 0x12, 0x04]);
    let out = run(&mut p, 2);
    assert!(!out.beep_request);
    assert_eq!(p.sound_timer(), 1);
    let out = p.tick(IDLE).unwrap();
    assert!(out.beep_request);
    assert_eq!(p.sound_timer(), 0);
    let out = p.tick(IDLE).unwrap();
    assert!(!out.beep_request);
    assert_eq!(p.sound_timer(), 0);
}

#[test]
fn delay_timer_round_trip() {
    let mut p = machine(&[0x61, 0x05, 0xF1, 0x15, 0xF2, 0x07]);
    run(&mut p, 3);
    assert_eq!(p.register(2), 4);
}

#[test]
fn call_then_return() {
    let mut program = vec![0u8; 0x202];
    program[0] = 0x13;
    program[1] = 0x00;
    program[0x100] = 0x24;
    program[0x101] = 0x00;
    program[0x200] = 0x00;
    program[0x201] = 0xEE;
    let mut p = machine(&program);
    run(&mut p, 1);
    assert_eq!(p.program_counter(), 0x300);
    run(&mut p, 1);
    assert_eq!(p.program_counter(), 0x400);
    assert_eq!(p.stack_depth(), 1);
    run(&mut p, 1);
    assert_eq!(p.program_counter(), 0x302);
    assert_eq!(p.stack_depth(), 0);
}

#[test]
fn load_too_large() {
    let mut p = Processor::new();
    assert_eq!(p.load(&vec![0xAA; 0xE00]), Err(LoadError::ProgramTooLarge));
    for addr in 0x200u16..0x1000 {
        assert_eq!(p.memory_at(addr), Some(0));
    }
    assert_eq!(p.memory_at(0), Some(0xF0));
}

#[test]
fn load_largest_program() {
    let mut p = Processor::new();
    assert_eq!(p.load(&vec![0xAA; 0xDFF]), Ok(()));
    assert_eq!(p.memory_at(0x200), Some(0xAA));
    assert_eq!(p.memory_at(0xFFE), Some(0xAA));
    assert_eq!(p.memory_at(0xFFF), Some(0));
    assert_eq!(p.memory_at(0x1FF), Some(0));
}

#[test]
fn stack_overflow_is_a_fault() {
    let mut p = machine(&[0x22, 0x00]);
    for depth in 1..=16 {
        p.tick(IDLE).unwrap();
        assert_eq!(p.stack_depth(), depth);
    }
    assert!(matches!(p.tick(IDLE), Err(Fault::StackOverflow { addr: 0x200 })));
    assert_eq!(p.stack_depth(), 16);
}

#[test]
fn stack_underflow_is_a_fault() {
    let mut p = machine(&[0x00, 0xEE]);
    assert!(matches!(p.tick(IDLE), Err(Fault::StackUnderflow { addr: 0x200 })));
    assert_eq!(p.program_counter(), 0x200);
}

#[test]
fn fetch_past_memory_is_a_fault() {
    let mut p = machine(&[0x1F, 0xFF]);
    run(&mut p, 1);
    assert!(matches!(p.tick(IDLE), Err(Fault::OutOfBoundsFetch { addr: 0xFFF })));
}

#[test]
fn memory_access_past_top_is_a_fault() {
    let mut p = machine(&[0xAF, 0xFE, 0xF2, 0x33]);
    run(&mut p, 1);
    assert!(matches!(p.tick(IDLE), Err(Fault::MemoryOutOfBounds { addr: 0x202 })));
    let mut q = machine(&[0xAF, 0xFD, 0xF3, 0x55]);
    run(&mut q, 1);
    assert!(matches!(q.tick(IDLE), Err(Fault::MemoryOutOfBounds { addr: 0x202 })));
    let mut r = machine(&[0xAF, 0xFD, 0xF3, 0x65]);
    run(&mut r, 1);
    assert!(matches!(r.tick(IDLE), Err(Fault::MemoryOutOfBounds { addr: 0x202 })));
    let mut s = machine(&[0xAF, 0xFE, 0xD0, 0x03]);
    run(&mut s, 1);
    assert!(matches!(s.tick(IDLE), Err(Fault::MemoryOutOfBounds { addr: 0x202 })));
}

#[test]
fn key_out_of_range_is_a_fault() {
    let mut p = machine(&[0x60, 0x11, 0xE0, 0x9E]);
    run(&mut p, 1);
    assert!(matches!(p.tick(IDLE), Err(Fault::KeyOutOfRange { addr: 0x202 })));
}

#[test]
fn key_skips_follow_keypad() {
    let mut keys = IDLE;
    keys[5] = true;
    let mut p = machine(&[0x60, 0x05, 0xE0, 0x9E]);
    p.tick(keys).unwrap();
    p.tick(keys).unwrap();
    assert_eq!(p.program_counter(), 0x206);
    let mut q = machine(&[0x60, 0x05, 0xE0, 0xA1]);
    q.tick(keys).unwrap();
    q.tick(keys).unwrap();
    assert_eq!(q.program_counter(), 0x204);
    let mut r = machine(&[0x60, 0x05, 0xE0, 0xA1]);
    run(&mut r, 2);
    assert_eq!(r.program_counter(), 0x206);
}

#[test]
fn bcd_stores_decimal_digits() {
    let mut p = machine(&[0x61, 254, 0xA3, 0x00, 0xF1, 0x33]);
    run(&mut p, 3);
    assert_eq!(p.memory_at(0x300), Some(2));
    assert_eq!(p.memory_at(0x301), Some(5));
    assert_eq!(p.memory_at(0x302), Some(4));
}

#[test]
fn font_address_is_five_times_digit() {
    let mut p = machine(&[0x61, 0x0A, 0xF1, 0x29]);
    run(&mut p, 2);
    assert_eq!(p.index_register(), 50);
    assert_eq!(p.memory_at(50), Some(0xF0));
}

#[test]
fn add_to_index_has_no_masking() {
    let mut p = machine(&[0xAF, 0xFF, 0x61, 0xFF, 0xF1, 0x1E]);
    run(&mut p, 3);
    assert_eq!(p.index_register(), 0x10FE);
}

#[test]
fn store_and_read_registers() {
    let mut p = machine(&[
        0x60, 0x11, 0x61, 0x22, 0x62, 0x33, 0xA3, 0x00, 0xF1, 0x55, 0x60, 0x00, 0x61, 0x00, 0x62,
        0x00, 0xF2, 0x65,
    ]);
    run(&mut p, 5);
    assert_eq!(p.memory_at(0x300), Some(0x11));
    assert_eq!(p.memory_at(0x301), Some(0x22));
    assert_eq!(p.memory_at(0x302), Some(0x00));
    run(&mut p, 4);
    assert_eq!(p.register(0), 0x11);
    assert_eq!(p.register(1), 0x22);
    assert_eq!(p.register(2), 0x00);
}

#[test]
fn random_byte_is_masked() {
    let mut p = machine(&[0xC1, 0x00, 0xC2, 0x0F]);
    p.tick(IDLE).unwrap();
    assert_eq!(p.register(1), 0);
    p.tick(IDLE).unwrap();
    assert!(p.register(2) <= 0x0F);
}

#[test]
fn tick_with_random_uses_given_byte() {
    let mut p = machine(&[0xC1, 0x3C]);
    p.tick_with_random(IDLE, 0xF5).unwrap();
    assert_eq!(p.register(1), 0x34);
}
