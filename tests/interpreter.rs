use chip8::chip8::Chip8;
use chip8::instr::{decode, Instr};
use chip8::keymap::key_code;
use chip8::model::Chip8Error;
use chip8::timer::{Timer, CLOCK_PERIOD_NANOS, FRAME_PERIOD_NANOS};

fn machine(ops: &[u16]) -> Chip8 {
    let mut rom = Vec::new();
    for op in ops {
        rom.push((op >> 8) as u8);
        rom.push((op & 0xff) as u8);
    }
    Chip8::load(rom).unwrap()
}

fn run(c: &mut Chip8, steps: usize) {
    for _ in 0..steps {
        c.step().unwrap();
    }
}

#[test]
fn load_places_font_and_program() {
    let c = machine(&[0x6A05]);
    assert_eq!(c.pc(), 0x200);
    assert_eq!(c.memory(0), 0xF0);
    assert_eq!(c.memory(79), 0x80);
    assert_eq!(c.memory(80), 0);
    assert_eq!(c.memory(0x200), 0x6A);
    assert_eq!(c.memory(0x201), 0x05);
    assert_eq!(c.memory(0x202), 0);
}

#[test]
fn load_accepts_largest_rom() {
    let c = Chip8::load(vec![0xAB; 4096 - 0x200]).unwrap();
    assert_eq!(c.memory(4095), 0xAB);
}

#[test]
fn load_rejects_oversized_rom() {
    assert_eq!(Chip8::load(vec![0; 4096 - 0x200 + 1]).err(), Some(Chip8Error::RomTooLarge));
}

#[test]
fn load_immediate_scenario() {
    let mut c = machine(&[0x6A05]);
    c.step().unwrap();
    assert_eq!(c.register(0xA), 5);
    assert_eq!(c.pc(), 0x202);
}

#[test]
fn add_with_carry_scenario() {
    let mut c = machine(&[0x61FF, 0x6201, 0x8124]);
    run(&mut c, 3);
    assert_eq!(c.register(1), 0x00);
    assert_eq!(c.register(0xF), 1);
}

#[test]
fn add_without_carry() {
    let mut c = machine(&[0x61FE, 0x6201, 0x6F07, 0x8124]);
    run(&mut c, 4);
    assert_eq!(c.register(1), 0xFF);
    assert_eq!(c.register(0xF), 0);
}

#[test]
fn add_immediate_wraps_without_flag() {
    let mut c = machine(&[0x61FF, 0x6F09, 0x7102]);
    run(&mut c, 3);
    assert_eq!(c.register(1), 0x01);
    assert_eq!(c.register(0xF), 9);
}

#[test]
fn sub_and_subn_flags() {
    let mut c = machine(&[0x6105, 0x6207, 0x8125]);
    run(&mut c, 3);
    assert_eq!(c.register(1), 0xFE);
    assert_eq!(c.register(0xF), 0);
    let mut c = machine(&[0x6105, 0x6207, 0x8127]);
    run(&mut c, 3);
    assert_eq!(c.register(1), 2);
    assert_eq!(c.register(0xF), 1);
}

#[test]
fn shifts_read_vy() {
    let mut c = machine(&[0x6133, 0x6281, 0x8126]);
    run(&mut c, 3);
    assert_eq!(c.register(1), 0x40);
    assert_eq!(c.register(0xF), 1);
    let mut c = machine(&[0x6133, 0x6281, 0x812E]);
    run(&mut c, 3);
    assert_eq!(c.register(1), 0x02);
    assert_eq!(c.register(0xF), 1);
}

#[test]
fn logic_ops_reset_flag() {
    let mut c = machine(&[0x610C, 0x620A, 0x6F05, 0x8121]);
    run(&mut c, 4);
    assert_eq!(c.register(1), 0x0E);
    assert_eq!(c.register(0xF), 0);
    let mut c = machine(&[0x610C, 0x620A, 0x6F05, 0x8122]);
    run(&mut c, 4);
    assert_eq!(c.register(1), 0x08);
    let mut c = machine(&[0x610C, 0x620A, 0x6F05, 0x8123]);
    run(&mut c, 4);
    assert_eq!(c.register(1), 0x06);
    assert_eq!(c.register(0xF), 0);
}

#[test]
fn skips_and_jumps() {
    let mut c = machine(&[0x6107, 0x3107]);
    run(&mut c, 2);
    assert_eq!(c.pc(), 0x206);
    let mut c = machine(&[0x6107, 0x4107]);
    run(&mut c, 2);
    assert_eq!(c.pc(), 0x204);
    let mut c = machine(&[0x1234]);
    run(&mut c, 1);
    assert_eq!(c.pc(), 0x234);
    let mut c = machine(&[0x6004, 0xB300]);
    run(&mut c, 2);
    assert_eq!(c.pc(), 0x304);
}

#[test]
fn call_and_return() {
    let mut c = machine(&[0x2204, 0x0000, 0x00EE]);
    c.step().unwrap();
    assert_eq!(c.pc(), 0x204);
    assert_eq!(c.sp(), 1);
    c.step().unwrap();
    assert_eq!(c.pc(), 0x202);
    assert_eq!(c.sp(), 0);
}

#[test]
fn return_on_empty_stack_fails() {
    let mut c = machine(&[0x00EE]);
    assert_eq!(c.step(), Err(Chip8Error::StackUnderflow));
    assert_eq!(c.pc(), 0x200);
}

#[test]
fn seventeenth_call_fails() {
    let mut c = machine(&[0x2200]);
    run(&mut c, 16);
    assert_eq!(c.sp(), 16);
    assert_eq!(c.step(), Err(Chip8Error::StackOverflow));
    assert_eq!(c.sp(), 16);
}

#[test]
fn unsupported_opcode_fails() {
    let mut c = machine(&[0x5121]);
    assert_eq!(c.step(), Err(Chip8Error::UnsupportedOpcode(0x5121)));
    assert_eq!(decode(0xF0FF), None);
    assert_eq!(decode(0x8AB4), Some(Instr::AddVy(0xA, 0xB)));
    assert_eq!(decode(0xD123), Some(Instr::Drw(1, 2, 3)));
}

#[test]
fn fetch_past_memory_fails() {
    let mut c = machine(&[0x1FFF]);
    c.step().unwrap();
    assert_eq!(c.step(), Err(Chip8Error::AddressOutOfRange));
}

#[test]
fn bcd_of_157() {
    let mut c = machine(&[0x619D, 0xA300, 0xF133]);
    run(&mut c, 3);
    assert_eq!(c.memory(0x300), 1);
    assert_eq!(c.memory(0x301), 5);
    assert_eq!(c.memory(0x302), 7);
    assert_eq!(c.index(), 0x300);
}

#[test]
fn bcd_past_memory_fails() {
    let mut c = machine(&[0xAFFE, 0xF133]);
    run(&mut c, 1);
    assert_eq!(c.step(), Err(Chip8Error::AddressOutOfRange));
}

#[test]
fn store_then_load_round_trips() {
    let mut c = machine(&[0x6011, 0x6122, 0x6233, 0xA300, 0xF255, 0x6000, 0x6100, 0x6200, 0xA300, 0xF265]);
    run(&mut c, 5);
    assert_eq!(c.index(), 0x303);
    assert_eq!(c.memory(0x300), 0x11);
    assert_eq!(c.memory(0x302), 0x33);
    assert_eq!(c.memory(0x303), 0);
    run(&mut c, 5);
    assert_eq!(c.register(0), 0x11);
    assert_eq!(c.register(1), 0x22);
    assert_eq!(c.register(2), 0x33);
    assert_eq!(c.index(), 0x303);
}

#[test]
fn font_address_and_index_add() {
    let mut c = machine(&[0x610A, 0xF129, 0xF11E]);
    run(&mut c, 2);
    assert_eq!(c.index(), 50);
    run(&mut c, 1);
    assert_eq!(c.index(), 60);
}

#[test]
fn clear_screen_zeroes_all_cells() {
    let mut c = machine(&[0xA000, 0xD00F, 0x00E0]);
    run(&mut c, 2);
    assert_eq!(c.pixel(0, 0), 1);
    run(&mut c, 1);
    for y in 0..32 {
        for x in 0..64 {
            assert_eq!(c.pixel(x, y), 0);
        }
    }
    assert!(c.draw_flag());
}

#[test]
fn draw_clips_at_right_edge() {
    // I points at a 0xFF byte; anchor (60, 0); pixel (63, 0) is set first.
    let mut c = machine(&[0xA20E, 0x603F, 0x6100, 0xD011, 0x603C, 0xD011, 0x0000, 0xFF00]);
    run(&mut c, 4);
    assert_eq!(c.pixel(63, 0), 1);
    run(&mut c, 2);
    for x in 60..63 {
        assert_eq!(c.pixel(x, 0), 1);
    }
    assert_eq!(c.pixel(63, 0), 0);
    for x in 0..4 {
        assert_eq!(c.pixel(x, 0), 0);
        assert_eq!(c.pixel(x, 1), 0);
    }
    assert_eq!(c.register(0xF), 1);
    assert!(c.draw_flag());
}

#[test]
fn draw_collision_reflects_last_cell_only() {
    // 0xFF at (56,0) sets 56..63; at (60,0) clears 60..63 with the last cell colliding;
    // at (56,0) again 56..59 collide but the last cell (63) does not, so V[F] ends 0.
    let mut c = machine(&[0xA210, 0x6038, 0x6100, 0xD011, 0x603C, 0xD011, 0x6038, 0xD011, 0xFF00]);
    run(&mut c, 4);
    assert_eq!(c.register(0xF), 0);
    run(&mut c, 2);
    assert_eq!(c.register(0xF), 1);
    run(&mut c, 2);
    assert_eq!(c.register(0xF), 0);
    for x in 56..60 {
        assert_eq!(c.pixel(x, 0), 0);
    }
    for x in 60..64 {
        assert_eq!(c.pixel(x, 0), 1);
    }
}

#[test]
fn draw_stops_at_bottom_edge() {
    // Two-row sprite at row 31: only row 31 is drawn, nothing wraps to row 0.
    let mut c = machine(&[0xA20A, 0x6000, 0x611F, 0xD012, 0x0000, 0xFFFF]);
    run(&mut c, 4);
    assert_eq!(c.pixel(0, 31), 1);
    assert_eq!(c.pixel(7, 31), 1);
    assert_eq!(c.pixel(0, 0), 0);
}

#[test]
fn draw_anchor_wraps() {
    // V[x] = 66 draws at column 2, V[y] = 33 at row 1.
    let mut c = machine(&[0xA20A, 0x6042, 0x6121, 0xD011, 0x0000, 0x8000]);
    run(&mut c, 4);
    assert_eq!(c.pixel(2, 1), 1);
    assert_eq!(c.pixel(3, 1), 0);
}

#[test]
fn draw_past_memory_fails() {
    let mut c = machine(&[0xAFFF, 0x6000, 0x6100, 0xD012]);
    run(&mut c, 3);
    assert_eq!(c.step(), Err(Chip8Error::AddressOutOfRange));
    assert_eq!(c.pixel(0, 0), 0);
}

#[test]
fn key_skips() {
    let mut c = machine(&[0x6105, 0xE19E, 0x0000, 0xE1A1]);
    c.update_keypad(5, true);
    assert!(c.key_pressed(5));
    run(&mut c, 2);
    assert_eq!(c.pc(), 0x206);
    run(&mut c, 1);
    assert_eq!(c.pc(), 0x208);
}

#[test]
fn key_skip_with_invalid_key_fails() {
    let mut c = machine(&[0x6120, 0xE19E]);
    run(&mut c, 1);
    assert_eq!(c.step(), Err(Chip8Error::InvalidKey));
}

#[test]
fn wait_for_key_scenario() {
    let mut c = machine(&[0xF30A]);
    for _ in 0..5 {
        c.step().unwrap();
        assert_eq!(c.pc(), 0x200);
        assert!(c.is_waiting_for_key());
    }
    c.update_keypad(0xB, true);
    c.step().unwrap();
    assert_eq!(c.pc(), 0x200);
    c.update_keypad(0xB, false);
    c.step().unwrap();
    assert_eq!(c.register(3), 0xB);
    assert_eq!(c.pc(), 0x202);
    assert!(!c.is_waiting_for_key());
}

#[test]
fn key_release_before_waiting_is_lost() {
    let mut c = machine(&[0xF30A]);
    c.update_keypad(0x7, true);
    c.update_keypad(0x7, false);
    c.step().unwrap();
    assert_eq!(c.pc(), 0x200);
}

#[test]
fn random_is_masked() {
    let mut c = machine(&[0xC10F, 0xC200]);
    run(&mut c, 2);
    assert!(c.register(1) <= 0x0F);
    assert_eq!(c.register(2), 0);
}

#[test]
fn timers_count_down_per_frame() {
    let mut c = machine(&[0x6103, 0xF115, 0xF118, 0x1206]);
    run(&mut c, 3);
    let mut frame = Timer::new();
    let mut clock = Timer::new();
    let mut now = 0u64;
    // Many instruction ticks inside one frame window.
    for _ in 0..8 {
        now += CLOCK_PERIOD_NANOS;
        frame.update(now);
        clock.update(now);
        c.tick(&mut frame, &mut clock, now).unwrap();
    }
    assert_eq!(c.delay_timer(), 3);
    assert_eq!(c.sound_timer(), 3);
    for expected in [2u8, 1, 0, 0, 0] {
        now += FRAME_PERIOD_NANOS;
        frame.update(now);
        clock.update(now);
        c.tick(&mut frame, &mut clock, now).unwrap();
        assert_eq!(c.delay_timer(), expected);
        assert_eq!(c.sound_timer(), expected);
        assert_eq!(c.beep(), expected > 0);
    }
}

#[test]
fn delay_register_load() {
    let mut c = machine(&[0x6109, 0xF115, 0xF207]);
    run(&mut c, 3);
    assert_eq!(c.register(2), 9);
}

#[test]
fn tick_without_due_clocks_does_nothing() {
    let mut c = machine(&[0x6A05]);
    let mut frame = Timer::new();
    let mut clock = Timer::new();
    frame.update(10);
    clock.update(10);
    c.tick(&mut frame, &mut clock, 10).unwrap();
    assert_eq!(c.pc(), 0x200);
    assert_eq!(clock.acc, 10);
}

#[test]
fn tick_runs_one_instruction_and_resets_clock() {
    let mut c = machine(&[0x6A05, 0x6B06]);
    let mut frame = Timer::new();
    let mut clock = Timer::new();
    let now = 3 * CLOCK_PERIOD_NANOS;
    clock.update(now);
    c.tick(&mut frame, &mut clock, now).unwrap();
    assert_eq!(c.register(0xA), 5);
    assert_eq!(c.register(0xB), 0);
    assert_eq!(clock.acc, 0);
    assert_eq!(clock.prev, now);
}

#[test]
fn timer_accumulates_and_discards_excess() {
    let mut t = Timer::new();
    t.update(5);
    t.update(12);
    assert_eq!(t.acc, 12);
    assert_eq!(t.delta, 7);
    assert!(t.is_ready(12));
    assert!(!t.is_ready(13));
    t.update(3);
    assert_eq!(t.acc, 12);
    t.reset(20);
    assert_eq!(t.acc, 0);
    t.update(25);
    assert_eq!(t.acc, 5);
}

#[test]
fn clearing_draw_flag() {
    let mut c = machine(&[0x00E0]);
    run(&mut c, 1);
    assert!(c.draw_flag());
    c.clear_draw_flag();
    assert!(!c.draw_flag());
}

#[test]
fn keypad_layout() {
    let layout = [
        ('1', 0x1), ('2', 0x2), ('3', 0x3), ('4', 0xC),
        ('q', 0x4), ('w', 0x5), ('e', 0x6), ('r', 0xD),
        ('a', 0x7), ('s', 0x8), ('d', 0x9), ('f', 0xE),
        ('z', 0xA), ('x', 0x0), ('c', 0xB), ('v', 0xF),
    ];
    for (k, code) in layout {
        assert_eq!(key_code(k), Some(code));
        assert_eq!(key_code(k.to_ascii_uppercase()), Some(code));
    }
    assert_eq!(key_code('5'), None);
    assert_eq!(key_code('p'), None);
}

#[test]
fn draw_at_right_edge_scenario() {
    // Height 1, I at a 0xFF byte, anchor (60, 0), clear screen.
    let mut c = machine(&[0xA20A, 0x603C, 0x6100, 0xD011, 0x0000, 0xFF00]);
    run(&mut c, 4);
    for x in 60..64 {
        assert_eq!(c.pixel(x, 0), 1);
    }
    for x in 0..4 {
        assert_eq!(c.pixel(x, 0), 0);
        assert_eq!(c.pixel(x, 1), 0);
    }
    assert_eq!(c.register(0xF), 0);
    assert_eq!(c.pc(), 0x208);
}
