use chip8::display::{draw, DrawCommand};
use chip8::keypad::{keypad_index, HostKey};
use chip8::diagnostics::{diagnostic, Diagnostic};
use chip8::machine::{decode, execute, fetch, timer_ticks_due, Chip8};
use chip8::semantics::Action;

fn machine() -> Chip8 {
    Chip8::default()
}

/// Runs `ops` one after the other with random byte 0, checking first that
/// none of them faults.
fn run(chip8: &mut Chip8, ops: &[u16]) -> Vec<Action> {
    let mut actions = Vec::new();
    for &op in ops {
        assert!(!chip8.would_fault(op), "opcode {:04x} faults", op);
        actions.push(execute(op, chip8, 0));
    }
    actions
}

#[test]
fn default_machine() {
    let c = machine();
    assert_eq!(c.pc(), 0x200);
    assert_eq!(c.index_register(), 0);
    assert_eq!(c.stack_depth(), 0);
    assert_eq!(c.delay_timer(), 0);
    assert_eq!(c.sound_timer(), 0);
    assert_eq!(c.cpu_frequency(), 500);
    assert_eq!(c.screen_scale(), 20);
    for i in 0..16 {
        assert_eq!(c.register(i), 0);
        assert!(!c.key_down(i));
    }
    for a in 0..4096 {
        assert_eq!(c.memory_byte(a), 0);
    }
    for x in 0..64 {
        for y in 0..32 {
            assert_eq!(c.pixel(x, y), 0);
        }
    }
}

#[test]
fn window_and_cycle() {
    let c = machine();
    assert_eq!(c.window_width(), 1280);
    assert_eq!(c.window_height(), 640);
    assert_eq!(c.cycle_delay_nanos(), 2_000_000);
}

#[test]
fn load_program_and_fetch() {
    let mut c = machine();
    assert!(c.program_fits(0xE00));
    assert!(!c.program_fits(0xE01));
    c.load_program(&[0x12, 0x34, 0xAB, 0xCD]);
    assert_eq!(c.memory_byte(0x200), 0x12);
    assert_eq!(c.memory_byte(0x203), 0xCD);
    assert_eq!(c.memory_byte(0x204), 0);
    assert!(c.can_fetch());
    assert_eq!(fetch(&mut c), 0x1234);
    assert_eq!(c.pc(), 0x202);
    assert_eq!(fetch(&mut c), 0xABCD);
    assert_eq!(c.pc(), 0x204);
}

#[test]
fn fetch_at_end_of_memory() {
    let mut c = machine();
    run(&mut c, &[0x1FFE]);
    assert!(c.can_fetch());
    assert_eq!(fetch(&mut c), 0);
    assert_eq!(c.pc(), 0x1000);
    assert!(!c.can_fetch());
    run(&mut c, &[0x1FFF]);
    assert!(!c.can_fetch());
}

#[test]
fn load_font_glyphs() {
    let mut c = machine();
    c.load_font();
    assert_eq!(c.memory_byte(0x4F), 0);
    assert_eq!(c.memory_byte(0x50), 0xF0);
    assert_eq!(c.memory_byte(0x55), 0x20);
    assert_eq!(c.memory_byte(0x9F), 0x80);
    assert_eq!(c.memory_byte(0xA0), 0);
}

#[test]
fn jump_call_return() {
    let mut c = machine();
    run(&mut c, &[0x1ABC]);
    assert_eq!(c.pc(), 0xABC);
    run(&mut c, &[0x2456]);
    assert_eq!(c.pc(), 0x456);
    assert_eq!(c.stack_depth(), 1);
    run(&mut c, &[0x00EE]);
    assert_eq!(c.pc(), 0xABC);
    assert_eq!(c.stack_depth(), 0);
    assert!(c.would_fault(0x00EE));
}

#[test]
fn clear_screen_clears_frame_buffer() {
    let mut c = machine();
    c.load_font();
    let actions = run(&mut c, &[0xA050, 0xD001]);
    assert_eq!(actions, vec![Action::Nothing, Action::Draw]);
    assert_eq!(c.pixel(0, 0), 1);
    let pc = c.pc();
    assert_eq!(run(&mut c, &[0x00E0]), vec![Action::ClearScreen]);
    for x in 0..64 {
        for y in 0..32 {
            assert_eq!(c.pixel(x, y), 0);
        }
    }
    assert_eq!(c.pc(), pc);
    assert_eq!(c.index_register(), 0x50);
    assert_eq!(c.memory_byte(0x50), 0xF0);
}

#[test]
fn skips() {
    let mut c = machine();
    run(&mut c, &[0x6105, 0x6205]);
    let pc = c.pc();
    run(&mut c, &[0x3105]);
    assert_eq!(c.pc(), pc + 2);
    run(&mut c, &[0x3106]);
    assert_eq!(c.pc(), pc + 2);
    run(&mut c, &[0x4106]);
    assert_eq!(c.pc(), pc + 4);
    run(&mut c, &[0x4105]);
    assert_eq!(c.pc(), pc + 4);
    run(&mut c, &[0x5120]);
    assert_eq!(c.pc(), pc + 6);
    run(&mut c, &[0x9120]);
    assert_eq!(c.pc(), pc + 6);
    run(&mut c, &[0x6307, 0x9130]);
    assert_eq!(c.pc(), pc + 8);
}

#[test]
fn set_and_add() {
    let mut c = machine();
    run(&mut c, &[0x6AFE, 0x7A03]);
    assert_eq!(c.register(0xA), 0x01);
    assert_eq!(c.register(0xF), 0);
}

#[test]
fn logic_ops() {
    let mut c = machine();
    run(&mut c, &[0x600C, 0x610A, 0x8011]);
    assert_eq!(c.register(0), 0x0E);
    run(&mut c, &[0x600C, 0x8012]);
    assert_eq!(c.register(0), 0x08);
    run(&mut c, &[0x600C, 0x8013]);
    assert_eq!(c.register(0), 0x06);
    run(&mut c, &[0x8010]);
    assert_eq!(c.register(0), 0x0A);
}

#[test]
fn add_with_carry() {
    let mut c = machine();
    run(&mut c, &[0x60F0, 0x6120, 0x8014]);
    assert_eq!(c.register(0), 0x10);
    assert_eq!(c.register(0xF), 1);
    // Without a carry the flag keeps its value.
    run(&mut c, &[0x6001, 0x6101, 0x8014]);
    assert_eq!(c.register(0), 2);
    assert_eq!(c.register(0xF), 1);
}

#[test]
fn subtract() {
    let mut c = machine();
    run(&mut c, &[0x6009, 0x6104, 0x8015]);
    assert_eq!(c.register(0), 5);
    assert_eq!(c.register(0xF), 1);
    run(&mut c, &[0x6004, 0x6109, 0x8015]);
    assert_eq!(c.register(0), 0xFB);
    assert_eq!(c.register(0xF), 0);
    run(&mut c, &[0x6004, 0x6109, 0x8017]);
    assert_eq!(c.register(0), 5);
    assert_eq!(c.register(0xF), 1);
    run(&mut c, &[0x6009, 0x6104, 0x8017]);
    assert_eq!(c.register(0), 0xFB);
    assert_eq!(c.register(0xF), 0);
}

#[test]
fn subtract_into_flag_register_faults() {
    let mut c = machine();
    // VF = 5 > V0 = 3: VF is set to 1 first, then 1 - 3 underflows.
    run(&mut c, &[0x6F05, 0x6003]);
    assert!(c.would_fault(0x8F05));
    // V0 = 1 does not underflow: VF = 1 - 1.
    run(&mut c, &[0x6F05, 0x6001]);
    assert!(!c.would_fault(0x8F05));
    run(&mut c, &[0x8F05]);
    assert_eq!(c.register(0xF), 0);
    // 8XY7 with Y = F: V0 = 3 < VF = 5, then VF = 1 and 1 - 3 underflows.
    run(&mut c, &[0x6F05, 0x6003]);
    assert!(c.would_fault(0x80F7));
}

#[test]
fn shift_right() {
    let mut c = machine();
    run(&mut c, &[0x6005, 0x8006]);
    assert_eq!(c.register(0), 2);
    assert_eq!(c.register(0xF), 1);
    run(&mut c, &[0x8006]);
    assert_eq!(c.register(0), 1);
    assert_eq!(c.register(0xF), 0);
    // On VF itself the flag is written first and then shifted.
    run(&mut c, &[0x6F03, 0x8FF6]);
    assert_eq!(c.register(0xF), 0);
}

#[test]
fn shift_left() {
    let mut c = machine();
    run(&mut c, &[0x6281, 0x822E]);
    assert_eq!(c.register(2), 0x02);
    assert_eq!(c.register(0xF), 1);
    run(&mut c, &[0x6040, 0x801E]);
    assert_eq!(c.register(0), 0x80);
    assert_eq!(c.register(0xF), 0);
    // Memory is not touched.
    for a in 0..16 {
        assert_eq!(c.memory_byte(a), 0);
    }
    // On VF itself the flag is written first and then shifted.
    run(&mut c, &[0x6F81, 0x8FFE]);
    assert_eq!(c.register(0xF), 2);
}

#[test]
fn index_ops() {
    let mut c = machine();
    run(&mut c, &[0xA123]);
    assert_eq!(c.index_register(), 0x123);
    run(&mut c, &[0x6310, 0xF31E]);
    assert_eq!(c.index_register(), 0x133);
    run(&mut c, &[0xAFFF, 0x63FF, 0xF31E]);
    assert_eq!(c.index_register(), 0x10FE);
}

#[test]
fn jump_with_offset() {
    let mut c = machine();
    run(&mut c, &[0x60FF, 0xBFFF]);
    assert_eq!(c.pc(), 0x10FE);
}

#[test]
fn random_is_masked() {
    let mut c = machine();
    assert_eq!(execute(0xC50F, &mut c, 0xAB), Action::Nothing);
    assert_eq!(c.register(5), 0x0B);
    decode(0xC500, &mut c);
    assert_eq!(c.register(5), 0);
    for _ in 0..50 {
        decode(0xC5F0, &mut c);
        assert_eq!(c.register(5) & 0x0F, 0);
    }
}

#[test]
fn draw_sprite_and_collision() {
    let mut c = machine();
    c.load_font();
    // Glyph 0 at (2, 3).
    run(&mut c, &[0x6002, 0x6103, 0xA050]);
    assert_eq!(run(&mut c, &[0xD015]), vec![Action::Draw]);
    assert_eq!(c.register(0xF), 0);
    // Top row 0xF0: four lit pixels then four cleared.
    for k in 0..4 {
        assert_eq!(c.pixel(2 + k, 3), 1);
    }
    for k in 4..8 {
        assert_eq!(c.pixel(2 + k, 3), 0);
    }
    // Second row 0x90.
    assert_eq!(c.pixel(2, 4), 1);
    assert_eq!(c.pixel(3, 4), 0);
    assert_eq!(c.pixel(5, 4), 1);
    // Drawing again turns the lit pixels off and reports the collision.
    run(&mut c, &[0xD015]);
    assert_eq!(c.register(0xF), 1);
    for x in 0..64 {
        for y in 0..32 {
            assert_eq!(c.pixel(x, y), 0);
        }
    }
}

#[test]
fn draw_clears_under_zero_bits() {
    let mut c = machine();
    c.load_font();
    // Fill row 0 from x = 0 with glyph 8's top row, 0xF0, at x = 4:
    // pixels 4..8 lit. Then draw 0xF0 at x = 0: pixels 4..8 are cleared
    // by the zero bits, with no collision.
    run(&mut c, &[0x6004, 0x6100, 0xA050, 0xD011]);
    assert_eq!(c.pixel(4, 0), 1);
    run(&mut c, &[0x6000, 0xD011]);
    assert_eq!(c.register(0xF), 0);
    assert_eq!(c.pixel(0, 0), 1);
    assert_eq!(c.pixel(4, 0), 0);
    assert_eq!(c.pixel(7, 0), 0);
}

#[test]
fn draw_wraps_start_and_clips() {
    let mut c = machine();
    c.load_font();
    // V0 = 66 -> x = 2; V1 = 62 -> y = 30; 5 rows, clipped to 2.
    run(&mut c, &[0x6042, 0x613E, 0xA050, 0xD015]);
    assert_eq!(c.pixel(2, 30), 1);
    assert_eq!(c.pixel(2, 31), 1);
    assert_eq!(c.pixel(3, 31), 0);
    // At x = 62 only two pixels of a row fit.
    let mut c = machine();
    c.load_font();
    run(&mut c, &[0x603E, 0x6100, 0xA050, 0xD011]);
    assert_eq!(c.pixel(62, 0), 1);
    assert_eq!(c.pixel(63, 0), 1);
    assert_eq!(c.pixel(0, 0), 0);
}

#[test]
fn draw_past_memory_faults() {
    let mut c = machine();
    run(&mut c, &[0xAFFE, 0x6000, 0x6100]);
    assert!(!c.would_fault(0xD012));
    assert!(c.would_fault(0xD013));
    // Rows clipped at the bottom are not read.
    run(&mut c, &[0x611F]);
    assert!(!c.would_fault(0xD01F));
}

#[test]
fn key_skips() {
    let mut c = machine();
    run(&mut c, &[0x6305]);
    c.handle_key(HostKey::W, true);
    assert!(c.key_down(5));
    let pc = c.pc();
    run(&mut c, &[0xE39E]);
    assert_eq!(c.pc(), pc + 2);
    run(&mut c, &[0xE3A1]);
    assert_eq!(c.pc(), pc + 2);
    c.handle_key(HostKey::W, false);
    run(&mut c, &[0xE3A1]);
    assert_eq!(c.pc(), pc + 4);
    run(&mut c, &[0xE39E]);
    assert_eq!(c.pc(), pc + 4);
    // V4 = 0x20 is not a key.
    run(&mut c, &[0x6420]);
    assert!(c.would_fault(0xE49E));
    assert!(c.would_fault(0xE4A1));
    assert!(!c.would_fault(0xE400));
}

#[test]
fn timers_instructions() {
    let mut c = machine();
    run(&mut c, &[0x6A07, 0xFA15, 0xFA18, 0xFB07]);
    assert_eq!(c.delay_timer(), 7);
    assert_eq!(c.sound_timer(), 7);
    assert_eq!(c.register(0xB), 7);
}

#[test]
fn tick_timers() {
    let mut c = machine();
    run(&mut c, &[0x6A02, 0xFA15, 0x6A01, 0xFA18]);
    c.tick_timers(0);
    assert_eq!(c.delay_timer(), 2);
    c.tick_timers(1);
    assert_eq!(c.delay_timer(), 1);
    assert_eq!(c.sound_timer(), 0);
    c.tick_timers(5);
    assert_eq!(c.delay_timer(), 0);
    assert_eq!(c.sound_timer(), 0);
    run(&mut c, &[0x6AFF, 0xFA15]);
    c.tick_timers(1000);
    assert_eq!(c.delay_timer(), 0);
}

#[test]
fn timer_ticks_at_sixty_hertz() {
    assert_eq!(timer_ticks_due(0), 0);
    assert_eq!(timer_ticks_due(16_666_666), 0);
    assert_eq!(timer_ticks_due(16_666_667), 1);
    assert_eq!(timer_ticks_due(1_000_000_000), 60);
    assert_eq!(timer_ticks_due(2_500_000_000), 150);
    assert_eq!(timer_ticks_due(u128::MAX), u128::MAX / 1_000_000_000 * 60 + (u128::MAX % 1_000_000_000) * 60 / 1_000_000_000);
}

#[test]
fn wait_for_key() {
    let mut c = machine();
    let pc = c.pc();
    run(&mut c, &[0xF20A]);
    assert_eq!(c.pc(), pc - 2);
    c.handle_key(HostKey::Num1, true);
    c.handle_key(HostKey::V, true);
    run(&mut c, &[0xF20A]);
    assert_eq!(c.pc(), pc - 2);
    assert_eq!(c.memory_byte(2), 0xF);
    run(&mut c, &[0x1000]);
    c.handle_key(HostKey::Num1, false);
    c.handle_key(HostKey::V, false);
    assert!(c.would_fault(0xF20A));
}

#[test]
fn font_character() {
    let mut c = machine();
    run(&mut c, &[0x610A, 0xF129]);
    assert_eq!(c.index_register(), 0x50 + 5 * 0xA);
    // V1 = 0x10 is no digit: I is unchanged.
    run(&mut c, &[0x6110, 0xA001, 0xF129]);
    assert_eq!(c.index_register(), 1);
}

#[test]
fn binary_coded_decimal() {
    let mut c = machine();
    run(&mut c, &[0x639C, 0xA300, 0xF333]);
    assert_eq!(c.memory_byte(0x300), 1);
    assert_eq!(c.memory_byte(0x301), 5);
    assert_eq!(c.memory_byte(0x302), 6);
    run(&mut c, &[0x63FF, 0xF333]);
    assert_eq!(c.memory_byte(0x300), 2);
    assert_eq!(c.memory_byte(0x301), 5);
    assert_eq!(c.memory_byte(0x302), 5);
    run(&mut c, &[0xAFFE]);
    assert!(c.would_fault(0xF333));
}

#[test]
fn store_and_load_registers() {
    let mut c = machine();
    run(&mut c, &[0x6011, 0x6122, 0x6233, 0xA400, 0xF155]);
    assert_eq!(c.memory_byte(0x400), 0x11);
    assert_eq!(c.memory_byte(0x401), 0x22);
    assert_eq!(c.memory_byte(0x402), 0);
    assert_eq!(c.index_register(), 0x400);
    run(&mut c, &[0x6000, 0x6100, 0xF165]);
    assert_eq!(c.register(0), 0x11);
    assert_eq!(c.register(1), 0x22);
    assert_eq!(c.register(2), 0x33);
    run(&mut c, &[0xAFF2]);
    assert!(!c.would_fault(0xFD55));
    assert!(c.would_fault(0xFE55));
    assert!(c.would_fault(0xFE65));
}

#[test]
fn keypad_mapping() {
    assert_eq!(keypad_index(HostKey::Num1), Some(1));
    assert_eq!(keypad_index(HostKey::Num4), Some(0xC));
    assert_eq!(keypad_index(HostKey::R), Some(0xD));
    assert_eq!(keypad_index(HostKey::X), Some(0));
    assert_eq!(keypad_index(HostKey::V), Some(0xF));
    assert_eq!(keypad_index(HostKey::Escape), None);
    let mut c = machine();
    assert!(!c.handle_key(HostKey::Escape, false));
    assert!(c.handle_key(HostKey::Escape, true));
    assert!(!c.handle_key(HostKey::Z, true));
    assert!(c.key_down(0xA));
    c.handle_key(HostKey::Z, false);
    assert!(!c.key_down(0xA));
}

#[test]
fn display_list() {
    let mut c = machine();
    c.load_font();
    run(&mut c, &[0x6001, 0x6100, 0xA050, 0xD011]);
    let list = draw(&c);
    assert_eq!(list.len(), 2048);
    assert_eq!(
        list[0],
        DrawCommand { center_x: 0, center_y: 0, width: 10, height: 10, red: 0, green: 0, blue: 0, filled: false }
    );
    assert_eq!(
        list[1],
        DrawCommand { center_x: 20, center_y: 0, width: 20, height: 20, red: 0, green: 0, blue: 255, filled: true }
    );
    assert_eq!(list[64 + 5].center_x, 100);
    assert_eq!(list[64 + 5].center_y, 20);
    assert!(!list[64 + 5].filled);
}

#[test]
fn diagnostics() {
    let mut c = machine();
    assert_eq!(diagnostic(&c, 0x8126), Some(Diagnostic::ShiftRight));
    assert_eq!(diagnostic(&c, 0x8128), Some(Diagnostic::Unrecognised8));
    assert_eq!(diagnostic(&c, 0x812E), None);
    assert_eq!(diagnostic(&c, 0xE155), Some(Diagnostic::UnrecognisedE));
    assert_eq!(diagnostic(&c, 0xE19E), None);
    assert_eq!(diagnostic(&c, 0xF1FF), Some(Diagnostic::UnrecognisedF));
    assert_eq!(diagnostic(&c, 0xF133), None);
    assert_eq!(diagnostic(&c, 0xF129), None);
    run(&mut c, &[0x6110]);
    assert_eq!(diagnostic(&c, 0xF129), Some(Diagnostic::InvalidDigit));
    assert_eq!(diagnostic(&c, 0x1234), None);
}
