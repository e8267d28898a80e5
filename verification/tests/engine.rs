use chip8_emulator::{Chip8Engine, SCREEN_HEIGHT, SCREEN_WIDTH};

fn program(ops: &[u16]) -> Vec<u8> {
    let mut bytes = Vec::new();
    for op in ops {
        bytes.push((op >> 8) as u8);
        bytes.push((op & 0xFF) as u8);
    }
    bytes
}

fn engine_with(ops: &[u16], legacy: bool) -> Chip8Engine {
    let mut engine = Chip8Engine::new(legacy);
    engine.load_bytes(&program(ops));
    engine
}

fn run(engine: &mut Chip8Engine, cycles: usize) {
    for _ in 0..cycles {
        assert!(engine.can_tick());
        assert_eq!(engine.tick_with_random(0), Ok(true));
    }
}

fn lit(display: &[u8]) -> Vec<usize> {
    display.iter().enumerate().filter(|(_, p)| **p == 1).map(|(i, _)| i).collect()
}

#[test]
fn fresh_engine_is_blank() {
    let engine = Chip8Engine::new(true);
    let display = engine.get_display();
    assert_eq!(display.len(), SCREEN_WIDTH * SCREEN_HEIGHT);
    assert!(display.iter().all(|p| *p == 0));
    assert_eq!(engine.get_delay_timer(), 0);
    assert_eq!(engine.get_sound_timer(), 0);
    assert!(!engine.get_draw_flag());
    assert!(engine.is_old());
    assert!(!Chip8Engine::new(false).is_old());
}

#[test]
fn load_immediate_and_set_timers() {
    // V3 = 0x2A; delay = V3; sound = V3
    let mut engine = engine_with(&[0x632A, 0xF315, 0xF318], false);
    run(&mut engine, 3);
    assert_eq!(engine.get_delay_timer(), 0x2A);
    assert_eq!(engine.get_sound_timer(), 0x2A);
}

#[test]
fn timers_read_back_what_was_set() {
    let mut engine = Chip8Engine::new(false);
    engine.set_delay_timer(200);
    engine.set_sound_timer(7);
    assert_eq!(engine.get_delay_timer(), 200);
    assert_eq!(engine.get_sound_timer(), 7);
}

#[test]
fn delay_timer_is_read_into_a_register() {
    // V1 = delay; sound = V1
    let mut engine = engine_with(&[0xF107, 0xF118], false);
    engine.set_delay_timer(99);
    run(&mut engine, 2);
    assert_eq!(engine.get_sound_timer(), 99);
}

#[test]
fn add_immediate_wraps_without_touching_vf() {
    // V0 = 0xFF; VF = 5; V0 += 2; delay = V0; sound = VF
    let mut engine = engine_with(&[0x60FF, 0x6F05, 0x7002, 0xF015, 0xFF18], false);
    run(&mut engine, 5);
    assert_eq!(engine.get_delay_timer(), 1);
    assert_eq!(engine.get_sound_timer(), 5);
}

#[test]
fn add_registers_sets_carry() {
    // V0 = 0xFF; V1 = 0x02; V0 += V1; delay = V0; sound = VF
    let mut engine = engine_with(&[0x60FF, 0x6102, 0x8014, 0xF015, 0xFF18], false);
    run(&mut engine, 5);
    assert_eq!(engine.get_delay_timer(), 1);
    assert_eq!(engine.get_sound_timer(), 1);
    // no carry: 0x10 + 0x20
    let mut engine = engine_with(&[0x6010, 0x6120, 0x8014, 0xF015, 0xFF18], false);
    run(&mut engine, 5);
    assert_eq!(engine.get_delay_timer(), 0x30);
    assert_eq!(engine.get_sound_timer(), 0);
}

#[test]
fn subtract_sets_not_borrow() {
    // 5 - 7 wraps to 254, VF = 0
    let mut engine = engine_with(&[0x6005, 0x6107, 0x8015, 0xF015, 0xFF18], false);
    run(&mut engine, 5);
    assert_eq!(engine.get_delay_timer(), 254);
    assert_eq!(engine.get_sound_timer(), 0);
    // 7 - 5 = 2, VF = 1
    let mut engine = engine_with(&[0x6007, 0x6105, 0x8015, 0xF015, 0xFF18], false);
    run(&mut engine, 5);
    assert_eq!(engine.get_delay_timer(), 2);
    assert_eq!(engine.get_sound_timer(), 1);
    // 8XY7: V0 = V1 - V0 = 7 - 5
    let mut engine = engine_with(&[0x6005, 0x6107, 0x8017, 0xF015, 0xFF18], false);
    run(&mut engine, 5);
    assert_eq!(engine.get_delay_timer(), 2);
    assert_eq!(engine.get_sound_timer(), 1);
}

#[test]
fn bitwise_operations() {
    // V0 = 0b1100, V1 = 0b1010; V2 = V0; V2 |= V1 -> 0b1110
    let mut engine = engine_with(&[0x600C, 0x610A, 0x8200, 0x8211, 0xF215], false);
    run(&mut engine, 5);
    assert_eq!(engine.get_delay_timer(), 0b1110);
    let mut engine = engine_with(&[0x600C, 0x610A, 0x8012, 0xF015], false);
    run(&mut engine, 4);
    assert_eq!(engine.get_delay_timer(), 0b1000);
    let mut engine = engine_with(&[0x600C, 0x610A, 0x8013, 0xF015], false);
    run(&mut engine, 4);
    assert_eq!(engine.get_delay_timer(), 0b0110);
}

#[test]
fn shifts_follow_the_mode() {
    // new mode: V0 = 5, V1 = 0x80; V0 >>= 1 -> 2, VF = 1
    let mut engine = engine_with(&[0x6005, 0x6180, 0x8016, 0xF015, 0xFF18], false);
    run(&mut engine, 5);
    assert_eq!(engine.get_delay_timer(), 2);
    assert_eq!(engine.get_sound_timer(), 1);
    // legacy mode: V0 = V1 >> 1 = 0x40, VF = 0
    let mut engine = engine_with(&[0x6005, 0x6180, 0x8016, 0xF015, 0xFF18], true);
    run(&mut engine, 5);
    assert_eq!(engine.get_delay_timer(), 0x40);
    assert_eq!(engine.get_sound_timer(), 0);
    // legacy left shift: V0 = V1 << 1 = 0 (wraps), VF = 1
    let mut engine = engine_with(&[0x6005, 0x6180, 0x801E, 0xF015, 0xFF18], true);
    run(&mut engine, 5);
    assert_eq!(engine.get_delay_timer(), 0);
    assert_eq!(engine.get_sound_timer(), 1);
    // new left shift: V0 = 5 << 1 = 10, VF = 0
    let mut engine = engine_with(&[0x6005, 0x6180, 0x801E, 0xF015, 0xFF18], false);
    run(&mut engine, 5);
    assert_eq!(engine.get_delay_timer(), 10);
    assert_eq!(engine.get_sound_timer(), 0);
}

#[test]
fn skips_over_the_next_instruction() {
    // V0 = 3; skip if V0 == 3; (skipped) V1 = 9; delay = V1 (0)
    let mut engine = engine_with(&[0x6003, 0x3003, 0x6109, 0xF115], false);
    run(&mut engine, 3);
    assert_eq!(engine.get_delay_timer(), 0);
    // not equal: no skip
    let mut engine = engine_with(&[0x6003, 0x3004, 0x6109, 0xF115], false);
    run(&mut engine, 4);
    assert_eq!(engine.get_delay_timer(), 9);
    // 4XNN, 5XY0, 9XY0
    let mut engine = engine_with(&[0x6003, 0x4004, 0x6109, 0xF115], false);
    run(&mut engine, 3);
    assert_eq!(engine.get_delay_timer(), 0);
    let mut engine = engine_with(&[0x6003, 0x6203, 0x5020, 0x6109, 0xF115], false);
    run(&mut engine, 4);
    assert_eq!(engine.get_delay_timer(), 0);
    let mut engine = engine_with(&[0x6003, 0x6203, 0x9020, 0x6109, 0xF115], false);
    run(&mut engine, 5);
    assert_eq!(engine.get_delay_timer(), 9);
}

#[test]
fn call_then_return_resumes_after_the_call() {
    // 0x200: call 0x206; 0x202: delay = V0; 0x204: jump 0x204
    // 0x206: V0 = 0x11; 0x208: return
    let mut engine = engine_with(&[0x2206, 0xF015, 0x1204, 0x6011, 0x00EE], false);
    run(&mut engine, 4);
    assert_eq!(engine.get_delay_timer(), 0x11);
}

#[test]
fn return_on_empty_stack_goes_to_program_start() {
    // 0x200: V0 += 1; 0x202: return with an empty stack, back to 0x200
    let mut engine = engine_with(&[0x7001, 0x00EE], false);
    run(&mut engine, 6);
    // the program counter is at 0x200 again: put a store there
    engine.load_bytes(&program(&[0xF015]));
    run(&mut engine, 1);
    assert_eq!(engine.get_delay_timer(), 3);
}

#[test]
fn jump_with_offset_follows_the_mode() {
    // V0 = 4; V2 = 2; jump to 0x208 + V0 (legacy) or + V2 (new)
    // 0x206: V0 = 0x11; 0x208: V0 = 0x22; 0x20A: V0 = 0x33; 0x20C: delay = V0
    let ops = [0x6004, 0x6202, 0xB208, 0x6011, 0x6022, 0x6033, 0xF015];
    let mut engine = engine_with(&ops, true);
    run(&mut engine, 4);
    assert_eq!(engine.get_delay_timer(), 4);
    let mut engine = engine_with(&ops, false);
    run(&mut engine, 5);
    assert_eq!(engine.get_delay_timer(), 0x33);
}

#[test]
fn program_counter_limit_is_refused() {
    let mut engine = engine_with(&[0x1FFE], false);
    run(&mut engine, 1);
    assert!(engine.can_tick());
    let before = engine.get_display();
    assert_eq!(
        engine.tick_with_random(0),
        Err("Program Counter tried to go over allowed memory limit".to_string())
    );
    // nothing changed: the same refusal again
    assert_eq!(
        engine.tick(),
        Err("Program Counter tried to go over allowed memory limit".to_string())
    );
    assert_eq!(engine.get_display(), before);
}

#[test]
fn unknown_instructions_are_named() {
    let mut engine = engine_with(&[0x0123], false);
    assert_eq!(engine.tick_with_random(0), Err("Unknown instruction: 0123".to_string()));
    let mut engine = engine_with(&[0x5121], false);
    assert_eq!(engine.tick_with_random(0), Err("Unknown instruction: 5121".to_string()));
    let mut engine = engine_with(&[0xE1FF], false);
    assert_eq!(engine.tick(), Err("Unknown instruction: E1FF".to_string()));
    let mut engine = engine_with(&[0xF0AB], false);
    assert_eq!(engine.tick(), Err("Unknown instruction: F0AB".to_string()));
    let mut engine = engine_with(&[0x800C], false);
    assert_eq!(engine.tick(), Err("Unknown instruction: 800C".to_string()));
}

#[test]
fn unknown_instruction_moves_past_it() {
    // the error leaves the program counter after the bad opcode
    let mut engine = engine_with(&[0x0000, 0x6042, 0xF015], false);
    assert_eq!(engine.tick(), Err("Unknown instruction: 0000".to_string()));
    run(&mut engine, 2);
    assert_eq!(engine.get_delay_timer(), 0x42);
}

#[test]
fn draws_the_font_glyph_for_zero() {
    // V0 = 0; I = glyph(V0); draw 5 rows at (0, 0)
    let mut engine = engine_with(&[0x6000, 0xF029, 0xD005], false);
    run(&mut engine, 3);
    assert!(engine.get_draw_flag());
    let display = engine.get_display();
    // 0xF0 0x90 0x90 0x90 0xF0
    let mut expected = Vec::new();
    for (row, bits) in [0xF0u8, 0x90, 0x90, 0x90, 0xF0].iter().enumerate() {
        for b in 0..8 {
            if bits & (0x80 >> b) != 0 {
                expected.push(row * 64 + b);
            }
        }
    }
    assert_eq!(lit(&display), expected);
    engine.reset_draw_flag();
    assert!(!engine.get_draw_flag());
}

#[test]
fn draw_twice_restores_and_reports_collision() {
    // V0 = 10, V1 = 3, I = glyph 8; draw; sound = VF; draw; delay = VF
    let ops = [0x600A, 0x6103, 0x6208, 0xF229, 0xD015, 0xFF18, 0xD015, 0xFF15];
    let mut engine = engine_with(&ops, false);
    run(&mut engine, 5);
    let once = engine.get_display();
    assert!(!lit(&once).is_empty());
    run(&mut engine, 3);
    assert_eq!(engine.get_sound_timer(), 0);
    assert_eq!(engine.get_delay_timer(), 1);
    assert!(engine.get_display().iter().all(|p| *p == 0));
}

#[test]
fn draw_clips_at_the_right_and_bottom_edges() {
    // V0 = 62, V1 = 30; I = 0x300 where the sprite rows are 0xFF 0xFF 0xFF
    let mut engine = engine_with(&[0x603E, 0x611E, 0xA300, 0xD013], false);
    let mut bytes = program(&[0x603E, 0x611E, 0xA300, 0xD013]);
    bytes.resize(0x100, 0);
    bytes.extend_from_slice(&[0xFF, 0xFF, 0xFF]);
    engine.load_bytes(&bytes);
    run(&mut engine, 4);
    let display = engine.get_display();
    assert_eq!(lit(&display), vec![30 * 64 + 62, 30 * 64 + 63, 31 * 64 + 62, 31 * 64 + 63]);
}

#[test]
fn draw_start_wraps_around() {
    // V0 = 64 + 1, V1 = 32 + 2; I = glyph 1 (0x20 top row); draw 1 row
    let mut engine = engine_with(&[0x6041, 0x6122, 0x6201, 0xF229, 0xD011], false);
    run(&mut engine, 5);
    // 0x20 = 0b0010_0000: third pixel from the left
    assert_eq!(lit(&engine.get_display()), vec![2 * 64 + 1 + 2]);
}

#[test]
fn clear_screen_blanks_the_display() {
    let mut engine = engine_with(&[0xF029, 0xD005, 0x00E0], false);
    run(&mut engine, 2);
    assert!(!lit(&engine.get_display()).is_empty());
    engine.reset_draw_flag();
    run(&mut engine, 1);
    assert!(engine.get_draw_flag());
    assert!(engine.get_display().iter().all(|p| *p == 0));
}

#[test]
fn bcd_stores_decimal_digits() {
    // V0 = 156; I = 0x300; BCD; load V0..V2; delay = V1; sound = V2
    let mut engine = engine_with(&[0x609C, 0xA300, 0xF033, 0xF265, 0xF115, 0xF218], false);
    run(&mut engine, 6);
    assert_eq!(engine.get_delay_timer(), 5);
    assert_eq!(engine.get_sound_timer(), 6);
    // and V0 holds the hundreds
    let mut engine = engine_with(&[0x609C, 0xA300, 0xF033, 0xF265, 0xF015], false);
    run(&mut engine, 5);
    assert_eq!(engine.get_delay_timer(), 1);
}

#[test]
fn store_then_load_registers_round_trips() {
    // V0..V2 = 7, 8, 9; I = 0x300; store; clobber; load; delay = V2; sound = V1
    let ops = [0x6007, 0x6108, 0x6209, 0xA300, 0xF255, 0x6100, 0x6200, 0xF265, 0xF215, 0xF118];
    let mut engine = engine_with(&ops, false);
    run(&mut engine, 10);
    assert_eq!(engine.get_delay_timer(), 9);
    assert_eq!(engine.get_sound_timer(), 8);
}

#[test]
fn legacy_store_advances_index() {
    // legacy: after storing V0..V1 at 0x300, I = 0x302; store V0 (=5) again at 0x302
    // then I = 0x300 and load V0..V2 -> 5, 6, 5
    let ops = [0x6005, 0x6106, 0xA300, 0xF155, 0xF055, 0xA300, 0xF265, 0xF215];
    let mut engine = engine_with(&ops, true);
    run(&mut engine, 8);
    assert_eq!(engine.get_delay_timer(), 5);
    // new mode: I stays 0x300, the second store overwrites 0x300 only -> V2 = 0
    let mut engine = engine_with(&ops, false);
    run(&mut engine, 8);
    assert_eq!(engine.get_delay_timer(), 0);
}

#[test]
fn add_to_index() {
    // I = 0x300; V0 = 2; I += V0 (0x302); V0 = 0x63 stored at I; reload from 0x302
    let mut engine = engine_with(&[0xA300, 0x6002, 0xF01E, 0x6063, 0xF055, 0xA302, 0xF165, 0xF015], false);
    run(&mut engine, 8);
    assert_eq!(engine.get_delay_timer(), 0x63);
}

#[test]
fn keys_are_held_and_released() {
    // V0 = 5; skip if key V0 held; V1 = 1; delay = V1
    let ops = [0x6005, 0xE09E, 0x6101, 0xF115];
    let mut engine = engine_with(&ops, false);
    engine.press_key(5);
    run(&mut engine, 3);
    assert_eq!(engine.get_delay_timer(), 0);
    let mut engine = engine_with(&ops, false);
    engine.press_key(5);
    engine.release_key(5);
    run(&mut engine, 4);
    assert_eq!(engine.get_delay_timer(), 1);
    // EXA1 skips when not held
    let mut engine = engine_with(&[0x6005, 0xE0A1, 0x6101, 0xF115], false);
    run(&mut engine, 3);
    assert_eq!(engine.get_delay_timer(), 0);
}

#[test]
fn keys_above_f_are_ignored() {
    let ops = [0x600F, 0xE09E, 0x6101, 0xF115];
    let mut engine = engine_with(&ops, false);
    engine.press_key(16);
    engine.press_key(usize::MAX);
    run(&mut engine, 4);
    assert_eq!(engine.get_delay_timer(), 1);
    engine.release_key(99);
}

#[test]
fn wait_for_key_blocks_until_a_press() {
    // V3 = wait key; delay = V3
    let mut engine = engine_with(&[0xF30A, 0xF315], false);
    run(&mut engine, 5);
    assert_eq!(engine.get_delay_timer(), 0);
    engine.set_key_pressed(9);
    run(&mut engine, 2);
    assert_eq!(engine.get_delay_timer(), 9);
    // a cleared press is not picked up
    let mut engine = engine_with(&[0xF30A, 0xF315], false);
    engine.set_key_pressed(4);
    engine.clear_key_pressed();
    run(&mut engine, 3);
    assert_eq!(engine.get_delay_timer(), 0);
}

#[test]
fn random_is_masked() {
    // CXNN with a zero mask always gives 0
    let mut engine = engine_with(&[0x6077, 0xC000, 0xF015], false);
    assert_eq!(engine.tick(), Ok(true));
    assert_eq!(engine.tick(), Ok(true));
    assert_eq!(engine.tick(), Ok(true));
    assert_eq!(engine.get_delay_timer(), 0);
    // with a chosen byte the mask applies to it
    let mut engine = engine_with(&[0xC00F, 0xF015], false);
    assert_eq!(engine.tick_with_random(0xAB), Ok(true));
    run(&mut engine, 1);
    assert_eq!(engine.get_delay_timer(), 0x0B);
    // a random byte with mask 0x0F stays below 16
    let mut engine = engine_with(&[0xC00F, 0xF015], false);
    assert_eq!(engine.tick(), Ok(true));
    assert_eq!(engine.tick(), Ok(true));
    assert!(engine.get_delay_timer() < 16);
}

#[test]
fn can_tick_flags_out_of_range_cycles() {
    // key index above F
    let mut engine = engine_with(&[0x6010, 0xE09E], false);
    run(&mut engine, 1);
    assert!(!engine.can_tick());
    // font digit too large for 8-bit arithmetic
    let mut engine = engine_with(&[0x6024, 0xF029], false);
    run(&mut engine, 1);
    assert!(!engine.can_tick());
    let mut engine = engine_with(&[0x6023, 0xF029], false);
    run(&mut engine, 2);
    // BCD past the end of memory
    let mut engine = engine_with(&[0xAFFE, 0xF033], false);
    run(&mut engine, 1);
    assert!(!engine.can_tick());
    // draw reading past the end of memory
    let mut engine = engine_with(&[0xAFFF, 0xD002], false);
    run(&mut engine, 1);
    assert!(!engine.can_tick());
    let mut engine = engine_with(&[0xAFFF, 0xD001], false);
    run(&mut engine, 2);
}

#[test]
fn display_reports_lit_pixels_as_ones() {
    let mut engine = engine_with(&[0xA050, 0xD001], false);
    run(&mut engine, 2);
    let display = engine.get_display();
    assert_eq!(&display[0..8], &[1, 1, 1, 1, 0, 0, 0, 0]);
}

#[test]
fn load_bytes_fills_memory_from_program_start() {
    let mut engine = Chip8Engine::new(false);
    let mut rom = vec![0u8; 4096 - 0x200];
    rom[0] = 0x60;
    rom[1] = 0x21;
    rom[2] = 0xF0;
    rom[3] = 0x15;
    engine.load_bytes(&rom);
    run(&mut engine, 2);
    assert_eq!(engine.get_delay_timer(), 0x21);
}
