use chip8_emu::cpu::{CallStack, Cpu};
use chip8_emu::keypad::ButtonCode;
use chip8_emu::memory::Memory;
use chip8_emu::screen::Screen;

fn machine() -> (Cpu, Memory, Screen) {
    (Cpu::new(), Memory::new(), Screen::new("test", 1, 1))
}

fn put(memory: &mut Memory, addr: u16, bytes: &[u8]) {
    for (offset, byte) in bytes.iter().enumerate() {
        memory.store(addr + offset as u16, *byte);
    }
}

fn tick(cpu: &mut Cpu, memory: &mut Memory, screen: &mut Screen) -> bool {
    assert!(cpu.can_tick(memory, screen));
    cpu.tick(memory, screen)
}

fn run(program: &[u8], ticks: usize) -> (Cpu, Memory, Screen) {
    let (mut cpu, mut memory, mut screen) = machine();
    put(&mut memory, 0x200, program);
    for _ in 0..ticks {
        assert!(tick(&mut cpu, &mut memory, &mut screen));
    }
    (cpu, memory, screen)
}

fn lit_pixels(screen: &Screen) -> Vec<(u8, u8)> {
    let mut lit = Vec::new();
    for y in 0..32u8 {
        for x in 0..64u8 {
            if screen.pixel(x, y) {
                lit.push((x, y));
            }
        }
    }
    lit
}

#[test]
fn call_stack_is_last_in_first_out() {
    let mut stack = CallStack::new();
    assert_eq!(stack.depth(), 0);
    stack.push(0x202);
    stack.push(0x300);
    stack.push(0xFFFF);
    assert_eq!(stack.depth(), 3);
    assert_eq!(stack.pop(), 0xFFFF);
    assert_eq!(stack.pop(), 0x300);
    stack.push(0x404);
    assert_eq!(stack.pop(), 0x404);
    assert_eq!(stack.pop(), 0x202);
    assert_eq!(stack.depth(), 0);
}

#[test]
fn call_stack_holds_ten_addresses() {
    let mut stack = CallStack::new();
    for addr in 0..10u16 {
        stack.push(addr);
    }
    assert_eq!(stack.depth(), 10);
    for addr in (0..10u16).rev() {
        assert_eq!(stack.pop(), addr);
    }
}

#[test]
fn cpu_starts_at_program_start() {
    let cpu = Cpu::new();
    assert_eq!(cpu.pc(), 0x200);
    assert_eq!(cpu.index(), 0);
    assert_eq!(cpu.delay_timer(), 0);
    assert_eq!(cpu.sound_timer(), 0);
    assert_eq!(cpu.stack_depth(), 0);
    for x in 0..16u8 {
        assert_eq!(cpu.register(x), 0);
    }
}

#[test]
fn load_immediate_scenario() {
    let (mut cpu, mut memory, mut screen) = machine();
    put(&mut memory, 0x200, &[0x6A, 0x05]);
    let running = tick(&mut cpu, &mut memory, &mut screen);
    assert!(running);
    assert_eq!(cpu.register(0xA), 5);
    assert_eq!(cpu.pc(), 0x202);
    for x in 0..16u8 {
        if x != 0xA {
            assert_eq!(cpu.register(x), 0);
        }
    }
}

#[test]
fn fetch_reads_high_byte_first() {
    let (mut cpu, mut memory, _) = machine();
    put(&mut memory, 0x200, &[0x12, 0x34, 0xAB, 0xCD]);
    assert_eq!(cpu.fetch(&memory), 0x1234);
    assert_eq!(cpu.pc(), 0x202);
    assert_eq!(cpu.fetch(&memory), 0xABCD);
    assert_eq!(cpu.pc(), 0x204);
}

#[test]
fn glyph_draw_scenario() {
    let (mut cpu, mut memory, mut screen) = machine();
    put(&mut memory, 0x050, &[0xF0, 0x90, 0x90, 0x90, 0xF0]);
    put(&mut memory, 0x200, &[0x00, 0xE0, 0xA0, 0x50, 0xD0, 0x15]);
    for _ in 0..3 {
        assert!(tick(&mut cpu, &mut memory, &mut screen));
    }
    assert_eq!(
        lit_pixels(&screen),
        vec![
            (0, 0), (1, 0), (2, 0), (3, 0),
            (0, 1), (3, 1),
            (0, 2), (3, 2),
            (0, 3), (3, 3),
            (0, 4), (1, 4), (2, 4), (3, 4),
        ]
    );
    assert_eq!(cpu.register(0xF), 0);
    assert_eq!(cpu.pc(), 0x206);
    assert!(screen.take_frame().is_some());
}

#[test]
fn draw_twice_restores_and_collides() {
    let (mut cpu, mut memory, mut screen) = machine();
    put(&mut memory, 0x300, &[0xFF, 0x81, 0xFF]);
    cpu.set_index(0x300);
    cpu.set_imm(1, 10);
    cpu.set_imm(2, 20);
    cpu.display(1, 2, 3, &memory, &mut screen);
    assert_eq!(cpu.register(0xF), 0);
    assert_eq!(lit_pixels(&screen).len(), 18);
    assert!(screen.pixel(10, 20));
    assert!(screen.pixel(17, 21));
    assert!(!screen.pixel(11, 21));
    cpu.display(1, 2, 3, &memory, &mut screen);
    assert_eq!(cpu.register(0xF), 1);
    assert_eq!(lit_pixels(&screen), Vec::<(u8, u8)>::new());
}

#[test]
fn draw_twice_of_empty_sprite_does_not_collide() {
    let (mut cpu, memory, mut screen) = machine();
    cpu.set_index(0x300);
    cpu.display(0, 0, 4, &memory, &mut screen);
    assert_eq!(cpu.register(0xF), 0);
    cpu.display(0, 0, 4, &memory, &mut screen);
    assert_eq!(cpu.register(0xF), 0);
    cpu.display(0, 0, 0, &memory, &mut screen);
    assert_eq!(cpu.register(0xF), 0);
    assert_eq!(lit_pixels(&screen), Vec::<(u8, u8)>::new());
}

#[test]
fn draw_collision_needs_a_pixel_turned_off() {
    let (mut cpu, mut memory, mut screen) = machine();
    put(&mut memory, 0x300, &[0xF0, 0x0F, 0x30]);
    cpu.set_index(0x300);
    cpu.display(0, 0, 1, &memory, &mut screen);
    assert_eq!(cpu.register(0xF), 0);
    cpu.set_index(0x301);
    cpu.set_imm(0xF, 7);
    cpu.display(0, 0, 1, &memory, &mut screen);
    assert_eq!(cpu.register(0xF), 0);
    assert_eq!(lit_pixels(&screen).len(), 8);
    cpu.set_index(0x302);
    cpu.set_imm(0xF, 0);
    cpu.display(0, 0, 1, &memory, &mut screen);
    assert_eq!(cpu.register(0xF), 1);
    assert_eq!(
        lit_pixels(&screen),
        vec![(0, 0), (1, 0), (4, 0), (5, 0), (6, 0), (7, 0)]
    );
}

#[test]
fn draw_wraps_start_and_clips_sprite() {
    let (mut cpu, mut memory, mut screen) = machine();
    put(&mut memory, 0x300, &[0xFF, 0xFF, 0xFF]);
    cpu.set_index(0x300);
    cpu.set_imm(0, 64 + 60);
    cpu.set_imm(1, 32 + 30);
    cpu.display(0, 1, 3, &memory, &mut screen);
    assert_eq!(
        lit_pixels(&screen),
        vec![(60, 30), (61, 30), (62, 30), (63, 30), (60, 31), (61, 31), (62, 31), (63, 31)]
    );
    assert_eq!(cpu.register(0xF), 0);
}

#[test]
fn draw_reads_only_visible_rows() {
    let (mut cpu, mut memory, mut screen) = machine();
    memory.store(4095, 0x80);
    cpu.set_index(4095);
    cpu.set_imm(0, 0);
    cpu.set_imm(1, 31);
    cpu.display(0, 1, 15, &memory, &mut screen);
    assert_eq!(lit_pixels(&screen), vec![(0, 31)]);
    put(&mut memory, 0x200, &[0xD0, 0x1F]);
    assert!(cpu.can_tick(&memory, &screen));
    cpu.set_imm(1, 30);
    assert!(!cpu.can_tick(&memory, &screen));
}

#[test]
fn draw_hands_frame_over() {
    let (mut cpu, memory, mut screen) = machine();
    assert!(screen.take_frame().is_none());
    cpu.display(0, 0, 1, &memory, &mut screen);
    assert_eq!(screen.take_frame(), Some(vec![]));
    assert!(screen.take_frame().is_none());
}

#[test]
fn clear_then_draw_equals_draw_on_blank() {
    let sprite = [0xAA, 0x55, 0xF0];
    let (mut cpu, mut memory, mut screen) = machine();
    put(&mut memory, 0x300, &sprite);
    put(&mut memory, 0x310, &[0xFF, 0xFF, 0xFF, 0xFF]);
    cpu.set_index(0x310);
    cpu.display(0, 0, 4, &memory, &mut screen);
    cpu.clear_screen(&mut screen);
    assert_eq!(lit_pixels(&screen), Vec::<(u8, u8)>::new());
    cpu.set_index(0x300);
    cpu.display(0, 0, 3, &memory, &mut screen);

    let (mut blank_cpu, mut blank_memory, mut blank_screen) = machine();
    put(&mut blank_memory, 0x300, &sprite);
    blank_cpu.set_index(0x300);
    blank_cpu.display(0, 0, 3, &blank_memory, &mut blank_screen);

    assert_eq!(lit_pixels(&screen), lit_pixels(&blank_screen));
    assert_eq!(cpu.register(0xF), 0);
    assert_eq!(lit_pixels(&screen).len(), 12);
}

#[test]
fn clear_instruction_blanks_screen() {
    let (mut cpu, mut memory, mut screen) = machine();
    screen.toggle_pixel(7, 7);
    put(&mut memory, 0x200, &[0x00, 0xE0]);
    assert!(tick(&mut cpu, &mut memory, &mut screen));
    assert_eq!(lit_pixels(&screen), Vec::<(u8, u8)>::new());
    assert_eq!(cpu.pc(), 0x202);
}

#[test]
fn key_wait_scenario() {
    let (mut cpu, mut memory, mut screen) = machine();
    put(&mut memory, 0x200, &[0xF3, 0x0A, 0x64, 0x09]);
    for _ in 0..5 {
        assert!(tick(&mut cpu, &mut memory, &mut screen));
        assert_eq!(cpu.pc(), 0x200);
        assert_eq!(cpu.register(3), 0);
    }
    screen.get_keypad().set_pressed(ButtonCode::B8, true);
    screen.get_keypad().set_pressed(ButtonCode::BF, true);
    assert!(tick(&mut cpu, &mut memory, &mut screen));
    assert_eq!(cpu.register(3), 9);
    assert_eq!(cpu.pc(), 0x202);
    assert!(tick(&mut cpu, &mut memory, &mut screen));
    assert_eq!(cpu.register(4), 9);
    assert_eq!(cpu.pc(), 0x204);
}

#[test]
fn timer_decrement_scenario() {
    let mut cpu = Cpu::new();
    cpu.set_imm(0, 5);
    cpu.set_delay_tim(0);
    assert_eq!(cpu.delay_timer(), 5);
    for expected in [4, 3, 2, 1, 0] {
        cpu.decrement_timers();
        assert_eq!(cpu.delay_timer(), expected);
    }
    cpu.decrement_timers();
    assert_eq!(cpu.delay_timer(), 0);
    assert_eq!(cpu.sound_timer(), 0);
}

#[test]
fn timers_count_down_independently() {
    let mut cpu = Cpu::new();
    cpu.set_imm(0, 2);
    cpu.set_imm(1, 255);
    cpu.set_delay_tim(0);
    cpu.set_sound_tim(1);
    cpu.decrement_timers();
    assert_eq!((cpu.delay_timer(), cpu.sound_timer()), (1, 254));
    cpu.decrement_timers();
    assert_eq!((cpu.delay_timer(), cpu.sound_timer()), (0, 253));
    cpu.decrement_timers();
    assert_eq!((cpu.delay_timer(), cpu.sound_timer()), (0, 252));
    cpu.get_delay_tim(5);
    assert_eq!(cpu.register(5), 0);
    assert_eq!(cpu.pc(), 0x200);
}

#[test]
fn tick_leaves_timers_alone() {
    let (cpu, _, _) = run(&[0x60, 0x09, 0xF0, 0x15, 0xF0, 0x18, 0x61, 0x01, 0xF2, 0x07], 5);
    assert_eq!(cpu.delay_timer(), 9);
    assert_eq!(cpu.sound_timer(), 9);
    assert_eq!(cpu.register(2), 9);
}

#[test]
fn add_immediate_wraps() {
    let (cpu, _, _) = run(&[0x63, 0xF0, 0x73, 0x20, 0x6F, 0x07, 0x7F, 0xFF], 4);
    assert_eq!(cpu.register(3), 0x10);
    assert_eq!(cpu.register(0xF), 0x06);
    let mut cpu = Cpu::new();
    for a in [0u8, 1, 127, 128, 255] {
        for b in [0u8, 1, 128, 255] {
            cpu.set_imm(2, a);
            cpu.set_imm(0xF, 9);
            cpu.add_imm(2, b);
            assert_eq!(cpu.register(2), a.wrapping_add(b));
            assert_eq!(cpu.register(0xF), 9);
        }
    }
}

#[test]
fn add_sets_carry() {
    let mut cpu = Cpu::new();
    for a in [0u8, 1, 100, 127, 128, 200, 255] {
        for b in [0u8, 1, 56, 128, 255] {
            cpu.set_imm(1, a);
            cpu.set_imm(2, b);
            cpu.add(1, 2);
            assert_eq!(cpu.register(1), a.wrapping_add(b));
            assert_eq!(cpu.register(2), b);
            assert_eq!(cpu.register(0xF), if a as u16 + b as u16 > 255 { 1 } else { 0 });
        }
    }
    let (cpu, _, _) = run(&[0x61, 0xC8, 0x62, 0x38, 0x81, 0x24], 3);
    assert_eq!((cpu.register(1), cpu.register(0xF)), (0, 1));
    let (cpu, _, _) = run(&[0x61, 0xC8, 0x62, 0x37, 0x81, 0x24], 3);
    assert_eq!((cpu.register(1), cpu.register(0xF)), (255, 0));
}

#[test]
fn add_into_flag_register_keeps_sum() {
    let mut cpu = Cpu::new();
    cpu.set_imm(0xF, 200);
    cpu.set_imm(1, 100);
    cpu.add(0xF, 1);
    assert_eq!(cpu.register(0xF), 44);
    cpu.set_imm(0xF, 3);
    cpu.add(0xF, 0xF);
    assert_eq!(cpu.register(0xF), 6);
}

#[test]
fn sub_sets_no_borrow() {
    let mut cpu = Cpu::new();
    for a in [0u8, 1, 5, 128, 255] {
        for b in [0u8, 1, 5, 129, 255] {
            cpu.set_imm(1, a);
            cpu.set_imm(2, b);
            cpu.sub_a(1, 2);
            assert_eq!(cpu.register(1), a.wrapping_sub(b));
            assert_eq!(cpu.register(0xF), if a >= b { 1 } else { 0 });

            cpu.set_imm(1, a);
            cpu.set_imm(2, b);
            cpu.sub_b(1, 2);
            assert_eq!(cpu.register(1), b.wrapping_sub(a));
            assert_eq!(cpu.register(2), b);
            assert_eq!(cpu.register(0xF), if b >= a { 1 } else { 0 });
        }
    }
    let (cpu, _, _) = run(&[0x61, 0x05, 0x62, 0x05, 0x81, 0x25], 3);
    assert_eq!((cpu.register(1), cpu.register(0xF)), (0, 1));
    let (cpu, _, _) = run(&[0x61, 0x05, 0x62, 0x06, 0x81, 0x25], 3);
    assert_eq!((cpu.register(1), cpu.register(0xF)), (255, 0));
    let (cpu, _, _) = run(&[0x61, 0x05, 0x62, 0x06, 0x81, 0x27], 3);
    assert_eq!((cpu.register(1), cpu.register(0xF)), (1, 1));
    let (cpu, _, _) = run(&[0x61, 0x07, 0x62, 0x06, 0x81, 0x27], 3);
    assert_eq!((cpu.register(1), cpu.register(0xF)), (255, 0));
}

#[test]
fn sub_into_flag_register_keeps_difference() {
    let mut cpu = Cpu::new();
    cpu.set_imm(0xF, 10);
    cpu.set_imm(1, 3);
    cpu.sub_a(0xF, 1);
    assert_eq!(cpu.register(0xF), 7);
    cpu.set_imm(0xF, 10);
    cpu.sub_b(0xF, 1);
    assert_eq!(cpu.register(0xF), 249);
}

#[test]
fn shifts_flag_the_bit_shifted_out() {
    let mut cpu = Cpu::new();
    for value in [0u8, 1, 2, 0x7F, 0x80, 0x81, 0xFE, 0xFF] {
        cpu.set_imm(4, value);
        cpu.shift_left(4);
        assert_eq!(cpu.register(4), value << 1);
        assert_eq!(cpu.register(0xF), value >> 7);

        cpu.set_imm(4, value);
        cpu.shift_right(4);
        assert_eq!(cpu.register(4), value >> 1);
        assert_eq!(cpu.register(0xF), value & 1);
    }
    let (cpu, _, _) = run(&[0x64, 0x81, 0x84, 0x0E], 2);
    assert_eq!((cpu.register(4), cpu.register(0xF)), (0x02, 1));
    let (cpu, _, _) = run(&[0x64, 0x81, 0x84, 0x06], 2);
    assert_eq!((cpu.register(4), cpu.register(0xF)), (0x40, 1));
    let (cpu, _, _) = run(&[0x64, 0x02, 0x84, 0x06], 2);
    assert_eq!((cpu.register(4), cpu.register(0xF)), (0x01, 0));
}

#[test]
fn shift_of_flag_register_shifts_the_flag() {
    let mut cpu = Cpu::new();
    cpu.set_imm(0xF, 0x81);
    cpu.shift_left(0xF);
    assert_eq!(cpu.register(0xF), 2);
    cpu.set_imm(0xF, 0x41);
    cpu.shift_left(0xF);
    assert_eq!(cpu.register(0xF), 0);
    cpu.set_imm(0xF, 0x81);
    cpu.shift_right(0xF);
    assert_eq!(cpu.register(0xF), 0);
}

#[test]
fn logic_operations() {
    let (cpu, _, _) = run(
        &[
            0x61, 0xCC, 0x62, 0xAA, 0x63, 0xCC, 0x64, 0xCC, 0x65, 0x00, 0x81, 0x21, 0x83, 0x22,
            0x84, 0x23, 0x85, 0x20,
        ],
        9,
    );
    assert_eq!(cpu.register(1), 0xEE);
    assert_eq!(cpu.register(3), 0x88);
    assert_eq!(cpu.register(4), 0x66);
    assert_eq!(cpu.register(5), 0xAA);
    assert_eq!(cpu.register(2), 0xAA);
    assert_eq!(cpu.register(0xF), 0);
}

#[test]
fn call_then_return_round_trip() {
    let (mut cpu, mut memory, mut screen) = machine();
    put(&mut memory, 0x200, &[0x23, 0x45]);
    put(&mut memory, 0x345, &[0x00, 0xEE]);
    assert!(tick(&mut cpu, &mut memory, &mut screen));
    assert_eq!(cpu.pc(), 0x345);
    assert_eq!(cpu.stack_depth(), 1);
    assert!(tick(&mut cpu, &mut memory, &mut screen));
    assert_eq!(cpu.pc(), 0x202);
    assert_eq!(cpu.stack_depth(), 0);
}

#[test]
fn nested_calls_return_in_order() {
    let mut cpu = Cpu::new();
    cpu.call(0x300);
    cpu.call(0x400);
    cpu.call(0x500);
    assert_eq!(cpu.pc(), 0x500);
    cpu.ret();
    assert_eq!(cpu.pc(), 0x400);
    cpu.ret();
    assert_eq!(cpu.pc(), 0x300);
    cpu.ret();
    assert_eq!(cpu.pc(), 0x200);
}

#[test]
fn return_on_empty_stack_cannot_tick() {
    let (cpu, mut memory, screen) = machine();
    put(&mut memory, 0x200, &[0x00, 0xEE]);
    assert!(!cpu.can_tick(&memory, &screen));
}

#[test]
fn call_on_full_stack_cannot_tick() {
    let (mut cpu, mut memory, mut screen) = machine();
    put(&mut memory, 0x200, &[0x22, 0x00]);
    for depth in 0..10 {
        assert_eq!(cpu.stack_depth(), depth);
        assert!(tick(&mut cpu, &mut memory, &mut screen));
        assert_eq!(cpu.pc(), 0x200);
    }
    assert_eq!(cpu.stack_depth(), 10);
    assert!(!cpu.can_tick(&memory, &screen));
}

#[test]
fn jumps() {
    let (cpu, _, _) = run(&[0x1A, 0xBC], 1);
    assert_eq!(cpu.pc(), 0xABC);
    let (cpu, _, _) = run(&[0x60, 0xFF, 0xBF, 0x00], 2);
    assert_eq!(cpu.pc(), 0xFFF);
    let mut cpu = Cpu::new();
    cpu.set_imm(0, 0x10);
    cpu.jump_offset(0x234);
    assert_eq!(cpu.pc(), 0x244);
    cpu.jump(0xFFFF);
    assert_eq!(cpu.pc(), 0xFFFF);
}

#[test]
fn skips() {
    let (cpu, _, _) = run(&[0x61, 0x07, 0x31, 0x07], 2);
    assert_eq!(cpu.pc(), 0x206);
    let (cpu, _, _) = run(&[0x61, 0x07, 0x31, 0x08], 2);
    assert_eq!(cpu.pc(), 0x204);
    let (cpu, _, _) = run(&[0x61, 0x07, 0x41, 0x07], 2);
    assert_eq!(cpu.pc(), 0x204);
    let (cpu, _, _) = run(&[0x61, 0x07, 0x41, 0x08], 2);
    assert_eq!(cpu.pc(), 0x206);
    let (cpu, _, _) = run(&[0x61, 0x07, 0x62, 0x07, 0x51, 0x20], 3);
    assert_eq!(cpu.pc(), 0x208);
    let (cpu, _, _) = run(&[0x61, 0x07, 0x62, 0x08, 0x51, 0x20], 3);
    assert_eq!(cpu.pc(), 0x206);
    let (cpu, _, _) = run(&[0x61, 0x07, 0x62, 0x07, 0x91, 0x20], 3);
    assert_eq!(cpu.pc(), 0x206);
    let (cpu, _, _) = run(&[0x61, 0x07, 0x62, 0x08, 0x91, 0x20], 3);
    assert_eq!(cpu.pc(), 0x208);
}

#[test]
fn key_skips() {
    for (opcode, pressed, skipped) in
        [(0x9E, true, true), (0x9E, false, false), (0xA1, true, false), (0xA1, false, true)]
    {
        let (mut cpu, mut memory, mut screen) = machine();
        put(&mut memory, 0x200, &[0x61, 0x03, 0xE1, opcode]);
        screen.get_keypad().set_pressed(ButtonCode::BC, pressed);
        screen.get_keypad().set_pressed(ButtonCode::B3, !pressed);
        assert!(tick(&mut cpu, &mut memory, &mut screen));
        assert!(tick(&mut cpu, &mut memory, &mut screen));
        assert_eq!(cpu.pc(), if skipped { 0x206 } else { 0x204 });
    }
}

#[test]
fn key_skip_on_missing_key_cannot_tick() {
    let (mut cpu, mut memory, mut screen) = machine();
    put(&mut memory, 0x200, &[0x61, 0x10, 0xE1, 0x9E]);
    assert!(tick(&mut cpu, &mut memory, &mut screen));
    assert!(!cpu.can_tick(&memory, &screen));
    cpu.set_imm(1, 0x0F);
    assert!(cpu.can_tick(&memory, &screen));
    cpu.jump(0x200);
    put(&mut memory, 0x200, &[0xE1, 0xA1]);
    cpu.set_imm(1, 0xFF);
    assert!(!cpu.can_tick(&memory, &screen));
    put(&mut memory, 0x200, &[0xE1, 0x00]);
    assert!(cpu.can_tick(&memory, &screen));
}

#[test]
fn unknown_instructions_change_nothing() {
    for instr in [
        [0x00u8, 0x00], [0x01, 0x23], [0x00, 0xE1], [0x51, 0x21], [0x81, 0x28], [0x81, 0x2F],
        [0x91, 0x21], [0xE1, 0x00], [0xE1, 0x9F], [0xF1, 0x00], [0xF1, 0x56], [0xF1, 0xFF],
    ] {
        let (mut cpu, mut memory, mut screen) = machine();
        cpu.set_imm(1, 0x11);
        cpu.set_imm(2, 0x22);
        cpu.set_index(0x300);
        put(&mut memory, 0x200, &instr);
        assert!(tick(&mut cpu, &mut memory, &mut screen));
        assert_eq!(cpu.pc(), 0x202);
        assert_eq!(cpu.index(), 0x300);
        assert_eq!(cpu.stack_depth(), 0);
        for x in 0..16u8 {
            assert_eq!(cpu.register(x), match x { 1 => 0x11, 2 => 0x22, _ => 0 });
        }
        assert_eq!(lit_pixels(&screen), Vec::<(u8, u8)>::new());
        assert!(screen.take_frame().is_none());
        for addr in 0x202..0x400u16 {
            assert_eq!(memory.load(addr), 0);
        }
    }
}

#[test]
fn index_register_operations() {
    let (cpu, _, _) = run(&[0xA1, 0x23], 1);
    assert_eq!(cpu.index(), 0x123);
    let (cpu, _, _) = run(&[0xAF, 0xFE, 0x61, 0x01, 0xF1, 0x1E], 3);
    assert_eq!((cpu.index(), cpu.register(0xF)), (0xFFF, 0));
    let (cpu, _, _) = run(&[0xAF, 0xFE, 0x61, 0x02, 0xF1, 0x1E], 3);
    assert_eq!((cpu.index(), cpu.register(0xF)), (0x1000, 1));
    let (cpu, _, _) = run(&[0xAF, 0xFE, 0x6F, 0x02, 0xFF, 0x1E], 3);
    assert_eq!((cpu.index(), cpu.register(0xF)), (0x1000, 1));
}

#[test]
fn index_register_overflow_cannot_tick() {
    let (mut cpu, mut memory, screen) = machine();
    put(&mut memory, 0x200, &[0xF1, 0x1E]);
    cpu.set_index(0xFFFE);
    cpu.set_imm(1, 1);
    assert!(cpu.can_tick(&memory, &screen));
    cpu.set_imm(1, 2);
    assert!(!cpu.can_tick(&memory, &screen));
}

#[test]
fn font_character_addresses() {
    let mut cpu = Cpu::new();
    for value in [0x00u8, 0x01, 0x0A, 0x0F, 0x10, 0xF3, 0xFF] {
        cpu.set_imm(7, value);
        cpu.font_character(7);
        assert_eq!(cpu.index(), 0x50 + (value & 0xF) as u16 * 5);
    }
    let (cpu, _, _) = run(&[0x67, 0x0F, 0xF7, 0x29], 2);
    assert_eq!(cpu.index(), 0x9B);
    let (cpu, _, _) = run(&[0x67, 0x00, 0xF7, 0x29], 2);
    assert_eq!(cpu.index(), 0x50);
}

#[test]
fn bcd_conversion_digits() {
    for (value, digits) in [(0u8, [0u8, 0, 0]), (7, [0, 0, 7]), (42, [0, 4, 2]), (109, [1, 0, 9]), (255, [2, 5, 5])] {
        let (mut cpu, mut memory, _) = machine();
        cpu.set_imm(3, value);
        cpu.set_index(0x400);
        cpu.bcd_conversion(3, &mut memory);
        assert_eq!([memory.load(0x400), memory.load(0x401), memory.load(0x402)], digits);
        assert_eq!(memory.load(0x3FF), 0);
        assert_eq!(memory.load(0x403), 0);
        assert_eq!(cpu.register(3), value);
    }
    let (_, memory, _) = run(&[0x63, 0x9C, 0xA4, 0x00, 0xF3, 0x33], 3);
    assert_eq!([memory.load(0x400), memory.load(0x401), memory.load(0x402)], [1, 5, 6]);
}

#[test]
fn bcd_past_memory_cannot_tick() {
    let (mut cpu, mut memory, screen) = machine();
    put(&mut memory, 0x200, &[0xF0, 0x33]);
    cpu.set_index(4093);
    assert!(cpu.can_tick(&memory, &screen));
    cpu.set_index(4094);
    assert!(!cpu.can_tick(&memory, &screen));
}

#[test]
fn store_and_load_registers() {
    let (mut cpu, mut memory, _) = machine();
    for x in 0..16u8 {
        cpu.set_imm(x, 0xA0 + x);
    }
    cpu.set_index(0x400);
    cpu.store_memory(3, &mut memory);
    for offset in 0..4u16 {
        assert_eq!(memory.load(0x400 + offset), 0xA0 + offset as u8);
    }
    assert_eq!(memory.load(0x3FF), 0);
    assert_eq!(memory.load(0x404), 0);
    assert_eq!(cpu.index(), 0x400);

    cpu.store_memory(0, &mut memory);
    assert_eq!(memory.load(0x400), 0xA0);

    put(&mut memory, 0x500, &[1, 2, 3, 4, 5]);
    cpu.set_index(0x500);
    cpu.load_memory(2, &mut memory);
    for x in 0..16u8 {
        assert_eq!(cpu.register(x), if x <= 2 { x + 1 } else { 0xA0 + x });
    }
    assert_eq!(cpu.index(), 0x500);

    let (cpu, memory, _) =
        run(&[0x60, 0x11, 0x61, 0x22, 0xA3, 0x00, 0xF1, 0x55, 0x60, 0x00, 0x61, 0x00, 0xF1, 0x65], 7);
    assert_eq!((memory.load(0x300), memory.load(0x301), memory.load(0x302)), (0x11, 0x22, 0));
    assert_eq!((cpu.register(0), cpu.register(1)), (0x11, 0x22));
}

#[test]
fn register_transfer_past_memory_cannot_tick() {
    let (mut cpu, mut memory, screen) = machine();
    put(&mut memory, 0x200, &[0xF2, 0x55, 0xF2, 0x65]);
    cpu.set_index(4093);
    assert!(cpu.can_tick(&memory, &screen));
    cpu.set_index(4094);
    assert!(!cpu.can_tick(&memory, &screen));
    cpu.jump(0x202);
    assert!(!cpu.can_tick(&memory, &screen));
    cpu.set_index(4093);
    assert!(cpu.can_tick(&memory, &screen));
}

#[test]
fn random_is_masked() {
    let (mut cpu, mut memory, mut screen) = machine();
    put(&mut memory, 0x200, &[0x65, 0xFF, 0xC5, 0x00, 0xC6, 0x0F, 0x12, 0x04]);
    assert!(tick(&mut cpu, &mut memory, &mut screen));
    assert!(tick(&mut cpu, &mut memory, &mut screen));
    assert_eq!(cpu.register(5), 0);
    for _ in 0..200 {
        assert!(tick(&mut cpu, &mut memory, &mut screen));
        assert_eq!(cpu.register(6) & 0xF0, 0);
    }
}

#[test]
fn random_draws_vary() {
    let mut cpu = Cpu::new();
    let mut seen = [false; 256];
    for _ in 0..4096 {
        cpu.random(0, 0xFF);
        seen[cpu.register(0) as usize] = true;
    }
    assert!(seen.iter().filter(|hit| **hit).count() > 16);
}

#[test]
fn random_with_given_byte() {
    let mut cpu = Cpu::new();
    cpu.random_with(2, 0x3C, 0xA5);
    assert_eq!(cpu.register(2), 0x24);
    cpu.random_with(2, 0xFF, 0xA5);
    assert_eq!(cpu.register(2), 0xA5);
    cpu.random_with(2, 0x00, 0xA5);
    assert_eq!(cpu.register(2), 0x00);
}

#[test]
fn tick_stops_past_end_of_memory() {
    let (mut cpu, mut memory, mut screen) = machine();
    put(&mut memory, 0x200, &[0x1F, 0xFE]);
    assert!(tick(&mut cpu, &mut memory, &mut screen));
    assert_eq!(cpu.pc(), 0xFFE);
    assert!(!tick(&mut cpu, &mut memory, &mut screen));
    assert_eq!(cpu.pc(), 0x1000);
    assert!(!cpu.can_tick(&memory, &screen));
}

#[test]
fn tick_at_last_byte_cannot_run() {
    let (mut cpu, memory, screen) = machine();
    cpu.jump(0xFFF);
    assert!(!cpu.can_tick(&memory, &screen));
    cpu.jump(0xFFE);
    assert!(cpu.can_tick(&memory, &screen));
    cpu.jump(0xFFFF);
    assert!(!cpu.can_tick(&memory, &screen));
}

#[test]
fn jump_offset_past_memory_stops() {
    let (mut cpu, mut memory, mut screen) = machine();
    put(&mut memory, 0x200, &[0x60, 0xFF, 0xBF, 0x01]);
    assert!(tick(&mut cpu, &mut memory, &mut screen));
    assert!(!tick(&mut cpu, &mut memory, &mut screen));
    assert_eq!(cpu.pc(), 0x1000);
}
