use vstd::prelude::*;
use crate::keypad::KEY_COUNT;
use crate::machine::{
    family, field_n, field_nn, field_nnn, field_x, field_y, first_pressed, flag, CpuView, Machine,
    Sprite, FLAG_REGISTER,
};
use crate::memory::MEMORY_SIZE;
use crate::screen::{blank_framebuffer, is_framebuffer, SCREEN_HEIGHT, SCREEN_WIDTH};

verus! {

/// Addition wraps modulo 256 and is defined on all register values: adding
/// an immediate leaves the sum modulo 256 in `Vx`; adding a register does the
/// same and, unless `Vx` is the flag register itself, leaves the carry in
/// `VF`: 1 exactly when the sum exceeds 255.
pub proof fn law_add_wraps(m: Machine, instr: u16, random: u8)
    requires
        m.wf(),
        family(instr) == 0x7 || (family(instr) == 0x8 && field_n(instr) == 0x4),
    ensures
        m.can_execute(instr),
        ({
            let (x, y) = (field_x(instr) as int, field_y(instr) as int);
            let after = m.executed(instr, random).cpu.regs;
            let sum = if family(instr) == 0x7 {
                m.cpu.regs[x] + field_nn(instr)
            } else {
                m.cpu.regs[x] + m.cpu.regs[y]
            };
            &&& after[x] == sum % 0x100
            &&& family(instr) == 0x8 && x != FLAG_REGISTER ==> after[FLAG_REGISTER as int] == flag(
                sum > 0xFF,
            )
        }),
{
}

/// Subtraction wraps modulo 256 and is defined on all register values:
/// `8xy5` leaves `Vx - Vy` and `8xy7` leaves `Vy - Vx` in `Vx`, modulo 256.
/// Unless `Vx` is the flag register itself, `VF` is 1 exactly when the
/// minuend was at least the subtrahend.
pub proof fn law_sub_wraps(m: Machine, instr: u16, random: u8)
    requires
        m.wf(),
        family(instr) == 0x8,
        field_n(instr) == 0x5 || field_n(instr) == 0x7,
    ensures
        m.can_execute(instr),
        ({
            let (x, y) = (field_x(instr) as int, field_y(instr) as int);
            let after = m.executed(instr, random).cpu.regs;
            let (minuend, subtrahend) = if field_n(instr) == 0x5 {
                (m.cpu.regs[x], m.cpu.regs[y])
            } else {
                (m.cpu.regs[y], m.cpu.regs[x])
            };
            &&& after[x] == (minuend - subtrahend) % 0x100
            &&& x != FLAG_REGISTER ==> after[FLAG_REGISTER as int] == flag(minuend >= subtrahend)
        }),
{
}

/// The shifts leave in `VF` the bit shifted out of the value that `Vx` had
/// before the shift, and in `Vx` that value shifted, provided `Vx` is not the
/// flag register itself.
pub proof fn law_shift_flag(m: Machine, instr: u16, random: u8)
    requires
        m.wf(),
        family(instr) == 0x8,
        field_n(instr) == 0x6 || field_n(instr) == 0xE,
        field_x(instr) != FLAG_REGISTER,
    ensures
        m.can_execute(instr),
        ({
            let x = field_x(instr) as int;
            let before = m.cpu.regs[x];
            let after = m.executed(instr, random).cpu.regs;
            if field_n(instr) == 0x6 {
                &&& after[FLAG_REGISTER as int] == before % 2
                &&& after[x] == before / 2
            } else {
                &&& after[FLAG_REGISTER as int] == before / 0x80
                &&& after[x] == (before * 2) % 0x100
            }
        }),
{
}

/// Drawing is an exclusive or: a sprite drawn twice leaves the framebuffer
/// as it was, and the second draw collides exactly when the sprite has a set
/// bit over a pixel that was dark at first.
pub proof fn law_draw_twice(sprite: Sprite, pixels: Seq<Seq<bool>>)
    requires
        is_framebuffer(pixels),
    ensures
        sprite.drawn(sprite.drawn(pixels)) == pixels,
        sprite.collides(sprite.drawn(pixels)) <==> exists|px: int, py: int|
            0 <= px < SCREEN_WIDTH && 0 <= py < SCREEN_HEIGHT && #[trigger] sprite.covers(px, py)
                && !pixels[px][py],
{
    let once = sprite.drawn(pixels);
    assert(sprite.drawn(once) =~~= pixels);
    if sprite.collides(once) {
        let (px, py) = choose|px: int, py: int|
            0 <= px < SCREEN_WIDTH && 0 <= py < SCREEN_HEIGHT && sprite.covers(px, py)
                && #[trigger] once[px][py];
        assert(sprite.covers(px, py) && !pixels[px][py]);
    }
    if exists|px: int, py: int|
        0 <= px < SCREEN_WIDTH && 0 <= py < SCREEN_HEIGHT && #[trigger] sprite.covers(px, py)
            && !pixels[px][py] {
        let (px, py) = choose|px: int, py: int|
            0 <= px < SCREEN_WIDTH && 0 <= py < SCREEN_HEIGHT && #[trigger] sprite.covers(px, py)
                && !pixels[px][py];
        assert(once[px][py]);
    }
}

/// The draw instruction executed twice in a row, with coordinate registers
/// other than the flag register, restores the framebuffer. The second draw
/// sets `VF` to 1 exactly when the sprite has a set bit over a pixel that was
/// dark at first; to 1, then, whenever a sprite with a visible set bit is
/// drawn twice over pixels that were all dark.
pub proof fn law_draw_instruction_twice(m: Machine, instr: u16, random: u8)
    requires
        m.wf(),
        family(instr) == 0xD,
        field_x(instr) != FLAG_REGISTER,
        field_y(instr) != FLAG_REGISTER,
        m.can_execute(instr),
    ensures
        ({
            let once = m.executed(instr, random);
            let twice = once.executed(instr, random);
            let sprite = m.sprite(instr);
            &&& once.can_execute(instr)
            &&& twice.screen.pixels == m.screen.pixels
            &&& twice.cpu.regs[FLAG_REGISTER as int] == flag(
                exists|px: int, py: int|
                    0 <= px < SCREEN_WIDTH && 0 <= py < SCREEN_HEIGHT && #[trigger] sprite.covers(
                        px,
                        py,
                    ) && !m.screen.pixels[px][py],
            )
        }),
{
    let once = m.executed(instr, random);
    let sprite = m.sprite(instr);
    assert(once.sprite(instr) == sprite);
    law_draw_twice(sprite, m.screen.pixels);
}

/// The framebuffer after drawing `sprites` in order onto `pixels`.
pub open spec fn drawn_all(pixels: Seq<Seq<bool>>, sprites: Seq<Sprite>) -> Seq<Seq<bool>>
    decreases sprites.len(),
{
    if sprites.len() == 0 {
        pixels
    } else {
        sprites.last().drawn(drawn_all(pixels, sprites.drop_last()))
    }
}

/// Clearing is a full reset: whatever the framebuffer held, any sequence of
/// draws after a clear leaves the pixels that the same draws leave on a
/// blank framebuffer.
pub proof fn law_clear_resets(m: Machine, random: u8, sprites: Seq<Sprite>)
    requires
        m.wf(),
    ensures
        m.can_execute(0x00E0),
        m.executed(0x00E0, random).screen.pixels == blank_framebuffer(),
        drawn_all(m.executed(0x00E0, random).screen.pixels, sprites) == drawn_all(
            blank_framebuffer(),
            sprites,
        ),
{
}

/// A call followed by a return comes back to the instruction after the call:
/// after a tick that executes `2nnn` and the execution of `00EE`, the program
/// counter is the address that follows the call instruction, and the call
/// stack is as it was.
pub proof fn law_call_return(m: Machine, random: u8)
    requires
        m.wf(),
        m.can_tick(),
        family(m.next_instr()) == 0x2,
    ensures
        ({
            let called = m.ticked(random);
            let returned = called.executed(0x00EE, random);
            &&& called.cpu.pc == field_nnn(m.next_instr())
            &&& called.can_execute(0x00EE)
            &&& returned.cpu.pc == m.cpu.pc + 2
            &&& returned.cpu.stack == m.cpu.stack
            &&& returned == m.fetch_done()
        }),
{
    let called = m.ticked(random);
    let returned = called.executed(0x00EE, random);
    assert(returned.cpu.stack =~= m.cpu.stack);
}

/// Waiting for a key changes nothing: a tick that executes `Fx0A` while no
/// key is pressed leaves the whole machine, program counter included, as it
/// was. With a key pressed, the tick moves on to the next instruction and
/// leaves the index of the first pressed key in `Vx`.
pub proof fn law_key_wait(m: Machine, random: u8)
    requires
        m.wf(),
        m.cpu.pc + 1 < MEMORY_SIZE,
        family(m.next_instr()) == 0xF,
        field_nn(m.next_instr()) == 0x0A,
    ensures
        m.can_tick(),
        ({
            let x = field_x(m.next_instr()) as int;
            let key = first_pressed(m.screen.keys);
            if key == KEY_COUNT {
                m.ticked(random) == m
            } else {
                &&& key < KEY_COUNT
                &&& m.screen.keys[key as int]
                &&& forall|k: int| 0 <= k < key ==> !m.screen.keys[k]
                &&& m.ticked(random) == m.with_cpu(
                    m.cpu.with_pc((m.cpu.pc + 2) as u16).with_reg(x as u8, key as u8),
                )
            }
        }),
{
    lemma_first_pressed_is_first(m.screen.keys);
}

/// `first_pressed` is at most the number of keys; below it no key is
/// pressed, and the key at it, if there is one, is pressed.
pub proof fn lemma_first_pressed_is_first(keys: Seq<bool>)
    ensures
        first_pressed(keys) <= keys.len(),
        first_pressed(keys) < keys.len() ==> keys[first_pressed(keys) as int],
        forall|k: int| 0 <= k < first_pressed(keys) ==> !keys[k],
    decreases keys.len(),
{
    if keys.len() > 0 && !keys[0] {
        let rest = keys.drop_first();
        lemma_first_pressed_is_first(rest);
        assert forall|k: int| 0 <= k < first_pressed(keys) implies !keys[k] by {
            if k > 0 {
                assert(keys[k] == rest[k - 1]);
            }
        }
    }
}

/// The processor state after `count` timer periods.
pub open spec fn timers_decremented_by(cpu: CpuView, count: nat) -> CpuView
    decreases count,
{
    if count == 0 {
        cpu
    } else {
        timers_decremented_by(cpu, (count - 1) as nat).timers_decremented()
    }
}

/// Timers count down to zero and stay there: after `count` periods each
/// timer has lost `count`, or is zero if it held less. Nothing else changes.
pub proof fn law_timers_floor(cpu: CpuView, count: nat)
    ensures
        timers_decremented_by(cpu, count) == (CpuView {
            delay_tim: if cpu.delay_tim >= count {
                (cpu.delay_tim - count) as u8
            } else {
                0
            },
            sound_tim: if cpu.sound_tim >= count {
                (cpu.sound_tim - count) as u8
            } else {
                0
            },
            ..cpu
        }),
    decreases count,
{
    if count > 0 {
        law_timers_floor(cpu, (count - 1) as nat);
    }
}

/// Only a random-number instruction depends on the random byte.
pub proof fn law_random_only(m: Machine, instr: u16, first: u8, second: u8)
    requires
        family(instr) != 0xC,
    ensures
        m.executed(instr, first) == m.executed(instr, second),
{
}

/// A random-number instruction leaves in `Vx` a byte with no bit set outside
/// the mask `nn`, and every such byte can come out.
pub proof fn law_random_masked(m: Machine, instr: u16, random: u8, wanted: u8)
    requires
        m.wf(),
        family(instr) == 0xC,
    ensures
        m.can_execute(instr),
        m.executed(instr, random).cpu.regs[field_x(instr) as int] & !field_nn(instr) == 0,
        wanted & !field_nn(instr) == 0 ==> m.executed(instr, wanted).cpu.regs[field_x(
            instr,
        ) as int] == wanted,
{
    let nn = field_nn(instr);
    assert((random & nn) & !nn == 0) by (bit_vector);
    assert(wanted & !nn == 0 ==> wanted & nn == wanted) by (bit_vector);
}

} // verus!
