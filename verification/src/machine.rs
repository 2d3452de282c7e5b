use vstd::prelude::*;
use crate::keypad::KEY_COUNT;
use crate::memory::MEMORY_SIZE;
use crate::screen::{blank_framebuffer, is_framebuffer, ScreenView, SCREEN_HEIGHT, SCREEN_WIDTH};

verus! {

/// Number of general-purpose registers.
pub const REGISTER_COUNT: usize = 16;

/// Index of the flag register `VF`.
pub const FLAG_REGISTER: u8 = 0xF;

/// Greatest number of return addresses the call stack holds.
pub const STACK_DEPTH: usize = 10;

/// Address at which programs are loaded and execution starts.
pub const PROGRAM_START: u16 = 0x200;

/// Address of the first font glyph.
pub const FONT_START: u16 = 0x050;

/// Bytes per font glyph.
pub const GLYPH_SIZE: u16 = 5;

/// Opcode family of an instruction word: its top nibble.
pub open spec fn family(instr: u16) -> u8 {
    (instr / 0x1000) as u8
}

/// The `x` field: second nibble, a register index.
pub open spec fn field_x(instr: u16) -> u8 {
    ((instr / 0x100) % 0x10) as u8
}

/// The `y` field: third nibble, a register index.
pub open spec fn field_y(instr: u16) -> u8 {
    ((instr / 0x10) % 0x10) as u8
}

/// The `n` field: lowest nibble.
pub open spec fn field_n(instr: u16) -> u8 {
    (instr % 0x10) as u8
}

/// The `nn` field: low byte.
pub open spec fn field_nn(instr: u16) -> u8 {
    (instr % 0x100) as u8
}

/// The `nnn` field: low twelve bits, an address.
pub open spec fn field_nnn(instr: u16) -> u16 {
    instr % 0x1000
}

/// The flag value for a condition: 1 if it holds, else 0.
pub open spec fn flag(cond: bool) -> u8 {
    if cond {
        1
    } else {
        0
    }
}

/// Whether the bit in column `col` of a sprite row is set; column 0 is the
/// most significant bit.
pub open spec fn sprite_bit(row: u8, col: u8) -> bool {
    row & (0x80u8 >> col) != 0
}

/// Index of the first pressed key, or the number of keys if none is pressed.
pub open spec fn first_pressed(keys: Seq<bool>) -> nat
    decreases keys.len(),
{
    if keys.len() == 0 || keys[0] {
        0
    } else {
        1 + first_pressed(keys.drop_first())
    }
}

/// `first_pressed` is the index `n` at which the keys end or a key is
/// pressed, when no key before `n` is pressed.
pub proof fn lemma_first_pressed(keys: Seq<bool>, n: int)
    requires
        0 <= n <= keys.len(),
        forall|k: int| 0 <= k < n ==> !#[trigger] keys[k],
        n == keys.len() || keys[n],
    ensures
        first_pressed(keys) == n,
    decreases n,
{
    if n > 0 {
        let rest = keys.drop_first();
        assert forall|k: int| 0 <= k < n - 1 implies !#[trigger] rest[k] by {
            assert(rest[k] == keys[k + 1]);
        }
        lemma_first_pressed(rest, n - 1);
    }
}

/// A sprite placed on the screen: the position of its top-left corner and its
/// rows from top to bottom, each row eight pixels wide.
pub struct Sprite {
    pub x: int,
    pub y: int,
    pub rows: Seq<u8>,
}

impl Sprite {
    /// Whether the sprite has a set bit on the pixel at column `px`, row `py`.
    pub open spec fn covers(self, px: int, py: int) -> bool {
        &&& self.x <= px < self.x + 8
        &&& self.y <= py < self.y + self.rows.len()
        &&& sprite_bit(self.rows[py - self.y], (px - self.x) as u8)
    }

    /// The framebuffer after drawing the sprite onto `pixels`: every pixel
    /// under a set bit is inverted. Bits that fall off the right or bottom
    /// edge are dropped.
    pub open spec fn drawn(self, pixels: Seq<Seq<bool>>) -> Seq<Seq<bool>> {
        Seq::new(
            SCREEN_WIDTH as nat,
            |px: int|
                Seq::new(SCREEN_HEIGHT as nat, |py: int| pixels[px][py] != self.covers(px, py)),
        )
    }

    /// Whether drawing the sprite onto `pixels` turns some lit pixel off.
    pub open spec fn collides(self, pixels: Seq<Seq<bool>>) -> bool {
        exists|px: int, py: int|
            0 <= px < SCREEN_WIDTH && 0 <= py < SCREEN_HEIGHT && self.covers(px, py)
                && #[trigger] pixels[px][py]
    }
}

/// Number of rows of an `n`-row sprite at row `y` that lie on the screen.
pub open spec fn visible_rows(y: int, n: int) -> int {
    if y + n <= SCREEN_HEIGHT {
        n
    } else {
        SCREEN_HEIGHT - y
    }
}

/// The sprite that a draw of `n` rows at coordinates `vx`, `vy` takes from
/// `memory` at address `i`. Only the starting coordinates wrap around the
/// screen; rows below the bottom edge are not read.
pub open spec fn sprite_at(memory: Seq<u8>, i: u16, vx: u8, vy: u8, n: u8) -> Sprite {
    let y = vy as int % SCREEN_HEIGHT as int;
    Sprite {
        x: vx as int % SCREEN_WIDTH as int,
        y,
        rows: Seq::new(visible_rows(y, n as int) as nat, |row: int| memory[i + row]),
    }
}

/// The processor state.
pub struct CpuView {
    /// Program counter.
    pub pc: u16,
    /// Index register.
    pub i: u16,
    /// Return addresses, most recent last.
    pub stack: Seq<u16>,
    /// Delay timer.
    pub delay_tim: u8,
    /// Sound timer.
    pub sound_tim: u8,
    /// Registers `V0` to `VF`.
    pub regs: Seq<u8>,
}

impl CpuView {
    /// The shape every processor state has.
    pub open spec fn wf(self) -> bool {
        &&& self.regs.len() == REGISTER_COUNT
        &&& self.stack.len() <= STACK_DEPTH
    }

    /// The state after power-up.
    pub open spec fn initial() -> CpuView {
        CpuView {
            pc: PROGRAM_START,
            i: 0,
            stack: Seq::empty(),
            delay_tim: 0,
            sound_tim: 0,
            regs: Seq::new(REGISTER_COUNT as nat, |r: int| 0u8),
        }
    }

    /// This state with register `x` set to `value`.
    pub open spec fn with_reg(self, x: u8, value: u8) -> CpuView {
        CpuView { regs: self.regs.update(x as int, value), ..self }
    }

    /// This state with `VF` set to the flag value of `cond`.
    pub open spec fn with_flag(self, cond: bool) -> CpuView {
        self.with_reg(FLAG_REGISTER, flag(cond))
    }

    /// This state with the program counter set to `pc`.
    pub open spec fn with_pc(self, pc: u16) -> CpuView {
        CpuView { pc, ..self }
    }

    /// This state with the next instruction skipped if `cond` holds.
    pub open spec fn skip_if(self, cond: bool) -> CpuView {
        if cond {
            self.with_pc((self.pc + 2) as u16)
        } else {
            self
        }
    }

    /// Whether a skip under `cond` keeps the program counter in range.
    pub open spec fn can_skip_if(self, cond: bool) -> bool {
        cond ==> self.pc + 2 <= u16::MAX
    }

    /// After one timer period: both timers count down by one, stopping at zero.
    pub open spec fn timers_decremented(self) -> CpuView {
        CpuView {
            delay_tim: if self.delay_tim > 0 {
                (self.delay_tim - 1) as u8
            } else {
                0
            },
            sound_tim: if self.sound_tim > 0 {
                (self.sound_tim - 1) as u8
            } else {
                0
            },
            ..self
        }
    }

    /// The instruction word at the program counter: two bytes, high byte first.
    pub open spec fn fetched(self, memory: Seq<u8>) -> u16 {
        (memory[self.pc as int] * 0x100 + memory[self.pc + 1]) as u16
    }

    /// `00EE`: return to the most recently pushed address.
    pub open spec fn op_ret(self) -> CpuView {
        CpuView { pc: self.stack.last(), stack: self.stack.drop_last(), ..self }
    }

    /// `1nnn`: continue at `addr`.
    pub open spec fn op_jump(self, addr: u16) -> CpuView {
        self.with_pc(addr)
    }

    /// `2nnn`: push the program counter and continue at `addr`.
    pub open spec fn op_call(self, addr: u16) -> CpuView {
        CpuView { pc: addr, stack: self.stack.push(self.pc), ..self }
    }

    /// `3xnn`: skip if `Vx` equals `nn`.
    pub open spec fn op_skip_e_imm(self, x: u8, nn: u8) -> CpuView {
        self.skip_if(self.regs[x as int] == nn)
    }

    /// `4xnn`: skip if `Vx` differs from `nn`.
    pub open spec fn op_skip_ne_imm(self, x: u8, nn: u8) -> CpuView {
        self.skip_if(self.regs[x as int] != nn)
    }

    /// `5xy0`: skip if `Vx` equals `Vy`.
    pub open spec fn op_skip_e(self, x: u8, y: u8) -> CpuView {
        self.skip_if(self.regs[x as int] == self.regs[y as int])
    }

    /// `9xy0`: skip if `Vx` differs from `Vy`.
    pub open spec fn op_skip_ne(self, x: u8, y: u8) -> CpuView {
        self.skip_if(self.regs[x as int] != self.regs[y as int])
    }

    /// `6xnn`: `Vx := nn`.
    pub open spec fn op_set_imm(self, x: u8, nn: u8) -> CpuView {
        self.with_reg(x, nn)
    }

    /// `7xnn`: `Vx := Vx + nn` modulo 256; `VF` is left alone.
    pub open spec fn op_add_imm(self, x: u8, nn: u8) -> CpuView {
        self.with_reg(x, ((self.regs[x as int] + nn) % 0x100) as u8)
    }

    /// `8xy0`: `Vx := Vy`.
    pub open spec fn op_set(self, x: u8, y: u8) -> CpuView {
        self.with_reg(x, self.regs[y as int])
    }

    /// `8xy1`: `Vx := Vx | Vy`.
    pub open spec fn op_or(self, x: u8, y: u8) -> CpuView {
        self.with_reg(x, self.regs[x as int] | self.regs[y as int])
    }

    /// `8xy2`: `Vx := Vx & Vy`.
    pub open spec fn op_and(self, x: u8, y: u8) -> CpuView {
        self.with_reg(x, self.regs[x as int] & self.regs[y as int])
    }

    /// `8xy3`: `Vx := Vx ^ Vy`.
    pub open spec fn op_xor(self, x: u8, y: u8) -> CpuView {
        self.with_reg(x, self.regs[x as int] ^ self.regs[y as int])
    }

    /// `8xy4`: `VF :=` carry of `Vx + Vy`, then `Vx :=` the sum modulo 256.
    pub open spec fn op_add(self, x: u8, y: u8) -> CpuView {
        let sum = self.regs[x as int] + self.regs[y as int];
        self.with_flag(sum > 0xFF).with_reg(x, (sum % 0x100) as u8)
    }

    /// `8xy5`: `VF :=` no borrow in `Vx - Vy`, then `Vx :=` the difference
    /// modulo 256.
    pub open spec fn op_sub_a(self, x: u8, y: u8) -> CpuView {
        let (vx, vy) = (self.regs[x as int], self.regs[y as int]);
        self.with_flag(vx >= vy).with_reg(x, ((vx - vy) % 0x100) as u8)
    }

    /// `8xy7`: `VF :=` no borrow in `Vy - Vx`, then `Vx :=` the difference
    /// modulo 256.
    pub open spec fn op_sub_b(self, x: u8, y: u8) -> CpuView {
        let (vx, vy) = (self.regs[x as int], self.regs[y as int]);
        self.with_flag(vy >= vx).with_reg(x, ((vy - vx) % 0x100) as u8)
    }

    /// `8xyE`: `VF :=` the top bit of `Vx`, then `Vx` is doubled modulo 256.
    /// The doubling reads the register after the flag is written.
    pub open spec fn op_shift_left(self, x: u8) -> CpuView {
        let flagged = self.with_flag(self.regs[x as int] >= 0x80);
        flagged.with_reg(x, ((flagged.regs[x as int] * 2) % 0x100) as u8)
    }

    /// `8xy6`: `VF :=` the lowest bit of `Vx`, then `Vx` is halved.
    /// The halving reads the register after the flag is written.
    pub open spec fn op_shift_right(self, x: u8) -> CpuView {
        let flagged = self.with_flag(self.regs[x as int] % 2 == 1);
        flagged.with_reg(x, (flagged.regs[x as int] / 2) as u8)
    }

    /// `Annn`: `I := addr`.
    pub open spec fn op_set_index(self, addr: u16) -> CpuView {
        CpuView { i: addr, ..self }
    }

    /// `Bnnn`: continue at `nnn + V0`.
    pub open spec fn op_jump_offset(self, nnn: u16) -> CpuView {
        self.with_pc((nnn + self.regs[0]) as u16)
    }

    /// `Cxnn`: `Vx := byte & nn`, for a byte drawn at random.
    pub open spec fn op_random(self, x: u8, nn: u8, byte: u8) -> CpuView {
        self.with_reg(x, byte & nn)
    }

    /// Whether every sprite row that a draw of `n` rows at row `vy` reads lies
    /// in memory.
    pub open spec fn can_display(self, vy: u8, n: u8, memory_size: int) -> bool {
        let rows = visible_rows(vy as int % SCREEN_HEIGHT as int, n as int);
        rows > 0 ==> self.i + rows <= memory_size
    }

    /// `Dxyn`, processor side: `VF :=` whether the sprite turned a pixel off.
    pub open spec fn op_display(self, sprite: Sprite, pixels: Seq<Seq<bool>>) -> CpuView {
        self.with_flag(sprite.collides(pixels))
    }

    /// `Ex9E` (`if_state` true) and `ExA1` (false): skip if the pressed state
    /// of key `Vx` equals `if_state`.
    pub open spec fn op_skip_if_key_state(self, x: u8, if_state: bool, keys: Seq<bool>) -> CpuView {
        self.skip_if(keys[self.regs[x as int] as int] == if_state)
    }

    /// `Fx07`: `Vx := delay timer`.
    pub open spec fn op_get_delay_tim(self, x: u8) -> CpuView {
        self.with_reg(x, self.delay_tim)
    }

    /// `Fx15`: `delay timer := Vx`.
    pub open spec fn op_set_delay_tim(self, x: u8) -> CpuView {
        CpuView { delay_tim: self.regs[x as int], ..self }
    }

    /// `Fx18`: `sound timer := Vx`.
    pub open spec fn op_set_sound_tim(self, x: u8) -> CpuView {
        CpuView { sound_tim: self.regs[x as int], ..self }
    }

    /// `Fx1E`: `I := I + Vx`, then `VF :=` whether `I` is past `0xFFF`.
    pub open spec fn op_add_to_index(self, x: u8) -> CpuView {
        let i = (self.i + self.regs[x as int]) as u16;
        (CpuView { i, ..self }).with_flag(i > 0xFFF)
    }

    /// `Fx0A`: with a key pressed, `Vx :=` the index of the first pressed
    /// key; with none, the program counter steps back onto this instruction.
    pub open spec fn op_get_key(self, x: u8, keys: Seq<bool>) -> CpuView {
        let key = first_pressed(keys);
        if key < keys.len() {
            self.with_reg(x, key as u8)
        } else {
            self.with_pc((self.pc - 2) as u16)
        }
    }

    /// `Fx29`: `I :=` address of the glyph for the low nibble of `Vx`.
    pub open spec fn op_font_character(self, x: u8) -> CpuView {
        CpuView { i: (FONT_START + (self.regs[x as int] % 0x10) * GLYPH_SIZE) as u16, ..self }
    }

    /// `Fx33`, memory side: the decimal digits of `Vx`, hundreds first, at
    /// `I`, `I + 1` and `I + 2`.
    pub open spec fn op_bcd_conversion(self, x: u8, memory: Seq<u8>) -> Seq<u8> {
        let v = self.regs[x as int];
        memory.update(self.i as int, (v / 100) as u8).update(
            self.i + 1,
            ((v / 10) % 10) as u8,
        ).update(self.i + 2, (v % 10) as u8)
    }

    /// `memory` with the first `count` registers stored at `I` onwards.
    pub open spec fn regs_stored(self, count: int, memory: Seq<u8>) -> Seq<u8> {
        Seq::new(
            memory.len(),
            |a: int|
                if self.i <= a < self.i + count {
                    self.regs[a - self.i]
                } else {
                    memory[a]
                },
        )
    }

    /// This state with the first `count` registers loaded from `I` onwards.
    pub open spec fn regs_loaded(self, count: int, memory: Seq<u8>) -> CpuView {
        CpuView {
            regs: Seq::new(
                self.regs.len(),
                |r: int|
                    if r < count {
                        memory[self.i + r]
                    } else {
                        self.regs[r]
                    },
            ),
            ..self
        }
    }

    /// `Fx55`, memory side: `V0` to `Vx` stored at `I` onwards.
    pub open spec fn op_store_memory(self, x: u8, memory: Seq<u8>) -> Seq<u8> {
        self.regs_stored(x + 1, memory)
    }

    /// `Fx65`: `V0` to `Vx` loaded from `I` onwards.
    pub open spec fn op_load_memory(self, x: u8, memory: Seq<u8>) -> CpuView {
        self.regs_loaded(x + 1, memory)
    }
}

/// The whole machine: processor, memory and display.
pub struct Machine {
    pub cpu: CpuView,
    pub memory: Seq<u8>,
    pub screen: ScreenView,
}

impl Machine {
    /// The shape every machine state has.
    pub open spec fn wf(self) -> bool {
        &&& self.cpu.wf()
        &&& self.memory.len() == MEMORY_SIZE
        &&& is_framebuffer(self.screen.pixels)
        &&& self.screen.keys.len() == KEY_COUNT
    }

    /// This machine with the processor state replaced.
    pub open spec fn with_cpu(self, cpu: CpuView) -> Machine {
        Machine { cpu, ..self }
    }

    /// The sprite that the draw instruction `instr` would draw.
    pub open spec fn sprite(self, instr: u16) -> Sprite {
        sprite_at(
            self.memory,
            self.cpu.i,
            self.cpu.regs[field_x(instr) as int],
            self.cpu.regs[field_y(instr) as int],
            field_n(instr),
        )
    }

    /// Whether `instr` can be executed in this state. It cannot where that
    /// would pop an empty call stack or push onto a full one, touch memory
    /// past its end, ask for a key that does not exist, or move the program
    /// counter or the index register out of their 16-bit range.
    pub open spec fn can_execute(self, instr: u16) -> bool {
        let cpu = self.cpu;
        let keys = self.screen.keys;
        let (x, y, n, nn) = (field_x(instr), field_y(instr), field_n(instr), field_nn(instr));
        let (vx, vy) = (cpu.regs[x as int], cpu.regs[y as int]);
        match family(instr) {
            0x0 => field_nnn(instr) == 0x0EE ==> cpu.stack.len() > 0,
            0x2 => cpu.stack.len() < STACK_DEPTH,
            0x3 => cpu.can_skip_if(vx == nn),
            0x4 => cpu.can_skip_if(vx != nn),
            0x5 => n == 0 ==> cpu.can_skip_if(vx == vy),
            0x9 => n == 0 ==> cpu.can_skip_if(vx != vy),
            0xD => cpu.can_display(vy, n, MEMORY_SIZE as int),
            0xE => {
                &&& nn == 0x9E ==> vx < KEY_COUNT && cpu.can_skip_if(keys[vx as int])
                &&& nn == 0xA1 ==> vx < KEY_COUNT && cpu.can_skip_if(!keys[vx as int])
            },
            0xF => {
                &&& nn == 0x0A ==> first_pressed(keys) < keys.len() || cpu.pc >= 2
                &&& nn == 0x1E ==> cpu.i + vx <= u16::MAX
                &&& nn == 0x33 ==> cpu.i + 2 < MEMORY_SIZE
                &&& nn == 0x55 || nn == 0x65 ==> cpu.i + x < MEMORY_SIZE
            },
            _ => true,
        }
    }

    /// The state after executing `instr`, where `random` is the byte that a
    /// random-number instruction draws. Instruction words that encode no
    /// instruction change nothing.
    pub open spec fn executed(self, instr: u16, random: u8) -> Machine {
        let cpu = self.cpu;
        let keys = self.screen.keys;
        let (x, y, n, nn, nnn) = (
            field_x(instr),
            field_y(instr),
            field_n(instr),
            field_nn(instr),
            field_nnn(instr),
        );
        match family(instr) {
            0x0 => if nnn == 0x0E0 {
                Machine { screen: ScreenView { pixels: blank_framebuffer(), ..self.screen }, ..self }
            } else if nnn == 0x0EE {
                self.with_cpu(cpu.op_ret())
            } else {
                self
            },
            0x1 => self.with_cpu(cpu.op_jump(nnn)),
            0x2 => self.with_cpu(cpu.op_call(nnn)),
            0x3 => self.with_cpu(cpu.op_skip_e_imm(x, nn)),
            0x4 => self.with_cpu(cpu.op_skip_ne_imm(x, nn)),
            0x5 => if n == 0 {
                self.with_cpu(cpu.op_skip_e(x, y))
            } else {
                self
            },
            0x6 => self.with_cpu(cpu.op_set_imm(x, nn)),
            0x7 => self.with_cpu(cpu.op_add_imm(x, nn)),
            0x8 => if n == 0x0 {
                self.with_cpu(cpu.op_set(x, y))
            } else if n == 0x1 {
                self.with_cpu(cpu.op_or(x, y))
            } else if n == 0x2 {
                self.with_cpu(cpu.op_and(x, y))
            } else if n == 0x3 {
                self.with_cpu(cpu.op_xor(x, y))
            } else if n == 0x4 {
                self.with_cpu(cpu.op_add(x, y))
            } else if n == 0x5 {
                self.with_cpu(cpu.op_sub_a(x, y))
            } else if n == 0x6 {
                self.with_cpu(cpu.op_shift_right(x))
            } else if n == 0x7 {
                self.with_cpu(cpu.op_sub_b(x, y))
            } else if n == 0xE {
                self.with_cpu(cpu.op_shift_left(x))
            } else {
                self
            },
            0x9 => if n == 0 {
                self.with_cpu(cpu.op_skip_ne(x, y))
            } else {
                self
            },
            0xA => self.with_cpu(cpu.op_set_index(nnn)),
            0xB => self.with_cpu(cpu.op_jump_offset(nnn)),
            0xC => self.with_cpu(cpu.op_random(x, nn, random)),
            0xD => {
                let sprite = self.sprite(instr);
                Machine {
                    cpu: cpu.op_display(sprite, self.screen.pixels),
                    screen: ScreenView {
                        pixels: sprite.drawn(self.screen.pixels),
                        stale: true,
                        ..self.screen
                    },
                    ..self
                }
            },
            0xE => if nn == 0x9E {
                self.with_cpu(cpu.op_skip_if_key_state(x, true, keys))
            } else if nn == 0xA1 {
                self.with_cpu(cpu.op_skip_if_key_state(x, false, keys))
            } else {
                self
            },
            0xF => if nn == 0x07 {
                self.with_cpu(cpu.op_get_delay_tim(x))
            } else if nn == 0x0A {
                self.with_cpu(cpu.op_get_key(x, keys))
            } else if nn == 0x15 {
                self.with_cpu(cpu.op_set_delay_tim(x))
            } else if nn == 0x18 {
                self.with_cpu(cpu.op_set_sound_tim(x))
            } else if nn == 0x1E {
                self.with_cpu(cpu.op_add_to_index(x))
            } else if nn == 0x29 {
                self.with_cpu(cpu.op_font_character(x))
            } else if nn == 0x33 {
                Machine { memory: cpu.op_bcd_conversion(x, self.memory), ..self }
            } else if nn == 0x55 {
                Machine { memory: cpu.op_store_memory(x, self.memory), ..self }
            } else if nn == 0x65 {
                self.with_cpu(cpu.op_load_memory(x, self.memory))
            } else {
                self
            },
            _ => self,
        }
    }

    /// The instruction word that the next tick executes.
    pub open spec fn next_instr(self) -> u16 {
        self.cpu.fetched(self.memory)
    }

    /// The state between the fetch of a tick and the execution: the program
    /// counter is past the fetched instruction.
    pub open spec fn fetch_done(self) -> Machine {
        self.with_cpu(self.cpu.with_pc((self.cpu.pc + 2) as u16))
    }

    /// Whether a tick is defined: the instruction lies in memory and can be
    /// executed.
    pub open spec fn can_tick(self) -> bool {
        &&& self.cpu.pc + 1 < MEMORY_SIZE
        &&& self.fetch_done().can_execute(self.next_instr())
    }

    /// The state after one tick: fetch, then execute.
    pub open spec fn ticked(self, random: u8) -> Machine {
        self.fetch_done().executed(self.next_instr(), random)
    }

    /// Whether the machine keeps running: the program counter lies in memory.
    pub open spec fn running(self) -> bool {
        self.cpu.pc < MEMORY_SIZE
    }
}

} // verus!
