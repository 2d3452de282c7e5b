use vstd::prelude::*;
use crate::keypad::KEY_COUNT;
use crate::machine::{
    family, field_n, field_nn, field_nnn, field_x, field_y, first_pressed, lemma_first_pressed,
    sprite_at, sprite_bit, visible_rows, CpuView, Machine, Sprite, REGISTER_COUNT, STACK_DEPTH,
};
use crate::memory::{Memory, MEMORY_SIZE};
use crate::screen::{Screen, ScreenView, SCREEN_HEIGHT, SCREEN_WIDTH};

verus! {

broadcast use {crate::memory::Memory::lemma_len, crate::screen::Screen::lemma_shape};

/// Draws one byte from the `rand` crate's thread-local generator, by
/// `rand::rng()` and `Rng::random`. Nothing is claimed of the byte: any value
/// may come back, and two draws may differ.
#[verifier::external_body]
fn random_byte() -> (byte: u8) {
    rand::Rng::random::<u8>(&mut rand::rng())
}

/// The machine made up of a processor, a memory and a display.
pub open spec fn machine(cpu: Cpu, memory: Memory, screen: Screen) -> Machine {
    Machine { cpu: cpu@, memory: memory@, screen: screen@ }
}

/// The fields of an instruction word, cut out with masks and shifts, are its
/// digits to base 16.
proof fn lemma_fields(instr: u16)
    ensures
        (instr & 0xF000) >> 12 == family(instr),
        (instr & 0x0F00) >> 8 == field_x(instr) < 16,
        (instr & 0x00F0) >> 4 == field_y(instr) < 16,
        instr & 0x000F == field_n(instr) < 16,
        instr & 0x00FF == field_nn(instr),
        instr & 0x0FFF == field_nnn(instr),
{
    assert((instr & 0xF000) >> 12 == instr / 0x1000) by (bit_vector);
    assert((instr & 0x0F00) >> 8 == (instr / 0x100) % 0x10) by (bit_vector);
    assert((instr & 0x00F0) >> 4 == (instr / 0x10) % 0x10) by (bit_vector);
    assert(instr & 0x000F == instr % 0x10) by (bit_vector);
    assert(instr & 0x00FF == instr % 0x100) by (bit_vector);
    assert(instr & 0x0FFF == instr % 0x1000) by (bit_vector);
}

/// Whether a draw of `sprite` that has finished `row` rows and `col` columns
/// of the next row has already visited the pixel at `px`, `py` and found a set
/// bit for it.
spec fn drawn_so_far(sprite: Sprite, px: int, py: int, row: int, col: int) -> bool {
    &&& sprite.covers(px, py)
    &&& py - sprite.y < row || (py - sprite.y == row && px - sprite.x < col)
}

/// Whether such a draw has already turned a lit pixel of `pixels` off.
spec fn collided_so_far(sprite: Sprite, pixels: Seq<Seq<bool>>, row: int, col: int) -> bool {
    exists|px: int, py: int|
        0 <= px < SCREEN_WIDTH && 0 <= py < SCREEN_HEIGHT && drawn_so_far(sprite, px, py, row, col)
            && #[trigger] pixels[px][py]
}

/// One step of a draw, from progress `row`, `col` to `row2`, `col2`, that
/// visits at most the pixel `visited` with a set bit: the collision so far
/// grows by that pixel's state.
proof fn lemma_draw_progress(
    sprite: Sprite,
    pixels: Seq<Seq<bool>>,
    row: int,
    col: int,
    row2: int,
    col2: int,
    visited: Option<(int, int)>,
)
    requires
        forall|px: int, py: int|
            0 <= px < SCREEN_WIDTH && 0 <= py < SCREEN_HEIGHT ==> #[trigger] drawn_so_far(
                sprite,
                px,
                py,
                row2,
                col2,
            ) == (drawn_so_far(sprite, px, py, row, col) || visited == Some((px, py))),
        visited matches Some((qx, qy)) ==> 0 <= qx < SCREEN_WIDTH && 0 <= qy < SCREEN_HEIGHT,
    ensures
        collided_so_far(sprite, pixels, row2, col2) == (collided_so_far(sprite, pixels, row, col)
            || (visited matches Some((qx, qy)) && pixels[qx][qy])),
{
    if collided_so_far(sprite, pixels, row2, col2) {
        let (px, py) = choose|px: int, py: int|
            0 <= px < SCREEN_WIDTH && 0 <= py < SCREEN_HEIGHT && drawn_so_far(
                sprite,
                px,
                py,
                row2,
                col2,
            ) && #[trigger] pixels[px][py];
        if drawn_so_far(sprite, px, py, row, col) {
            assert(collided_so_far(sprite, pixels, row, col));
        }
    }
    if collided_so_far(sprite, pixels, row, col) {
        let (px, py) = choose|px: int, py: int|
            0 <= px < SCREEN_WIDTH && 0 <= py < SCREEN_HEIGHT && drawn_so_far(
                sprite,
                px,
                py,
                row,
                col,
            ) && #[trigger] pixels[px][py];
        assert(drawn_so_far(sprite, px, py, row2, col2));
    }
    if let Some((qx, qy)) = visited {
        if pixels[qx][qy] {
            assert(drawn_so_far(sprite, qx, qy, row2, col2));
        }
    }
}

/// Fixed-depth stack of return addresses.
pub struct CallStack {
    stack: [u16; 10],
    idx: u8,
}

impl View for CallStack {
    type V = Seq<u16>;

    /// The pushed addresses, most recent last.
    closed spec fn view(&self) -> Seq<u16> {
        self.stack@.take(
            if self.idx <= STACK_DEPTH {
                self.idx as int
            } else {
                STACK_DEPTH as int
            },
        )
    }
}

impl CallStack {
    #[verifier::type_invariant]
    spec fn within_depth(&self) -> bool {
        self.idx <= STACK_DEPTH
    }

    /// An empty stack.
    pub fn new() -> (stack: Self)
        ensures
            stack@ == Seq::<u16>::empty(),
    {
        Self { stack: [0;10], idx: 0 }
    }

    /// Number of addresses on the stack.
    pub fn depth(&self) -> (depth: u8)
        ensures
            depth == self@.len(),
    {
        proof {
            use_type_invariant(self);
        }
        self.idx
    }

    /// No stack holds more than `STACK_DEPTH` addresses.
    pub broadcast proof fn lemma_depth(&self)
        ensures
            #[trigger] self@.len() <= STACK_DEPTH,
    {
    }

    /// Pushes a return address. The stack must not be full.
    pub fn push(&mut self, addr: u16)
        requires
            old(self)@.len() < STACK_DEPTH,
        ensures
            final(self)@ == old(self)@.push(addr),
    {
        self.stack[self.idx as usize] = addr;
        self.idx += 1;
        assert(self@ =~= old(self)@.push(addr));
    }

    /// Pops the most recently pushed address. The stack must not be empty.
    pub fn pop(&mut self) -> (addr: u16)
        requires
            old(self)@.len() > 0,
        ensures
            addr == old(self)@.last(),
            final(self)@ == old(self)@.drop_last(),
    {
        proof {
            use_type_invariant(&*self);
        }
        self.idx -= 1;
        assert(self@ =~= old(self)@.drop_last());
        self.stack[self.idx as usize]
    }
}

/// The processor: program counter, index register, call stack, timers and
/// registers.
pub struct Cpu {
    pc: u16,
    i: u16,
    stack: CallStack,
    delay_tim: u8,
    sound_tim: u8,
    regs: [u8; 16],
}

impl View for Cpu {
    type V = CpuView;

    closed spec fn view(&self) -> CpuView {
        CpuView {
            pc: self.pc,
            i: self.i,
            stack: self.stack@,
            delay_tim: self.delay_tim,
            sound_tim: self.sound_tim,
            regs: self.regs@,
        }
    }
}

impl Cpu {
    /// A processor after power-up: execution starts at `PROGRAM_START` with
    /// all registers and timers zero and an empty call stack.
    pub fn new() -> (cpu: Self)
        ensures
            cpu@ == CpuView::initial(),
    {
        let cpu = Cpu {
            pc: 0x200,
            i: 0,
            stack: CallStack::new(),
            delay_tim: 0,
            sound_tim: 0,
            regs: [0;16],
        };
        assert(cpu@.regs =~= CpuView::initial().regs);
        cpu
    }

    /// Every processor state is well formed.
    pub broadcast proof fn lemma_wf(&self)
        ensures
            #![trigger self@]
            self@.wf(),
    {
        self.stack.lemma_depth();
    }

    /// The program counter.
    pub fn pc(&self) -> (pc: u16)
        ensures
            pc == self@.pc,
    {
        self.pc
    }

    /// The index register.
    pub fn index(&self) -> (i: u16)
        ensures
            i == self@.i,
    {
        self.i
    }

    /// The value of register `x`.
    pub fn register(&self, x: u8) -> (value: u8)
        requires
            x < REGISTER_COUNT,
        ensures
            value == self@.regs[x as int],
    {
        self.regs[x as usize]
    }

    /// The delay timer.
    pub fn delay_timer(&self) -> (value: u8)
        ensures
            value == self@.delay_tim,
    {
        self.delay_tim
    }

    /// The sound timer.
    pub fn sound_timer(&self) -> (value: u8)
        ensures
            value == self@.sound_tim,
    {
        self.sound_tim
    }

    /// Number of return addresses on the call stack.
    pub fn stack_depth(&self) -> (depth: u8)
        ensures
            depth == self@.stack.len(),
    {
        self.stack.depth()
    }

    /// Counts both timers down by one, stopping at zero.
    pub fn decrement_timers(&mut self)
        ensures
            final(self)@ == old(self)@.timers_decremented(),
    {
        if self.delay_tim > 0 {
            self.delay_tim -= 1;
        }
        if self.sound_tim > 0 {
            self.sound_tim -= 1;
        }
    }

    /// Reads the instruction word at the program counter and advances the
    /// program counter past it.
    pub fn fetch(&mut self, memory: &Memory) -> (instr: u16)
        requires
            old(self)@.pc + 1 < MEMORY_SIZE,
        ensures
            instr == old(self)@.fetched(memory@),
            final(self)@ == old(self)@.with_pc((old(self)@.pc + 2) as u16),
    {
        let high: u8 = memory.load(self.pc);
        let low: u8 = memory.load(self.pc + 1);
        let instr = ((high as u16) << 8) | (low as u16);
        assert(instr == high * 0x100 + low) by (bit_vector)
            requires
                instr == ((high as u16) << 8) | (low as u16),
        ;
        self.pc += 2;
        instr
    }

    /// `00EE`: returns from a subroutine.
    pub fn ret(&mut self)
        requires
            old(self)@.stack.len() > 0,
        ensures
            final(self)@ == old(self)@.op_ret(),
    {
        self.pc = self.stack.pop();
    }

    /// `1nnn`: jumps to `addr`.
    pub fn jump(&mut self, addr: u16)
        ensures
            final(self)@ == old(self)@.op_jump(addr),
    {
        self.pc = addr;
    }

    /// `6xnn`: sets register `reg_idx` to `value`.
    pub fn set_imm(&mut self, reg_idx: u8, value: u8)
        requires
            reg_idx < REGISTER_COUNT,
        ensures
            final(self)@ == old(self)@.op_set_imm(reg_idx, value),
    {
        self.regs[reg_idx as usize] = value;
    }

    /// `8xy0`: copies register `y` into register `x`.
    pub fn set(&mut self, x: u8, y: u8)
        requires
            x < REGISTER_COUNT,
            y < REGISTER_COUNT,
        ensures
            final(self)@ == old(self)@.op_set(x, y),
    {
        self.regs[x as usize] = self.regs[y as usize];
    }

    /// `7xnn`: adds `imm` to register `reg_idx`, wrapping; the flag register
    /// is not touched.
    pub fn add_imm(&mut self, reg_idx: u8, imm: u8)
        requires
            reg_idx < REGISTER_COUNT,
        ensures
            final(self)@ == old(self)@.op_add_imm(reg_idx, imm),
    {
        self.regs[reg_idx as usize] = u8::wrapping_add(self.regs[reg_idx as usize], imm);
    }

    /// `Annn`: sets the index register.
    pub fn set_index(&mut self, addr: u16)
        ensures
            final(self)@ == old(self)@.op_set_index(addr),
    {
        self.i = addr;
    }

    /// `2nnn`: calls the subroutine at `fn_addr`.
    pub fn call(&mut self, fn_addr: u16)
        requires
            old(self)@.stack.len() < STACK_DEPTH,
        ensures
            final(self)@ == old(self)@.op_call(fn_addr),
    {
        self.stack.push(self.pc);
        self.pc = fn_addr;
    }
    /// `3xnn`: skips the next instruction if register `x` equals `nn`.
    pub fn skip_e_imm(&mut self, x: u8, nn: u8)
        requires
            x < REGISTER_COUNT,
            old(self)@.can_skip_if(old(self)@.regs[x as int] == nn),
        ensures
            final(self)@ == old(self)@.op_skip_e_imm(x, nn),
    {
        if self.regs[x as usize] == nn {
            self.pc += 2;
        }
    }

    /// `4xnn`: skips the next instruction if register `x` differs from `nn`.
    pub fn skip_ne_imm(&mut self, x: u8, nn: u8)
        requires
            x < REGISTER_COUNT,
            old(self)@.can_skip_if(old(self)@.regs[x as int] != nn),
        ensures
            final(self)@ == old(self)@.op_skip_ne_imm(x, nn),
    {
        if self.regs[x as usize] != nn {
            self.pc += 2;
        }
    }

    /// `5xy0`: skips the next instruction if registers `x` and `y` are equal.
    pub fn skip_e(&mut self, x: u8, y: u8)
        requires
            x < REGISTER_COUNT,
            y < REGISTER_COUNT,
            old(self)@.can_skip_if(old(self)@.regs[x as int] == old(self)@.regs[y as int]),
        ensures
            final(self)@ == old(self)@.op_skip_e(x, y),
    {
        if self.regs[x as usize] == self.regs[y as usize] {
            self.pc += 2;
        }
    }

    /// `9xy0`: skips the next instruction if registers `x` and `y` differ.
    pub fn skip_ne(&mut self, x: u8, y: u8)
        requires
            x < REGISTER_COUNT,
            y < REGISTER_COUNT,
            old(self)@.can_skip_if(old(self)@.regs[x as int] != old(self)@.regs[y as int]),
        ensures
            final(self)@ == old(self)@.op_skip_ne(x, y),
    {
        if self.regs[x as usize] != self.regs[y as usize] {
            self.pc += 2;
        }
    }

    /// `8xy1`: bitwise OR of register `y` into register `x`.
    pub fn or(&mut self, x: u8, y: u8)
        requires
            x < REGISTER_COUNT,
            y < REGISTER_COUNT,
        ensures
            final(self)@ == old(self)@.op_or(x, y),
    {
        self.regs[x as usize] = self.regs[x as usize] | self.regs[y as usize];
    }

    /// `8xy2`: bitwise AND of register `y` into register `x`.
    pub fn and(&mut self, x: u8, y: u8)
        requires
            x < REGISTER_COUNT,
            y < REGISTER_COUNT,
        ensures
            final(self)@ == old(self)@.op_and(x, y),
    {
        self.regs[x as usize] = self.regs[x as usize] & self.regs[y as usize];
    }

    /// `8xy3`: bitwise XOR of register `y` into register `x`.
    pub fn xor(&mut self, x: u8, y: u8)
        requires
            x < REGISTER_COUNT,
            y < REGISTER_COUNT,
        ensures
            final(self)@ == old(self)@.op_xor(x, y),
    {
        self.regs[x as usize] = self.regs[x as usize] ^ self.regs[y as usize];
    }

    /// `8xy4`: adds register `y` to register `x`, wrapping. The flag register
    /// is first set to the carry; with `x` the flag register itself, the sum
    /// then replaces the carry.
    pub fn add(&mut self, x: u8, y: u8)
        requires
            x < REGISTER_COUNT,
            y < REGISTER_COUNT,
        ensures
            final(self)@ == old(self)@.op_add(x, y),
    {
        let res: u16 = self.regs[x as usize] as u16 + self.regs[y as usize] as u16;
        self.regs[0xF] = match res > 255 {
            true => 1,
            false => 0,
        };
        self.regs[x as usize] = (res % 256) as u8;
    }

    /// `8xy5`: subtracts register `y` from register `x`, wrapping. The flag
    /// register is first set to 1 if nothing was borrowed (`Vx >= Vy`), else
    /// to 0.
    pub fn sub_a(&mut self, x: u8, y: u8)
        requires
            x < REGISTER_COUNT,
            y < REGISTER_COUNT,
        ensures
            final(self)@ == old(self)@.op_sub_a(x, y),
    {
        let reg_idx = x;
        let (x, y) = (self.regs[x as usize], self.regs[y as usize]);
        self.regs[0xF] = match x >= y {
            true => 1,
            false => 0,
        };
        self.regs[reg_idx as usize] = u8::wrapping_sub(x, y);
    }

    /// `8xy7`: sets register `x` to register `y` minus register `x`,
    /// wrapping. The flag register is first set to 1 if nothing was borrowed
    /// (`Vy >= Vx`), else to 0.
    pub fn sub_b(&mut self, x: u8, y: u8)
        requires
            x < REGISTER_COUNT,
            y < REGISTER_COUNT,
        ensures
            final(self)@ == old(self)@.op_sub_b(x, y),
    {
        let reg_idx = x;
        let (x, y) = (self.regs[x as usize], self.regs[y as usize]);
        self.regs[0xF] = match y >= x {
            true => 1,
            false => 0,
        };
        self.regs[reg_idx as usize] = u8::wrapping_sub(y, x);
    }

    /// `8xyE`: shifts register `x` left by one bit. The flag register is
    /// first set to the bit shifted out.
    pub fn shift_left(&mut self, x: u8)
        requires
            x < REGISTER_COUNT,
        ensures
            final(self)@ == old(self)@.op_shift_left(x),
    {
        let value: u8 = self.regs[x as usize];
        assert((value & 0x80 == 0x80) == (value >= 0x80)) by (bit_vector);
        self.regs[0xF] = match (value & 0x80) == 0x80 {
            true => 1,
            false => 0,
        };
        let flagged: u8 = self.regs[x as usize];
        assert(flagged << 1 == (flagged * 2) % 0x100) by (bit_vector);
        self.regs[x as usize] = flagged << 1;
    }

    /// `8xy6`: shifts register `x` right by one bit. The flag register is
    /// first set to the bit shifted out.
    pub fn shift_right(&mut self, x: u8)
        requires
            x < REGISTER_COUNT,
        ensures
            final(self)@ == old(self)@.op_shift_right(x),
    {
        let value: u8 = self.regs[x as usize];
        assert((value & 0x1 == 0x1) == (value % 2 == 1)) by (bit_vector);
        self.regs[0xF] = match (value & 0x1) == 0x1 {
            true => 1,
            false => 0,
        };
        let flagged: u8 = self.regs[x as usize];
        assert(flagged >> 1 == flagged / 2) by (bit_vector);
        self.regs[x as usize] = flagged >> 1;
    }

    /// `Bnnn`: jumps to `nnn` plus register 0.
    pub fn jump_offset(&mut self, nnn: u16)
        requires
            nnn + old(self)@.regs[0] <= u16::MAX,
        ensures
            final(self)@ == old(self)@.op_jump_offset(nnn),
    {
        self.jump(nnn + self.regs[0] as u16);
    }

    /// `Fx07`: copies the delay timer into register `x`.
    pub fn get_delay_tim(&mut self, x: u8)
        requires
            x < REGISTER_COUNT,
        ensures
            final(self)@ == old(self)@.op_get_delay_tim(x),
    {
        self.regs[x as usize] = self.delay_tim;
    }

    /// `Fx15`: sets the delay timer to register `x`.
    pub fn set_delay_tim(&mut self, x: u8)
        requires
            x < REGISTER_COUNT,
        ensures
            final(self)@ == old(self)@.op_set_delay_tim(x),
    {
        self.delay_tim = self.regs[x as usize];
    }

    /// `Fx18`: sets the sound timer to register `x`.
    pub fn set_sound_tim(&mut self, x: u8)
        requires
            x < REGISTER_COUNT,
        ensures
            final(self)@ == old(self)@.op_set_sound_tim(x),
    {
        self.sound_tim = self.regs[x as usize];
    }

    /// `Fx1E`: adds register `x` to the index register, then sets the flag
    /// register to 1 if the index register is past `0xFFF`, else to 0.
    pub fn add_to_index(&mut self, x: u8)
        requires
            x < REGISTER_COUNT,
            old(self)@.i + old(self)@.regs[x as int] <= u16::MAX,
        ensures
            final(self)@ == old(self)@.op_add_to_index(x),
    {
        self.i += self.regs[x as usize] as u16;
        self.regs[0xF] = match self.i > 0xFFF {
            true => 1,
            false => 0,
        };
    }

    /// `Fx29`: points the index register at the glyph for the low nibble of
    /// register `x`.
    pub fn font_character(&mut self, x: u8)
        requires
            x < REGISTER_COUNT,
        ensures
            final(self)@ == old(self)@.op_font_character(x),
    {
        let value: u8 = self.regs[x as usize];
        let ch: u8 = value & 0xF;
        assert(ch == value % 0x10) by (bit_vector)
            requires
                ch == value & 0xF,
        ;
        self.i = 0x50 + ch as u16 * 5;
    }

    /// `Fx33`: stores the three decimal digits of register `x` at the index
    /// register onwards, hundreds first.
    pub fn bcd_conversion(&mut self, x: u8, memory: &mut Memory)
        requires
            x < REGISTER_COUNT,
            old(self)@.i + 2 < MEMORY_SIZE,
        ensures
            final(self)@ == old(self)@,
            final(memory)@ == old(self)@.op_bcd_conversion(x, old(memory)@),
    {
        let x = self.regs[x as usize];
        let hundreds = x / 100;
        let tens = (x % 100) / 10;
        let ones = x % 10;
        memory.store(self.i, hundreds);
        memory.store(self.i + 1, tens);
        memory.store(self.i + 2, ones);
    }

    /// `Fx55`: stores registers 0 to `x` at the index register onwards.
    pub fn store_memory(&mut self, x: u8, memory: &mut Memory)
        requires
            x < REGISTER_COUNT,
            old(self)@.i + x < MEMORY_SIZE,
        ensures
            final(self)@ == old(self)@,
            final(memory)@ == old(self)@.op_store_memory(x, old(memory)@),
    {
        let mut reg: u8 = 0;
        assert(memory@ =~= self@.regs_stored(0, memory@));
        while reg <= x
            invariant
                x < REGISTER_COUNT,
                0 <= reg <= x + 1,
                self@ == old(self)@,
                self@.i + x < MEMORY_SIZE,
                memory@ == old(self)@.regs_stored(reg as int, old(memory)@),
            decreases x + 1 - reg,
        {
            memory.store(self.i + reg as u16, self.regs[reg as usize]);
            assert(memory@ =~= old(self)@.regs_stored(reg + 1, old(memory)@));
            reg += 1;
        }
    }

    /// `Fx65`: loads registers 0 to `x` from the index register onwards.
    pub fn load_memory(&mut self, x: u8, memory: &mut Memory)
        requires
            x < REGISTER_COUNT,
            old(self)@.i + x < MEMORY_SIZE,
        ensures
            final(self)@ == old(self)@.op_load_memory(x, old(memory)@),
            final(memory)@ == old(memory)@,
    {
        let mut reg: u8 = 0;
        assert(self@.regs =~= self@.regs_loaded(0, memory@).regs);
        while reg <= x
            invariant
                x < REGISTER_COUNT,
                0 <= reg <= x + 1,
                memory@ == old(memory)@,
                self@.i + x < MEMORY_SIZE,
                self@.i == old(self)@.i,
                self@ == old(self)@.regs_loaded(reg as int, old(memory)@),
            decreases x + 1 - reg,
        {
            self.regs[reg as usize] = memory.load(self.i + reg as u16);
            assert(self@.regs =~= old(self)@.regs_loaded(reg + 1, old(memory)@).regs);
            reg += 1;
        }
    }
    /// `Cxnn`: sets register `x` to a random byte masked with `nn`.
    pub fn random(&mut self, x: u8, nn: u8)
        requires
            x < REGISTER_COUNT,
        ensures
            exists|byte: u8| final(self)@ == old(self)@.op_random(x, nn, byte),
    {
        let byte = random_byte();
        self.random_with(x, nn, byte);
    }

    /// `Cxnn` for a given random `byte`: sets register `x` to `byte & nn`.
    pub fn random_with(&mut self, x: u8, nn: u8, byte: u8)
        requires
            x < REGISTER_COUNT,
        ensures
            final(self)@ == old(self)@.op_random(x, nn, byte),
    {
        self.regs[x as usize] = byte & nn;
    }

    /// `00E0`: clears the framebuffer.
    pub fn clear_screen(&self, screen: &mut Screen)
        ensures
            final(screen)@ == (ScreenView {
                pixels: crate::screen::blank_framebuffer(),
                ..old(screen)@
            }),
    {
        screen.clear();
    }

    /// `Ex9E` and `ExA1`: skips the next instruction if the key whose index
    /// is in register `x` is pressed (`if_state` true) or not pressed
    /// (`if_state` false).
    pub fn skip_if_key_state(&mut self, x: u8, if_state: bool, screen: &mut Screen)
        requires
            x < REGISTER_COUNT,
            old(self)@.regs[x as int] < KEY_COUNT,
            old(self)@.can_skip_if(
                old(screen)@.keys[old(self)@.regs[x as int] as int] == if_state,
            ),
        ensures
            final(self)@ == old(self)@.op_skip_if_key_state(x, if_state, old(screen)@.keys),
            final(screen)@ == old(screen)@,
    {
        if screen.get_keypad().is_pressed_idx(self.regs[x as usize]) == if_state {
            self.pc += 2;
        }
    }

    /// `Fx0A`: waits for a key. With a key pressed, register `x` receives the
    /// index of the first pressed key; with none, the program counter steps
    /// back by one instruction, so that this instruction runs again.
    pub fn get_key(&mut self, x: u8, screen: &mut Screen)
        requires
            x < REGISTER_COUNT,
            first_pressed(old(screen)@.keys) == KEY_COUNT ==> old(self)@.pc >= 2,
        ensures
            final(self)@ == old(self)@.op_get_key(x, old(screen)@.keys),
            final(screen)@ == old(screen)@,
    {
        let mut idx: u8 = 0;
        while idx < 16
            invariant
                0 <= idx <= 16,
                x < REGISTER_COUNT,
                self@ == old(self)@,
                screen@ == old(screen)@,
                forall|k: int| 0 <= k < idx ==> !#[trigger] screen@.keys[k],
            decreases 16 - idx,
        {
            if screen.get_keypad().is_pressed_idx(idx) {
                proof {
                    lemma_first_pressed(screen@.keys, idx as int);
                }
                self.regs[x as usize] = idx;
                return ;
            }
            idx += 1;
        }
        proof {
            lemma_first_pressed(screen@.keys, 16);
        }
        self.pc -= 2;
    }

    /// `Dxyn`: draws the `n`-row sprite at the index register onto the
    /// screen, at the coordinates in registers `x` and `y`. The starting
    /// coordinates wrap around the screen; the sprite itself is clipped at
    /// the right and bottom edges. Each set sprite bit inverts its pixel. The
    /// flag register becomes 1 if that turned any pixel off, else 0, and the
    /// framebuffer is handed over for presentation.
    pub fn display(&mut self, x: u8, y: u8, n: u8, memory: &Memory, screen: &mut Screen)
        requires
            x < REGISTER_COUNT,
            y < REGISTER_COUNT,
            old(self)@.can_display(old(self)@.regs[y as int], n, MEMORY_SIZE as int),
        ensures
            ({
                let sprite = sprite_at(
                    memory@,
                    old(self)@.i,
                    old(self)@.regs[x as int],
                    old(self)@.regs[y as int],
                    n,
                );
                &&& final(self)@ == old(self)@.op_display(sprite, old(screen)@.pixels)
                &&& final(screen)@ == (ScreenView {
                    pixels: sprite.drawn(old(screen)@.pixels),
                    stale: true,
                    ..old(screen)@
                })
            }),
    {
        let ghost sprite = sprite_at(
            memory@,
            self@.i,
            self@.regs[x as int],
            self@.regs[y as int],
            n,
        );
        let ghost before = screen@.pixels;
        let x: u8 = self.regs[x as usize] % 64;
        let y: u8 = self.regs[y as usize] % 32;

        let mut pixel_off_flag = false;

        let mut row: u8 = 0;
        while row < n && y + row <= 31
            invariant
                sprite.x == x < SCREEN_WIDTH,
                sprite.y == y < SCREEN_HEIGHT,
                0 <= row <= sprite.rows.len() <= n,
                y + sprite.rows.len() <= SCREEN_HEIGHT,
                sprite.rows.len() == visible_rows(y as int, n as int),
                sprite.rows.len() > 0 ==> self@.i + sprite.rows.len() <= MEMORY_SIZE,
                forall|r: int|
                    0 <= r < sprite.rows.len() ==> #[trigger] sprite.rows[r] == memory@[self@.i
                        + r],
                self@ == old(self)@,
                screen@ == (ScreenView { pixels: screen@.pixels, ..old(screen)@ }),
                forall|px: int, py: int|
                    0 <= px < SCREEN_WIDTH && 0 <= py < SCREEN_HEIGHT ==> #[trigger] screen@.pixels[px][py]
                        == (before[px][py] != drawn_so_far(sprite, px, py, row as int, 0)),
                pixel_off_flag == collided_so_far(sprite, before, row as int, 0),
            decreases n - row,
        {
            let byte: u8 = memory.load(self.i + row as u16);
            let mut col: u8 = 0;
            while col < 8 && x + col <= 63
                invariant
                    sprite.x == x < SCREEN_WIDTH,
                    sprite.y == y < SCREEN_HEIGHT,
                    0 <= row < sprite.rows.len(),
                    y + sprite.rows.len() <= SCREEN_HEIGHT,
                    byte == sprite.rows[row as int],
                    0 <= col <= 8,
                    x + col <= SCREEN_WIDTH,
                    screen@ == (ScreenView { pixels: screen@.pixels, ..old(screen)@ }),
                    forall|px: int, py: int|
                        0 <= px < SCREEN_WIDTH && 0 <= py < SCREEN_HEIGHT
                            ==> #[trigger] screen@.pixels[px][py] == (before[px][py]
                            != drawn_so_far(sprite, px, py, row as int, col as int)),
                    pixel_off_flag == collided_so_far(sprite, before, row as int, col as int),
                decreases 8 - col,
            {
                let ghost current = screen@.pixels;
                let ghost visited = if sprite_bit(byte, col) {
                    Some(((x + col) as int, (y + row) as int))
                } else {
                    None
                };
                assert(byte & (1u8 << ((7 - col) as u8)) == byte & (0x80u8 >> col)) by (bit_vector)
                    requires
                        col < 8,
                ;
                if byte & (1 << (7 - col)) != 0 {
                    pixel_off_flag = screen.toggle_pixel(x + col, y + row) || pixel_off_flag;
                }
                proof {
                    assert forall|px: int, py: int|
                        0 <= px < SCREEN_WIDTH && 0 <= py < SCREEN_HEIGHT implies #[trigger] drawn_so_far(
                        sprite,
                        px,
                        py,
                        row as int,
                        col + 1,
                    ) == (drawn_so_far(sprite, px, py, row as int, col as int) || visited == Some(
                        (px, py),
                    )) by {}
                    lemma_draw_progress(
                        sprite,
                        before,
                        row as int,
                        col as int,
                        row as int,
                        col + 1,
                        visited,
                    );
                }
                col += 1;
            }
            proof {
                assert forall|px: int, py: int|
                    0 <= px < SCREEN_WIDTH && 0 <= py < SCREEN_HEIGHT implies #[trigger] drawn_so_far(
                    sprite,
                    px,
                    py,
                    row + 1,
                    0,
                ) == (drawn_so_far(sprite, px, py, row as int, col as int) || None::<(int, int)>
                    == Some((px, py))) by {}
                lemma_draw_progress(sprite, before, row as int, col as int, row + 1, 0, None);
            }
            row += 1;
        }

        proof {
            assert(row == sprite.rows.len());
            assert forall|px: int, py: int|
                0 <= px < SCREEN_WIDTH && 0 <= py < SCREEN_HEIGHT implies drawn_so_far(
                sprite,
                px,
                py,
                row as int,
                0,
            ) == sprite.covers(px, py) by {}
            assert(screen@.pixels =~~= sprite.drawn(before));
            if sprite.collides(before) {
                let (px, py) = choose|px: int, py: int|
                    0 <= px < SCREEN_WIDTH && 0 <= py < SCREEN_HEIGHT && sprite.covers(px, py)
                        && #[trigger] before[px][py];
                assert(drawn_so_far(sprite, px, py, row as int, 0));
            }
        }

        self.regs[0xF] = match pixel_off_flag {
            true => 1,
            false => 0,
        };

        screen.update();
    }
    /// Executes the instruction word `instr`. Words that encode no
    /// instruction are ignored. Only a random-number instruction has more
    /// than one possible outcome: one for each byte it may draw.
    pub fn execute(&mut self, instr: u16, memory: &mut Memory, screen: &mut Screen)
        requires
            machine(*old(self), *old(memory), *old(screen)).can_execute(instr),
        ensures
            exists|random: u8|
                machine(*final(self), *final(memory), *final(screen)) == machine(
                    *old(self),
                    *old(memory),
                    *old(screen),
                ).executed(instr, random),
            family(instr) != 0xC ==> machine(*final(self), *final(memory), *final(screen))
                == machine(*old(self), *old(memory), *old(screen)).executed(instr, 0),
    {
        proof {
            lemma_fields(instr);
        }
        let first_nibble = ((instr & 0xF000) >> 12) as u8;
        let x = ((instr & 0x0F00) >> 8) as u8;
        let y = ((instr & 0x00F0) >> 4) as u8;
        let n = (instr & 0x000F) as u8;
        let nn = (instr & 0x00FF) as u8;
        let nnn = (instr & 0x0FFF) as u16;
        let ghost before = machine(*self, *memory, *screen);
        let ghost mut random: u8 = 0;

        match first_nibble {
            0x0 => match nnn {
                0x0E0 => self.clear_screen(screen),
                0x0EE => self.ret(),
                _ => {},
            },
            0x1 => self.jump(nnn),
            0x2 => self.call(nnn),
            0x3 => self.skip_e_imm(x, nn),
            0x4 => self.skip_ne_imm(x, nn),
            0x5 => match n {
                0x0 => self.skip_e(x, y),
                _ => {},
            },
            0x6 => self.set_imm(x, nn),
            0x7 => self.add_imm(x, nn),
            0x8 => match n {
                0 => self.set(x, y),
                1 => self.or(x, y),
                2 => self.and(x, y),
                3 => self.xor(x, y),
                4 => self.add(x, y),
                5 => self.sub_a(x, y),
                6 => self.shift_right(x),
                7 => self.sub_b(x, y),
                0xE => self.shift_left(x),
                _ => {},
            },
            0x9 => match n {
                0x0 => self.skip_ne(x, y),
                _ => {},
            },
            0xA => self.set_index(nnn),
            0xB => self.jump_offset(nnn),
            0xC => {
                self.random(x, nn);
                proof {
                    random = choose|byte: u8| self@ == before.cpu.op_random(x, nn, byte);
                }
            },
            0xD => self.display(x, y, n, memory, screen),
            0xE => match nn {
                0x9E => self.skip_if_key_state(x, true, screen),
                0xA1 => self.skip_if_key_state(x, false, screen),
                _ => {},
            },
            0xF => match nn {
                0x07 => self.get_delay_tim(x),
                0x0A => self.get_key(x, screen),
                0x15 => self.set_delay_tim(x),
                0x18 => self.set_sound_tim(x),
                0x1E => self.add_to_index(x),
                0x29 => self.font_character(x),
                0x33 => self.bcd_conversion(x, memory),
                0x55 => self.store_memory(x, memory),
                0x65 => self.load_memory(x, memory),
                _ => {},
            },
            _ => {},
        }
        assert(machine(*self, *memory, *screen) == before.executed(instr, random));
    }

    /// One fetch and execute. Returns whether the machine keeps running,
    /// that is, whether the program counter still lies in memory.
    pub fn tick(&mut self, memory: &mut Memory, screen: &mut Screen) -> (running: bool)
        requires
            machine(*old(self), *old(memory), *old(screen)).can_tick(),
        ensures
            exists|random: u8|
                machine(*final(self), *final(memory), *final(screen)) == machine(
                    *old(self),
                    *old(memory),
                    *old(screen),
                ).ticked(random),
            family(machine(*old(self), *old(memory), *old(screen)).next_instr()) != 0xC
                ==> machine(*final(self), *final(memory), *final(screen)) == machine(
                *old(self),
                *old(memory),
                *old(screen),
            ).ticked(0),
            running == machine(*final(self), *final(memory), *final(screen)).running(),
    {
        let ghost before = machine(*self, *memory, *screen);
        let instr: u16 = self.fetch(memory);
        self.execute(instr, memory, screen);
        proof {
            let random = choose|random: u8|
                machine(*self, *memory, *screen) == before.fetch_done().executed(instr, random);
            assert(machine(*self, *memory, *screen) == before.ticked(random));
        }

        self.pc < 4096
    }

    /// Whether the next tick is defined: `tick` may be called exactly when
    /// this holds.
    pub fn can_tick(&self, memory: &Memory, screen: &Screen) -> (ok: bool)
        ensures
            ok == machine(*self, *memory, *screen).can_tick(),
    {
        if self.pc >= 4095 {
            return false;
        }
        let instr: u16 = ((memory.load(self.pc) as u16) << 8) | (memory.load(self.pc + 1) as u16);
        proof {
            let (high, low) = (memory@[self.pc as int], memory@[self.pc + 1]);
            assert(((high as u16) << 8) | (low as u16) == high * 0x100 + low) by (bit_vector);
            lemma_fields(instr);
        }
        let first_nibble = ((instr & 0xF000) >> 12) as u8;
        let x = ((instr & 0x0F00) >> 8) as u8;
        let y = ((instr & 0x00F0) >> 4) as u8;
        let n = (instr & 0x000F) as u8;
        let nn = (instr & 0x00FF) as u8;
        let nnn = (instr & 0x0FFF) as u16;
        let vx: u8 = self.regs[x as usize];
        let vy: u8 = self.regs[y as usize];
        let depth: u8 = self.stack.depth();
        match first_nibble {
            0x0 => nnn != 0x0EE || depth > 0,
            0x2 => depth < 10,
            0xD => {
                let top: u8 = vy % 32;
                let rows: u8 = if n <= 32 - top {
                    n
                } else {
                    32 - top
                };
                rows == 0 || self.i as u32 + rows as u32 <= 4096
            },
            0xE => (nn != 0x9E && nn != 0xA1) || vx < 16,
            0xF => match nn {
                0x1E => self.i as u32 + vx as u32 <= 0xFFFF,
                0x33 => self.i < 4094,
                0x55 | 0x65 => self.i as u32 + (x as u32) < 4096,
                _ => true,
            },
            _ => true,
        }
    }
}

} // verus!
