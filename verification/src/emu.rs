use vstd::prelude::*;
use crate::cpu::{machine, Cpu};
use crate::machine::{CpuView, Machine, FONT_START, PROGRAM_START};
use crate::memory::{with_bytes_at, Memory, MEMORY_SIZE};
use crate::screen::{
    blank_framebuffer, events_before_quit, keys_after_events, lit_rects, InputEvent, PixelRect,
    Screen, ScreenView, SCREEN_HEIGHT, SCREEN_WIDTH,
};

verus! {

broadcast use {
    crate::memory::Memory::lemma_len,
    crate::screen::Screen::lemma_shape,
    crate::cpu::Cpu::lemma_wf,
};

/// Number of bytes in the font: sixteen glyphs of five bytes.
pub const FONT_SIZE: usize = 80;

/// Greatest number of bytes a program may have: what fits between
/// `PROGRAM_START` and the end of memory.
pub const PROGRAM_CAPACITY: usize = 3584;

/// Microseconds between two instructions: 700 instructions per second.
pub const TICK_PERIOD_MICROS: u128 = 1_000_000 / 700;

/// Microseconds between two timer decrements: 60 per second.
pub const TIMER_PERIOD_MICROS: u128 = 1_000_000 / 60;

/// Title of the emulator's window.
pub const WINDOW_TITLE: &'static str = "chip8 emu";

/// Side of one pixel in the emulator's window, in window pixels.
pub const PIXEL_SIDE: u32 = 18;

/// The glyphs for the hexadecimal digits 0 to F, five rows each; the pixels
/// of a row are its four high bits.
pub const FONT: [u8; 80] = [
    0xF0, 0x90, 0x90, 0x90, 0xF0,
    0x20, 0x60, 0x20, 0x20, 0x70,
    0xF0, 0x10, 0xF0, 0x80, 0xF0,
    0xF0, 0x10, 0xF0, 0x10, 0xF0,
    0x90, 0x90, 0xF0, 0x10, 0x10,
    0xF0, 0x80, 0xF0, 0x10, 0xF0,
    0xF0, 0x80, 0xF0, 0x90, 0xF0,
    0xF0, 0x10, 0x20, 0x40, 0x40,
    0xF0, 0x90, 0xF0, 0x90, 0xF0,
    0xF0, 0x90, 0xF0, 0x10, 0xF0,
    0xF0, 0x90, 0xF0, 0x90, 0x90,
    0xE0, 0x90, 0xE0, 0x90, 0xE0,
    0xF0, 0x80, 0x80, 0x80, 0xF0,
    0xE0, 0x90, 0x90, 0x90, 0xE0,
    0xF0, 0x80, 0xF0, 0x80, 0xF0,
    0xF0, 0x80, 0xF0, 0x80, 0x80,
];

/// The emulator: a processor, its memory and its display, and whether the
/// processor is still running.
pub struct Emu {
    cpu: Cpu,
    memory: Memory,
    screen: Screen,
    running: bool,
}

/// An emulator as a machine and its run state.
pub struct EmuView {
    pub machine: Machine,
    /// Cleared once a tick leaves the program counter outside memory.
    pub running: bool,
}

impl View for Emu {
    type V = EmuView;

    closed spec fn view(&self) -> EmuView {
        EmuView { machine: machine(self.cpu, self.memory, self.screen), running: self.running }
    }
}

impl Emu {
    /// An emulator after power-up, with zeroed memory and a blank display.
    pub fn new() -> (emu: Self)
        ensures
            emu@.running,
            emu@.machine.cpu == CpuView::initial(),
            emu@.machine.memory == Seq::new(MEMORY_SIZE as nat, |a: int| 0u8),
            emu@.machine.screen == (ScreenView {
                pixels: blank_framebuffer(),
                keys: Seq::new(16, |k: int| false),
                title: WINDOW_TITLE@,
                pwidth: PIXEL_SIDE,
                pheight: PIXEL_SIDE,
                stale: false,
            }),
    {
        let memory = Memory::new();
        let screen = Screen::new(WINDOW_TITLE, PIXEL_SIDE, PIXEL_SIDE);

        Self { memory, screen, cpu: Cpu::new(), running: true }
    }

    /// Every emulator's machine is well formed.
    pub broadcast proof fn lemma_wf(&self)
        ensures
            #![trigger self@]
            self@.machine.wf(),
    {
    }

    /// Installs the font at `FONT_START`.
    pub fn store_font(&mut self)
        ensures
            final(self)@ == (EmuView {
                machine: Machine {
                    memory: with_bytes_at(old(self)@.machine.memory, FONT_START as int, FONT@),
                    ..old(self)@.machine
                },
                ..old(self)@
            }),
    {
        let font: [u8; 80] = FONT;
        let mut i: usize = 0;
        assert(self@.machine.memory =~= with_bytes_at(
            self@.machine.memory,
            FONT_START as int,
            font@.take(0),
        ));
        while i < 80
            invariant
                0 <= i <= 80,
                font == FONT,
                self@ == (EmuView {
                    machine: Machine {
                        memory: with_bytes_at(
                            old(self)@.machine.memory,
                            FONT_START as int,
                            font@.take(i as int),
                        ),
                        ..old(self)@.machine
                    },
                    ..old(self)@
                }),
            decreases 80 - i,
        {
            self.memory.store(0x050 + i as u16, font[i]);
            assert(self@.machine.memory =~= with_bytes_at(
                old(self)@.machine.memory,
                FONT_START as int,
                font@.take(i + 1),
            ));
            i += 1;
        }
        assert(font@.take(80) =~= font@);
    }

    /// Loads the program `game` at `PROGRAM_START`, byte for byte.
    pub fn store_game(&mut self, game: &[u8])
        requires
            game@.len() <= PROGRAM_CAPACITY,
        ensures
            final(self)@ == (EmuView {
                machine: Machine {
                    memory: with_bytes_at(old(self)@.machine.memory, PROGRAM_START as int, game@),
                    ..old(self)@.machine
                },
                ..old(self)@
            }),
    {
        let mut pc: u16 = 0x200;
        let mut i: usize = 0;
        assert(self@.machine.memory =~= with_bytes_at(
            self@.machine.memory,
            PROGRAM_START as int,
            game@.take(0),
        ));
        while i < game.len()
            invariant
                0 <= i <= game@.len() <= PROGRAM_CAPACITY,
                pc == PROGRAM_START + i,
                self@ == (EmuView {
                    machine: Machine {
                        memory: with_bytes_at(
                            old(self)@.machine.memory,
                            PROGRAM_START as int,
                            game@.take(i as int),
                        ),
                        ..old(self)@.machine
                    },
                    ..old(self)@
                }),
            decreases game@.len() - i,
        {
            self.memory.store(pc, game[i]);
            assert(self@.machine.memory =~= with_bytes_at(
                old(self)@.machine.memory,
                PROGRAM_START as int,
                game@.take(i + 1),
            ));
            pc += 1;
            i += 1;
        }
        assert(game@.take(game@.len() as int) =~= game@);
    }
    /// Whether the processor can take its next tick.
    pub fn can_tick(&self) -> (ok: bool)
        ensures
            ok == self@.machine.can_tick(),
    {
        self.cpu.can_tick(&self.memory, &self.screen)
    }

    /// Whether the processor is still running.
    pub fn is_running(&self) -> (running: bool)
        ensures
            running == self@.running,
    {
        self.running
    }

    /// The instruction clock reads `elapsed_micros` since it was last reset.
    /// If the processor is running and more than `TICK_PERIOD_MICROS` have
    /// passed, the processor takes one tick, which decides whether it keeps
    /// running. Returns whether it did: the clock is then to be reset.
    pub fn on_tick_clock(&mut self, elapsed_micros: u128) -> (fired: bool)
        requires
            old(self)@.running && elapsed_micros > TICK_PERIOD_MICROS
                ==> old(self)@.machine.can_tick(),
        ensures
            fired == (old(self)@.running && elapsed_micros > TICK_PERIOD_MICROS),
            !fired ==> final(self)@ == old(self)@,
            fired ==> final(self)@.running == final(self)@.machine.running(),
            fired ==> exists|random: u8|
                final(self)@.machine == old(self)@.machine.ticked(random),
            fired && crate::machine::family(old(self)@.machine.next_instr()) != 0xC
                ==> final(self)@.machine == old(self)@.machine.ticked(0),
    {
        if self.running && elapsed_micros > TICK_PERIOD_MICROS {
            self.running = self.cpu.tick(&mut self.memory, &mut self.screen);
            true
        } else {
            false
        }
    }

    /// The timer clock reads `elapsed_micros` since it was last reset. If the
    /// processor is running and more than `TIMER_PERIOD_MICROS` have passed,
    /// both timers count down by one. Returns whether they did: the clock is
    /// then to be reset.
    pub fn on_timer_clock(&mut self, elapsed_micros: u128) -> (fired: bool)
        ensures
            fired == (old(self)@.running && elapsed_micros > TIMER_PERIOD_MICROS),
            !fired ==> final(self)@ == old(self)@,
            fired ==> final(self)@ == (EmuView {
                machine: old(self)@.machine.with_cpu(old(self)@.machine.cpu.timers_decremented()),
                ..old(self)@
            }),
    {
        if self.running && elapsed_micros > TIMER_PERIOD_MICROS {
            self.cpu.decrement_timers();
            true
        } else {
            false
        }
    }

    /// Applies the pending input `events` to the keypad, up to the first
    /// request to close. Returns whether the emulator stays open.
    pub fn on_input(&mut self, events: &Vec<InputEvent>) -> (open: bool)
        ensures
            open == (events_before_quit(events@) == events@.len()),
            final(self)@ == (EmuView {
                machine: Machine {
                    screen: ScreenView {
                        keys: keys_after_events(
                            old(self)@.machine.screen.keys,
                            events@.take(events_before_quit(events@) as int),
                        ),
                        ..old(self)@.machine.screen
                    },
                    ..old(self)@.machine
                },
                ..old(self)@
            }),
    {
        self.screen.handle_input(events)
    }

    /// The frame to present, if a draw has handed one over since the last
    /// frame was taken.
    pub fn take_frame(&mut self) -> (frame: Option<Vec<PixelRect>>)
        ensures
            final(self)@ == (EmuView {
                machine: Machine {
                    screen: ScreenView { stale: false, ..old(self)@.machine.screen },
                    ..old(self)@.machine
                },
                ..old(self)@
            }),
            match frame {
                Some(rects) => old(self)@.machine.screen.stale && rects@ == lit_rects(
                    old(self)@.machine.screen.pixels,
                    old(self)@.machine.screen.pwidth,
                    old(self)@.machine.screen.pheight,
                    (SCREEN_WIDTH * SCREEN_HEIGHT) as nat,
                ),
                None => !old(self)@.machine.screen.stale,
            },
    {
        self.screen.take_frame()
    }

    /// The processor.
    pub fn cpu(&self) -> (cpu: &Cpu)
        ensures
            cpu@ == self@.machine.cpu,
    {
        &self.cpu
    }

    /// The memory.
    pub fn memory(&self) -> (memory: &Memory)
        ensures
            memory@ == self@.machine.memory,
    {
        &self.memory
    }

    /// The display.
    pub fn screen(&self) -> (screen: &Screen)
        ensures
            screen@ == self@.machine.screen,
    {
        &self.screen
    }
}

} // verus!
