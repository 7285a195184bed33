//! The mathematical model of the machine: what a `Cpu` stands for in
//! contracts.

use vstd::prelude::*;

verus! {

/// Number of memory cells.
pub const MEMORY_SIZE: usize = 4096;

/// Address of the first font glyph.
pub const FONT_BASE: usize = 0x50;

/// Bytes in one font glyph.
pub const GLYPH_SIZE: usize = 5;

/// Address at which a program is loaded and started.
pub const PROGRAM_START: usize = 0x200;

/// Pixels in one row of the screen.
pub const SCREEN_WIDTH: usize = 64;

/// Rows of the screen.
pub const SCREEN_HEIGHT: usize = 32;

/// Number of registers; the last one is the flag register.
pub const REGISTERS: usize = 16;

/// Index of the flag register.
pub const FLAG: usize = 0xF;

/// Number of keys on the keypad.
pub const KEYS: usize = 16;

/// The greatest value the program counter can take: the greatest address
/// of a jump plus the greatest register offset.
pub const PC_LIMIT: usize = 0xFFF + 0xFF;

/// The glyphs of the hexadecimal digits, five bytes each, digit 0 first.
pub const FONT: [u8; 80] = [
    0xF0, 0x90, 0x90, 0x90, 0xF0,
    0x20, 0x60, 0x20, 0x20, 0x70,
    0xF0, 0x10, 0xF0, 0x80, 0xF0,
    0xF0, 0x10, 0xF0, 0x10, 0xF0,
    0x90, 0x90, 0xF0, 0x10, 0x10,
    0xF0, 0x80, 0xF0, 0x10, 0xF0,
    0xF0, 0x80, 0xF0, 0x90, 0xF0,
    0xF0, 0x10, 0x20, 0x40, 0x40,
    0xF0, 0x90, 0xF0, 0x90, 0xF0,
    0xF0, 0x90, 0xF0, 0x10, 0xF0,
    0xF0, 0x90, 0xF0, 0x90, 0x90,
    0xE0, 0x90, 0xE0, 0x90, 0xE0,
    0xF0, 0x80, 0x80, 0x80, 0xF0,
    0xE0, 0x90, 0x90, 0x90, 0xE0,
    0xF0, 0x80, 0xF0, 0x80, 0xF0,
    0xF0, 0x80, 0xF0, 0x80, 0x80,
];

/// The state of the machine as plain mathematical values.
pub struct Machine {
    /// The screen, row by row: pixel (column, row) is at `row * 64 + column`.
    pub pixels: Seq<bool>,
    /// The memory cells.
    pub memory: Seq<u8>,
    /// The return addresses, the most recent call last.
    pub stack: Seq<usize>,
    /// The registers V0 to VF.
    pub v: Seq<u8>,
    /// The index register.
    pub i: u16,
    /// The address of the next instruction.
    pub pc: usize,
    /// The delay timer.
    pub delay_timer: u8,
    /// The sound timer.
    pub sound_timer: u8,
    /// Whether the screen changed since the flag was last reset.
    pub update_display: bool,
}

impl Machine {
    /// The sizes are fixed, and the program counter and the return
    /// addresses stay within what instructions can produce.
    pub open spec fn wf(self) -> bool {
        &&& self.pixels.len() == SCREEN_WIDTH * SCREEN_HEIGHT
        &&& self.memory.len() == MEMORY_SIZE
        &&& self.v.len() == REGISTERS
        &&& self.pc <= PC_LIMIT
        &&& forall|k: int| 0 <= k < self.stack.len() ==> #[trigger] self.stack[k] <= MEMORY_SIZE
    }

    /// The machine as it is switched on: memory empty but for the font,
    /// screen blank, registers and timers zero, ready to run from
    /// `PROGRAM_START`.
    pub open spec fn initial() -> Machine {
        Machine {
            pixels: Seq::new((SCREEN_WIDTH * SCREEN_HEIGHT) as nat, |k: int| false),
            memory: Seq::new(
                MEMORY_SIZE as nat,
                |a: int|
                    if FONT_BASE <= a < FONT_BASE + 80 {
                        FONT[a - FONT_BASE]
                    } else {
                        0u8
                    },
            ),
            stack: Seq::empty(),
            v: Seq::new(REGISTERS as nat, |r: int| 0u8),
            i: 0,
            pc: PROGRAM_START,
            delay_timer: 0,
            sound_timer: 0,
            update_display: false,
        }
    }

    /// The pixel in column `x` of row `y`.
    pub open spec fn pixel(self, x: int, y: int) -> bool {
        self.pixels[y * SCREEN_WIDTH + x]
    }

    /// The program counter moved by `by` bytes, everything else kept.
    pub open spec fn moved(self, by: int) -> Machine {
        Machine { pc: (self.pc + by) as usize, ..self }
    }

    /// The program counter set to `target`, everything else kept.
    pub open spec fn at(self, target: int) -> Machine {
        Machine { pc: target as usize, ..self }
    }

    /// Register `x` set to `value`, everything else kept.
    pub open spec fn with_register(self, x: int, value: u8) -> Machine {
        Machine { v: self.v.update(x, value), ..self }
    }

    /// The index register set to `i`, everything else kept.
    pub open spec fn with_index(self, i: u16) -> Machine {
        Machine { i, ..self }
    }
}

} // verus!
