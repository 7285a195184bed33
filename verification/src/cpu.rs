//! The virtual machine: memory, registers, stack, timers and screen, and
//! the execution of instructions on them.

use vstd::prelude::*;
use crate::bytes::read_u16_be;
use crate::entropy::{random_byte, thread_generator};
use crate::fault::Fault;
use crate::instruction::{decode, Instruction};
use crate::machine::{
    Machine, FLAG, FONT, FONT_BASE, GLYPH_SIZE, KEYS, MEMORY_SIZE, PROGRAM_START, REGISTERS,
    SCREEN_HEIGHT, SCREEN_WIDTH,
};
use crate::semantics;
use crate::semantics::{
    digits_stored, highest_pressed, registers_loaded, registers_stored, rom_loaded, step,
    timers_decremented, word_at,
};
use crate::sprite::{
    lemma_collides_before_same, lemma_sprite_bit, sprite_collides, sprite_collides_before, sprite_drawn, sprite_hits,
    sprite_hits_before, sprite_left, sprite_top,
};

verus! {

/// A CHIP-8 machine.
pub struct Cpu {
    pixels: Vec<bool>,
    memory: Vec<u8>,
    stack: Vec<usize>,
    v: Vec<u8>,
    i: u16,
    pc: usize,
    delay_timer: u8,
    sound_timer: u8,
    rng: rand::rngs::ThreadRng,
    update_display: bool,
}

impl View for Cpu {
    type V = Machine;

    closed spec fn view(&self) -> Machine {
        Machine {
            pixels: self.pixels@,
            memory: self.memory@,
            stack: self.stack@,
            v: self.v@,
            i: self.i,
            pc: self.pc,
            delay_timer: self.delay_timer,
            sound_timer: self.sound_timer,
            update_display: self.update_display,
        }
    }
}

/// How a call that runs an instruction ends: on success the machine is in
/// the state the semantics give, on a fault it is as it was.
pub open spec fn settles(
    before: Machine,
    expected: Result<Machine, Fault>,
    after: Machine,
    outcome: Result<(), Fault>,
) -> bool {
    match expected {
        Ok(next) => outcome == Ok::<(), Fault>(()) && after == next,
        Err(fault) => outcome == Err::<(), Fault>(fault) && after == before,
    }
}

/// The highest key of `keys` that is pressed, if any is.
fn highest_key(keys: &[bool; 16]) -> (found: Option<u8>)
    ensures
        match highest_pressed(keys@) {
            Some(k) => found == Some(k as u8) && 0 <= k < KEYS,
            None => found.is_none(),
        },
{
    let mut found: Option<u8> = None;
    let mut k: usize = 0;
    while k < KEYS
        invariant
            k <= KEYS,
            keys@.len() == KEYS,
            match highest_pressed(keys@.take(k as int)) {
                Some(h) => found == Some(h as u8) && 0 <= h < k,
                None => found.is_none(),
            },
        decreases KEYS - k,
    {
        assert(keys@.take(k + 1).drop_last() =~= keys@.take(k as int));
        if keys[k] {
            found = Some(k as u8);
        }
        k += 1;
    }
    assert(keys@.take(KEYS as int) =~= keys@);
    found
}

impl Cpu {
    /// A machine as it is switched on.
    pub fn new() -> (cpu: Cpu)
        ensures
            cpu@ == Machine::initial(),
            cpu@.wf(),
    {
        let mut memory = vec![0u8; MEMORY_SIZE];
        let mut k: usize = 0;
        while k < 80
            invariant
                k <= 80,
                memory@.len() == MEMORY_SIZE,
                forall|a: int|
                    0 <= a < MEMORY_SIZE ==> #[trigger] memory@[a] == (if FONT_BASE <= a
                        < FONT_BASE + k {
                        FONT[a - FONT_BASE]
                    } else {
                        0u8
                    }),
            decreases 80 - k,
        {
            memory[FONT_BASE + k] = FONT[k];
            k += 1;
        }
        let cpu = Cpu {
            pixels: vec![false; SCREEN_WIDTH * SCREEN_HEIGHT],
            memory,
            stack: Vec::new(),
            v: vec![0u8; REGISTERS],
            i: 0,
            pc: PROGRAM_START,
            delay_timer: 0,
            sound_timer: 0,
            rng: thread_generator(),
            update_display: false,
        };
        assert(cpu@.pixels =~= Machine::initial().pixels);
        assert(cpu@.memory =~= Machine::initial().memory);
        assert(cpu@.v =~= Machine::initial().v);
        assert(cpu@.stack =~= Machine::initial().stack);
        cpu
    }

    /// Copies a program into memory, from `PROGRAM_START` on.
    ///
    /// A program that does not fit below the end of memory is refused with
    /// a memory fault that names the first address beyond memory; the
    /// machine is then unchanged.
    pub fn load_rom(&mut self, rom: &[u8]) -> (outcome: Result<(), Fault>)
        requires
            old(self)@.wf(),
        ensures
            final(self)@.wf(),
            rom@.len() <= MEMORY_SIZE - PROGRAM_START ==> outcome == Ok::<(), Fault>(())
                && final(self)@ == (Machine {
                memory: rom_loaded(old(self)@.memory, rom@),
                ..old(self)@
            }),
            rom@.len() > MEMORY_SIZE - PROGRAM_START ==> outcome == Err::<(), Fault>(
                Fault::Memory { pc: old(self)@.pc, address: MEMORY_SIZE },
            ) && final(self)@ == old(self)@,
    {
        let len = rom.len();
        if len > MEMORY_SIZE - PROGRAM_START {
            return Err(Fault::Memory { pc: self.pc, address: MEMORY_SIZE });
        }
        let mut k: usize = 0;
        while k < len
            invariant
                k <= len,
                len == rom@.len(),
                len <= MEMORY_SIZE - PROGRAM_START,
                self.memory@.len() == MEMORY_SIZE,
                self@ == (Machine { memory: self.memory@, ..old(self)@ }),
                forall|a: int|
                    0 <= a < MEMORY_SIZE ==> #[trigger] self.memory@[a] == (if PROGRAM_START <= a
                        < PROGRAM_START + k {
                        rom@[a - PROGRAM_START]
                    } else {
                        old(self)@.memory[a]
                    }),
            decreases len - k,
        {
            self.memory[PROGRAM_START + k] = rom[k];
            k += 1;
        }
        assert(self.memory@ =~= rom_loaded(old(self)@.memory, rom@));
        Ok(())
    }

    /// Lets the timer clock fire once: both timers go down by one, and a
    /// timer that is zero stays zero.
    pub fn decrement_timers(&mut self)
        ensures
            final(self)@ == timers_decremented(old(self)@),
    {
        if self.sound_timer > 0 {
            self.sound_timer -= 1;
        }
        if self.delay_timer > 0 {
            self.delay_timer -= 1;
        }
    }

    /// Fetches the word at the program counter and decodes it.
    ///
    /// The word must lie wholly in memory: a program counter on the last
    /// cell or beyond it gives a memory fault.
    pub fn decode(&self) -> (fetched: Result<Instruction, Fault>)
        requires
            self@.wf(),
        ensures
            self@.pc + 1 < MEMORY_SIZE ==> fetched == Ok::<Instruction, Fault>(
                decode(word_at(self@.memory, self@.pc as int)),
            ),
            self@.pc + 1 >= MEMORY_SIZE ==> fetched == Err::<Instruction, Fault>(
                Fault::Memory { pc: self@.pc, address: (self@.pc + 1) as usize },
            ),
    {
        if self.pc + 1 >= MEMORY_SIZE {
            return Err(Fault::Memory { pc: self.pc, address: self.pc + 1 });
        }
        let cells = vstd::slice::slice_subrange(self.memory.as_slice(), self.pc, self.pc + 2);
        Ok(Instruction::from(read_u16_be(cells)))
    }

    /// Draws the sprite of `ins` onto the screen and sets the flag register
    /// to whether a pixel was switched off by it.
    fn draw_sprite(&mut self, ins: Instruction)
        requires
            old(self)@.wf(),
            ins.wf(),
            ins.n == 0 || old(self)@.i + ins.n <= MEMORY_SIZE,
        ensures
            final(self)@ == (Machine {
                pixels: sprite_drawn(old(self)@, ins),
                v: old(self)@.v.update(
                    FLAG as int,
                    if sprite_collides(old(self)@, ins) {
                        1u8
                    } else {
                        0u8
                    },
                ),
                ..old(self)@
            }),
    {
        let ghost before = self@;
        let vx = self.v[ins.x];
        let vy = self.v[ins.y];
        let left = (vx & 63) as usize;
        let top = (vy & 31) as usize;
        let height = ins.n as usize;
        assert(vx & 63 == vx % 64) by (bit_vector);
        assert(vy & 31 == vy % 32) by (bit_vector);
        assert(left == sprite_left(before, ins));
        assert(top == sprite_top(before, ins));
        self.v[FLAG] = 0;
        let mut row: usize = 0;
        while row < height && top + row < SCREEN_HEIGHT
            invariant
                before.wf(),
                ins.wf(),
                before == old(self)@,
                height == ins.n,
                height == 0 || before.i + height <= MEMORY_SIZE,
                left == sprite_left(before, ins),
                top == sprite_top(before, ins),
                left < SCREEN_WIDTH,
                top < SCREEN_HEIGHT,
                row <= height,
                self@ == (Machine { pixels: self.pixels@, v: self.v@, ..before }),
                self.pixels@.len() == SCREEN_WIDTH * SCREEN_HEIGHT,
                self.v@ == before.v.update(
                    FLAG as int,
                    if sprite_collides_before(before, ins, 0, top + row) {
                        1u8
                    } else {
                        0u8
                    },
                ),
                forall|k: int|
                    0 <= k < SCREEN_WIDTH * SCREEN_HEIGHT ==> #[trigger] self.pixels@[k] == (
                    before.pixels[k] != sprite_hits_before(before, ins, k, 0, top + row)),
            decreases height - row,
        {
            let y = top + row;
            let sprite_byte = self.memory[self.i as usize + row];
            let mut col: usize = 0;
            proof {
                assert forall|k: int| #[trigger]
                    sprite_hits_before(before, ins, k, 0, y as int) == sprite_hits_before(
                        before,
                        ins,
                        k,
                        left as int,
                        y as int,
                    ) by {}
                lemma_collides_before_same(before, ins, 0, y as int, left as int, y as int);
            }
            while col < 8 && left + col < SCREEN_WIDTH
                invariant
                    before.wf(),
                    ins.wf(),
                    height == ins.n,
                    left == sprite_left(before, ins),
                    top == sprite_top(before, ins),
                    left < SCREEN_WIDTH,
                    y == top + row,
                    y < SCREEN_HEIGHT,
                    row < height,
                    before.i + row < MEMORY_SIZE,
                    sprite_byte == before.memory[before.i + row],
                    col <= 8,
                    self@ == (Machine { pixels: self.pixels@, v: self.v@, ..before }),
                    self.pixels@.len() == SCREEN_WIDTH * SCREEN_HEIGHT,
                    self.v@ == before.v.update(
                        FLAG as int,
                        if sprite_collides_before(before, ins, left + col, y as int) {
                            1u8
                        } else {
                            0u8
                        },
                    ),
                    forall|k: int|
                        0 <= k < SCREEN_WIDTH * SCREEN_HEIGHT ==> #[trigger] self.pixels@[k] == (
                        before.pixels[k] != sprite_hits_before(
                            before,
                            ins,
                            k,
                            left + col,
                            y as int,
                        )),
                decreases 8 - col,
            {
                let x = left + col;
                let index = y * SCREEN_WIDTH + x;
                let mask: u8 = 0x80u8 >> (col as u8);
                let lit = sprite_byte & mask != 0;
                proof {
                    lemma_sprite_bit(sprite_byte, col as u8);
                    assert(index / SCREEN_WIDTH == y && index % SCREEN_WIDTH == x);
                    assert(sprite_hits(before, ins, index as int) == lit);
                    assert forall|k: int| #[trigger]
                        sprite_hits_before(before, ins, k, x + 1, y as int) == (sprite_hits_before(
                            before,
                            ins,
                            k,
                            x as int,
                            y as int,
                        ) || (k == index && lit)) by {}
                }
                let ghost collided = sprite_collides_before(before, ins, x as int, y as int);
                if lit {
                    if self.pixels[index] {
                        self.pixels[index] = false;
                        self.v[FLAG] = 1;
                    } else {
                        self.pixels[index] = true;
                    }
                }
                proof {
                    let now = sprite_collides_before(before, ins, x + 1, y as int);
                    let here = lit && before.pixels[index as int];
                    if collided {
                        let k = choose|k: int| #[trigger]
                            sprite_hits_before(before, ins, k, x as int, y as int)
                                && before.pixels[k];
                        assert(sprite_hits_before(before, ins, k, x + 1, y as int));
                    }
                    if here {
                        assert(sprite_hits_before(before, ins, index as int, x + 1, y as int));
                    }
                    assert(now == (collided || here));
                }
                col += 1;
            }
            proof {
                assert forall|k: int| #[trigger]
                    sprite_hits_before(before, ins, k, left + col, y as int) == sprite_hits_before(
                        before,
                        ins,
                        k,
                        0,
                        y + 1,
                    ) by {}
                lemma_collides_before_same(before, ins, left + col, y as int, 0, y + 1);
            }
            row += 1;
        }
        proof {
            assert forall|k: int| #[trigger]
                sprite_hits_before(before, ins, k, 0, top + row) == sprite_hits(
                    before,
                    ins,
                    k,
                ) by {}
            let partial = sprite_collides_before(before, ins, 0, top + row);
            if partial {
                let k = choose|k: int| #[trigger]
                    sprite_hits_before(before, ins, k, 0, top + row) && before.pixels[k];
                assert(sprite_hits(before, ins, k));
            }
            if sprite_collides(before, ins) {
                let k = choose|k: int| #[trigger] sprite_hits(before, ins, k) && before.pixels[k];
                assert(sprite_hits_before(before, ins, k, 0, top + row));
            }
            assert(self.pixels@ =~= sprite_drawn(before, ins));
        }
    }

    /// Switches every pixel off.
    fn clear_pixels(&mut self)
        requires
            old(self)@.wf(),
        ensures
            final(self)@ == (Machine {
                pixels: Seq::new(old(self)@.pixels.len(), |k: int| false),
                ..old(self)@
            }),
    {
        let mut k: usize = 0;
        while k < SCREEN_WIDTH * SCREEN_HEIGHT
            invariant
                k <= SCREEN_WIDTH * SCREEN_HEIGHT,
                self.pixels@.len() == SCREEN_WIDTH * SCREEN_HEIGHT,
                self@ == (Machine { pixels: self.pixels@, ..old(self)@ }),
                forall|j: int| 0 <= j < k ==> !#[trigger] self.pixels@[j],
            decreases SCREEN_WIDTH * SCREEN_HEIGHT - k,
        {
            self.pixels[k] = false;
            k += 1;
        }
        assert(self.pixels@ =~= Seq::new(old(self)@.pixels.len(), |k: int| false));
    }

    /// Does the register-to-register instruction `ins`, and says whether
    /// its low nibble selected an operation.
    fn alu(&mut self, ins: Instruction) -> (defined: bool)
        requires
            old(self)@.wf(),
            ins.wf(),
        ensures
            match semantics::alu(old(self)@.v, ins) {
                Some(v) => defined && final(self)@ == (Machine { v, ..old(self)@ }),
                None => !defined && final(self)@ == old(self)@,
            },
    {
        let x = ins.x;
        let a = self.v[x];
        let b = self.v[ins.y];
        match ins.n {
            0x0 => {
                self.v[x] = b;
            },
            0x1 => {
                self.v[x] = a | b;
            },
            0x2 => {
                self.v[x] = a & b;
            },
            0x3 => {
                self.v[x] = a ^ b;
            },
            0x4 => {
                self.v[FLAG] = if a > 255 - b { 1 } else { 0 };
                self.v[x] = a.wrapping_add(b);
            },
            0x5 => {
                self.v[FLAG] = if a >= b { 1 } else { 0 };
                self.v[x] = a.wrapping_sub(b);
            },
            0x6 => {
                assert(a & 1 == a % 2) by (bit_vector);
                self.v[FLAG] = a & 1;
                let shifted = self.v[x];
                assert(shifted >> 1 == shifted / 2) by (bit_vector);
                self.v[x] = shifted >> 1;
            },
            0x7 => {
                self.v[FLAG] = if b >= a { 1 } else { 0 };
                self.v[x] = b.wrapping_sub(a);
            },
            0xE => {
                assert(a >> 7 == a / 128) by (bit_vector);
                self.v[FLAG] = a >> 7;
                let shifted = self.v[x];
                assert(shifted << 1 == (shifted * 2) % 256) by (bit_vector);
                self.v[x] = shifted << 1;
            },
            _ => {
                return false;
            },
        }
        true
    }

    /// Stores the three decimal digits of `value` at the index register
    /// and the two cells after it.
    fn store_digits(&mut self, value: u8)
        requires
            old(self)@.wf(),
            old(self)@.i + 2 < MEMORY_SIZE,
        ensures
            final(self)@ == (Machine {
                memory: digits_stored(old(self)@.memory, old(self)@.i as int, value),
                ..old(self)@
            }),
    {
        let i = self.i as usize;
        self.memory[i] = value / 100;
        self.memory[i + 1] = value % 100 / 10;
        self.memory[i + 2] = value % 10;
    }

    /// Stores registers V0 to V`x` in memory, from the index register on.
    fn store_registers(&mut self, x: usize)
        requires
            old(self)@.wf(),
            x < REGISTERS,
            old(self)@.i + x < MEMORY_SIZE,
        ensures
            final(self)@ == (Machine {
                memory: registers_stored(
                    old(self)@.memory,
                    old(self)@.v,
                    old(self)@.i as int,
                    x as int,
                ),
                ..old(self)@
            }),
    {
        let i = self.i as usize;
        let mut reg: usize = 0;
        while reg <= x
            invariant
                reg <= x + 1,
                x < REGISTERS,
                i == old(self)@.i,
                i + x < MEMORY_SIZE,
                self.memory@.len() == MEMORY_SIZE,
                self.v@.len() == REGISTERS,
                self@ == (Machine { memory: self.memory@, ..old(self)@ }),
                self.memory@ =~= registers_stored(
                    old(self)@.memory,
                    old(self)@.v,
                    i as int,
                    reg - 1,
                ),
            decreases x + 1 - reg,
        {
            self.memory[i + reg] = self.v[reg];
            reg += 1;
        }
    }

    /// Loads registers V0 to V`x` from memory, from the index register on.
    fn load_registers(&mut self, x: usize)
        requires
            old(self)@.wf(),
            x < REGISTERS,
            old(self)@.i + x < MEMORY_SIZE,
        ensures
            final(self)@ == (Machine {
                v: registers_loaded(
                    old(self)@.memory,
                    old(self)@.v,
                    old(self)@.i as int,
                    x as int,
                ),
                ..old(self)@
            }),
    {
        let i = self.i as usize;
        let mut reg: usize = 0;
        while reg <= x
            invariant
                reg <= x + 1,
                x < REGISTERS,
                i == old(self)@.i,
                i + x < MEMORY_SIZE,
                self.memory@.len() == MEMORY_SIZE,
                self.v@.len() == REGISTERS,
                self@ == (Machine { v: self.v@, ..old(self)@ }),
                self.v@ =~= registers_loaded(
                    old(self)@.memory,
                    old(self)@.v,
                    i as int,
                    reg - 1,
                ),
            decreases x + 1 - reg,
        {
            self.v[reg] = self.memory[i + reg];
            reg += 1;
        }
    }

    /// Does the sprite instruction `ins`.
    fn run_draw(&mut self, ins: Instruction) -> (outcome: Result<(), Fault>)
        requires
            old(self)@.wf(),
            ins.wf(),
            old(self)@.pc + 1 < MEMORY_SIZE,
        ensures
            final(self)@.wf(),
            settles(old(self)@, semantics::draw(old(self)@, ins), final(self)@, outcome),
    {
        let pc = self.pc;
        let rows = ins.n as usize;
        if rows > 0 && self.i as usize + rows > MEMORY_SIZE {
            return Err(Fault::Memory { pc, address: self.i as usize + rows - 1 });
        }
        self.draw_sprite(ins);
        self.update_display = true;
        self.pc = pc + 2;
        Ok(())
    }

    /// Does the instruction `ins` of the timer, keypad and memory family.
    fn run_misc(&mut self, ins: Instruction, keys: &[bool; 16]) -> (outcome: Result<(), Fault>)
        requires
            old(self)@.wf(),
            ins.wf(),
            old(self)@.pc + 1 < MEMORY_SIZE,
        ensures
            final(self)@.wf(),
            settles(old(self)@, semantics::misc(old(self)@, ins, keys@), final(self)@, outcome),
    {
        let pc = self.pc;
        let next = pc + 2;
        let x = ins.x;
        let vx = self.v[x];
        match ins.nn {
            0x07 => {
                self.v[x] = self.delay_timer;
                self.pc = next;
            },
            0x0A => match highest_key(keys) {
                Some(key) => {
                    self.v[x] = key;
                    self.pc = next;
                },
                None => {},
            },
            0x15 => {
                self.delay_timer = vx;
                self.pc = next;
            },
            0x18 => {
                self.sound_timer = vx;
                self.pc = next;
            },
            0x1E => {
                self.i = self.i.wrapping_add(vx as u16);
                self.pc = next;
            },
            0x29 => {
                let glyph = GLYPH_SIZE as u16;
                assert(glyph == 5);
                self.i = FONT_BASE as u16 + vx as u16 * glyph;
                self.pc = next;
            },
            0x33 => {
                if self.i as usize + 2 >= MEMORY_SIZE {
                    return Err(Fault::Memory { pc, address: self.i as usize + 2 });
                }
                self.store_digits(vx);
                self.pc = next;
            },
            0x55 => {
                if self.i as usize + x >= MEMORY_SIZE {
                    return Err(Fault::Memory { pc, address: self.i as usize + x });
                }
                self.store_registers(x);
                self.pc = next;
            },
            0x65 => {
                if self.i as usize + x >= MEMORY_SIZE {
                    return Err(Fault::Memory { pc, address: self.i as usize + x });
                }
                self.load_registers(x);
                self.pc = next;
            },
            _ => {
                return Err(Fault::Decode { pc, opcode: ins.full });
            },
        }
        Ok(())
    }

    /// Does the instruction `ins` of the screen and return family (top
    /// nibble `0x0`).
    fn run_system(&mut self, ins: Instruction) -> (outcome: Result<(), Fault>)
        requires
            old(self)@.wf(),
            ins.wf(),
            ins.op == 0x0,
            old(self)@.pc + 1 < MEMORY_SIZE,
        ensures
            final(self)@.wf(),
            forall|keys: Seq<bool>, random: u8|
                settles(
                    old(self)@,
                    #[trigger] semantics::execute(old(self)@, ins, keys, random),
                    final(self)@,
                    outcome,
                ),
    {
        let pc = self.pc;
        match ins.nn {
            0xE0 => {
                self.clear_pixels();
                self.update_display = true;
                self.pc = pc + 2;
                Ok(())
            },
            0xEE => match self.stack.pop() {
                Some(target) => {
                    assert(self.stack@ =~= old(self)@.stack.drop_last());
                    assert(target == old(self)@.stack[old(self)@.stack.len() - 1]);
                    self.pc = target;
                    Ok(())
                },
                None => Err(Fault::StackUnderflow { pc }),
            },
            _ => Err(Fault::Decode { pc, opcode: ins.full }),
        }
    }

    /// Executes the instruction `ins`, taken to stand at the program
    /// counter, with `keys` as the state of the keypad and `random` as the
    /// byte that the random instruction uses.
    ///
    /// On a fault the machine is left as it was.
    pub fn execute(&mut self, ins: Instruction, keys: &[bool; 16], random: u8) -> (outcome: Result<
        (),
        Fault,
    >)
        requires
            old(self)@.wf(),
            ins.wf(),
        ensures
            final(self)@.wf(),
            settles(
                old(self)@,
                semantics::execute(old(self)@, ins, keys@, random),
                final(self)@,
                outcome,
            ),
    {
        let pc = self.pc;
        if pc + 1 >= MEMORY_SIZE {
            return Err(Fault::Memory { pc, address: pc + 1 });
        }
        let next = pc + 2;
        let undefined = Err(Fault::Decode { pc, opcode: ins.full });
        let x = ins.x;
        let vx = self.v[x];
        let vy = self.v[ins.y];
        match ins.op {
            0x0 => {
                return self.run_system(ins);
            },
            0x1 => {
                self.pc = ins.nnn as usize;
            },
            0x2 => {
                self.stack.push(next);
                self.pc = ins.nnn as usize;
            },
            0x3 => {
                self.pc = if vx == ins.nn { next + 2 } else { next };
            },
            0x4 => {
                self.pc = if vx != ins.nn { next + 2 } else { next };
            },
            0x5 => {
                if ins.n != 0 {
                    return undefined;
                }
                self.pc = if vx == vy { next + 2 } else { next };
            },
            0x6 => {
                self.v[x] = ins.nn;
                self.pc = next;
            },
            0x7 => {
                self.v[x] = vx.wrapping_add(ins.nn);
                self.pc = next;
            },
            0x8 => {
                if !self.alu(ins) {
                    return undefined;
                }
                self.pc = next;
            },
            0x9 => {
                if ins.n != 0 {
                    return undefined;
                }
                self.pc = if vx != vy { next + 2 } else { next };
            },
            0xA => {
                self.i = ins.nnn;
                self.pc = next;
            },
            0xB => {
                self.pc = ins.nnn as usize + self.v[0] as usize;
            },
            0xC => {
                self.v[x] = random & ins.nn;
                self.pc = next;
            },
            0xD => {
                return self.run_draw(ins);
            },
            0xE => {
                let pressed = (vx as usize) < KEYS && keys[vx as usize];
                match ins.nn {
                    0x9E => {
                        self.pc = if pressed { next + 2 } else { next };
                    },
                    0xA1 => {
                        self.pc = if !pressed { next + 2 } else { next };
                    },
                    _ => {
                        return undefined;
                    },
                }
            },
            0xF => {
                return self.run_misc(ins, keys);
            },
            _ => {
                return undefined;
            },
        }
        Ok(())
    }

    /// Runs one instruction: fetches the word at the program counter,
    /// decodes it and executes it. The random instruction draws its byte
    /// from the machine's generator.
    ///
    /// On a fault the machine is left as it was.
    pub fn tick(&mut self, keys: &[bool; 16]) -> (outcome: Result<(), Fault>)
        requires
            old(self)@.wf(),
        ensures
            final(self)@.wf(),
            exists|random: u8| #[trigger]
                settles(old(self)@, step(old(self)@, keys@, random), final(self)@, outcome),
            decode(word_at(old(self)@.memory, old(self)@.pc as int)).op != 0xC ==> settles(
                old(self)@,
                step(old(self)@, keys@, 0),
                final(self)@,
                outcome,
            ),
    {
        let ghost before = self@;
        match self.decode() {
            Ok(ins) => {
                let random = if ins.op == 0xC {
                    random_byte(&mut self.rng)
                } else {
                    0
                };
                assert(self@ == before);
                let outcome = self.execute(ins, keys, random);
                assert(settles(before, step(before, keys@, random), self@, outcome));
                outcome
            },
            Err(fault) => {
                assert(settles(before, step(before, keys@, 0), self@, Err::<(), Fault>(fault)));
                Err(fault)
            },
        }
    }

    /// The screen, row by row: the pixel in column `x` of row `y` is at
    /// index `y * 64 + x`.
    pub fn pixels(&self) -> (pixels: &Vec<bool>)
        ensures
            pixels@ == self@.pixels,
    {
        &self.pixels
    }

    /// Whether the pixel in column `x` of row `y` is on.
    pub fn pixel(&self, x: usize, y: usize) -> (on: bool)
        requires
            self@.wf(),
            x < SCREEN_WIDTH,
            y < SCREEN_HEIGHT,
        ensures
            on == self@.pixel(x as int, y as int),
    {
        self.pixels[y * SCREEN_WIDTH + x]
    }

    /// Whether the screen changed since the flag was last reset.
    pub fn update_display(&self) -> (dirty: bool)
        ensures
            dirty == self@.update_display,
    {
        self.update_display
    }

    /// Sets the flag that says whether the screen changed; the renderer
    /// resets it once it has shown the screen.
    pub fn set_update_display(&mut self, dirty: bool)
        ensures
            final(self)@ == (Machine { update_display: dirty, ..old(self)@ }),
    {
        self.update_display = dirty;
    }

    /// The memory cells.
    pub fn memory(&self) -> (memory: &Vec<u8>)
        ensures
            memory@ == self@.memory,
    {
        &self.memory
    }

    /// The return addresses, the most recent call last.
    pub fn stack(&self) -> (stack: &Vec<usize>)
        ensures
            stack@ == self@.stack,
    {
        &self.stack
    }

    /// The value of register `x`.
    pub fn register(&self, x: usize) -> (value: u8)
        requires
            self@.wf(),
            x < REGISTERS,
        ensures
            value == self@.v[x as int],
    {
        self.v[x]
    }

    /// The index register.
    pub fn index(&self) -> (i: u16)
        ensures
            i == self@.i,
    {
        self.i
    }

    /// The address of the next instruction.
    pub fn pc(&self) -> (pc: usize)
        ensures
            pc == self@.pc,
    {
        self.pc
    }

    /// The delay timer.
    pub fn delay_timer(&self) -> (value: u8)
        ensures
            value == self@.delay_timer,
    {
        self.delay_timer
    }

    /// The sound timer; the host sounds a tone while it is not zero.
    pub fn sound_timer(&self) -> (value: u8)
        ensures
            value == self@.sound_timer,
    {
        self.sound_timer
    }
}

} // verus!
