//! The meaning of every instruction, as a function from the state before to
//! the state after or to the fault that stops the machine.

use vstd::prelude::*;
use crate::fault::Fault;
use crate::instruction::{decode, Instruction};
use crate::machine::{Machine, FLAG, FONT_BASE, GLYPH_SIZE, MEMORY_SIZE, PROGRAM_START};
use crate::sprite::{sprite_collides, sprite_drawn};

verus! {

/// The index of the highest key that is pressed, if any is.
pub open spec fn highest_pressed(keys: Seq<bool>) -> Option<int>
    decreases keys.len(),
{
    if keys.len() == 0 {
        None
    } else if keys.last() {
        Some(keys.len() - 1)
    } else {
        highest_pressed(keys.drop_last())
    }
}

/// Whether key number `k` is pressed. A number beyond the keypad names no
/// key, and so none that is pressed.
pub open spec fn key_down(keys: Seq<bool>, k: int) -> bool {
    0 <= k < keys.len() && keys[k]
}

/// The registers after an arithmetic instruction: the flag is stored
/// first, the result second, so where `x` is the flag register the result
/// is what stays.
pub open spec fn flag_then_result(v: Seq<u8>, x: int, flag: u8, result: u8) -> Seq<u8> {
    v.update(FLAG as int, flag).update(x, result)
}

/// The registers after the register-to-register instruction `ins`, or
/// `None` where its low nibble selects no operation.
///
/// The shifts read `Vx` after the flag is stored: where `x` is the flag
/// register, it is the flag that is shifted.
pub open spec fn alu(v: Seq<u8>, ins: Instruction) -> Option<Seq<u8>> {
    let x = ins.x as int;
    let a = v[x];
    let b = v[ins.y as int];
    if ins.n == 0x0 {
        Some(v.update(x, b))
    } else if ins.n == 0x1 {
        Some(v.update(x, a | b))
    } else if ins.n == 0x2 {
        Some(v.update(x, a & b))
    } else if ins.n == 0x3 {
        Some(v.update(x, a ^ b))
    } else if ins.n == 0x4 {
        Some(flag_then_result(v, x, if a + b > 255 { 1u8 } else { 0u8 }, ((a + b) % 256) as u8))
    } else if ins.n == 0x5 {
        Some(flag_then_result(v, x, if a >= b { 1u8 } else { 0u8 }, ((a - b) % 256) as u8))
    } else if ins.n == 0x6 {
        let flagged = v.update(FLAG as int, a % 2);
        Some(flagged.update(x, flagged[x] / 2))
    } else if ins.n == 0x7 {
        Some(flag_then_result(v, x, if b >= a { 1u8 } else { 0u8 }, ((b - a) % 256) as u8))
    } else if ins.n == 0xE {
        let flagged = v.update(FLAG as int, a / 128);
        Some(flagged.update(x, ((flagged[x] * 2) % 256) as u8))
    } else {
        None
    }
}

/// The memory after registers V0 to V`x` are stored from address `i` on.
pub open spec fn registers_stored(memory: Seq<u8>, v: Seq<u8>, i: int, x: int) -> Seq<u8> {
    Seq::new(
        memory.len(),
        |a: int|
            if i <= a <= i + x {
                v[a - i]
            } else {
                memory[a]
            },
    )
}

/// The registers after V0 to V`x` are loaded from address `i` on.
pub open spec fn registers_loaded(memory: Seq<u8>, v: Seq<u8>, i: int, x: int) -> Seq<u8> {
    Seq::new(
        v.len(),
        |r: int|
            if r <= x {
                memory[i + r]
            } else {
                v[r]
            },
    )
}

/// The memory after the three decimal digits of `value` are stored at `i`,
/// `i + 1` and `i + 2`, hundreds first.
pub open spec fn digits_stored(memory: Seq<u8>, i: int, value: u8) -> Seq<u8> {
    memory.update(i, value / 100).update(i + 1, (value / 10) % 10).update(i + 2, value % 10)
}

/// What the instructions of the timer, keypad and memory family do (top
/// nibble `0xF`).
pub open spec fn misc(s: Machine, ins: Instruction, keys: Seq<bool>) -> Result<Machine, Fault> {
    let x = ins.x as int;
    let vx = s.v[x];
    let next = s.moved(2);
    if ins.nn == 0x07 {
        Ok(next.with_register(x, s.delay_timer))
    } else if ins.nn == 0x0A {
        match highest_pressed(keys) {
            Some(k) => Ok(next.with_register(x, k as u8)),
            None => Ok(s),
        }
    } else if ins.nn == 0x15 {
        Ok(Machine { delay_timer: vx, ..next })
    } else if ins.nn == 0x18 {
        Ok(Machine { sound_timer: vx, ..next })
    } else if ins.nn == 0x1E {
        Ok(next.with_index(((s.i + vx) % 0x10000) as u16))
    } else if ins.nn == 0x29 {
        Ok(next.with_index((FONT_BASE + vx * GLYPH_SIZE) as u16))
    } else if ins.nn == 0x33 {
        if s.i + 2 >= MEMORY_SIZE {
            Err(Fault::Memory { pc: s.pc, address: (s.i + 2) as usize })
        } else {
            Ok(Machine { memory: digits_stored(s.memory, s.i as int, vx), ..next })
        }
    } else if ins.nn == 0x55 {
        if s.i + x >= MEMORY_SIZE {
            Err(Fault::Memory { pc: s.pc, address: (s.i + x) as usize })
        } else {
            Ok(Machine { memory: registers_stored(s.memory, s.v, s.i as int, x), ..next })
        }
    } else if ins.nn == 0x65 {
        if s.i + x >= MEMORY_SIZE {
            Err(Fault::Memory { pc: s.pc, address: (s.i + x) as usize })
        } else {
            Ok(Machine { v: registers_loaded(s.memory, s.v, s.i as int, x), ..next })
        }
    } else {
        Err(Fault::Decode { pc: s.pc, opcode: ins.full })
    }
}

/// What the sprite instruction does (top nibble `0xD`).
///
/// The sprite's rows are read from memory at `I` to `I + n - 1`. All of
/// them must lie in memory, also those that are clipped.
pub open spec fn draw(s: Machine, ins: Instruction) -> Result<Machine, Fault> {
    if ins.n > 0 && s.i + ins.n > MEMORY_SIZE {
        Err(Fault::Memory { pc: s.pc, address: (s.i + ins.n - 1) as usize })
    } else {
        Ok(
            Machine {
                pixels: sprite_drawn(s, ins),
                v: s.v.update(
                    FLAG as int,
                    if sprite_collides(s, ins) {
                        1u8
                    } else {
                        0u8
                    },
                ),
                update_display: true,
                ..s.moved(2)
            },
        )
    }
}

/// What the machine in state `s` does with the instruction `ins`, where
/// `s.pc` is the address the instruction was fetched from, `keys` says
/// which keys are pressed and `random` is the byte drawn for it.
///
/// An instruction lies in two cells, so an address on the last cell of
/// memory or beyond it holds none: that is a memory fault. Otherwise the
/// program counter first moves past the instruction; jumps, calls, returns
/// and skips then set it anew.
pub open spec fn execute(s: Machine, ins: Instruction, keys: Seq<bool>, random: u8) -> Result<
    Machine,
    Fault,
> {
    let x = ins.x as int;
    let y = ins.y as int;
    let vx = s.v[x];
    let vy = s.v[y];
    let next = s.moved(2);
    let undefined = Err(Fault::Decode { pc: s.pc, opcode: ins.full });
    if s.pc + 1 >= MEMORY_SIZE {
        Err(Fault::Memory { pc: s.pc, address: (s.pc + 1) as usize })
    } else if ins.op == 0x0 {
        if ins.nn == 0xE0 {
            Ok(
                Machine {
                    pixels: Seq::new(s.pixels.len(), |k: int| false),
                    update_display: true,
                    ..next
                },
            )
        } else if ins.nn == 0xEE {
            if s.stack.len() == 0 {
                Err(Fault::StackUnderflow { pc: s.pc })
            } else {
                Ok(Machine { pc: s.stack.last(), stack: s.stack.drop_last(), ..s })
            }
        } else {
            undefined
        }
    } else if ins.op == 0x1 {
        Ok(s.at(ins.nnn as int))
    } else if ins.op == 0x2 {
        Ok(Machine { stack: s.stack.push(next.pc), ..s.at(ins.nnn as int) })
    } else if ins.op == 0x3 {
        Ok(s.moved(if vx == ins.nn { 4 } else { 2 }))
    } else if ins.op == 0x4 {
        Ok(s.moved(if vx != ins.nn { 4 } else { 2 }))
    } else if ins.op == 0x5 {
        if ins.n == 0 {
            Ok(s.moved(if vx == vy { 4 } else { 2 }))
        } else {
            undefined
        }
    } else if ins.op == 0x6 {
        Ok(next.with_register(x, ins.nn))
    } else if ins.op == 0x7 {
        Ok(next.with_register(x, ((vx + ins.nn) % 256) as u8))
    } else if ins.op == 0x8 {
        match alu(s.v, ins) {
            Some(v) => Ok(Machine { v, ..next }),
            None => undefined,
        }
    } else if ins.op == 0x9 {
        if ins.n == 0 {
            Ok(s.moved(if vx != vy { 4 } else { 2 }))
        } else {
            undefined
        }
    } else if ins.op == 0xA {
        Ok(next.with_index(ins.nnn))
    } else if ins.op == 0xB {
        Ok(s.at(ins.nnn + s.v[0]))
    } else if ins.op == 0xC {
        Ok(next.with_register(x, random & ins.nn))
    } else if ins.op == 0xD {
        draw(s, ins)
    } else if ins.op == 0xE {
        if ins.nn == 0x9E {
            Ok(s.moved(if key_down(keys, vx as int) { 4 } else { 2 }))
        } else if ins.nn == 0xA1 {
            Ok(s.moved(if !key_down(keys, vx as int) { 4 } else { 2 }))
        } else {
            undefined
        }
    } else if ins.op == 0xF {
        misc(s, ins, keys)
    } else {
        undefined
    }
}

/// The word stored big-endian at `address` and the cell after it.
pub open spec fn word_at(memory: Seq<u8>, address: int) -> u16 {
    (memory[address] * 256 + memory[address + 1]) as u16
}

/// One step of the machine: fetch the word at the program counter, decode
/// it, and do what it says.
pub open spec fn step(s: Machine, keys: Seq<bool>, random: u8) -> Result<Machine, Fault> {
    execute(s, decode(word_at(s.memory, s.pc as int)), keys, random)
}

/// The timers after the timer clock has fired once: each is one less, and
/// one that is zero stays zero.
pub open spec fn timers_decremented(s: Machine) -> Machine {
    Machine {
        delay_timer: if s.delay_timer > 0 { (s.delay_timer - 1) as u8 } else { 0u8 },
        sound_timer: if s.sound_timer > 0 { (s.sound_timer - 1) as u8 } else { 0u8 },
        ..s
    }
}

/// The memory after `rom` is copied to `PROGRAM_START` and the cells after
/// it.
pub open spec fn rom_loaded(memory: Seq<u8>, rom: Seq<u8>) -> Seq<u8> {
    Seq::new(
        memory.len(),
        |a: int|
            if PROGRAM_START <= a < PROGRAM_START + rom.len() {
                rom[a - PROGRAM_START]
            } else {
                memory[a]
            },
    )
}

} // verus!
