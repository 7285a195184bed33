//! What holds of the instruction semantics on every state.
//!
//! Each law speaks of `execute` on a well-formed state whose program
//! counter leaves room for an instruction, which is what a fetch
//! guarantees.

use vstd::prelude::*;
use crate::instruction::Instruction;
use crate::machine::{Machine, FLAG, MEMORY_SIZE, SCREEN_HEIGHT, SCREEN_WIDTH};
use crate::semantics::{draw, execute, highest_pressed, key_down};
use crate::sprite::{sprite_collides, sprite_hits};

verus! {

/// Whether `ins` can be executed in state `s`: both are well formed, and
/// the two cells at the program counter lie in memory.
pub open spec fn runnable(s: Machine, ins: Instruction) -> bool {
    &&& s.wf()
    &&& ins.wf()
    &&& s.pc + 1 < MEMORY_SIZE
}

/// An instruction that executes leaves a well-formed state.
pub proof fn lemma_execute_keeps_wf(s: Machine, ins: Instruction, keys: Seq<bool>, random: u8)
    requires
        runnable(s, ins),
        execute(s, ins, keys, random) is Ok,
    ensures
        execute(s, ins, keys, random)->Ok_0.wf(),
{
}

/// Only the random instruction depends on the random byte.
pub proof fn lemma_random_byte_is_local(
    s: Machine,
    ins: Instruction,
    keys: Seq<bool>,
    random: u8,
    other: u8,
)
    requires
        ins.op != 0xC,
    ensures
        execute(s, ins, keys, random) == execute(s, ins, keys, other),
{
}

/// The screen changes only by clearing and by drawing: every other
/// instruction leaves each pixel and the display flag as they were.
pub proof fn lemma_screen_changes_only_by_clear_and_draw(
    s: Machine,
    ins: Instruction,
    keys: Seq<bool>,
    random: u8,
)
    requires
        runnable(s, ins),
        execute(s, ins, keys, random) is Ok,
        ins.op != 0x0,
        ins.op != 0xD,
    ensures
        execute(s, ins, keys, random)->Ok_0.pixels == s.pixels,
        execute(s, ins, keys, random)->Ok_0.update_display == s.update_display,
{
}

/// Memory changes only by storing digits and storing registers: every
/// other instruction leaves each cell as it was.
pub proof fn lemma_memory_changes_only_by_stores(
    s: Machine,
    ins: Instruction,
    keys: Seq<bool>,
    random: u8,
)
    requires
        runnable(s, ins),
        execute(s, ins, keys, random) is Ok,
        !(ins.op == 0xF && (ins.nn == 0x33 || ins.nn == 0x55)),
    ensures
        execute(s, ins, keys, random)->Ok_0.memory == s.memory,
{
}

/// No instruction touches the timers but the two that set them.
pub proof fn lemma_timers_change_only_by_sets(
    s: Machine,
    ins: Instruction,
    keys: Seq<bool>,
    random: u8,
)
    requires
        runnable(s, ins),
        execute(s, ins, keys, random) is Ok,
        !(ins.op == 0xF && (ins.nn == 0x15 || ins.nn == 0x18)),
    ensures
        execute(s, ins, keys, random)->Ok_0.delay_timer == s.delay_timer,
        execute(s, ins, keys, random)->Ok_0.sound_timer == s.sound_timer,
{
}

/// Add with carry (`8XY4`): `Vx` becomes the sum modulo 256, and the flag
/// register becomes 1 where the sum is over 255 and 0 where it is not.
/// Nothing else changes but the program counter, which moves on by 2.
///
/// Where `x` is the flag register itself the sum overwrites the flag, so
/// that case is left out.
pub proof fn lemma_add_with_carry(s: Machine, ins: Instruction, keys: Seq<bool>, random: u8)
    requires
        runnable(s, ins),
        ins.op == 0x8,
        ins.n == 0x4,
        ins.x != FLAG,
    ensures
        execute(s, ins, keys, random) is Ok,
        ({
            let after = execute(s, ins, keys, random)->Ok_0;
            let a = s.v[ins.x as int];
            let b = s.v[ins.y as int];
            &&& after.v[ins.x as int] == (a + b) % 256
            &&& after.v[FLAG as int] == (if a + b > 255 { 1int } else { 0int })
            &&& forall|r: int|
                0 <= r < 16 && r != ins.x && r != FLAG ==> after.v[r] == s.v[r]
            &&& after == Machine { v: after.v, ..s.moved(2) }
        }),
{
}

/// Subtract (`8XY5`): `Vx` becomes the difference modulo 256, and the flag
/// register becomes 1 where nothing was borrowed, that is where `Vx` was
/// at least `Vy`, and 0 where it was less. Nothing else changes but the
/// program counter, which moves on by 2.
///
/// Where `x` is the flag register itself the difference overwrites the
/// flag, so that case is left out.
pub proof fn lemma_subtract(s: Machine, ins: Instruction, keys: Seq<bool>, random: u8)
    requires
        runnable(s, ins),
        ins.op == 0x8,
        ins.n == 0x5,
        ins.x != FLAG,
    ensures
        execute(s, ins, keys, random) is Ok,
        ({
            let after = execute(s, ins, keys, random)->Ok_0;
            let a = s.v[ins.x as int];
            let b = s.v[ins.y as int];
            &&& after.v[ins.x as int] == (a - b) % 256
            &&& after.v[FLAG as int] == (if a >= b { 1int } else { 0int })
            &&& forall|r: int|
                0 <= r < 16 && r != ins.x && r != FLAG ==> after.v[r] == s.v[r]
            &&& after == Machine { v: after.v, ..s.moved(2) }
        }),
{
}

/// Clear screen (`00E0`): afterwards every pixel is off, whatever the
/// screen showed before.
pub proof fn lemma_clear_screen(s: Machine, ins: Instruction, keys: Seq<bool>, random: u8)
    requires
        runnable(s, ins),
        ins.op == 0x0,
        ins.nn == 0xE0,
    ensures
        execute(s, ins, keys, random) is Ok,
        ({
            let after = execute(s, ins, keys, random)->Ok_0;
            &&& forall|x: int, y: int|
                0 <= x < SCREEN_WIDTH && 0 <= y < SCREEN_HEIGHT ==> !#[trigger] after.pixel(x, y)
            &&& forall|k: int| 0 <= k < after.pixels.len() ==> !#[trigger] after.pixels[k]
            &&& after.update_display
            &&& after.pc == s.pc + 2
        }),
{
    let after = execute(s, ins, keys, random)->Ok_0;
    assert forall|x: int, y: int|
        0 <= x < SCREEN_WIDTH && 0 <= y < SCREEN_HEIGHT implies !#[trigger] after.pixel(x, y) by {
        assert(0 <= y * SCREEN_WIDTH + x < SCREEN_WIDTH * SCREEN_HEIGHT) by (nonlinear_arith)
            requires
                0 <= x < SCREEN_WIDTH,
                0 <= y < SCREEN_HEIGHT,
        ;
    }
}

/// Set register (`6XNN`): `Vx` becomes `nn`, the program counter moves on
/// by exactly 2, and nothing else changes.
pub proof fn lemma_set_register(s: Machine, ins: Instruction, keys: Seq<bool>, random: u8)
    requires
        runnable(s, ins),
        ins.op == 0x6,
    ensures
        execute(s, ins, keys, random) == Ok::<Machine, crate::fault::Fault>(
            Machine { v: s.v.update(ins.x as int, ins.nn), pc: (s.pc + 2) as usize, ..s },
        ),
{
}

/// Jump (`1NNN`): the program counter becomes `nnn`, whatever it was, and
/// nothing else changes.
pub proof fn lemma_jump(s: Machine, ins: Instruction, keys: Seq<bool>, random: u8)
    requires
        runnable(s, ins),
        ins.op == 0x1,
    ensures
        execute(s, ins, keys, random) == Ok::<Machine, crate::fault::Fault>(
            Machine { pc: ins.nnn as usize, ..s },
        ),
{
}

/// What `highest_pressed` finds: nothing exactly where no key is pressed,
/// and otherwise a pressed key above which none is pressed.
pub proof fn lemma_highest_pressed(keys: Seq<bool>)
    ensures
        match highest_pressed(keys) {
            Some(k) => key_down(keys, k) && forall|j: int| k < j < keys.len() ==> !keys[j],
            None => forall|j: int| 0 <= j < keys.len() ==> !keys[j],
        },
    decreases keys.len(),
{
    if keys.len() > 0 && !keys.last() {
        lemma_highest_pressed(keys.drop_last());
        match highest_pressed(keys.drop_last()) {
            Some(k) => {
                assert(keys.drop_last()[k] == keys[k]);
                assert forall|j: int| k < j < keys.len() implies !keys[j] by {
                    if j < keys.len() - 1 {
                        assert(keys.drop_last()[j] == keys[j]);
                    }
                }
            },
            None => {
                assert forall|j: int| 0 <= j < keys.len() implies !keys[j] by {
                    if j < keys.len() - 1 {
                        assert(keys.drop_last()[j] == keys[j]);
                    }
                }
            },
        }
    }
}

/// Wait for a key (`FX0A`) with no key pressed: the machine stays exactly
/// as it is, so the same instruction is executed again at the next step.
pub proof fn lemma_wait_without_key(s: Machine, ins: Instruction, keys: Seq<bool>, random: u8)
    requires
        runnable(s, ins),
        ins.op == 0xF,
        ins.nn == 0x0A,
        forall|k: int| 0 <= k < keys.len() ==> !keys[k],
    ensures
        execute(s, ins, keys, random) == Ok::<Machine, crate::fault::Fault>(s),
{
    lemma_highest_pressed(keys);
}

/// Wait for a key (`FX0A`) with a key pressed: `Vx` becomes the number of
/// a pressed key, the highest one, and the program counter moves on by 2.
/// Nothing else changes.
pub proof fn lemma_wait_with_key(
    s: Machine,
    ins: Instruction,
    keys: Seq<bool>,
    random: u8,
    pressed: int,
)
    requires
        runnable(s, ins),
        ins.op == 0xF,
        ins.nn == 0x0A,
        keys.len() == 16,
        key_down(keys, pressed),
    ensures
        execute(s, ins, keys, random) is Ok,
        ({
            let after = execute(s, ins, keys, random)->Ok_0;
            let key = after.v[ins.x as int] as int;
            &&& key_down(keys, key)
            &&& pressed <= key
            &&& forall|j: int| key < j < keys.len() ==> !keys[j]
            &&& after.pc == s.pc + 2
            &&& after == Machine { v: s.v.update(ins.x as int, key as u8), ..s.moved(2) }
        }),
{
    lemma_highest_pressed(keys);
}

/// Decimal digits (`FX33`): the three cells from the index register on
/// hold the hundreds, tens and units of `Vx`. Each is a digit, and
/// together they make up `Vx` again.
pub proof fn lemma_decimal_digits(s: Machine, ins: Instruction, keys: Seq<bool>, random: u8)
    requires
        runnable(s, ins),
        ins.op == 0xF,
        ins.nn == 0x33,
        s.i + 2 < MEMORY_SIZE,
    ensures
        execute(s, ins, keys, random) is Ok,
        ({
            let after = execute(s, ins, keys, random)->Ok_0;
            let hundreds = after.memory[s.i as int];
            let tens = after.memory[s.i + 1];
            let units = after.memory[s.i + 2];
            &&& hundreds <= 2 && tens <= 9 && units <= 9
            &&& hundreds * 100 + tens * 10 + units == s.v[ins.x as int]
            &&& forall|a: int|
                0 <= a < MEMORY_SIZE && !(s.i <= a <= s.i + 2) ==> after.memory[a] == s.memory[a]
        }),
{
}

/// Store then load (`FX55`, then `FX65` with the same `x`): where the
/// memory and the index register are not touched in between, the load
/// gives registers V0 to V`x` the values they had at the store, whatever
/// they held in between.
pub proof fn lemma_store_then_load(
    s: Machine,
    store: Instruction,
    between: Machine,
    load: Instruction,
    keys: Seq<bool>,
    random: u8,
)
    requires
        runnable(s, store),
        store.op == 0xF,
        store.nn == 0x55,
        execute(s, store, keys, random) is Ok,
        runnable(between, load),
        load.op == 0xF,
        load.nn == 0x65,
        load.x == store.x,
        between.memory == execute(s, store, keys, random)->Ok_0.memory,
        between.i == execute(s, store, keys, random)->Ok_0.i,
    ensures
        execute(between, load, keys, random) is Ok,
        forall|r: int|
            0 <= r <= store.x ==> execute(between, load, keys, random)->Ok_0.v[r] == s.v[r],
        forall|r: int|
            store.x < r < 16 ==> execute(between, load, keys, random)->Ok_0.v[r] == between.v[r],
{
}

/// Drawing is its own inverse: a sprite drawn twice at the same place
/// leaves the screen as it was. The second draw reports a collision
/// exactly where the first one switched a pixel on.
///
/// The place is the same where neither coordinate is read from the flag
/// register, which the first draw overwrites: that case is left out.
pub proof fn lemma_draw_twice(s: Machine, ins: Instruction)
    requires
        runnable(s, ins),
        ins.x != FLAG,
        ins.y != FLAG,
        draw(s, ins) is Ok,
    ensures
        draw(draw(s, ins)->Ok_0, ins) is Ok,
        draw(draw(s, ins)->Ok_0, ins)->Ok_0.pixels == s.pixels,
        draw(draw(s, ins)->Ok_0, ins)->Ok_0.v[FLAG as int] == (if exists|k: int| #[trigger]
            sprite_hits(s, ins, k) && !s.pixels[k] {
            1int
        } else {
            0int
        }),
{
    let once = draw(s, ins)->Ok_0;
    let twice = draw(once, ins)->Ok_0;
    assert forall|k: int| #[trigger] sprite_hits(once, ins, k) == sprite_hits(s, ins, k) by {}
    assert(twice.pixels =~= s.pixels);
    if sprite_collides(once, ins) {
        let k = choose|k: int| #[trigger] sprite_hits(once, ins, k) && once.pixels[k];
        assert(sprite_hits(s, ins, k) && !s.pixels[k]);
    }
    if exists|k: int| #[trigger] sprite_hits(s, ins, k) && !s.pixels[k] {
        let k = choose|k: int| #[trigger] sprite_hits(s, ins, k) && !s.pixels[k];
        assert(sprite_hits(once, ins, k) && once.pixels[k]);
    }
}

} // verus!
