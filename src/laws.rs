use vstd::prelude::*;
use crate::state::{Chip8Error, MachineState, FLAG, NUM_KEYS, SCREEN_SIZE, STACK_SIZE};
use crate::semantics::{
    after_fetch, can_fetch, collides, covers, decay, drawn, fetched_op, lowest_pressed, op_family,
    op_kk, op_n, op_x, op_y, step,
};

verus! {

/// Loading an immediate into a register and then adding zero to it leaves
/// exactly the immediate there.
pub proof fn lemma_load_then_add_zero(s: MachineState, x: int, kk: u8, rnd: u8)
    requires
        s.well_formed(),
        0 <= x < 16,
    ensures
        step(s, (0x6000 + x * 0x100 + kk) as u16, rnd) is Ok,
        step(step(s, (0x6000 + x * 0x100 + kk) as u16, rnd).unwrap(), (0x7000 + x * 0x100) as u16, rnd) is Ok,
        step(step(s, (0x6000 + x * 0x100 + kk) as u16, rnd).unwrap(), (0x7000 + x * 0x100) as u16, rnd).unwrap().v[x]
            == kk,
{
    let load = (0x6000 + x * 0x100 + kk) as u16;
    let add = (0x7000 + x * 0x100) as u16;
    assert(op_family(load) == 6 && op_x(load) == x && op_kk(load) == kk) by (nonlinear_arith)
        requires load == 0x6000 + x * 0x100 + kk, 0 <= x < 16, 0 <= kk < 256;
    assert(op_family(add) == 7 && op_x(add) == x && op_kk(add) == 0) by (nonlinear_arith)
        requires add == 0x7000 + x * 0x100, 0 <= x < 16;
}

/// XOR-drawing the same sprite twice at the same place restores the display,
/// and the second draw collides exactly where the first one lit a pixel.
pub proof fn lemma_draw_twice(screen: Seq<bool>, ram: Seq<u8>, i: int, x: int, y: int, n: int)
    requires
        screen.len() == SCREEN_SIZE,
    ensures
        drawn(drawn(screen, ram, i, x, y, n), ram, i, x, y, n) == screen,
        collides(drawn(screen, ram, i, x, y, n), ram, i, x, y, n) == exists|k: int|
            0 <= k < SCREEN_SIZE && #[trigger] covers(ram, i, x, y, n, k) && !screen[k],
{
    let once = drawn(screen, ram, i, x, y, n);
    assert(drawn(once, ram, i, x, y, n) =~= screen);
    if collides(once, ram, i, x, y, n) {
        let w = choose|k: int| 0 <= k < SCREEN_SIZE && #[trigger] covers(ram, i, x, y, n, k) && once[k];
        assert(covers(ram, i, x, y, n, w) && !screen[w]);
    }
    if exists|k: int| 0 <= k < SCREEN_SIZE && #[trigger] covers(ram, i, x, y, n, k) && !screen[k] {
        let w = choose|k: int| 0 <= k < SCREEN_SIZE && #[trigger] covers(ram, i, x, y, n, k) && !screen[k];
        assert(covers(ram, i, x, y, n, w) && once[w]);
    }
}

/// Executing the same draw instruction twice, with coordinate registers other
/// than the flag register, leaves the display as it was, and the second draw
/// reports a collision exactly when the first lit some pixel.
pub proof fn lemma_draw_instruction_twice(s: MachineState, op: u16, rnd: u8)
    requires
        s.well_formed(),
        op_family(op) == 0xD,
        s.i + op_n(op) <= 4096,
        op_x(op) != FLAG,
        op_y(op) != FLAG,
    ensures
        step(s, op, rnd) is Ok,
        step(step(s, op, rnd).unwrap(), op, rnd) is Ok,
        step(step(s, op, rnd).unwrap(), op, rnd).unwrap().screen == s.screen,
        step(step(s, op, rnd).unwrap(), op, rnd).unwrap().v[FLAG as int] == if exists|k: int|
            0 <= k < SCREEN_SIZE && #[trigger] covers(
                s.ram,
                s.i as int,
                s.v[op_x(op)] as int,
                s.v[op_y(op)] as int,
                op_n(op),
                k,
            ) && !s.screen[k] { 1u8 } else { 0u8 },
{
    lemma_draw_twice(s.screen, s.ram, s.i as int, s.v[op_x(op)] as int, s.v[op_y(op)] as int, op_n(op));
}

/// A call followed by a return resumes after the call, with the stack
/// pointer as before the call.
pub proof fn lemma_call_return(s: MachineState, addr: u16, rnd: u8)
    requires
        s.well_formed(),
        s.sp < STACK_SIZE,
        addr < 0x1000,
    ensures
        step(s, (0x2000 + addr) as u16, rnd) is Ok,
        step(step(s, (0x2000 + addr) as u16, rnd).unwrap(), 0x00EE, rnd) is Ok,
        step(step(s, (0x2000 + addr) as u16, rnd).unwrap(), 0x00EE, rnd).unwrap().pc == s.pc,
        step(step(s, (0x2000 + addr) as u16, rnd).unwrap(), 0x00EE, rnd).unwrap().sp == s.sp,
{
    let call = (0x2000 + addr) as u16;
    assert(op_family(call) == 2 && call as int % 0x1000 == addr);
}

/// A sound timer at one stops on the next decay step, and stays stopped on
/// the one after: the tone stops exactly once.
pub proof fn lemma_sound_stops_once(s: MachineState)
    requires
        s.st == 1,
    ensures
        s.sound_on(),
        decay(s).st == 0,
        !decay(s).sound_on(),
        !decay(decay(s)).sound_on(),
{
}

/// With no key pressed there is no key at or above `k`.
proof fn lemma_no_key_pressed(keys: Seq<bool>, k: int)
    requires
        keys.len() == NUM_KEYS,
        0 <= k <= NUM_KEYS,
        forall|j: int| 0 <= j < NUM_KEYS ==> !keys[j],
    ensures
        lowest_pressed(keys, k) == NUM_KEYS,
    decreases NUM_KEYS - k,
{
    if k < NUM_KEYS {
        lemma_no_key_pressed(keys, k + 1);
    }
}

/// The lowest pressed key at or above `k` is pressed, and no key between `k`
/// and it is.
proof fn lemma_key_pressed(keys: Seq<bool>, k: int)
    requires
        keys.len() == NUM_KEYS,
        0 <= k <= NUM_KEYS,
    ensures
        k <= lowest_pressed(keys, k) <= NUM_KEYS,
        lowest_pressed(keys, k) < NUM_KEYS ==> keys[lowest_pressed(keys, k)],
        forall|j: int| k <= j < lowest_pressed(keys, k) ==> !keys[j],
    decreases NUM_KEYS - k,
{
    if k < NUM_KEYS && !keys[k] {
        lemma_key_pressed(keys, k + 1);
    }
}

/// With no key pressed, a cycle on a key-wait instruction leaves the whole
/// machine, program counter included, as it was.
pub proof fn lemma_key_wait_idle(s: MachineState, rnd: u8)
    requires
        s.well_formed(),
        can_fetch(s),
        op_family(fetched_op(s)) == 0xF,
        op_kk(fetched_op(s)) == 0x0A,
        forall|k: int| 0 <= k < NUM_KEYS ==> !s.keys[k],
    ensures
        step(after_fetch(s), fetched_op(s), rnd) == Ok::<MachineState, Chip8Error>(s),
{
    lemma_no_key_pressed(s.keys, 0);
}

/// With a key pressed, a cycle on a key-wait instruction moves on to the next
/// instruction and stores the lowest pressed key.
pub proof fn lemma_key_wait_pressed(s: MachineState, rnd: u8)
    requires
        s.well_formed(),
        can_fetch(s),
        op_family(fetched_op(s)) == 0xF,
        op_kk(fetched_op(s)) == 0x0A,
        exists|k: int| 0 <= k < NUM_KEYS && s.keys[k],
    ensures
        step(after_fetch(s), fetched_op(s), rnd) is Ok,
        step(after_fetch(s), fetched_op(s), rnd).unwrap().pc == s.pc + 2,
        s.keys[step(after_fetch(s), fetched_op(s), rnd).unwrap().v[op_x(fetched_op(s))] as int],
        forall|j: int| 0 <= j < step(after_fetch(s), fetched_op(s), rnd).unwrap().v[op_x(fetched_op(s))]
            ==> !s.keys[j],
{
    lemma_key_pressed(s.keys, 0);
}

/// An opcode of the `0x0` family other than no-op, clear and return is
/// reported as unsupported, with its raw value.
pub proof fn lemma_unsupported_system(s: MachineState, op: u16, rnd: u8)
    requires
        op < 0x1000,
        op != 0x0000,
        op != 0x00E0,
        op != 0x00EE,
    ensures
        step(s, op, rnd) == Err::<MachineState, Chip8Error>(Chip8Error::UnsupportedOpcode(op)),
{
}

} // verus!
