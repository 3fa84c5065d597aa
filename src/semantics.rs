use vstd::prelude::*;
use crate::state::{Chip8Error, MachineState, FLAG, HEIGHT, NUM_KEYS, RAM_SIZE, SCREEN_SIZE, STACK_SIZE, WIDTH};

verus! {

/// Leading nibble of an opcode: the instruction family.
pub open spec fn op_family(op: u16) -> int {
    op as int / 0x1000
}

/// Second nibble: the first register operand.
pub open spec fn op_x(op: u16) -> int {
    (op as int / 0x100) % 0x10
}

/// Third nibble: the second register operand.
pub open spec fn op_y(op: u16) -> int {
    (op as int / 0x10) % 0x10
}

/// Lowest nibble.
pub open spec fn op_n(op: u16) -> int {
    op as int % 0x10
}

/// Low byte: an immediate value or a sub-opcode.
pub open spec fn op_kk(op: u16) -> u8 {
    (op as int % 0x100) as u8
}

/// Low twelve bits: an address.
pub open spec fn op_nnn(op: u16) -> u16 {
    (op as int % 0x1000) as u16
}

/// Whether the machine accepted the instruction as `expected` says: on success
/// the state becomes the expected one, on failure the same error is reported
/// and the state is left as it was.
pub open spec fn outcome(
    expected: Result<MachineState, Chip8Error>,
    r: Result<(), Chip8Error>,
    before: MachineState,
    after: MachineState,
) -> bool {
    match expected {
        Ok(t) => r == Ok::<(), Chip8Error>(()) && after == t,
        Err(e) => r == Err::<(), Chip8Error>(e) && after == before,
    }
}

/// Bit `col` of a sprite row, counted from the most significant (leftmost) bit.
pub open spec fn bit_at(b: u8, col: int) -> bool {
    (b >> ((7 - col) as u8)) & 1u8 == 1u8
}

/// Column offset, modulo the width, of pixel `k` from horizontal position `x`.
pub open spec fn sprite_col(x: int, k: int) -> int {
    (k % (WIDTH as int) - x) % (WIDTH as int)
}

/// Row offset, modulo the height, of pixel `k` from vertical position `y`.
pub open spec fn sprite_row(y: int, k: int) -> int {
    (k / (WIDTH as int) - y) % (HEIGHT as int)
}

/// Whether drawing the `n`-row sprite stored at `ram[i..i+n]` at `(x, y)`
/// toggles pixel `k`: the pixel lies, with wraparound, inside the sprite's
/// 8-by-`n` box and the sprite's bit there is set.
pub open spec fn covers(ram: Seq<u8>, i: int, x: int, y: int, n: int, k: int) -> bool {
    &&& sprite_col(x, k) < 8
    &&& sprite_row(y, k) < n
    &&& bit_at(ram[i + sprite_row(y, k)], sprite_col(x, k))
}

/// The display after XOR-drawing the sprite.
pub open spec fn drawn(screen: Seq<bool>, ram: Seq<u8>, i: int, x: int, y: int, n: int) -> Seq<bool> {
    Seq::new(SCREEN_SIZE as nat, |k: int| screen[k] != covers(ram, i, x, y, n, k))
}

/// Whether the draw turns some lit pixel off.
pub open spec fn collides(screen: Seq<bool>, ram: Seq<u8>, i: int, x: int, y: int, n: int) -> bool {
    exists|k: int| 0 <= k < SCREEN_SIZE && #[trigger] covers(ram, i, x, y, n, k) && screen[k]
}

/// The lowest pressed key at or above `k`, or 16 if there is none.
pub open spec fn lowest_pressed(keys: Seq<bool>, k: int) -> int
    decreases NUM_KEYS - k,
{
    if k >= NUM_KEYS {
        NUM_KEYS as int
    } else if keys[k] {
        k
    } else {
        lowest_pressed(keys, k + 1)
    }
}

/// Effect of the `0x0` family: no-op, clear, return.
pub open spec fn step_system(s: MachineState, op: u16) -> Result<MachineState, Chip8Error> {
    if op == 0x0000 {
        Ok(s)
    } else if op == 0x00E0 {
        Ok(MachineState { screen: Seq::new(SCREEN_SIZE as nat, |k: int| false), ..s })
    } else if op == 0x00EE {
        if s.sp == 0 {
            Err(Chip8Error::StackUnderflow)
        } else {
            Ok(MachineState { pc: s.stack[s.sp - 1], sp: (s.sp - 1) as u16, ..s })
        }
    } else {
        Err(Chip8Error::UnsupportedOpcode(op))
    }
}

/// Effect of the `0x8xyn` register-to-register family.
pub open spec fn step_alu(s: MachineState, op: u16) -> Result<MachineState, Chip8Error> {
    let x = op_x(op);
    let vx = s.v[x];
    let vy = s.v[op_y(op)];
    let n = op_n(op);
    if n == 0x0 {
        Ok(s.set_v(x, vy))
    } else if n == 0x1 {
        Ok(s.set_v(x, vx | vy))
    } else if n == 0x2 {
        Ok(s.set_v(x, vx & vy))
    } else if n == 0x3 {
        Ok(s.set_v(x, vx ^ vy))
    } else if n == 0x4 {
        Ok(s.set_v_flag(x, ((vx + vy) % 256) as u8, if vx + vy > 255 { 1 } else { 0 }))
    } else if n == 0x5 {
        Ok(s.set_v_flag(x, ((vx - vy) % 256) as u8, if vx >= vy { 1 } else { 0 }))
    } else if n == 0x6 {
        Ok(s.set_v_flag(x, vx / 2, vx % 2))
    } else if n == 0x7 {
        Ok(s.set_v_flag(x, ((vy - vx) % 256) as u8, if vy >= vx { 1 } else { 0 }))
    } else if n == 0xE {
        Ok(s.set_v_flag(x, ((vx * 2) % 256) as u8, vx / 128))
    } else {
        Err(Chip8Error::UnsupportedOpcode(op))
    }
}

/// Effect of `0xDxyn`: draw, then set the flag register to the collision bit.
pub open spec fn step_draw(s: MachineState, op: u16) -> Result<MachineState, Chip8Error> {
    let x = s.v[op_x(op)] as int;
    let y = s.v[op_y(op)] as int;
    let n = op_n(op);
    if s.i + n > RAM_SIZE {
        Err(Chip8Error::MemoryOutOfBounds)
    } else {
        Ok(MachineState {
            screen: drawn(s.screen, s.ram, s.i as int, x, y, n),
            v: s.v.update(FLAG as int, if collides(s.screen, s.ram, s.i as int, x, y, n) { 1u8 } else { 0u8 }),
            ..s
        })
    }
}

/// Effect of the `0xEx..` key-test family.
pub open spec fn step_keys(s: MachineState, op: u16) -> Result<MachineState, Chip8Error> {
    let vx = s.v[op_x(op)];
    let kk = op_kk(op);
    if kk != 0x9E && kk != 0xA1 {
        Err(Chip8Error::UnsupportedOpcode(op))
    } else if vx >= NUM_KEYS {
        Err(Chip8Error::InvalidKey(vx as usize))
    } else if kk == 0x9E {
        Ok(s.skip_if(s.keys[vx as int]))
    } else {
        Ok(s.skip_if(!s.keys[vx as int]))
    }
}

/// Effect of the `0xFx..` family: timers, key wait, index register and memory transfers.
pub open spec fn step_misc(s: MachineState, op: u16) -> Result<MachineState, Chip8Error> {
    let x = op_x(op);
    let vx = s.v[x];
    let kk = op_kk(op);
    if kk == 0x07 {
        Ok(s.set_v(x, s.dt))
    } else if kk == 0x0A {
        let key = lowest_pressed(s.keys, 0);
        if key < NUM_KEYS {
            Ok(s.set_v(x, key as u8))
        } else {
            Ok(s.jump(((s.pc - 2) % 0x10000) as u16))
        }
    } else if kk == 0x15 {
        Ok(MachineState { dt: vx, ..s })
    } else if kk == 0x18 {
        Ok(MachineState { st: vx, ..s })
    } else if kk == 0x1E {
        Ok(MachineState { i: ((s.i + vx) % 0x10000) as u16, ..s })
    } else if kk == 0x29 {
        Ok(MachineState { i: (vx * 5) as u16, ..s })
    } else if kk == 0x33 {
        if s.i + 2 >= RAM_SIZE {
            Err(Chip8Error::MemoryOutOfBounds)
        } else {
            Ok(MachineState {
                ram: s.ram.update(s.i as int, vx / 100).update(s.i + 1, (vx / 10) % 10).update(s.i + 2, vx % 10),
                ..s
            })
        }
    } else if kk == 0x55 {
        if s.i + x >= RAM_SIZE {
            Err(Chip8Error::MemoryOutOfBounds)
        } else {
            Ok(MachineState {
                ram: Seq::new(RAM_SIZE as nat, |a: int| if s.i <= a <= s.i + x { s.v[a - s.i] } else { s.ram[a] }),
                ..s
            })
        }
    } else if kk == 0x65 {
        if s.i + x >= RAM_SIZE {
            Err(Chip8Error::MemoryOutOfBounds)
        } else {
            Ok(MachineState {
                v: Seq::new(16, |k: int| if k <= x { s.ram[s.i + k] } else { s.v[k] }),
                ..s
            })
        }
    } else {
        Err(Chip8Error::UnsupportedOpcode(op))
    }
}

/// The effect of executing opcode `op` on state `s`, where `rnd` is the random
/// byte that the `0xCxkk` instruction draws.
pub open spec fn step(s: MachineState, op: u16, rnd: u8) -> Result<MachineState, Chip8Error> {
    let a = op_family(op);
    let x = op_x(op);
    let vx = s.v[x];
    let vy = s.v[op_y(op)];
    let kk = op_kk(op);
    let nnn = op_nnn(op);
    if a == 0x0 {
        step_system(s, op)
    } else if a == 0x1 {
        Ok(s.jump(nnn))
    } else if a == 0x2 {
        if s.sp >= STACK_SIZE {
            Err(Chip8Error::StackOverflow)
        } else {
            Ok(MachineState { stack: s.stack.update(s.sp as int, s.pc), sp: (s.sp + 1) as u16, pc: nnn, ..s })
        }
    } else if a == 0x3 {
        Ok(s.skip_if(vx == kk))
    } else if a == 0x4 {
        Ok(s.skip_if(vx != kk))
    } else if a == 0x5 && op_n(op) == 0 {
        Ok(s.skip_if(vx == vy))
    } else if a == 0x6 {
        Ok(s.set_v(x, kk))
    } else if a == 0x7 {
        Ok(s.set_v(x, ((vx + kk) % 256) as u8))
    } else if a == 0x8 {
        step_alu(s, op)
    } else if a == 0x9 && op_n(op) == 0 {
        Ok(s.skip_if(vx != vy))
    } else if a == 0xA {
        Ok(MachineState { i: nnn, ..s })
    } else if a == 0xB {
        Ok(s.jump((s.v[0] + nnn) as u16))
    } else if a == 0xC {
        Ok(s.set_v(x, rnd & kk))
    } else if a == 0xD {
        step_draw(s, op)
    } else if a == 0xE {
        step_keys(s, op)
    } else if a == 0xF {
        step_misc(s, op)
    } else {
        Err(Chip8Error::UnsupportedOpcode(op))
    }
}

/// Whether an opcode can be fetched: both of its bytes lie in memory.
pub open spec fn can_fetch(s: MachineState) -> bool {
    s.pc + 1 < RAM_SIZE
}

/// The opcode at the program counter, high byte first.
pub open spec fn fetched_op(s: MachineState) -> u16 {
    (s.ram[s.pc as int] * 256 + s.ram[s.pc + 1]) as u16
}

/// The state once the opcode has been fetched.
pub open spec fn after_fetch(s: MachineState) -> MachineState {
    s.jump((s.pc + 2) as u16)
}

/// One decay step of both timers.
pub open spec fn decay(s: MachineState) -> MachineState {
    MachineState {
        dt: if s.dt > 0 { (s.dt - 1) as u8 } else { 0 },
        st: if s.st > 0 { (s.st - 1) as u8 } else { 0 },
        ..s
    }
}

} // verus!
