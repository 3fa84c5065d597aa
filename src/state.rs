use vstd::prelude::*;

verus! {

/// Bytes of addressable memory.
pub const RAM_SIZE: usize = 4096;
/// General-purpose registers; the last one doubles as the flag register.
pub const NUM_REG: usize = 16;
/// Return-address slots of the call stack.
pub const STACK_SIZE: usize = 16;
/// Keys of the hexadecimal keypad.
pub const NUM_KEYS: usize = 16;
/// Address at which a program image is placed and execution starts.
pub const START_ADDR: u16 = 0x200;
/// Bytes taken by the built-in hexadecimal glyphs at the bottom of memory.
pub const FONTSET_SIZE: usize = 80;
/// Display width in pixels.
pub const WIDTH: usize = 64;
/// Display height in pixels.
pub const HEIGHT: usize = 32;
/// Pixels of the display, stored row-major.
pub const SCREEN_SIZE: usize = 2048;
/// Index of the flag register.
pub const FLAG: usize = 15;

/// The ways in which an operation can refuse to proceed.
#[derive(Debug, Clone, Copy, PartialEq, Eq, Structural)]
pub enum Chip8Error {
    /// The opcode (carried raw) matches no instruction.
    UnsupportedOpcode(u16),
    /// A call was made with all stack slots in use.
    StackOverflow,
    /// A return was made with an empty stack.
    StackUnderflow,
    /// An access would reach past the end of memory.
    MemoryOutOfBounds,
    /// A key index above 15.
    InvalidKey(usize),
    /// A program image (its length carried) that does not fit above the start address.
    ImageTooLarge(usize),
}

/// The whole machine as mathematical values.
pub struct MachineState {
    pub pc: u16,
    pub ram: Seq<u8>,
    pub screen: Seq<bool>,
    pub v: Seq<u8>,
    pub i: u16,
    pub sp: u16,
    pub stack: Seq<u16>,
    pub keys: Seq<bool>,
    pub dt: u8,
    pub st: u8,
}

impl MachineState {
    /// Every component has its fixed size and the stack pointer is within the stack.
    pub open spec fn well_formed(self) -> bool {
        &&& self.ram.len() == RAM_SIZE
        &&& self.screen.len() == SCREEN_SIZE
        &&& self.v.len() == NUM_REG
        &&& self.stack.len() == STACK_SIZE
        &&& self.keys.len() == NUM_KEYS
        &&& self.sp <= STACK_SIZE
    }

    /// The state with register `x` holding `val`.
    pub open spec fn set_v(self, x: int, val: u8) -> MachineState {
        MachineState { v: self.v.update(x, val), ..self }
    }

    /// The state with register `x` holding `val`, then the flag register holding `flag`.
    pub open spec fn set_v_flag(self, x: int, val: u8, flag: u8) -> MachineState {
        MachineState { v: self.v.update(x, val).update(FLAG as int, flag), ..self }
    }

    /// The state with the program counter at `pc`.
    pub open spec fn jump(self, pc: u16) -> MachineState {
        MachineState { pc: pc, ..self }
    }

    /// The state that skips the next instruction when `cond` holds.
    pub open spec fn skip_if(self, cond: bool) -> MachineState {
        if cond {
            self.jump(((self.pc + 2) % 0x10000) as u16)
        } else {
            self
        }
    }

    /// True while the sound timer runs.
    pub open spec fn sound_on(self) -> bool {
        self.st > 0
    }
}

/// The built-in glyphs for the hexadecimal digits, five rows of one byte each.
pub open spec fn font() -> Seq<u8> {
    seq![
        0xF0u8, 0x90, 0x90, 0x90, 0xF0,
        0x20, 0x60, 0x20, 0x20, 0x70,
        0xF0, 0x10, 0xF0, 0x80, 0xF0,
        0xF0, 0x10, 0xF0, 0x10, 0xF0,
        0x90, 0x90, 0xF0, 0x10, 0x10,
        0xF0, 0x80, 0xF0, 0x10, 0xF0,
        0xF0, 0x80, 0xF0, 0x90, 0xF0,
        0xF0, 0x10, 0x20, 0x40, 0x40,
        0xF0, 0x90, 0xF0, 0x90, 0xF0,
        0xF0, 0x90, 0xF0, 0x10, 0xF0,
        0xF0, 0x90, 0xF0, 0x90, 0x90,
        0xE0, 0x90, 0xE0, 0x90, 0xE0,
        0xF0, 0x80, 0x80, 0x80, 0xF0,
        0xE0, 0x90, 0x90, 0x90, 0xE0,
        0xF0, 0x80, 0xF0, 0x80, 0xF0,
        0xF0, 0x80, 0xF0, 0x80, 0x80,
    ]
}

/// The glyph table as an array.
pub fn fontset() -> (r: [u8; FONTSET_SIZE])
    ensures
        r@ == font(),
{
    let r: [u8; FONTSET_SIZE] = [
        0xF0, 0x90, 0x90, 0x90, 0xF0,
        0x20, 0x60, 0x20, 0x20, 0x70,
        0xF0, 0x10, 0xF0, 0x80, 0xF0,
        0xF0, 0x10, 0xF0, 0x10, 0xF0,
        0x90, 0x90, 0xF0, 0x10, 0x10,
        0xF0, 0x80, 0xF0, 0x10, 0xF0,
        0xF0, 0x80, 0xF0, 0x90, 0xF0,
        0xF0, 0x10, 0x20, 0x40, 0x40,
        0xF0, 0x90, 0xF0, 0x90, 0xF0,
        0xF0, 0x90, 0xF0, 0x10, 0xF0,
        0xF0, 0x90, 0xF0, 0x90, 0x90,
        0xE0, 0x90, 0xE0, 0x90, 0xE0,
        0xF0, 0x80, 0x80, 0x80, 0xF0,
        0xE0, 0x90, 0x90, 0x90, 0xE0,
        0xF0, 0x80, 0xF0, 0x80, 0xF0,
        0xF0, 0x80, 0xF0, 0x80, 0x80,
    ];
    assert(r@ =~= font());
    r
}

/// The state of a freshly built (or reset) machine: glyphs at the bottom of
/// memory, everything else zero, the program counter at the start address.
pub open spec fn initial_state() -> MachineState {
    MachineState {
        pc: START_ADDR,
        ram: Seq::new(RAM_SIZE as nat, |a: int| if a < FONTSET_SIZE { font()[a] } else { 0u8 }),
        screen: Seq::new(SCREEN_SIZE as nat, |k: int| false),
        v: Seq::new(NUM_REG as nat, |k: int| 0u8),
        i: 0,
        sp: 0,
        stack: Seq::new(STACK_SIZE as nat, |k: int| 0u16),
        keys: Seq::new(NUM_KEYS as nat, |k: int| false),
        dt: 0,
        st: 0,
    }
}

} // verus!
