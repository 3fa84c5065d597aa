use vstd::prelude::*;
use crate::state::{
    font, fontset, initial_state, Chip8Error, MachineState, FLAG, FONTSET_SIZE, HEIGHT, NUM_KEYS,
    NUM_REG, RAM_SIZE, SCREEN_SIZE, STACK_SIZE, START_ADDR, WIDTH,
};
use crate::semantics::{
    after_fetch, can_fetch, decay, fetched_op, lowest_pressed, op_family, op_kk, op_n, op_nnn,
    op_x, op_y, outcome, step, step_alu, step_draw, step_keys, step_misc, step_system,
};
use crate::sprite::{lemma_draw_bit, lemma_draw_done, lemma_draw_next_row, lit_hit, partial_draw};

verus! {

/// A CHIP-8 machine.
pub struct Emulator {
    pc: u16,
    ram: [u8; RAM_SIZE],
    screen: [bool; SCREEN_SIZE],
    v_reg: [u8; NUM_REG],
    i_reg: u16,
    sp: u16,
    stack: [u16; STACK_SIZE],
    keys: [bool; NUM_KEYS],
    dt: u8,
    st: u8,
}

impl View for Emulator {
    type V = MachineState;

    closed spec fn view(&self) -> MachineState {
        MachineState {
            pc: self.pc,
            ram: self.ram@,
            screen: self.screen@,
            v: self.v_reg@,
            i: self.i_reg,
            sp: self.sp,
            stack: self.stack@,
            keys: self.keys@,
            dt: self.dt,
            st: self.st,
        }
    }
}

impl Emulator {
    /// A machine in its initial state.
    pub fn new() -> (r: Self)
        ensures
            r@ == initial_state(),
            r@.well_formed(),
    {
        let mut ram: [u8; RAM_SIZE] = [0u8; RAM_SIZE];
        let glyphs = fontset();
        let mut a: usize = 0;
        while a < FONTSET_SIZE
            invariant
                a <= FONTSET_SIZE,
                glyphs@ == font(),
                forall|k: int| 0 <= k < a ==> ram@[k] == font()[k],
                forall|k: int| a <= k < RAM_SIZE ==> ram@[k] == 0u8,
            decreases FONTSET_SIZE - a,
        {
            ram[a] = glyphs[a];
            a = a + 1;
        }
        let r = Emulator {
            pc: START_ADDR,
            ram: ram,
            screen: [false; SCREEN_SIZE],
            v_reg: [0u8; NUM_REG],
            i_reg: 0,
            sp: 0,
            stack: [0u16; STACK_SIZE],
            keys: [false; NUM_KEYS],
            dt: 0,
            st: 0,
        };
        assert(r@.ram =~= initial_state().ram);
        assert(r@.screen =~= initial_state().screen);
        assert(r@.v =~= initial_state().v);
        assert(r@.stack =~= initial_state().stack);
        assert(r@.keys =~= initial_state().keys);
        r
    }

    /// Executes the `0x0` family.
    fn exec_system(&mut self, op: u16) -> (r: Result<(), Chip8Error>)
        requires
            old(self)@.well_formed(),
            op_family(op) == 0,
        ensures
            final(self)@.well_formed(),
            outcome(step_system(old(self)@, op), r, old(self)@, final(self)@),
    {
        if op == 0x0000 {
            Ok(())
        } else if op == 0x00E0 {
            self.screen = [false; SCREEN_SIZE];
            assert(self@.screen =~= Seq::new(SCREEN_SIZE as nat, |k: int| false));
            Ok(())
        } else if op == 0x00EE {
            match self.pop() {
                Ok(addr) => {
                    self.pc = addr;
                    Ok(())
                },
                Err(e) => Err(e),
            }
        } else {
            Err(Chip8Error::UnsupportedOpcode(op))
        }
    }

    /// Executes the `0x8xyn` family.
    #[verifier::rlimit(40)]
    fn exec_alu(&mut self, op: u16, x: usize, y: usize, n: u16) -> (r: Result<(), Chip8Error>)
        requires
            old(self)@.well_formed(),
            x == op_x(op),
            y == op_y(op),
            n == op_n(op),
            x < NUM_REG,
            y < NUM_REG,
        ensures
            final(self)@.well_formed(),
            outcome(step_alu(old(self)@, op), r, old(self)@, final(self)@),
    {
        let vx = self.v_reg[x];
        let vy = self.v_reg[y];
        match n {
            0x0 => {
                self.v_reg[x] = vy;
            },
            0x1 => {
                self.v_reg[x] = vx | vy;
            },
            0x2 => {
                self.v_reg[x] = vx & vy;
            },
            0x3 => {
                self.v_reg[x] = vx ^ vy;
            },
            0x4 => {
                let carry = vx as u16 + vy as u16 > 255;
                self.v_reg[x] = vx.wrapping_add(vy);
                self.v_reg[FLAG] = if carry { 1 } else { 0 };
            },
            0x5 => {
                let no_borrow = vx >= vy;
                self.v_reg[x] = vx.wrapping_sub(vy);
                self.v_reg[FLAG] = if no_borrow { 1 } else { 0 };
            },
            0x6 => {
                let dropped = vx & 1;
                assert(vx & 1u8 == vx % 2 && vx >> 1u8 == vx / 2) by (bit_vector);
                self.v_reg[x] = vx >> 1;
                self.v_reg[FLAG] = dropped;
            },
            0x7 => {
                let no_borrow = vy >= vx;
                self.v_reg[x] = vy.wrapping_sub(vx);
                self.v_reg[FLAG] = if no_borrow { 1 } else { 0 };
            },
            0xE => {
                let dropped = (vx >> 7) & 1;
                assert((vx >> 7u8) & 1u8 == vx / 128) by (bit_vector);
                self.v_reg[x] = vx.wrapping_add(vx);
                self.v_reg[FLAG] = dropped;
            },
            _ => {
                return Err(Chip8Error::UnsupportedOpcode(op));
            },
        }
        assert(self@ =~= step_alu(old(self)@, op).unwrap());
        Ok(())
    }

    /// Executes `0xDxyn`: XOR-draws the sprite at `ram[I..I+n]` at `(Vx, Vy)`
    /// with wraparound and sets the flag register to the collision bit.
    fn exec_draw(&mut self, op: u16, x: usize, y: usize, n: u16) -> (r: Result<(), Chip8Error>)
        requires
            old(self)@.well_formed(),
            x == op_x(op),
            y == op_y(op),
            n == op_n(op),
            x < NUM_REG,
            y < NUM_REG,
        ensures
            final(self)@.well_formed(),
            outcome(step_draw(old(self)@, op), r, old(self)@, final(self)@),
    {
        let rows = n as usize;
        let base = self.i_reg as usize;
        if base + rows > RAM_SIZE {
            return Err(Chip8Error::MemoryOutOfBounds);
        }
        let xv = self.v_reg[x] as usize;
        let yv = self.v_reg[y] as usize;
        let ghost ram = self.ram@;
        let ghost before = self.screen@;
        let ghost (bi, xi, yi, ni) = (base as int, xv as int, yv as int, rows as int);
        let mut screen = self.screen;
        let mut flag = false;
        let mut r: usize = 0;
        while r < rows
            invariant
                r <= rows,
                rows < 16,
                base + rows <= RAM_SIZE,
                xv < 256,
                yv < 256,
                ram == self.ram@,
                before.len() == SCREEN_SIZE,
                (bi, xi, yi, ni) == (base as int, xv as int, yv as int, rows as int),
                screen@ == partial_draw(before, ram, bi, xi, yi, ni, r as int, 0),
                flag == lit_hit(before, ram, bi, xi, yi, ni, r as int, 0),
            decreases rows - r,
        {
            let byte = self.ram[base + r];
            let mut c: u8 = 0;
            while c < 8
                invariant
                    c <= 8,
                    r < rows,
                    rows < 16,
                    base + rows <= RAM_SIZE,
                    xv < 256,
                    yv < 256,
                    byte == ram[base + r],
                    before.len() == SCREEN_SIZE,
                    (bi, xi, yi, ni) == (base as int, xv as int, yv as int, rows as int),
                    screen@ == partial_draw(before, ram, bi, xi, yi, ni, r as int, c as int),
                    flag == lit_hit(before, ram, bi, xi, yi, ni, r as int, c as int),
                decreases 8 - c,
            {
                let idx = (xv + c as usize) % WIDTH + WIDTH * ((yv + r) % HEIGHT);
                proof {
                    lemma_draw_bit(before, ram, bi, xi, yi, ni, r as int, c as int, idx as int);
                }
                if (byte >> (7 - c)) & 1 == 1 {
                    let lit = screen[idx];
                    flag = flag || lit;
                    screen[idx] = !lit;
                }
                c = c + 1;
            }
            proof {
                lemma_draw_next_row(before, ram, bi, xi, yi, ni, r as int);
            }
            r = r + 1;
        }
        self.screen = screen;
        self.v_reg[FLAG] = if flag { 1 } else { 0 };
        proof {
            lemma_draw_done(before, ram, bi, xi, yi, ni);
        }
        assert(self@ =~= step_draw(old(self)@, op).unwrap());
        Ok(())
    }

    /// Advances the program counter past the next instruction.
    fn skip(&mut self)
        ensures
            final(self)@ == old(self)@.skip_if(true),
    {
        self.pc = self.pc.wrapping_add(2);
    }

    /// Executes the `0xEx..` key-test family.
    fn exec_keys(&mut self, op: u16, x: usize, kk: u8) -> (r: Result<(), Chip8Error>)
        requires
            old(self)@.well_formed(),
            x == op_x(op),
            kk == op_kk(op),
            x < NUM_REG,
        ensures
            final(self)@.well_formed(),
            outcome(step_keys(old(self)@, op), r, old(self)@, final(self)@),
    {
        if kk != 0x9E && kk != 0xA1 {
            return Err(Chip8Error::UnsupportedOpcode(op));
        }
        let key = self.v_reg[x] as usize;
        if key >= NUM_KEYS {
            return Err(Chip8Error::InvalidKey(key));
        }
        let pressed = self.keys[key];
        if (kk == 0x9E && pressed) || (kk == 0xA1 && !pressed) {
            self.skip();
        }
        Ok(())
    }

    /// Executes `0xFx0A`: stores the lowest pressed key in `Vx`, or, with no
    /// key pressed, rewinds the program counter so the instruction runs again.
    fn exec_wait_key(&mut self, x: usize)
        requires
            old(self)@.well_formed(),
            x < NUM_REG,
        ensures
            final(self)@.well_formed(),
            lowest_pressed(old(self)@.keys, 0) < NUM_KEYS ==> final(self)@ == old(self)@.set_v(
                x as int,
                lowest_pressed(old(self)@.keys, 0) as u8,
            ),
            lowest_pressed(old(self)@.keys, 0) >= NUM_KEYS ==> final(self)@ == old(self)@.jump(
                ((old(self)@.pc - 2) % 0x10000) as u16,
            ),
    {
        let mut k: usize = 0;
        while k < NUM_KEYS
            invariant
                k <= NUM_KEYS,
                x < NUM_REG,
                self@ == old(self)@,
                old(self)@.well_formed(),
                lowest_pressed(self@.keys, 0) == lowest_pressed(self@.keys, k as int),
            decreases NUM_KEYS - k,
        {
            if self.keys[k] {
                self.v_reg[x] = k as u8;
                return;
            }
            k = k + 1;
        }
        self.pc = self.pc.wrapping_sub(2);
    }

    /// Executes `0xFx55`: copies `V0..=Vx` to memory from `I` on.
    fn exec_store_regs(&mut self, x: usize)
        requires
            old(self)@.well_formed(),
            x < NUM_REG,
            old(self)@.i + x < RAM_SIZE,
        ensures
            final(self)@.well_formed(),
            final(self)@ == (MachineState {
                ram: Seq::new(RAM_SIZE as nat, |a: int| if old(self)@.i <= a <= old(self)@.i + x {
                    old(self)@.v[a - old(self)@.i]
                } else {
                    old(self)@.ram[a]
                }),
                ..old(self)@
            }),
    {
        let base = self.i_reg as usize;
        let ghost s0 = self@;
        let mut k: usize = 0;
        while k <= x
            invariant
                k <= x + 1,
                x < NUM_REG,
                base == s0.i,
                base + x < RAM_SIZE,
                s0.well_formed(),
                self@ == (MachineState { ram: self@.ram, ..s0 }),
                self@.ram.len() == RAM_SIZE,
                forall|a: int| 0 <= a < RAM_SIZE ==> #[trigger] self@.ram[a] == if base <= a < base + k {
                    s0.v[a - base]
                } else {
                    s0.ram[a]
                },
            decreases x + 1 - k,
        {
            self.ram[base + k] = self.v_reg[k];
            k = k + 1;
        }
        assert(self@.ram =~= Seq::new(RAM_SIZE as nat, |a: int| if s0.i <= a <= s0.i + x {
            s0.v[a - s0.i]
        } else {
            s0.ram[a]
        }));
    }

    /// Executes `0xFx65`: loads `V0..=Vx` from memory from `I` on.
    fn exec_load_regs(&mut self, x: usize)
        requires
            old(self)@.well_formed(),
            x < NUM_REG,
            old(self)@.i + x < RAM_SIZE,
        ensures
            final(self)@.well_formed(),
            final(self)@ == (MachineState {
                v: Seq::new(16, |k: int| if k <= x { old(self)@.ram[old(self)@.i + k] } else { old(self)@.v[k] }),
                ..old(self)@
            }),
    {
        let base = self.i_reg as usize;
        let ghost s0 = self@;
        let mut k: usize = 0;
        while k <= x
            invariant
                k <= x + 1,
                x < NUM_REG,
                base == s0.i,
                base + x < RAM_SIZE,
                s0.well_formed(),
                self@ == (MachineState { v: self@.v, ..s0 }),
                self@.v.len() == NUM_REG,
                forall|j: int| 0 <= j < NUM_REG ==> #[trigger] self@.v[j] == if j < k {
                    s0.ram[base + j]
                } else {
                    s0.v[j]
                },
            decreases x + 1 - k,
        {
            self.v_reg[k] = self.ram[base + k];
            k = k + 1;
        }
        assert(self@.v =~= Seq::new(16, |j: int| if j <= x { s0.ram[s0.i + j] } else { s0.v[j] }));
    }

    /// Executes the `0xFx..` family.
    fn exec_misc(&mut self, op: u16, x: usize, kk: u8) -> (r: Result<(), Chip8Error>)
        requires
            old(self)@.well_formed(),
            x == op_x(op),
            kk == op_kk(op),
            x < NUM_REG,
        ensures
            final(self)@.well_formed(),
            outcome(step_misc(old(self)@, op), r, old(self)@, final(self)@),
    {
        let vx = self.v_reg[x];
        match kk {
            0x07 => {
                self.v_reg[x] = self.dt;
            },
            0x0A => {
                self.exec_wait_key(x);
            },
            0x15 => {
                self.dt = vx;
            },
            0x18 => {
                self.st = vx;
            },
            0x1E => {
                self.i_reg = self.i_reg.wrapping_add(vx as u16);
            },
            0x29 => {
                self.i_reg = vx as u16 * 5;
            },
            0x33 => {
                let base = self.i_reg as usize;
                if base + 2 >= RAM_SIZE {
                    return Err(Chip8Error::MemoryOutOfBounds);
                }
                self.ram[base] = vx / 100;
                self.ram[base + 1] = (vx / 10) % 10;
                self.ram[base + 2] = vx % 10;
            },
            0x55 => {
                if self.i_reg as usize + x >= RAM_SIZE {
                    return Err(Chip8Error::MemoryOutOfBounds);
                }
                self.exec_store_regs(x);
            },
            0x65 => {
                if self.i_reg as usize + x >= RAM_SIZE {
                    return Err(Chip8Error::MemoryOutOfBounds);
                }
                self.exec_load_regs(x);
            },
            _ => {
                return Err(Chip8Error::UnsupportedOpcode(op));
            },
        }
        assert(self@ =~= step_misc(old(self)@, op).unwrap());
        Ok(())
    }

    /// Executes opcode `op`, with `rnd` as the byte that `0xCxkk` draws.
    pub fn execute_with(&mut self, op: u16, rnd: u8) -> (r: Result<(), Chip8Error>)
        requires
            old(self)@.well_formed(),
        ensures
            final(self)@.well_formed(),
            outcome(step(old(self)@, op, rnd), r, old(self)@, final(self)@),
    {
        let family = op >> 12;
        let x = ((op >> 8) & 0xF) as usize;
        let y = ((op >> 4) & 0xF) as usize;
        let n = op & 0xF;
        let kk = (op & 0xFF) as u8;
        let nnn = op & 0xFFF;
        proof {
            lemma_decode(op);
        }
        match family {
            0x0 => self.exec_system(op),
            0x1 => {
                self.pc = nnn;
                Ok(())
            },
            0x2 => {
                let ret = self.pc;
                match self.push(ret) {
                    Ok(()) => {
                        self.pc = nnn;
                        Ok(())
                    },
                    Err(e) => Err(e),
                }
            },
            0x3 => {
                if self.v_reg[x] == kk {
                    self.skip();
                }
                Ok(())
            },
            0x4 => {
                if self.v_reg[x] != kk {
                    self.skip();
                }
                Ok(())
            },
            0x5 => {
                if n != 0 {
                    return Err(Chip8Error::UnsupportedOpcode(op));
                }
                if self.v_reg[x] == self.v_reg[y] {
                    self.skip();
                }
                Ok(())
            },
            0x6 => {
                self.v_reg[x] = kk;
                Ok(())
            },
            0x7 => {
                self.v_reg[x] = self.v_reg[x].wrapping_add(kk);
                Ok(())
            },
            0x8 => self.exec_alu(op, x, y, n),
            0x9 => {
                if n != 0 {
                    return Err(Chip8Error::UnsupportedOpcode(op));
                }
                if self.v_reg[x] != self.v_reg[y] {
                    self.skip();
                }
                Ok(())
            },
            0xA => {
                self.i_reg = nnn;
                Ok(())
            },
            0xB => {
                self.pc = self.v_reg[0] as u16 + nnn;
                Ok(())
            },
            0xC => {
                self.v_reg[x] = rnd & kk;
                Ok(())
            },
            0xD => self.exec_draw(op, x, y, n),
            0xE => self.exec_keys(op, x, kk),
            _ => self.exec_misc(op, x, kk),
        }
    }

    /// Executes opcode `op`; the `0xCxkk` instruction draws its byte at random.
    pub fn execute(&mut self, op: u16) -> (r: Result<(), Chip8Error>)
        requires
            old(self)@.well_formed(),
        ensures
            final(self)@.well_formed(),
            op_family(op) != 0xC ==> outcome(step(old(self)@, op, 0), r, old(self)@, final(self)@),
            exists|b: u8| #[trigger] outcome(step(old(self)@, op, b), r, old(self)@, final(self)@),
    {
        proof {
            lemma_decode(op);
        }
        let rnd = if op >> 12 == 0xC { random_byte() } else { 0 };
        let r = self.execute_with(op, rnd);
        assert(outcome(step(old(self)@, op, rnd), r, old(self)@, self@));
        r
    }

    /// Reads the opcode at the program counter, high byte first, and advances
    /// the counter past it.
    pub fn fetch(&mut self) -> (r: Result<u16, Chip8Error>)
        requires
            old(self)@.well_formed(),
        ensures
            final(self)@.well_formed(),
            can_fetch(old(self)@) ==> r == Ok::<u16, Chip8Error>(fetched_op(old(self)@))
                && final(self)@ == after_fetch(old(self)@),
            !can_fetch(old(self)@) ==> r == Err::<u16, Chip8Error>(Chip8Error::MemoryOutOfBounds)
                && final(self)@ == old(self)@,
    {
        let pc = self.pc as usize;
        if pc + 1 >= RAM_SIZE {
            return Err(Chip8Error::MemoryOutOfBounds);
        }
        let high = self.ram[pc] as u16;
        let low = self.ram[pc + 1] as u16;
        assert((high << 8u16) | low == high * 256 + low) by (bit_vector)
            requires high < 256, low < 256;
        let op = (high << 8) | low;
        self.pc = self.pc + 2;
        Ok(op)
    }

    /// Runs one fetch-decode-execute cycle.
    pub fn tick(&mut self) -> (r: Result<(), Chip8Error>)
        requires
            old(self)@.well_formed(),
        ensures
            final(self)@.well_formed(),
            !can_fetch(old(self)@) ==> r == Err::<(), Chip8Error>(Chip8Error::MemoryOutOfBounds)
                && final(self)@ == old(self)@,
            can_fetch(old(self)@) && op_family(fetched_op(old(self)@)) != 0xC ==> outcome(
                step(after_fetch(old(self)@), fetched_op(old(self)@), 0),
                r,
                after_fetch(old(self)@),
                final(self)@,
            ),
            can_fetch(old(self)@) ==> exists|b: u8| #[trigger] outcome(
                step(after_fetch(old(self)@), fetched_op(old(self)@), b),
                r,
                after_fetch(old(self)@),
                final(self)@,
            ),
    {
        match self.fetch() {
            Ok(op) => self.execute(op),
            Err(e) => Err(e),
        }
    }

    /// Returns the machine to its initial state; the program image is not reloaded.
    pub fn reset(&mut self)
        ensures
            final(self)@ == initial_state(),
            final(self)@.well_formed(),
    {
        *self = Emulator::new();
    }

    /// Copies a program image into memory from the start address on. An image
    /// longer than the memory above the start address is refused and nothing
    /// is written.
    pub fn load(&mut self, game_code: &[u8]) -> (r: Result<(), Chip8Error>)
        requires
            old(self)@.well_formed(),
        ensures
            final(self)@.well_formed(),
            game_code@.len() <= RAM_SIZE - START_ADDR ==> r is Ok && final(self)@ == (MachineState {
                ram: Seq::new(RAM_SIZE as nat, |a: int| if START_ADDR <= a < START_ADDR + game_code@.len() {
                    game_code@[a - START_ADDR]
                } else {
                    old(self)@.ram[a]
                }),
                ..old(self)@
            }),
            game_code@.len() > RAM_SIZE - START_ADDR ==> r == Err::<(), Chip8Error>(
                Chip8Error::ImageTooLarge(game_code@.len() as usize),
            ) && final(self)@ == old(self)@,
    {
        let len = game_code.len();
        let start = START_ADDR as usize;
        if len > RAM_SIZE - start {
            return Err(Chip8Error::ImageTooLarge(len));
        }
        let ghost s0 = self@;
        let mut k: usize = 0;
        while k < len
            invariant
                k <= len,
                len == game_code@.len(),
                start == START_ADDR,
                start + len <= RAM_SIZE,
                s0.well_formed(),
                self@ == (MachineState { ram: self@.ram, ..s0 }),
                self@.ram.len() == RAM_SIZE,
                forall|a: int| 0 <= a < RAM_SIZE ==> #[trigger] self@.ram[a] == if start <= a < start + k {
                    game_code@[a - start]
                } else {
                    s0.ram[a]
                },
            decreases len - k,
        {
            self.ram[start + k] = game_code[k];
            k = k + 1;
        }
        assert(self@.ram =~= Seq::new(RAM_SIZE as nat, |a: int| if START_ADDR <= a < START_ADDR + len {
            game_code@[a - START_ADDR]
        } else {
            s0.ram[a]
        }));
        Ok(())
    }

    /// Sets the state of key `index`; an index above 15 is refused and nothing changes.
    pub fn keypress(&mut self, index: usize, pressed: bool) -> (r: Result<(), Chip8Error>)
        requires
            old(self)@.well_formed(),
        ensures
            final(self)@.well_formed(),
            index < NUM_KEYS ==> r is Ok && final(self)@ == (MachineState {
                keys: old(self)@.keys.update(index as int, pressed),
                ..old(self)@
            }),
            index >= NUM_KEYS ==> r == Err::<(), Chip8Error>(Chip8Error::InvalidKey(index))
                && final(self)@ == old(self)@,
    {
        if index >= NUM_KEYS {
            return Err(Chip8Error::InvalidKey(index));
        }
        self.keys[index] = pressed;
        Ok(())
    }

    /// The display, 64 by 32 pixels, row-major.
    pub fn get_display(&self) -> (r: &[bool])
        ensures
            r@ == self@.screen,
    {
        self.screen.as_slice()
    }

    /// One decay step: each timer that is above zero goes down by one.
    pub fn tick_timers(&mut self)
        ensures
            final(self)@ == decay(old(self)@),
    {
        if self.dt > 0 {
            self.dt = self.dt - 1;
        }
        if self.st > 0 {
            self.st = self.st - 1;
        }
    }

    /// Whether the tone should sound: true while the sound timer runs.
    pub fn sound_should_play(&self) -> (r: bool)
        ensures
            r == self@.sound_on(),
    {
        self.st > 0
    }

    /// The program counter.
    pub fn pc(&self) -> (r: u16)
        ensures
            r == self@.pc,
    {
        self.pc
    }

    /// The index register.
    pub fn index(&self) -> (r: u16)
        ensures
            r == self@.i,
    {
        self.i_reg
    }

    /// The stack pointer: how many return addresses are on the stack.
    pub fn sp(&self) -> (r: u16)
        ensures
            r == self@.sp,
    {
        self.sp
    }

    /// General register `x`.
    pub fn register(&self, x: usize) -> (r: u8)
        requires
            x < NUM_REG,
        ensures
            r == self@.v[x as int],
    {
        self.v_reg[x]
    }

    /// The byte at address `addr`.
    pub fn memory(&self, addr: usize) -> (r: u8)
        requires
            addr < RAM_SIZE,
        ensures
            r == self@.ram[addr as int],
    {
        self.ram[addr]
    }

    /// The delay timer.
    pub fn delay_timer(&self) -> (r: u8)
        ensures
            r == self@.dt,
    {
        self.dt
    }

    /// The sound timer.
    pub fn sound_timer(&self) -> (r: u8)
        ensures
            r == self@.st,
    {
        self.st
    }

    /// Pushes a return address onto the call stack.
    pub fn push(&mut self, val: u16) -> (r: Result<(), Chip8Error>)
        requires
            old(self)@.well_formed(),
        ensures
            final(self)@.well_formed(),
            old(self)@.sp < STACK_SIZE ==> r is Ok && final(self)@ == (MachineState {
                stack: old(self)@.stack.update(old(self)@.sp as int, val),
                sp: (old(self)@.sp + 1) as u16,
                ..old(self)@
            }),
            old(self)@.sp >= STACK_SIZE ==> r == Err::<(), Chip8Error>(Chip8Error::StackOverflow)
                && final(self)@ == old(self)@,
    {
        if self.sp as usize >= STACK_SIZE {
            return Err(Chip8Error::StackOverflow);
        }
        self.stack[self.sp as usize] = val;
        self.sp = self.sp + 1;
        Ok(())
    }

    /// Pops the most recent return address off the call stack.
    pub fn pop(&mut self) -> (r: Result<u16, Chip8Error>)
        requires
            old(self)@.well_formed(),
        ensures
            final(self)@.well_formed(),
            old(self)@.sp > 0 ==> r == Ok::<u16, Chip8Error>(old(self)@.stack[old(self)@.sp - 1])
                && final(self)@ == (MachineState { sp: (old(self)@.sp - 1) as u16, ..old(self)@ }),
            old(self)@.sp == 0 ==> r == Err::<u16, Chip8Error>(Chip8Error::StackUnderflow)
                && final(self)@ == old(self)@,
    {
        if self.sp == 0 {
            return Err(Chip8Error::StackUnderflow);
        }
        self.sp = self.sp - 1;
        Ok(self.stack[self.sp as usize])
    }
}

/// Relies on rand::random::<u8>: a byte drawn from the thread-local generator.
/// Nothing is assumed of its value.
#[verifier::external_body]
fn random_byte() -> (r: u8) {
    rand::random::<u8>()
}

/// The fields of an opcode as shifts and masks extract them.
proof fn lemma_decode(op: u16)
    ensures
        (op >> 12u16) as int == op_family(op),
        ((op >> 8u16) & 0xFu16) as int == op_x(op),
        ((op >> 4u16) & 0xFu16) as int == op_y(op),
        (op & 0xFu16) as int == op_n(op),
        (op & 0xFFu16) as u8 == op_kk(op),
        op & 0xFFFu16 == op_nnn(op),
        op_family(op) < 16,
{
    assert(op >> 12u16 == op / 0x1000u16) by (bit_vector);
    assert((op >> 8u16) & 0xFu16 == (op / 0x100u16) % 0x10u16) by (bit_vector);
    assert((op >> 4u16) & 0xFu16 == (op / 0x10u16) % 0x10u16) by (bit_vector);
    assert(op & 0xFu16 == op % 0x10u16) by (bit_vector);
    assert(op & 0xFFu16 == op % 0x100u16) by (bit_vector);
    assert(op & 0xFFFu16 == op % 0x1000u16) by (bit_vector);
}

} // verus!
