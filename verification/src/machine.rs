//! The CHIP-8 machine: its state and the semantics of its instructions.
use vstd::prelude::*;
use crate::input::{Key, key_of, to_key};
use std::collections::VecDeque;

verus! {

/// Bytes of addressable memory.
pub const MEMORY_SIZE: usize = 4096;

/// Number of general purpose registers `V0` .. `VF`.
pub const REGISTER_COUNT: usize = 16;

/// Width of the screen in pixels.
pub const SCREEN_WIDTH: usize = 64;

/// Height of the screen in pixels.
pub const SCREEN_HEIGHT: usize = 32;

/// Number of pixels of the screen.
pub const SCREEN_SIZE: usize = 2048;

/// Address at which programs are loaded and started.
pub const PROGRAM_START: u16 = 512;

/// Address of the built-in hexadecimal font.
pub const FONT_START: u16 = 0x50;

/// Screen value of a lit pixel (white); an unlit pixel is 0.
pub const PIXEL_ON: u32 = 0xFFFFFF;

/// Why the next instruction cannot run; see [`Chip8::next_fault`].
#[derive(Clone, Copy, Debug, PartialEq, Eq, Structural)]
pub enum Fault {
    /// An instruction `0?E?` other than `00E0` and `00EE`.
    IllegalOperation,
    /// A return (`00EE`) with an empty call stack.
    IllegalSubroutineCall,
    /// An arithmetic instruction `8XYN` with an unknown `N`.
    IllegalMathOperation,
    /// A key instruction `EXNN` other than `EX9E` and `EXA1`.
    IllegalKeyOperation,
    /// An access to memory past its end.
    MemoryOutOfBounds,
}

/// What the driver of the machine has to do after an instruction.
#[derive(Clone, Copy, Debug, PartialEq, Eq, Structural)]
pub enum Action {
    /// Nothing: run the next instruction.
    Continue,
    /// The screen was cleared: show it.
    UpdateScreen,
    /// Wait until a key is pressed and store its keypad value (0 to 15) in
    /// the register numbered here.
    AwaitKey(u8),
    /// The program has ended.
    Halt,
}

/// The mathematical view of a machine.
#[verifier::ext_equal]
pub struct MachineState {
    pub memory: Seq<u8>,
    pub registers: Seq<u8>,
    /// The index register `I`.
    pub index: u16,
    /// The call stack; its first element is the most recent call address.
    pub stack: Seq<u16>,
    pub screen: Seq<u32>,
    pub timer: u16,
    pub running: bool,
    /// The program counter.
    pub pc: u16,
}

/// High nibble of a byte.
pub open spec fn high_nibble(b: u8) -> u8 {
    b / 16
}

/// Low nibble of a byte.
pub open spec fn low_nibble(b: u8) -> u8 {
    b % 16
}

/// `v` taken modulo 2^16, as `u16` arithmetic wraps.
pub open spec fn wrap16(v: int) -> u16 {
    (v % 65536) as u16
}

/// `v` taken modulo 2^8, as `u8` arithmetic wraps.
pub open spec fn wrap8(v: int) -> u8 {
    (v % 256) as u8
}

impl MachineState {
    /// The sizes of memory, register file and screen.
    pub open spec fn wf(self) -> bool {
        &&& self.memory.len() == MEMORY_SIZE
        &&& self.registers.len() == REGISTER_COUNT
        &&& self.screen.len() == SCREEN_SIZE
    }

    /// The second nibble of the instruction at `p`.
    pub open spec fn x_at(self, p: u16) -> u8 {
        low_nibble(self.memory[p as int])
    }

    /// The third nibble of the instruction at `p`.
    pub open spec fn y_at(self, p: u16) -> u8 {
        high_nibble(self.memory[p + 1])
    }

    /// The fourth nibble of the instruction at `p`.
    pub open spec fn n_at(self, p: u16) -> u8 {
        low_nibble(self.memory[p + 1])
    }

    /// The second byte of the instruction at `p`.
    pub open spec fn nn_at(self, p: u16) -> u8 {
        self.memory[p + 1]
    }

    /// The last three nibbles of the instruction at `p`.
    pub open spec fn nnn_at(self, p: u16) -> u16 {
        (low_nibble(self.memory[p as int]) * 256 + self.memory[p + 1]) as u16
    }

    /// The first nibble of the instruction at `p`: its operation.
    pub open spec fn op_at(self, p: u16) -> u8 {
        high_nibble(self.memory[p as int])
    }

    /// Register `i`.
    pub open spec fn reg(self, i: int) -> u8 {
        self.registers[i]
    }

    /// The register named by the second nibble of the instruction at `p`.
    pub open spec fn vx(self, p: u16) -> u8 {
        self.registers[self.x_at(p) as int]
    }

    /// The register named by the third nibble of the instruction at `p`.
    pub open spec fn vy(self, p: u16) -> u8 {
        self.registers[self.y_at(p) as int]
    }

    pub open spec fn with_registers(self, registers: Seq<u8>) -> MachineState {
        MachineState { registers, ..self }
    }

    pub open spec fn with_memory(self, memory: Seq<u8>) -> MachineState {
        MachineState { memory, ..self }
    }

    pub open spec fn with_index(self, index: u16) -> MachineState {
        MachineState { index, ..self }
    }
}

/// The address after a skipped instruction.
pub open spec fn skip(p: u16) -> u16 {
    wrap16(p + 2)
}

/// The value an instruction hands back to land on `target` after the program
/// counter has moved past it: `target - 2`, wrapping.
pub open spec fn before(target: u16) -> u16 {
    wrap16(target - 2)
}

/// `3XNN`: the next instruction is skipped when `VX == NN`.
pub open spec fn equals_spec(s: MachineState, p: u16) -> u16 {
    if s.vx(p) == s.nn_at(p) { skip(p) } else { p }
}

/// `4XNN`: the next instruction is skipped when `VX != NN`.
pub open spec fn not_equals_spec(s: MachineState, p: u16) -> u16 {
    if s.vx(p) != s.nn_at(p) { skip(p) } else { p }
}

/// `5XY0`: the next instruction is skipped when `VX == VY`.
pub open spec fn equal_registers_spec(s: MachineState, p: u16) -> u16 {
    if s.vx(p) == s.vy(p) { skip(p) } else { p }
}

/// `9XY0`: the next instruction is skipped when `VX != VY`.
pub open spec fn not_equal_registers_spec(s: MachineState, p: u16) -> u16 {
    if s.vx(p) != s.vy(p) { skip(p) } else { p }
}

/// `6XNN`: `VX = NN`.
pub open spec fn set_spec(s: MachineState, p: u16) -> MachineState {
    s.with_registers(s.registers.update(s.x_at(p) as int, s.nn_at(p)))
}

/// `7XNN`: `VX = VX + NN`, wrapping, `VF` untouched.
pub open spec fn add_spec(s: MachineState, p: u16) -> MachineState {
    s.with_registers(s.registers.update(s.x_at(p) as int, wrap8(s.vx(p) + s.nn_at(p))))
}

/// `ANNN`: `I = NNN`.
pub open spec fn i_register_spec(s: MachineState, p: u16) -> MachineState {
    s.with_index(s.nnn_at(p))
}

/// `2NNN`: the address of the call is pushed on the call stack.
pub open spec fn subroutine_spec(s: MachineState, p: u16) -> MachineState {
    MachineState { stack: seq![p] + s.stack, ..s }
}

/// `CXNN`: `VX = value & NN` for a random `value`.
pub open spec fn random_spec(s: MachineState, p: u16, value: u8) -> MachineState {
    s.with_registers(s.registers.update(s.x_at(p) as int, value & s.nn_at(p)))
}

/// `8XYN` on the register file `r`, with the nibbles `x`, `y` and `n`.  The
/// carry and borrow flags are written to `VF` before the result, the shift
/// flags after it; the shifts read `VY`.
pub open spec fn math_registers(r: Seq<u8>, x: int, y: int, n: u8) -> Result<Seq<u8>, Fault> {
    if n == 0 {
        Ok(r.update(x, r[y]))
    } else if n == 1 {
        Ok(r.update(x, r[x] | r[y]))
    } else if n == 2 {
        Ok(r.update(x, r[x] & r[y]))
    } else if n == 3 {
        Ok(r.update(x, r[x] ^ r[y]))
    } else if n == 4 {
        let r1 = r.update(15, if r[x] + r[y] > 255 { 1u8 } else { 0u8 });
        Ok(r1.update(x, wrap8(r1[x] + r1[y])))
    } else if n == 5 {
        let r1 = r.update(15, if r[x] < r[y] { 0u8 } else { 1u8 });
        Ok(r1.update(x, wrap8(r1[x] - r1[y] + 256)))
    } else if n == 6 {
        Ok(r.update(x, r[y] / 2).update(15, r[y] % 2))
    } else if n == 7 {
        let r1 = r.update(15, if r[y] < r[x] { 0u8 } else { 1u8 });
        Ok(r1.update(x, wrap8(r1[y] - r1[x] + 256)))
    } else if n == 14 {
        Ok(r.update(x, wrap8(r[y] * 2)).update(15, r[y] / 128))
    } else {
        Err(Fault::IllegalMathOperation)
    }
}

/// `8XYN`: the register file after the arithmetic instruction at `p`.
pub open spec fn math_spec(s: MachineState, p: u16) -> Result<Seq<u8>, Fault> {
    math_registers(s.registers, s.x_at(p) as int, s.y_at(p) as int, s.n_at(p))
}

/// `0???`: `00E0` clears the screen, `00EE` returns from a subroutine,
/// other `0?E?` are illegal and the rest is ignored.  Gives the new state and
/// the value handed back for the program counter.
pub open spec fn clear_screen_spec(s: MachineState, p: u16) -> Result<(MachineState, u16), Fault> {
    if s.y_at(p) == 14 {
        if s.nn_at(p) == 0xE0 {
            Ok((MachineState { screen: Seq::new(SCREEN_SIZE as nat, |i: int| 0u32), ..s }, p))
        } else if s.nn_at(p) == 0xEE {
            if s.stack.len() > 0 {
                Ok((MachineState { stack: s.stack.drop_first(), ..s }, s.stack[0]))
            } else {
                Err(Fault::IllegalSubroutineCall)
            }
        } else {
            Err(Fault::IllegalOperation)
        }
    } else {
        Ok((s, p))
    }
}

/// `EX9E` / `EXA1`: skip when the key of `VX` is / is not pressed.
pub open spec fn key_input_spec(s: MachineState, p: u16, pressed: bool) -> Result<u16, Fault> {
    if s.nn_at(p) == 0x9E {
        Ok(if pressed { skip(p) } else { p })
    } else if s.nn_at(p) == 0xA1 {
        Ok(if !pressed { skip(p) } else { p })
    } else {
        Err(Fault::IllegalKeyOperation)
    }
}

/// The hundreds, tens and ones digits of `v`.
pub open spec fn bcd_digits(v: u8) -> (u8, u8, u8) {
    (v / 100, (v / 10) % 10, v % 10)
}

/// `FX??`: `FX1E` adds `VX` to `I` (wrapping), `FX29` points `I` at the font
/// glyph of the low nibble of `VX`, `FX33` stores the decimal digits of `VX` at `I`, `FX55`
/// stores `V0..=VX` at `I`, `FX65` loads `V0..=VX` from `I`; the rest
/// changes nothing here: `FX0A` hands the wait for a key, and the storing of
/// it in `VX`, to the driver (see [`Action::AwaitKey`]), and the timer
/// instructions `FX07`, `FX15` and `FX18` are not implemented.
pub open spec fn f_spec(s: MachineState, p: u16) -> Result<MachineState, Fault> {
    let x = s.x_at(p) as int;
    let i = s.index as int;
    let nn = s.nn_at(p);
    if nn == 0x1E {
        Ok(s.with_index(wrap16(i + s.vx(p))))
    } else if nn == 0x29 {
        Ok(s.with_index((FONT_START + 5 * low_nibble(s.vx(p))) as u16))
    } else if nn == 0x55 {
        if i + x < MEMORY_SIZE {
            Ok(s.with_memory(Seq::new(MEMORY_SIZE as nat, |a: int|
                if i <= a <= i + x { s.registers[a - i] } else { s.memory[a] })))
        } else {
            Err(Fault::MemoryOutOfBounds)
        }
    } else if nn == 0x65 {
        if i + x < MEMORY_SIZE {
            Ok(s.with_registers(Seq::new(REGISTER_COUNT as nat, |r: int|
                if r <= x { s.memory[i + r] } else { s.registers[r] })))
        } else {
            Err(Fault::MemoryOutOfBounds)
        }
    } else if nn == 0x33 {
        if i + 2 < MEMORY_SIZE {
            let d = bcd_digits(s.vx(p));
            Ok(s.with_memory(s.memory.update(i, d.0).update(i + 1, d.1).update(i + 2, d.2)))
        } else {
            Err(Fault::MemoryOutOfBounds)
        }
    } else {
        Ok(s)
    }
}

/// Column of the left edge of the sprite drawn by the instruction at `p`.
pub open spec fn draw_left(s: MachineState, p: u16) -> int {
    (s.vx(p) % 64) as int
}

/// Row of the top edge of the sprite drawn by the instruction at `p`.
pub open spec fn draw_top(s: MachineState, p: u16) -> int {
    (s.vy(p) % 32) as int
}

/// Rows drawn: `N`, cut at the bottom of the screen.
pub open spec fn draw_rows(s: MachineState, p: u16) -> int {
    let n = s.n_at(p) as int;
    if n < 32 - draw_top(s, p) { n } else { 32 - draw_top(s, p) }
}

/// Columns drawn: 8, cut at the right of the screen.
pub open spec fn draw_cols(s: MachineState, p: u16) -> int {
    if 8 < 64 - draw_left(s, p) { 8 } else { 64 - draw_left(s, p) }
}

/// Bit `j` of a sprite row, counted from the most significant bit.
pub open spec fn sprite_bit(b: u8, j: int) -> bool {
    (b >> ((7 - j) as u8)) & 1u8 == 1u8
}

/// Whether pixel `k` lies in the rectangle drawn by the instruction at `p`.
pub open spec fn draw_covers(s: MachineState, p: u16, k: int) -> bool {
    let row = k / 64;
    let col = k % 64;
    &&& draw_top(s, p) <= row < draw_top(s, p) + draw_rows(s, p)
    &&& draw_left(s, p) <= col < draw_left(s, p) + draw_cols(s, p)
}

/// Whether the sprite has a 1 at pixel `k` (which it covers).
pub open spec fn sprite_pixel_on(s: MachineState, p: u16, k: int) -> bool {
    sprite_bit(s.memory[s.index + (k / 64 - draw_top(s, p))], k % 64 - draw_left(s, p))
}

/// A pixel flipped: a lit pixel goes dark, any other one lights up.
pub open spec fn flip(v: u32) -> u32 {
    if v == PIXEL_ON { 0u32 } else { PIXEL_ON }
}

/// Pixel `k` after the draw instruction at `p`.
pub open spec fn pixel_after_draw(s: MachineState, p: u16, k: int) -> u32 {
    if draw_covers(s, p, k) && sprite_pixel_on(s, p, k) {
        flip(s.screen[k])
    } else {
        s.screen[k]
    }
}

/// Whether the draw instruction at `p` turns off a lit pixel.
pub open spec fn draw_collides(s: MachineState, p: u16) -> bool {
    exists|k: int|
        0 <= k < SCREEN_SIZE && #[trigger] draw_covers(s, p, k) && s.screen[k] == PIXEL_ON
            && sprite_pixel_on(s, p, k)
}

/// `DXYN`: draws the `N` rows of the sprite at `I` with its top left corner
/// at `(VX mod 64, VY mod 32)`, cut at the edges.  Each 1 of the sprite flips
/// the pixel under it (exclusive or, as in the CHIP-8 guide the project
/// follows), and `VF` tells whether a lit pixel was turned off.
pub open spec fn draw_spec(s: MachineState, p: u16) -> Result<MachineState, Fault> {
    if draw_rows(s, p) > 0 && s.index + draw_rows(s, p) > MEMORY_SIZE {
        Err(Fault::MemoryOutOfBounds)
    } else {
        Ok(MachineState {
            screen: Seq::new(SCREEN_SIZE as nat, |k: int| pixel_after_draw(s, p, k)),
            registers: s.registers.update(15, if draw_collides(s, p) { 1u8 } else { 0u8 }),
            ..s
        })
    }
}

/// The instruction at `p`: the new state, the value handed back for the
/// program counter (which then moves on by 2) and what the driver must do.
#[verifier::opaque]
pub open spec fn execute_spec(s: MachineState, p: u16, pressed: bool, value: u8) -> Result<
    (MachineState, u16, Action),
    Fault,
> {
    let op = s.op_at(p);
    if op == 0 {
        match clear_screen_spec(s, p) {
            Ok((t, q)) => Ok((t, q, if s.y_at(p) == 14 && s.nn_at(p) == 0xE0 {
                Action::UpdateScreen
            } else {
                Action::Continue
            })),
            Err(f) => Err(f),
        }
    } else if op == 1 {
        Ok((s, before(s.nnn_at(p)), Action::Continue))
    } else if op == 2 {
        Ok((subroutine_spec(s, p), before(s.nnn_at(p)), Action::Continue))
    } else if op == 3 {
        Ok((s, equals_spec(s, p), Action::Continue))
    } else if op == 4 {
        Ok((s, not_equals_spec(s, p), Action::Continue))
    } else if op == 5 {
        Ok((s, equal_registers_spec(s, p), Action::Continue))
    } else if op == 6 {
        Ok((set_spec(s, p), p, Action::Continue))
    } else if op == 7 {
        Ok((add_spec(s, p), p, Action::Continue))
    } else if op == 8 {
        match math_spec(s, p) {
            Ok(r) => Ok((s.with_registers(r), p, Action::Continue)),
            Err(f) => Err(f),
        }
    } else if op == 9 {
        Ok((s, not_equal_registers_spec(s, p), Action::Continue))
    } else if op == 10 {
        Ok((i_register_spec(s, p), p, Action::Continue))
    } else if op == 11 {
        Ok((s, before((s.nnn_at(p) + s.reg(0)) as u16), Action::Continue))
    } else if op == 12 {
        Ok((random_spec(s, p, value), p, Action::Continue))
    } else if op == 13 {
        match draw_spec(s, p) {
            Ok(t) => Ok((t, p, Action::Continue)),
            Err(f) => Err(f),
        }
    } else if op == 14 {
        match key_input_spec(s, p, pressed) {
            Ok(q) => Ok((s, q, Action::Continue)),
            Err(f) => Err(f),
        }
    } else {
        match f_spec(s, p) {
            Ok(t) => Ok((t, p, if s.nn_at(p) == 0x0A {
                Action::AwaitKey(s.x_at(p))
            } else {
                Action::Continue
            })),
            Err(f) => Err(f),
        }
    }
}

/// One pass of the run loop: a program counter past the end of memory flips
/// the run flag; a machine that does not run halts; otherwise the instruction
/// at the program counter is executed and the counter moves on by 2.  On a
/// fault the state is the one in which the instruction was fetched.
/// The instruction set follows the CHIP-8 guide the project names; where
/// the guide leaves a choice (the shifts read `VY`, `BNNN` adds `V0`, `FX55`
/// and `FX65` leave `I` alone) the choice is noted at the instruction.
pub open spec fn step_spec(s: MachineState, pressed: bool, value: u8) -> (MachineState, Result<Action, Fault>) {
    let s1 = if s.pc >= MEMORY_SIZE { MachineState { running: !s.running, ..s } } else { s };
    if !s1.running {
        (s1, Ok(Action::Halt))
    } else if s1.pc + 1 >= MEMORY_SIZE {
        (s1, Err(Fault::MemoryOutOfBounds))
    } else {
        match execute_spec(s1, s1.pc, pressed, value) {
            Ok((t, q, a)) => (MachineState { pc: wrap16(q + 2), ..t }, Ok(a)),
            Err(f) => (s1, Err(f)),
        }
    }
}

/// Why the next step cannot run, if it cannot.
pub open spec fn next_fault_spec(s: MachineState) -> Option<Fault> {
    match step_spec(s, false, 0).1 {
        Err(f) => Some(f),
        Ok(_) => None,
    }
}

/// Whether a step can run does not depend on the key state or on the random
/// byte, and its fault is the same for all of them.
pub proof fn lemma_fault_independent(s: MachineState, pressed: bool, value: u8)
    ensures
        match step_spec(s, pressed, value).1 {
            Err(f) => next_fault_spec(s) == Some(f),
            Ok(_) => next_fault_spec(s) is None,
        },
{
    reveal(execute_spec);
}

/// The key whose state the next step reads: that of `EX9E` and `EXA1`.
pub open spec fn key_query_spec(s: MachineState) -> Option<Key> {
    if s.running && s.pc + 1 < MEMORY_SIZE && s.op_at(s.pc) == 14 && (s.nn_at(s.pc) == 0x9E
        || s.nn_at(s.pc) == 0xA1) {
        Some(key_of(low_nibble(s.vx(s.pc))))
    } else {
        None
    }
}

/// A CHIP-8 machine.
pub struct Chip8 {
    memory: [u8; 4096],
    registers: [u8; 16],
    register_i: u16,
    stack: VecDeque<u16>,
    screen: [u32; 2048],
    timer: u16,
    running: bool,
    pc: u16,
}

impl View for Chip8 {
    type V = MachineState;

    closed spec fn view(&self) -> MachineState {
        MachineState {
            memory: self.memory@,
            registers: self.registers@,
            index: self.register_i,
            stack: self.stack@,
            screen: self.screen@,
            timer: self.timer,
            running: self.running,
            pc: self.pc,
        }
    }
}

impl Chip8 {
    /// A machine with all memory, registers and pixels zero, an empty call
    /// stack, not running, with the program counter at the program start.
    pub fn new() -> (m: Chip8)
        ensures
            m@.wf(),
            m@.memory == Seq::new(MEMORY_SIZE as nat, |i: int| 0u8),
            m@.registers == Seq::new(REGISTER_COUNT as nat, |i: int| 0u8),
            m@.screen == Seq::new(SCREEN_SIZE as nat, |i: int| 0u32),
            m@.stack == Seq::<u16>::empty(),
            m@.index == 0,
            m@.timer == 0,
            !m@.running,
            m@.pc == PROGRAM_START,
    {
        Chip8 {
            memory: [0u8; 4096],
            registers: [0u8; 16],
            register_i: 0,
            stack: VecDeque::new(),
            screen: [0u32; 2048],
            timer: 0,
            running: false,
            pc: PROGRAM_START,
        }
    }

    /// Register `index`.
    pub fn read_register(&self, index: usize) -> (v: u8)
        requires
            index < REGISTER_COUNT,
        ensures
            v == self@.registers[index as int],
    {
        self.registers[index]
    }

    /// The byte at address `index`.
    pub fn read_memory(&self, index: usize) -> (v: u8)
        requires
            index < MEMORY_SIZE,
        ensures
            v == self@.memory[index as int],
    {
        self.memory[index]
    }

    /// Sets register `index` to `value`.
    pub fn write_register(&mut self, index: usize, value: u8)
        requires
            index < REGISTER_COUNT,
        ensures
            final(self)@ == old(self)@.with_registers(old(self)@.registers.update(index as int, value)),
    {
        self.registers[index] = value;
    }

    /// Sets the byte at address `index` to `value`.
    pub fn write_memory(&mut self, index: usize, value: u8)
        requires
            index < MEMORY_SIZE,
        ensures
            final(self)@ == old(self)@.with_memory(old(self)@.memory.update(index as int, value)),
    {
        self.memory[index] = value;
    }

    /// Sets every byte of memory to zero.
    pub fn whipe_memory(&mut self)
        ensures
            final(self)@ == old(self)@.with_memory(Seq::new(MEMORY_SIZE as nat, |i: int| 0u8)),
    {
        self.memory = [0u8; 4096];
    }

    /// The program counter.
    pub fn pc(&self) -> (p: u16)
        ensures
            p == self@.pc,
    {
        self.pc
    }

    /// The index register `I`.
    pub fn register_i(&self) -> (i: u16)
        ensures
            i == self@.index,
    {
        self.register_i
    }

    /// Whether the machine is running.
    pub fn is_running(&self) -> (r: bool)
        ensures
            r == self@.running,
    {
        self.running
    }

    /// The delay timer.
    pub fn timer(&self) -> (t: u16)
        ensures
            t == self@.timer,
    {
        self.timer
    }

    /// The screen, row by row, one `u32` colour per pixel.
    pub fn screen(&self) -> (s: &[u32])
        ensures
            s@ == self@.screen,
    {
        self.screen.as_slice()
    }

    /// The fourth nibble of the instruction at `pointer`.
    pub fn read_n(&self, pointer: u16) -> (n: u8)
        requires
            pointer + 1 < MEMORY_SIZE,
        ensures
            n == self@.n_at(pointer),
            n < 16,
    {
        self.memory[(pointer + 1) as usize] % 16
    }

    /// The third nibble of the instruction at `pointer`.
    pub fn read_y(&self, pointer: u16) -> (y: u8)
        requires
            pointer + 1 < MEMORY_SIZE,
        ensures
            y == self@.y_at(pointer),
            y < 16,
    {
        self.memory[(pointer + 1) as usize] / 16
    }

    /// The second nibble of the instruction at `pointer`.
    pub fn read_x(&self, pointer: u16) -> (x: u8)
        requires
            pointer < MEMORY_SIZE,
        ensures
            x == self@.x_at(pointer),
            x < 16,
    {
        self.memory[pointer as usize] % 16
    }

    /// The second byte of the instruction at `pointer`.
    pub fn read_nn(&self, pointer: u16) -> (nn: u8)
        requires
            pointer + 1 < MEMORY_SIZE,
        ensures
            nn == self@.nn_at(pointer),
    {
        self.memory[(pointer + 1) as usize]
    }

    /// The last three nibbles of the instruction at `pointer`: an address.
    pub fn read_nnn(&self, pointer: u16) -> (nnn: u16)
        requires
            pointer + 1 < MEMORY_SIZE,
        ensures
            nnn == self@.nnn_at(pointer),
            nnn < 4096,
    {
        let first = self.read_x(pointer) as u16;
        first * 256 + self.memory[(pointer + 1) as usize] as u16
    }

    /// The operation nibble (the first) of the instruction at `pointer`.
    pub fn read_op(&self, pointer: u16) -> (op: u8)
        requires
            pointer < MEMORY_SIZE,
        ensures
            op == self@.op_at(pointer),
            op < 16,
    {
        self.memory[pointer as usize] / 16
    }
}

/// Draws a random byte.
///
/// Calls `rand::random::<u8>()`, which draws from the thread-local generator
/// seeded by the operating system.  Nothing is stated of the byte: any value
/// may come back.  The call panics only when the operating system's entropy
/// source fails (when the generator is first seeded or reseeded), which no
/// argument can cause or prevent.
#[verifier::external_body]
fn random_byte() -> (b: u8) {
    rand::random::<u8>()
}

impl Chip8 {
    /// `1NNN`: jumps to `NNN`.
    pub fn jump(&self, pointer: u16) -> (r: u16)
        requires
            pointer + 1 < MEMORY_SIZE,
        ensures
            r == before(self@.nnn_at(pointer)),
    {
        let target = self.read_nnn(pointer);
        if target >= 2 {
            target - 2
        } else {
            target + 65534
        }
    }

    /// `BNNN`: jumps to `NNN + V0`.
    pub fn jump_with_offset(&self, pointer: u16) -> (r: u16)
        requires
            pointer + 1 < MEMORY_SIZE,
        ensures
            r == before((self@.nnn_at(pointer) + self@.reg(0)) as u16),
    {
        let target = self.read_nnn(pointer) + self.read_register(0) as u16;
        if target >= 2 {
            target - 2
        } else {
            target + 65534
        }
    }

    /// `2NNN`: calls the subroutine at `NNN`.
    pub fn subroutine(&mut self, pointer: u16) -> (r: u16)
        requires
            pointer + 1 < MEMORY_SIZE,
        ensures
            final(self)@ == subroutine_spec(old(self)@, pointer),
            r == before(old(self)@.nnn_at(pointer)),
    {
        let r = self.jump(pointer);
        self.stack.push_front(pointer);
        r
    }

    /// `3XNN`: skips the next instruction when `VX == NN`.
    pub fn equals(&self, pointer: u16) -> (r: u16)
        requires
            pointer + 1 < MEMORY_SIZE,
        ensures
            r == equals_spec(self@, pointer),
    {
        let x = self.read_x(pointer) as usize;
        let nn = self.read_nn(pointer);
        if self.read_register(x) == nn {
            pointer + 2
        } else {
            pointer
        }
    }

    /// `4XNN`: skips the next instruction when `VX != NN`.
    pub fn not_equals(&self, pointer: u16) -> (r: u16)
        requires
            pointer + 1 < MEMORY_SIZE,
        ensures
            r == not_equals_spec(self@, pointer),
    {
        let x = self.read_x(pointer) as usize;
        let nn = self.read_nn(pointer);
        if self.read_register(x) != nn {
            pointer + 2
        } else {
            pointer
        }
    }

    /// `5XY0`: skips the next instruction when `VX == VY`.
    pub fn equal_registers(&self, pointer: u16) -> (r: u16)
        requires
            pointer + 1 < MEMORY_SIZE,
        ensures
            r == equal_registers_spec(self@, pointer),
    {
        if self.read_register(self.read_x(pointer) as usize) == self.read_register(
            self.read_y(pointer) as usize,
        ) {
            pointer + 2
        } else {
            pointer
        }
    }

    /// `9XY0`: skips the next instruction when `VX != VY`.
    pub fn not_equal_registers(&self, pointer: u16) -> (r: u16)
        requires
            pointer + 1 < MEMORY_SIZE,
        ensures
            r == not_equal_registers_spec(self@, pointer),
    {
        if self.read_register(self.read_x(pointer) as usize) != self.read_register(
            self.read_y(pointer) as usize,
        ) {
            pointer + 2
        } else {
            pointer
        }
    }

    /// `6XNN`: `VX = NN`.
    pub fn set(&mut self, pointer: u16) -> (r: u16)
        requires
            pointer + 1 < MEMORY_SIZE,
        ensures
            final(self)@ == set_spec(old(self)@, pointer),
            r == pointer,
    {
        let x = self.read_x(pointer) as usize;
        let nn = self.read_nn(pointer);
        self.write_register(x, nn);
        pointer
    }

    /// `7XNN`: `VX = VX + NN`, wrapping.
    pub fn add(&mut self, pointer: u16) -> (r: u16)
        requires
            pointer + 1 < MEMORY_SIZE,
        ensures
            final(self)@ == add_spec(old(self)@, pointer),
            r == pointer,
    {
        let x = self.read_x(pointer) as usize;
        let v = self.read_register(x).wrapping_add(self.read_nn(pointer));
        self.write_register(x, v);
        pointer
    }

    /// `ANNN`: `I = NNN`.
    pub fn i_register_interaction(&mut self, pointer: u16) -> (r: u16)
        requires
            pointer + 1 < MEMORY_SIZE,
        ensures
            final(self)@ == i_register_spec(old(self)@, pointer),
            r == pointer,
    {
        self.register_i = self.read_nnn(pointer);
        pointer
    }

    /// `CXNN` with the random byte `value`: `VX = value & NN`.
    pub fn set_random(&mut self, pointer: u16, value: u8) -> (r: u16)
        requires
            pointer + 1 < MEMORY_SIZE,
        ensures
            final(self)@ == random_spec(old(self)@, pointer, value),
            r == pointer,
    {
        let upper = self.read_nn(pointer);
        let x = self.read_x(pointer) as usize;
        self.write_register(x, value & upper);
        pointer
    }

    /// `CXNN`: `VX = r & NN` for a freshly drawn random byte `r`.
    pub fn random(&mut self, pointer: u16) -> (r: u16)
        requires
            pointer + 1 < MEMORY_SIZE,
        ensures
            exists|value: u8| final(self)@ == random_spec(old(self)@, pointer, value),
            r == pointer,
    {
        let value = random_byte();
        self.set_random(pointer, value)
    }

    /// `8XYN`: the arithmetic and logic instructions.
    pub fn math_instruction(&mut self, pointer: u16) -> (r: u16)
        requires
            pointer + 1 < MEMORY_SIZE,
            math_spec(old(self)@, pointer) is Ok,
        ensures
            r == pointer,
            final(self)@ == old(self)@.with_registers(math_spec(old(self)@, pointer)->Ok_0),
    {
        let operation_type = self.read_n(pointer);
        let x = self.read_x(pointer) as usize;
        let y = self.read_y(pointer) as usize;
        self.registers = math_on(self.registers, x, y, operation_type);
        pointer
    }
}

/// `8XYN` on a register file.
fn math_on(registers: [u8; 16], x: usize, y: usize, operation_type: u8) -> (r: [u8; 16])
    requires
        x < 16,
        y < 16,
        math_registers(registers@, x as int, y as int, operation_type) is Ok,
    ensures
        r@ == math_registers(registers@, x as int, y as int, operation_type)->Ok_0,
{
    let mut regs = registers;
    if operation_type == 0 {
        regs[x] = regs[y];
    } else if operation_type == 1 {
        regs[x] = regs[x] | regs[y];
    } else if operation_type == 2 {
        regs[x] = regs[x] & regs[y];
    } else if operation_type == 3 {
        regs[x] = regs[x] ^ regs[y];
    } else if operation_type == 4 {
        regs[15] = if regs[x].checked_add(regs[y]).is_none() {
            1
        } else {
            0
        };
        regs[x] = regs[x].wrapping_add(regs[y]);
    } else if operation_type == 5 {
        regs[15] = if regs[x].checked_sub(regs[y]).is_none() {
            0
        } else {
            1
        };
        regs[x] = regs[x].wrapping_sub(regs[y]);
    } else if operation_type == 7 {
        regs[15] = if regs[y].checked_sub(regs[x]).is_none() {
            0
        } else {
            1
        };
        regs[x] = regs[y].wrapping_sub(regs[x]);
    } else if operation_type == 6 {
        let reg_y = regs[y];
        let shifted = reg_y / 2;
        let remainder = reg_y - shifted * 2;
        regs[x] = shifted;
        regs[15] = remainder;
    } else {
        let reg_y = regs[y];
        let shifted = ((reg_y as u16 * 2) % 256) as u8;
        let remainder = reg_y - shifted / 2;
        regs[x] = shifted;
        regs[15] = remainder / 128;
    }
    regs
}

/// Whether pixel `k`, covered by the draw at `p`, comes before the pixel at
/// (`row`, `col`) in drawing order.
spec fn draw_done(s: MachineState, p: u16, k: int, row: int, col: int) -> bool {
    draw_covers(s, p, k) && (k / 64 < row || (k / 64 == row && k % 64 < col))
}

/// Whether a pixel drawn before (`row`, `col`) turned a lit pixel off.
spec fn draw_hit_before(s: MachineState, p: u16, row: int, col: int) -> bool {
    exists|k: int|
        0 <= k < SCREEN_SIZE && #[trigger] draw_done(s, p, k, row, col) && s.screen[k] == PIXEL_ON
            && sprite_pixel_on(s, p, k)
}

/// Pixel (`col`, `row`) sits at index `row * 64 + col` of the screen.
pub proof fn lemma_pixel_index(row: int, col: int)
    requires
        0 <= row,
        0 <= col < 64,
    ensures
        (row * 64 + col) / 64 == row,
        (row * 64 + col) % 64 == col,
{
    assert((row * 64 + col) / 64 == row) by (nonlinear_arith)
        requires
            0 <= row,
            0 <= col < 64,
    ;
    assert((row * 64 + col) % 64 == col) by (nonlinear_arith)
        requires
            0 <= row,
            0 <= col < 64,
    ;
}

impl Chip8 {
    /// Sets pixel (`x`, `y`) on or off; tells whether it was on.
    pub fn set_pixel(&mut self, x: u8, y: u8, on: bool) -> (was_on: bool)
        requires
            y * 64 + x < SCREEN_SIZE,
        ensures
            final(self)@ == (MachineState {
                screen: old(self)@.screen.update(y * 64 + x, if on { PIXEL_ON } else { 0u32 }),
                ..old(self)@
            }),
            was_on == (old(self)@.screen[y * 64 + x] == PIXEL_ON),
    {
        let index = y as usize * 64 + x as usize;
        let prev = self.screen[index];
        self.screen[index] = if on { PIXEL_ON } else { 0 };
        prev == PIXEL_ON
    }

    /// `0???`: clears the screen (`00E0`) or returns from a subroutine (`00EE`).
    pub fn clear_screen(&mut self, pointer: u16) -> (r: u16)
        requires
            pointer + 1 < MEMORY_SIZE,
            clear_screen_spec(old(self)@, pointer) is Ok,
        ensures
            (final(self)@, r) == clear_screen_spec(old(self)@, pointer)->Ok_0,
    {
        if self.read_y(pointer) == 14 {
            let opt_type = self.read_nn(pointer);
            if opt_type == 0xE0 {
                self.screen = [0u32; 2048];
                pointer
            } else {
                match self.stack.pop_front() {
                    Some(target) => target,
                    None => pointer,
                }
            }
        } else {
            pointer
        }
    }

    /// `EX9E` / `EXA1`, where `pressed` is the state of the key of `VX`
    /// (see [`Chip8::key_to_check`]).
    pub fn key_input(&self, pointer: u16, pressed: bool) -> (r: u16)
        requires
            pointer + 1 < MEMORY_SIZE,
            key_input_spec(self@, pointer, pressed) is Ok,
        ensures
            r == key_input_spec(self@, pointer, pressed)->Ok_0,
    {
        let op_type = self.read_nn(pointer);
        if op_type == 0x9E {
            if pressed {
                pointer + 2
            } else {
                pointer
            }
        } else {
            if !pressed {
                pointer + 2
            } else {
                pointer
            }
        }
    }

    /// `FX??`: the index register, font, decimal and block-transfer instructions.
    pub fn f_instructions(&mut self, pointer: u16) -> (r: u16)
        requires
            pointer + 1 < MEMORY_SIZE,
            f_spec(old(self)@, pointer) is Ok,
        ensures
            r == pointer,
            final(self)@ == f_spec(old(self)@, pointer)->Ok_0,
    {
        let op_type = self.read_nn(pointer);
        let x = self.read_x(pointer) as usize;
        let base = self.register_i as usize;
        if op_type == 0x1E {
            self.register_i = self.register_i.wrapping_add(self.read_register(x) as u16);
        } else if op_type == 0x29 {
            let glyph = self.read_register(x) % 16;
            self.register_i = FONT_START + 5 * (glyph as u16);
        } else if op_type == 0x55 {
            let ghost s0 = self@;
            let mut i: usize = 0;
            while i <= x
                invariant
                    s0.wf(),
                    x < 16,
                    base == s0.index,
                    base + x < MEMORY_SIZE,
                    i <= x + 1,
                    self@ == s0.with_memory(self@.memory),
                    self@.memory.len() == MEMORY_SIZE,
                    forall|a: int|
                        0 <= a < MEMORY_SIZE ==> #[trigger] self@.memory[a] == if base <= a < base
                            + i {
                            s0.registers[a - base]
                        } else {
                            s0.memory[a]
                        },
                decreases x + 1 - i,
            {
                let v = self.registers[i];
                self.memory[base + i] = v;
                i += 1;
            }
            assert(self@.memory =~= Seq::new(
                MEMORY_SIZE as nat,
                |a: int|
                    if base <= a <= base + x {
                        s0.registers[a - base]
                    } else {
                        s0.memory[a]
                    },
            ));
        } else if op_type == 0x65 {
            let ghost s0 = self@;
            let mut i: usize = 0;
            while i <= x
                invariant
                    s0.wf(),
                    x < 16,
                    base == s0.index,
                    base + x < MEMORY_SIZE,
                    i <= x + 1,
                    self@ == s0.with_registers(self@.registers),
                    self@.registers.len() == REGISTER_COUNT,
                    forall|r: int|
                        0 <= r < REGISTER_COUNT ==> #[trigger] self@.registers[r] == if r < i {
                            s0.memory[base + r]
                        } else {
                            s0.registers[r]
                        },
                decreases x + 1 - i,
            {
                let v = self.memory[base + i];
                self.registers[i] = v;
                i += 1;
            }
            assert(self@.registers =~= Seq::new(
                REGISTER_COUNT as nat,
                |r: int|
                    if r <= x {
                        s0.memory[base + r]
                    } else {
                        s0.registers[r]
                    },
            ));
        } else if op_type == 0x33 {
            let vx = self.read_register(x);
            let hundreds = vx / 100;
            let tens = vx / 10 - hundreds * 10;
            let ones = vx - hundreds * 100 - tens * 10;
            assert(tens == (vx / 10) % 10 && ones == vx % 10) by (nonlinear_arith)
                requires
                    hundreds == vx / 100,
                    tens == vx / 10 - hundreds * 10,
                    ones == vx - hundreds * 100 - tens * 10,
            ;
            self.memory[base] = hundreds;
            self.memory[base + 1] = tens;
            self.memory[base + 2] = ones;
        }
        pointer
    }

    /// `DXYN`: draws a sprite (see [`draw_spec`]).
    pub fn draw(&mut self, pointer: u16) -> (r: u16)
        requires
            pointer + 1 < MEMORY_SIZE,
            draw_spec(old(self)@, pointer) is Ok,
        ensures
            r == pointer,
            final(self)@ == draw_spec(old(self)@, pointer)->Ok_0,
    {
        let ghost s0 = self@;
        let vx = self.read_register(self.read_x(pointer) as usize);
        let vy = self.read_register(self.read_y(pointer) as usize);
        let ox = vx % 64;
        let oy = vy % 32;
        let n = self.read_n(pointer);
        let ghost rows: int = draw_rows(s0, pointer);
        let base = self.register_i as usize;
        self.registers[15] = 0;
        let mut hit = false;
        let mut i: u8 = 0;
        let mut y: u8 = oy;
        while i < n && y < 32
            invariant
                s0.wf(),
                pointer + 1 < MEMORY_SIZE,
                ox as int == draw_left(s0, pointer),
                oy as int == draw_top(s0, pointer),
                n == s0.n_at(pointer),
                rows == draw_rows(s0, pointer),
                base == s0.index,
                rows > 0 ==> base + rows <= MEMORY_SIZE,
                i <= rows,
                y == oy + i,
                self@ == (MachineState {
                    screen: self@.screen,
                    registers: s0.registers.update(15, 0u8),
                    ..s0
                }),
                self@.screen.len() == SCREEN_SIZE,
                forall|k: int|
                    0 <= k < SCREEN_SIZE ==> #[trigger] self@.screen[k] == if draw_done(
                        s0,
                        pointer,
                        k,
                        y as int,
                        ox as int,
                    ) {
                        pixel_after_draw(s0, pointer, k)
                    } else {
                        s0.screen[k]
                    },
                hit == draw_hit_before(s0, pointer, y as int, ox as int),
            decreases rows - i,
        {
            let sprite = self.memory[base + i as usize];
            let mut j: u8 = 0;
            let mut x: u8 = ox;
            while j < 8 && x < 64
                invariant
                    s0.wf(),
                    pointer + 1 < MEMORY_SIZE,
                    ox as int == draw_left(s0, pointer),
                    oy as int == draw_top(s0, pointer),
                    rows == draw_rows(s0, pointer),
                    base == s0.index,
                    i < rows,
                    y == oy + i,
                    y < 32,
                    sprite == s0.memory[base + i],
                    j <= draw_cols(s0, pointer),
                    x == ox + j,
                    self@ == (MachineState {
                        screen: self@.screen,
                        registers: s0.registers.update(15, 0u8),
                        ..s0
                    }),
                    self@.screen.len() == SCREEN_SIZE,
                    forall|k: int|
                        0 <= k < SCREEN_SIZE ==> #[trigger] self@.screen[k] == if draw_done(
                            s0,
                            pointer,
                            k,
                            y as int,
                            x as int,
                        ) {
                            pixel_after_draw(s0, pointer, k)
                        } else {
                            s0.screen[k]
                        },
                    hit == draw_hit_before(s0, pointer, y as int, x as int),
                decreases 8 - j,
            {
                let on = (sprite >> (7 - j)) & 1;
                let ghost shift: u8 = (7 - j) as u8;
                assert(on == 0 || on == 1) by (bit_vector)
                    requires
                        on == (sprite >> shift) & 1,
                ;
                let ghost idx = y * 64 + x;
                proof {
                    lemma_pixel_index(y as int, x as int);
                }
                let ghost before_screen = self@.screen;
                let mut was_on = false;
                if on == 1 {
                    let lit = self.screen[y as usize * 64 + x as usize] == PIXEL_ON;
                    was_on = self.set_pixel(x, y, !lit);
                }
                proof {
                    assert(!draw_done(s0, pointer, idx, y as int, x as int));
                    assert(draw_covers(s0, pointer, idx));
                    assert(sprite_pixel_on(s0, pointer, idx) == (on == 1));
                    assert(before_screen[idx] == s0.screen[idx]);
                    assert forall|k: int| 0 <= k < SCREEN_SIZE implies #[trigger] draw_done(
                        s0,
                        pointer,
                        k,
                        y as int,
                        x + 1,
                    ) == (draw_done(s0, pointer, k, y as int, x as int) || k == idx) by {
                        if k != idx && k / 64 == y && k % 64 == x {
                            assert(k == (k / 64) * 64 + k % 64) by (nonlinear_arith);
                        }
                    }
                    if draw_hit_before(s0, pointer, y as int, x + 1) {
                        let k = choose|k: int|
                            0 <= k < SCREEN_SIZE && #[trigger] draw_done(s0, pointer, k, y as int, x + 1)
                                && s0.screen[k] == PIXEL_ON && sprite_pixel_on(s0, pointer, k);
                        if k != idx {
                            assert(draw_done(s0, pointer, k, y as int, x as int));
                            assert(draw_hit_before(s0, pointer, y as int, x as int));
                        }
                    }
                    if draw_hit_before(s0, pointer, y as int, x as int) {
                        let k = choose|k: int|
                            0 <= k < SCREEN_SIZE && #[trigger] draw_done(s0, pointer, k, y as int, x as int)
                                && s0.screen[k] == PIXEL_ON && sprite_pixel_on(s0, pointer, k);
                        assert(draw_done(s0, pointer, k, y as int, x + 1));
                    }
                    if was_on {
                        assert(draw_done(s0, pointer, idx, y as int, x + 1));
                    }
                }
                if was_on {
                    hit = true;
                }
                x += 1;
                j += 1;
            }
            proof {
                assert forall|k: int| 0 <= k < SCREEN_SIZE implies #[trigger] draw_done(
                    s0,
                    pointer,
                    k,
                    y as int,
                    x as int,
                ) == draw_done(s0, pointer, k, y + 1, ox as int) by {}
                if draw_hit_before(s0, pointer, y + 1, ox as int) {
                    let k = choose|k: int|
                        0 <= k < SCREEN_SIZE && #[trigger] draw_done(s0, pointer, k, y + 1, ox as int)
                            && s0.screen[k] == PIXEL_ON && sprite_pixel_on(s0, pointer, k);
                    assert(draw_done(s0, pointer, k, y as int, x as int));
                }
                if draw_hit_before(s0, pointer, y as int, x as int) {
                    let k = choose|k: int|
                        0 <= k < SCREEN_SIZE && #[trigger] draw_done(s0, pointer, k, y as int, x as int)
                            && s0.screen[k] == PIXEL_ON && sprite_pixel_on(s0, pointer, k);
                    assert(draw_done(s0, pointer, k, y + 1, ox as int));
                }
            }
            y += 1;
            i += 1;
        }
        proof {
            assert forall|k: int| 0 <= k < SCREEN_SIZE implies #[trigger] draw_done(
                s0,
                pointer,
                k,
                y as int,
                ox as int,
            ) == draw_covers(s0, pointer, k) by {}
            if draw_collides(s0, pointer) {
                let k = choose|k: int|
                    0 <= k < SCREEN_SIZE && #[trigger] draw_covers(s0, pointer, k)
                        && s0.screen[k] == PIXEL_ON && sprite_pixel_on(s0, pointer, k);
                assert(draw_done(s0, pointer, k, y as int, ox as int));
            }
            if draw_hit_before(s0, pointer, y as int, ox as int) {
                let k = choose|k: int|
                    0 <= k < SCREEN_SIZE && #[trigger] draw_done(s0, pointer, k, y as int, ox as int)
                        && s0.screen[k] == PIXEL_ON && sprite_pixel_on(s0, pointer, k);
                assert(draw_covers(s0, pointer, k));
            }
            assert(self@.screen =~= Seq::new(
                SCREEN_SIZE as nat,
                |k: int| pixel_after_draw(s0, pointer, k),
            ));
        }
        if hit {
            self.registers[15] = 1;
        }
        pointer
    }
}

/// The hexadecimal font: five rows of one byte for each of the glyphs 0 to F.
pub open spec fn font_spec() -> Seq<u8> {
    seq![
        0xF0u8, 0x90, 0x90, 0x90, 0xF0, // 0
        0x20, 0x60, 0x20, 0x20, 0x70, // 1
        0xF0, 0x10, 0xF0, 0x80, 0xF0, // 2
        0xF0, 0x10, 0xF0, 0x10, 0xF0, // 3
        0x90, 0x90, 0xF0, 0x10, 0x10, // 4
        0xF0, 0x80, 0xF0, 0x10, 0xF0, // 5
        0xF0, 0x80, 0xF0, 0x90, 0xF0, // 6
        0xF0, 0x10, 0x20, 0x40, 0x40, // 7
        0xF0, 0x90, 0xF0, 0x90, 0xF0, // 8
        0xF0, 0x90, 0xF0, 0x10, 0xF0, // 9
        0xF0, 0x90, 0xF0, 0x90, 0x90, // A
        0xE0, 0x90, 0xE0, 0x90, 0xE0, // B
        0xF0, 0x80, 0x80, 0x80, 0xF0, // C
        0xE0, 0x90, 0x90, 0x90, 0xE0, // D
        0xF0, 0x80, 0xF0, 0x80, 0xF0, // E
        0xF0, 0x80, 0xF0, 0x80, 0x80, // F
    ]
}

/// Memory `m` with the font written at the font address.
pub open spec fn with_font(m: Seq<u8>) -> Seq<u8> {
    Seq::new(
        m.len(),
        |a: int|
            if FONT_START <= a < FONT_START + 80 {
                font_spec()[a - FONT_START]
            } else {
                m[a]
            },
    )
}

/// Memory `m` with `program` written at the program start.
pub open spec fn with_program(m: Seq<u8>, program: Seq<u8>) -> Seq<u8> {
    Seq::new(
        m.len(),
        |a: int|
            if PROGRAM_START <= a < PROGRAM_START + program.len() {
                program[a - PROGRAM_START]
            } else {
                m[a]
            },
    )
}

impl Chip8 {
    /// Executes the instruction at `pointer`.  `pressed` is the state of the
    /// key that [`Chip8::key_to_check`] names and `value` the random byte for
    /// `CXNN`.  Gives the value for the program counter (before it moves on by
    /// 2) and what the driver must do.
    pub fn execute(&mut self, pointer: u16, pressed: bool, value: u8) -> (r: (u16, Action))
        requires
            pointer + 1 < MEMORY_SIZE,
            execute_spec(old(self)@, pointer, pressed, value) is Ok,
        ensures
            (final(self)@, r.0, r.1) == execute_spec(old(self)@, pointer, pressed, value)->Ok_0,
    {
        proof {
            reveal(execute_spec);
        }
        let op_id = self.read_op(pointer);
        if op_id == 0 {
            let update = self.read_y(pointer) == 14 && self.read_nn(pointer) == 0xE0;
            let q = self.clear_screen(pointer);
            (q, if update { Action::UpdateScreen } else { Action::Continue })
        } else if op_id == 1 {
            (self.jump(pointer), Action::Continue)
        } else if op_id == 2 {
            (self.subroutine(pointer), Action::Continue)
        } else if op_id == 3 {
            (self.equals(pointer), Action::Continue)
        } else if op_id == 4 {
            (self.not_equals(pointer), Action::Continue)
        } else if op_id == 5 {
            (self.equal_registers(pointer), Action::Continue)
        } else if op_id == 6 {
            (self.set(pointer), Action::Continue)
        } else if op_id == 7 {
            (self.add(pointer), Action::Continue)
        } else if op_id == 8 {
            (self.math_instruction(pointer), Action::Continue)
        } else if op_id == 9 {
            (self.not_equal_registers(pointer), Action::Continue)
        } else if op_id == 10 {
            (self.i_register_interaction(pointer), Action::Continue)
        } else if op_id == 11 {
            (self.jump_with_offset(pointer), Action::Continue)
        } else if op_id == 12 {
            (self.set_random(pointer, value), Action::Continue)
        } else if op_id == 13 {
            (self.draw(pointer), Action::Continue)
        } else if op_id == 14 {
            (self.key_input(pointer, pressed), Action::Continue)
        } else {
            let wait = self.read_nn(pointer) == 0x0A;
            let x = self.read_x(pointer);
            let q = self.f_instructions(pointer);
            (q, if wait { Action::AwaitKey(x) } else { Action::Continue })
        }
    }

    /// Why the instruction at `pointer` cannot run, if it cannot.
    fn fault_at(&self, pointer: u16) -> (r: Option<Fault>)
        requires
            pointer + 1 < MEMORY_SIZE,
        ensures
            match execute_spec(self@, pointer, false, 0) {
                Err(f) => r == Some(f),
                Ok(_) => r is None,
            },
    {
        proof {
            reveal(execute_spec);
        }
        let op_id = self.read_op(pointer);
        let nn = self.read_nn(pointer);
        let x = self.read_x(pointer);
        let base = self.register_i as usize;
        if op_id == 0 {
            if self.read_y(pointer) == 14 && nn != 0xE0 {
                if nn != 0xEE {
                    return Some(Fault::IllegalOperation);
                }
                if self.stack.len() == 0 {
                    return Some(Fault::IllegalSubroutineCall);
                }
            }
            None
        } else if op_id == 8 {
            let n = self.read_n(pointer);
            if n <= 7 || n == 14 {
                None
            } else {
                Some(Fault::IllegalMathOperation)
            }
        } else if op_id == 13 {
            let vy = self.read_register(self.read_y(pointer) as usize);
            let oy = vy % 32;
            let n = self.read_n(pointer);
            let rows: u8 = if n < 32 - oy {
                n
            } else {
                32 - oy
            };
            if rows > 0 && base + rows as usize > MEMORY_SIZE {
                Some(Fault::MemoryOutOfBounds)
            } else {
                None
            }
        } else if op_id == 14 {
            if nn == 0x9E || nn == 0xA1 {
                None
            } else {
                Some(Fault::IllegalKeyOperation)
            }
        } else if op_id == 15 {
            if (nn == 0x55 || nn == 0x65) && base + x as usize >= MEMORY_SIZE {
                Some(Fault::MemoryOutOfBounds)
            } else if nn == 0x33 && base + 2 >= MEMORY_SIZE {
                Some(Fault::MemoryOutOfBounds)
            } else {
                None
            }
        } else {
            None
        }
    }

    /// Why the next step cannot run, if it cannot (see [`next_fault_spec`]);
    /// the driver asks this before each step.
    pub fn next_fault(&self) -> (r: Option<Fault>)
        ensures
            r == next_fault_spec(self@),
    {
        let running = if self.pc as usize >= MEMORY_SIZE {
            !self.running
        } else {
            self.running
        };
        if !running {
            return None;
        }
        if self.pc as usize + 1 >= MEMORY_SIZE {
            return Some(Fault::MemoryOutOfBounds);
        }
        let r = self.fault_at(self.pc);
        proof {
            assert(execute_spec(self@, self@.pc, false, 0) == execute_spec(self@, self@.pc, false, 0));
        }
        r
    }

    /// One pass of the run loop (see [`step_spec`]); the driver first makes
    /// sure that [`Chip8::next_fault`] is `None`.
    pub fn step(&mut self, pressed: bool, value: u8) -> (r: Action)
        requires
            step_spec(old(self)@, pressed, value).1 is Ok,
        ensures
            final(self)@ == step_spec(old(self)@, pressed, value).0,
            r == step_spec(old(self)@, pressed, value).1->Ok_0,
    {
        if self.pc as usize >= MEMORY_SIZE {
            self.running = !self.running;
        }
        if !self.running {
            return Action::Halt;
        }
        let pointer = self.pc;
        let (q, action) = self.execute(pointer, pressed, value);
        self.pc = q.wrapping_add(2);
        action
    }

    /// One pass of the run loop with a freshly drawn random byte for `CXNN`;
    /// the driver first makes sure that [`Chip8::next_fault`] is `None`.
    pub fn cycle(&mut self, pressed: bool) -> (r: Action)
        requires
            next_fault_spec(old(self)@) is None,
        ensures
            exists|value: u8|
                final(self)@ == step_spec(old(self)@, pressed, value).0 && step_spec(
                    old(self)@,
                    pressed,
                    value,
                ).1 == Ok::<Action, Fault>(r),
    {
        let value = random_byte();
        proof {
            lemma_fault_independent(self@, pressed, value);
        }
        self.step(pressed, value)
    }

    /// The key whose state the next step reads, if any: the key of `VX` for
    /// `EX9E` and `EXA1`.
    pub fn key_to_check(&self) -> (k: Option<Key>)
        ensures
            k == key_query_spec(self@),
    {
        let pointer = self.pc;
        if self.running && (pointer as usize) + 1 < MEMORY_SIZE && self.read_op(pointer) == 14 {
            let nn = self.read_nn(pointer);
            if nn == 0x9E || nn == 0xA1 {
                let reg = self.read_register(self.read_x(pointer) as usize);
                return Some(to_key(reg % 16));
            }
        }
        None
    }

    /// Starts a run: writes the font, sets the program counter to the program
    /// start and the run flag.  The machine must not be running already.
    pub fn start(&mut self)
        requires
            !old(self)@.running,
        ensures
            final(self)@ == (MachineState {
                memory: with_font(old(self)@.memory),
                running: true,
                pc: PROGRAM_START,
                ..old(self)@
            }),
    {
        self.running = true;
        let font: [u8; 80] = [
            0xF0, 0x90, 0x90, 0x90, 0xF0,  // 0
            0x20, 0x60, 0x20, 0x20, 0x70,  // 1
            0xF0, 0x10, 0xF0, 0x80, 0xF0,  // 2
            0xF0, 0x10, 0xF0, 0x10, 0xF0,  // 3
            0x90, 0x90, 0xF0, 0x10, 0x10,  // 4
            0xF0, 0x80, 0xF0, 0x10, 0xF0,  // 5
            0xF0, 0x80, 0xF0, 0x90, 0xF0,  // 6
            0xF0, 0x10, 0x20, 0x40, 0x40,  // 7
            0xF0, 0x90, 0xF0, 0x90, 0xF0,  // 8
            0xF0, 0x90, 0xF0, 0x10, 0xF0,  // 9
            0xF0, 0x90, 0xF0, 0x90, 0x90,  // A
            0xE0, 0x90, 0xE0, 0x90, 0xE0,  // B
            0xF0, 0x80, 0x80, 0x80, 0xF0,  // C
            0xE0, 0x90, 0x90, 0x90, 0xE0,  // D
            0xF0, 0x80, 0xF0, 0x80, 0xF0,  // E
            0xF0, 0x80, 0xF0, 0x80, 0x80,  // F
        ];
        assert(font@ =~= font_spec());
        let ghost s0 = self@;
        let mut p: usize = FONT_START as usize;
        let mut i: usize = 0;
        while i < 80
            invariant
                s0.wf(),
                font@ == font_spec(),
                p == FONT_START + i,
                i <= 80,
                self@ == s0.with_memory(self@.memory),
                self@.memory.len() == MEMORY_SIZE,
                forall|a: int|
                    0 <= a < MEMORY_SIZE ==> #[trigger] self@.memory[a] == if FONT_START <= a < p {
                        font_spec()[a - FONT_START]
                    } else {
                        s0.memory[a]
                    },
            decreases 80 - i,
        {
            self.memory[p] = font[i];
            p += 1;
            i += 1;
        }
        assert(self@.memory =~= with_font(s0.memory));
        self.pc = PROGRAM_START;
    }

    /// Clears the run flag, so that the next step halts.
    pub fn stop(&mut self)
        ensures
            final(self)@ == (MachineState { running: false, ..old(self)@ }),
    {
        self.running = false;
    }

    /// One tick of the delay timer: it counts down to zero and stays there.
    /// Tells whether the machine still runs.
    pub fn tick_timer(&mut self) -> (running: bool)
        ensures
            final(self)@ == (MachineState {
                timer: if old(self)@.timer > 0 { (old(self)@.timer - 1) as u16 } else { 0 },
                ..old(self)@
            }),
            running == old(self)@.running,
    {
        self.timer = self.timer.saturating_sub(1);
        self.running
    }

    /// Writes `program` at the program start; it must fit before the end of
    /// memory.
    pub fn load_program(&mut self, program: &[u8])
        requires
            PROGRAM_START + program@.len() <= MEMORY_SIZE,
        ensures
            final(self)@ == old(self)@.with_memory(with_program(old(self)@.memory, program@)),
    {
        let ghost s0 = self@;
        let mut i: usize = 0;
        while i < program.len()
            invariant
                s0.wf(),
                PROGRAM_START + program@.len() <= MEMORY_SIZE,
                i <= program@.len(),
                self@ == s0.with_memory(self@.memory),
                self@.memory.len() == MEMORY_SIZE,
                forall|a: int|
                    0 <= a < MEMORY_SIZE ==> #[trigger] self@.memory[a] == if PROGRAM_START <= a
                        < PROGRAM_START + i {
                        program@[a - PROGRAM_START]
                    } else {
                        s0.memory[a]
                    },
            decreases program@.len() - i,
        {
            self.memory[PROGRAM_START as usize + i] = program[i];
            i += 1;
        }
        assert(self@.memory =~= with_program(s0.memory, program@));
    }
}

} // verus!
