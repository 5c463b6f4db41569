//! What one step does for each instruction, stated over the bytes of the
//! instruction at the program counter and the registers, memory and screen
//! before the step.
use vstd::prelude::*;
use crate::machine::{
    Action, Fault, MachineState, MEMORY_SIZE, PIXEL_ON, SCREEN_SIZE, execute_spec, step_spec,
    lemma_pixel_index, with_font, with_program, font_spec, FONT_START, PROGRAM_START,
    key_query_spec,
};
use crate::input::key_of;

verus! {

/// A machine that runs and whose program counter points at a whole
/// instruction with operation nibble `op`.
pub open spec fn at_instruction(s: MachineState, op: u8) -> bool {
    &&& s.wf()
    &&& s.running
    &&& s.pc + 1 < MEMORY_SIZE
    &&& s.memory[s.pc as int] / 16 == op
}

/// Everything but the program counter, the registers and the stack is as before.
pub open spec fn keeps_memory_screen_index(s: MachineState, t: MachineState) -> bool {
    &&& t.memory == s.memory
    &&& t.screen == s.screen
    &&& t.index == s.index
    &&& t.timer == s.timer
    &&& t.running == s.running
}

/// `00E0` turns every pixel of the screen dark, asks for the screen to be
/// shown, and changes nothing else but the program counter.
pub proof fn law_clear_screen(s: MachineState, pressed: bool, value: u8)
    requires
        at_instruction(s, 0),
        s.memory[s.pc + 1] == 0xE0,
    ensures
        step_spec(s, pressed, value).1 == Ok::<Action, Fault>(Action::UpdateScreen),
        step_spec(s, pressed, value).0.screen.len() == SCREEN_SIZE,
        forall|k: int| 0 <= k < SCREEN_SIZE ==> step_spec(s, pressed, value).0.screen[k] == 0,
        step_spec(s, pressed, value).0.registers == s.registers,
        step_spec(s, pressed, value).0.memory == s.memory,
        step_spec(s, pressed, value).0.stack == s.stack,
        step_spec(s, pressed, value).0.index == s.index,
        step_spec(s, pressed, value).0.pc == s.pc + 2,
{
    reveal(execute_spec);
}

/// `3XNN` skips the next instruction exactly when `VX == NN`; `4XNN` exactly
/// when `VX != NN`.  Nothing else changes.
pub proof fn law_skip_on_value(s: MachineState, pressed: bool, value: u8)
    requires
        at_instruction(s, 3) || at_instruction(s, 4),
    ensures
        ({
            let p = s.pc as int;
            let x = (s.memory[p] % 16) as int;
            let nn = s.memory[p + 1];
            let t = step_spec(s, pressed, value).0;
            let skips = if s.memory[p] / 16 == 3 {
                s.registers[x] == nn
            } else {
                s.registers[x] != nn
            };
            &&& step_spec(s, pressed, value).1 == Ok::<Action, Fault>(Action::Continue)
            &&& t.pc == if skips { p + 4 } else { p + 2 }
            &&& t.registers == s.registers
            &&& t.stack == s.stack
            &&& keeps_memory_screen_index(s, t)
        }),
{
    reveal(execute_spec);
}

/// `5XY0` skips the next instruction exactly when `VX == VY`; `9XY0` exactly
/// when `VX != VY`.  Nothing else changes.
pub proof fn law_skip_on_registers(s: MachineState, pressed: bool, value: u8)
    requires
        at_instruction(s, 5) || at_instruction(s, 9),
    ensures
        ({
            let p = s.pc as int;
            let x = (s.memory[p] % 16) as int;
            let y = (s.memory[p + 1] / 16) as int;
            let t = step_spec(s, pressed, value).0;
            let skips = if s.memory[p] / 16 == 5 {
                s.registers[x] == s.registers[y]
            } else {
                s.registers[x] != s.registers[y]
            };
            &&& step_spec(s, pressed, value).1 == Ok::<Action, Fault>(Action::Continue)
            &&& t.pc == if skips { p + 4 } else { p + 2 }
            &&& t.registers == s.registers
            &&& t.stack == s.stack
            &&& keeps_memory_screen_index(s, t)
        }),
{
    reveal(execute_spec);
}

/// `EX9E` skips exactly when the key of `VX` is pressed, `EXA1` exactly when
/// it is not, so the two key states give different program counters; any
/// other `EXNN` cannot run.
pub proof fn law_key_skips(s: MachineState, value: u8)
    requires
        at_instruction(s, 14),
    ensures
        ({
            let p = s.pc as int;
            let nn = s.memory[p + 1];
            if nn == 0x9E || nn == 0xA1 {
                &&& step_spec(s, true, value).1 == Ok::<Action, Fault>(Action::Continue)
                &&& step_spec(s, false, value).1 == Ok::<Action, Fault>(Action::Continue)
                &&& step_spec(s, true, value).0.pc == if nn == 0x9E { p + 4 } else { p + 2 }
                &&& step_spec(s, false, value).0.pc == if nn == 0x9E { p + 2 } else { p + 4 }
                &&& step_spec(s, true, value).0.pc != step_spec(s, false, value).0.pc
                &&& step_spec(s, true, value).0.registers == s.registers
                &&& keeps_memory_screen_index(s, step_spec(s, true, value).0)
                &&& keeps_memory_screen_index(s, step_spec(s, false, value).0)
            } else {
                &&& step_spec(s, true, value).1 == Err::<Action, Fault>(Fault::IllegalKeyOperation)
                &&& step_spec(s, false, value).1 == Err::<Action, Fault>(Fault::IllegalKeyOperation)
            }
        }),
{
    reveal(execute_spec);
}

/// `8XYN`, the logic instructions and `8XY0`: `VX` becomes `VY`, `VX | VY`,
/// `VX & VY` or `VX ^ VY` for `N` = 0, 1, 2, 3; every other register keeps
/// its value.
pub proof fn law_logic(s: MachineState, pressed: bool, value: u8)
    requires
        at_instruction(s, 8),
        s.memory[s.pc + 1] % 16 <= 3,
    ensures
        ({
            let p = s.pc as int;
            let x = (s.memory[p] % 16) as int;
            let y = (s.memory[p + 1] / 16) as int;
            let n = s.memory[p + 1] % 16;
            let vx = s.registers[x];
            let vy = s.registers[y];
            let t = step_spec(s, pressed, value).0;
            &&& step_spec(s, pressed, value).1 == Ok::<Action, Fault>(Action::Continue)
            &&& t.registers.len() == 16
            &&& t.registers[x] == if n == 0 {
                vy
            } else if n == 1 {
                vx | vy
            } else if n == 2 {
                vx & vy
            } else {
                vx ^ vy
            }
            &&& forall|j: int| 0 <= j < 16 && j != x ==> t.registers[j] == s.registers[j]
            &&& t.pc == p + 2
            &&& t.stack == s.stack
            &&& keeps_memory_screen_index(s, t)
        }),
{
    reveal(execute_spec);
}

/// `8XY4`, `8XY5`, `8XY7`: `VX` becomes `VX + VY`, `VX - VY` or `VY - VX`
/// modulo 256, and `VF` the carry (1 on overflow) or the no-borrow flag (1
/// when the subtraction does not go below zero); when neither `X` nor `Y` is
/// `F`, every other register keeps its value.
pub proof fn law_arithmetic(s: MachineState, pressed: bool, value: u8)
    requires
        at_instruction(s, 8),
        s.memory[s.pc + 1] % 16 == 4 || s.memory[s.pc + 1] % 16 == 5 || s.memory[s.pc + 1] % 16
            == 7,
    ensures
        ({
            let p = s.pc as int;
            let x = (s.memory[p] % 16) as int;
            let y = (s.memory[p + 1] / 16) as int;
            let n = s.memory[p + 1] % 16;
            let vx = s.registers[x] as int;
            let vy = s.registers[y] as int;
            let t = step_spec(s, pressed, value).0;
            &&& step_spec(s, pressed, value).1 == Ok::<Action, Fault>(Action::Continue)
            &&& t.registers.len() == 16
            &&& t.pc == p + 2
            &&& t.stack == s.stack
            &&& keeps_memory_screen_index(s, t)
            &&& x != 15 && y != 15 ==> {
                &&& t.registers[x] == if n == 4 {
                    (vx + vy) % 256
                } else if n == 5 {
                    (vx - vy + 256) % 256
                } else {
                    (vy - vx + 256) % 256
                }
                &&& t.registers[15] == if n == 4 {
                    if vx + vy > 255 { 1int } else { 0 }
                } else if n == 5 {
                    if vx >= vy { 1int } else { 0 }
                } else {
                    if vy >= vx { 1int } else { 0 }
                }
                &&& forall|j: int| 0 <= j < 15 && j != x ==> t.registers[j] == s.registers[j]
            }
        }),
{
    reveal(execute_spec);
}

/// `8XY6` and `8XYE`: `VF` becomes the bit shifted out of `VY` (its lowest,
/// or its highest), and `VX` (unless it is `VF`) becomes `VY` shifted right or
/// left by one; every other register keeps its value.
pub proof fn law_shifts(s: MachineState, pressed: bool, value: u8)
    requires
        at_instruction(s, 8),
        s.memory[s.pc + 1] % 16 == 6 || s.memory[s.pc + 1] % 16 == 14,
    ensures
        ({
            let p = s.pc as int;
            let x = (s.memory[p] % 16) as int;
            let y = (s.memory[p + 1] / 16) as int;
            let n = s.memory[p + 1] % 16;
            let vy = s.registers[y] as int;
            let t = step_spec(s, pressed, value).0;
            &&& step_spec(s, pressed, value).1 == Ok::<Action, Fault>(Action::Continue)
            &&& t.registers.len() == 16
            &&& t.registers[15] == if n == 6 { vy % 2 } else { vy / 128 }
            &&& x != 15 ==> t.registers[x] == if n == 6 { vy / 2 } else { (vy * 2) % 256 }
            &&& forall|j: int| 0 <= j < 15 && j != x ==> t.registers[j] == s.registers[j]
            &&& t.pc == p + 2
            &&& keeps_memory_screen_index(s, t)
        }),
{
    reveal(execute_spec);
}

/// `8XYN` with `N` other than 0 to 7 and E cannot run.
pub proof fn law_unknown_arithmetic(s: MachineState, pressed: bool, value: u8)
    requires
        at_instruction(s, 8),
        8 <= s.memory[s.pc + 1] % 16 <= 13 || s.memory[s.pc + 1] % 16 == 15,
    ensures
        step_spec(s, pressed, value).1 == Err::<Action, Fault>(Fault::IllegalMathOperation),
        step_spec(s, pressed, value).0 == s,
{
    reveal(execute_spec);
}

/// `6XNN` sets `VX` to `NN`, `7XNN` adds `NN` to `VX` modulo 256, and `CXNN`
/// sets `VX` to the random byte and-ed with `NN`; every other register keeps
/// its value.
pub proof fn law_register_constants(s: MachineState, pressed: bool, value: u8)
    requires
        at_instruction(s, 6) || at_instruction(s, 7) || at_instruction(s, 12),
    ensures
        ({
            let p = s.pc as int;
            let op = s.memory[p] / 16;
            let x = (s.memory[p] % 16) as int;
            let nn = s.memory[p + 1];
            let t = step_spec(s, pressed, value).0;
            &&& step_spec(s, pressed, value).1 == Ok::<Action, Fault>(Action::Continue)
            &&& t.registers.len() == 16
            &&& t.registers[x] == if op == 6 {
                nn as int
            } else if op == 7 {
                (s.registers[x] + nn) % 256
            } else {
                (value & nn) as int
            }
            &&& forall|j: int| 0 <= j < 16 && j != x ==> t.registers[j] == s.registers[j]
            &&& t.pc == p + 2
            &&& t.stack == s.stack
            &&& keeps_memory_screen_index(s, t)
        }),
{
    reveal(execute_spec);
}

/// `1NNN` jumps to `NNN`, `2NNN` calls `NNN` (pushing its own address on the
/// stack), `BNNN` jumps to `NNN + V0`; `ANNN` sets `I` to `NNN`.
pub proof fn law_addresses(s: MachineState, pressed: bool, value: u8)
    requires
        at_instruction(s, 1) || at_instruction(s, 2) || at_instruction(s, 10) || at_instruction(
            s,
            11,
        ),
    ensures
        ({
            let p = s.pc as int;
            let op = s.memory[p] / 16;
            let nnn = (s.memory[p] % 16) * 256 + s.memory[p + 1];
            let t = step_spec(s, pressed, value).0;
            &&& step_spec(s, pressed, value).1 == Ok::<Action, Fault>(Action::Continue)
            &&& t.registers == s.registers
            &&& t.memory == s.memory
            &&& t.screen == s.screen
            &&& t.pc == if op == 10 {
                p + 2
            } else if op == 11 {
                nnn + s.registers[0]
            } else {
                nnn
            }
            &&& t.index == if op == 10 { nnn } else { s.index as int }
            &&& t.stack == if op == 2 { seq![s.pc] + s.stack } else { s.stack }
        }),
{
    reveal(execute_spec);
}

/// `FX1E` adds `VX` to `I` modulo 2^16; `FX29` points `I` at the font glyph
/// of the low nibble of `VX` (five bytes per glyph from 0x50); `FX0A` asks
/// the driver to wait for a key for `VX` and changes nothing itself.
pub proof fn law_index_instructions(s: MachineState, pressed: bool, value: u8)
    requires
        at_instruction(s, 15),
        s.memory[s.pc + 1] == 0x1E || s.memory[s.pc + 1] == 0x29 || s.memory[s.pc + 1] == 0x0A,
    ensures
        ({
            let p = s.pc as int;
            let x = (s.memory[p] % 16) as int;
            let nn = s.memory[p + 1];
            let vx = s.registers[x] as int;
            let t = step_spec(s, pressed, value).0;
            &&& step_spec(s, pressed, value).1 == Ok::<Action, Fault>(
                if nn == 0x0A { Action::AwaitKey(x as u8) } else { Action::Continue },
            )
            &&& t.index == if nn == 0x1E {
                (s.index + vx) % 65536
            } else if nn == 0x29 {
                0x50 + 5 * (vx % 16)
            } else {
                s.index as int
            }
            &&& t.registers == s.registers
            &&& t.memory == s.memory
            &&& t.screen == s.screen
            &&& t.stack == s.stack
            &&& t.pc == p + 2
        }),
{
    reveal(execute_spec);
}

/// `FX33` writes the hundreds, tens and ones digits of `VX` at `I`, `I + 1`
/// and `I + 2` and leaves the rest of memory alone; past the end of memory
/// it cannot run.
pub proof fn law_decimal(s: MachineState, pressed: bool, value: u8)
    requires
        at_instruction(s, 15),
        s.memory[s.pc + 1] == 0x33,
    ensures
        ({
            let p = s.pc as int;
            let x = (s.memory[p] % 16) as int;
            let vx = s.registers[x] as int;
            let i = s.index as int;
            let t = step_spec(s, pressed, value).0;
            if i + 2 < MEMORY_SIZE {
                &&& step_spec(s, pressed, value).1 == Ok::<Action, Fault>(Action::Continue)
                &&& t.memory.len() == MEMORY_SIZE
                &&& t.memory[i] == vx / 100
                &&& t.memory[i + 1] == (vx / 10) % 10
                &&& t.memory[i + 2] == vx % 10
                &&& forall|a: int|
                    0 <= a < MEMORY_SIZE && (a < i || a > i + 2) ==> t.memory[a] == s.memory[a]
                &&& t.registers == s.registers
                &&& t.pc == p + 2
            } else {
                step_spec(s, pressed, value).1 == Err::<Action, Fault>(Fault::MemoryOutOfBounds)
            }
        }),
{
    reveal(execute_spec);
}

/// `FX55` copies `V0..=VX` to memory from `I` on, `FX65` copies memory from
/// `I` on into `V0..=VX`; nothing else changes.  Past the end of memory they
/// cannot run.
pub proof fn law_block_transfer(s: MachineState, pressed: bool, value: u8)
    requires
        at_instruction(s, 15),
        s.memory[s.pc + 1] == 0x55 || s.memory[s.pc + 1] == 0x65,
    ensures
        ({
            let p = s.pc as int;
            let x = (s.memory[p] % 16) as int;
            let i = s.index as int;
            let t = step_spec(s, pressed, value).0;
            if i + x < MEMORY_SIZE {
                &&& step_spec(s, pressed, value).1 == Ok::<Action, Fault>(Action::Continue)
                &&& t.pc == p + 2
                &&& t.memory.len() == MEMORY_SIZE
                &&& t.registers.len() == 16
                &&& if s.memory[p + 1] == 0x55 {
                    &&& forall|j: int| 0 <= j <= x ==> t.memory[i + j] == s.registers[j]
                    &&& forall|a: int|
                        0 <= a < MEMORY_SIZE && (a < i || a > i + x) ==> t.memory[a]
                            == s.memory[a]
                    &&& t.registers == s.registers
                } else {
                    &&& forall|j: int| 0 <= j <= x ==> t.registers[j] == s.memory[i + j]
                    &&& forall|j: int| x < j < 16 ==> t.registers[j] == s.registers[j]
                    &&& t.memory == s.memory
                }
            } else {
                step_spec(s, pressed, value).1 == Err::<Action, Fault>(Fault::MemoryOutOfBounds)
            }
        }),
{
    reveal(execute_spec);
    let p = s.pc as int;
    let x = (s.memory[p] % 16) as int;
    let i = s.index as int;
    let t = step_spec(s, pressed, value).0;
    if i + x < MEMORY_SIZE && s.memory[p + 1] == 0x55 {
        assert forall|j: int| 0 <= j <= x implies t.memory[i + j] == s.registers[j] by {}
    }
}

/// Pixel (`col`, `row`) of a screen.
pub open spec fn pixel(screen: Seq<u32>, row: int, col: int) -> u32 {
    screen[row * 64 + col]
}

/// `DXYN` with the sprite's top left corner at (`VX mod 64`, `VY mod 32`):
/// the covered rectangle has `N` rows (cut at the bottom) and 8 columns (cut
/// at the right); each 1-bit of sprite row `r` (the byte at `I + r`, most
/// significant bit first) flips the pixel under it, every other pixel keeps
/// its value, and `VF` becomes 1 exactly when some lit pixel under a 1-bit
/// goes dark, 0 otherwise, whatever it was before.  A sprite that reaches
/// past the end of memory cannot be drawn.
pub proof fn law_draw(s: MachineState, pressed: bool, value: u8)
    requires
        at_instruction(s, 13),
    ensures
        ({
            let p = s.pc as int;
            let x = (s.memory[p] % 16) as int;
            let y = (s.memory[p + 1] / 16) as int;
            let n = (s.memory[p + 1] % 16) as int;
            let ox = (s.registers[x] % 64) as int;
            let oy = (s.registers[y] % 32) as int;
            let rows = if n < 32 - oy { n } else { 32 - oy };
            let cols = if 8 < 64 - ox { 8 } else { 64 - ox };
            let i = s.index as int;
            let t = step_spec(s, pressed, value).0;
            if rows > 0 && i + rows > MEMORY_SIZE {
                step_spec(s, pressed, value).1 == Err::<Action, Fault>(Fault::MemoryOutOfBounds)
            } else {
                &&& step_spec(s, pressed, value).1 == Ok::<Action, Fault>(Action::Continue)
                &&& t.screen.len() == SCREEN_SIZE
                &&& forall|row: int, col: int|
                    0 <= row < 32 && 0 <= col < 64 ==> #[trigger] pixel(t.screen, row, col) == if oy
                        <= row < oy + rows && ox <= col < ox + cols && (s.memory[i + row - oy] >> ((
                    7 - (col - ox)) as u8)) & 1u8 == 1u8 {
                        if pixel(s.screen, row, col) == PIXEL_ON {
                            0u32
                        } else {
                            PIXEL_ON
                        }
                    } else {
                        pixel(s.screen, row, col)
                    }
                &&& t.registers[15] == if exists|row: int, col: int|
                    0 <= row < 32 && 0 <= col < 64 && oy <= row < oy + rows && ox <= col < ox
                        + cols && (s.memory[i + row - oy] >> ((7 - (col - ox)) as u8)) & 1u8 == 1u8
                        && #[trigger] pixel(s.screen, row, col) == PIXEL_ON {
                    1u8
                } else {
                    0u8
                }
                &&& forall|j: int| 0 <= j < 15 ==> t.registers[j] == s.registers[j]
                &&& t.memory == s.memory
                &&& t.index == s.index
                &&& t.stack == s.stack
                &&& t.pc == p + 2
            }
        }),
{
    reveal(execute_spec);
    let p = s.pc as int;
    let x = (s.memory[p] % 16) as int;
    let y = (s.memory[p + 1] / 16) as int;
    let n = (s.memory[p + 1] % 16) as int;
    let ox = (s.registers[x] % 64) as int;
    let oy = (s.registers[y] % 32) as int;
    let rows = if n < 32 - oy { n } else { 32 - oy };
    let cols = if 8 < 64 - ox { 8 } else { 64 - ox };
    let i = s.index as int;
    let t = step_spec(s, pressed, value).0;
    if !(rows > 0 && i + rows > MEMORY_SIZE) {
        assert forall|row: int, col: int| 0 <= row < 32 && 0 <= col < 64 implies #[trigger] pixel(
            t.screen,
            row,
            col,
        ) == if oy <= row < oy + rows && ox <= col < ox + cols && (s.memory[i + row - oy] >> ((7
            - (col - ox)) as u8)) & 1u8 == 1u8 {
            if pixel(s.screen, row, col) == PIXEL_ON {
                0u32
            } else {
                PIXEL_ON
            }
        } else {
            pixel(s.screen, row, col)
        } by {
            lemma_pixel_index(row, col);
        }
        let lit = exists|row: int, col: int|
            0 <= row < 32 && 0 <= col < 64 && oy <= row < oy + rows && ox <= col < ox + cols && (
            s.memory[i + row - oy] >> ((7 - (col - ox)) as u8)) & 1u8 == 1u8
                && #[trigger] pixel(s.screen, row, col) == PIXEL_ON;
        if lit {
            let (row, col) = choose|row: int, col: int|
                0 <= row < 32 && 0 <= col < 64 && oy <= row < oy + rows && ox <= col < ox + cols
                    && (s.memory[i + row - oy] >> ((7 - (col - ox)) as u8)) & 1u8 == 1u8
                    && #[trigger] pixel(s.screen, row, col) == PIXEL_ON;
            lemma_pixel_index(row, col);
            assert(crate::machine::draw_covers(s, s.pc, row * 64 + col));
        }
        if crate::machine::draw_collides(s, s.pc) {
            let k = choose|k: int|
                0 <= k < SCREEN_SIZE && #[trigger] crate::machine::draw_covers(s, s.pc, k)
                    && s.screen[k] == PIXEL_ON && crate::machine::sprite_pixel_on(s, s.pc, k);
            let row = k / 64;
            let col = k % 64;
            assert(k == row * 64 + col);
            assert(pixel(s.screen, row, col) == PIXEL_ON);
        }
    }
}

/// Drawing on a dark screen leaves `VF` at 0, whatever it was before.
pub proof fn law_draw_on_dark_screen(s: MachineState, pressed: bool, value: u8)
    requires
        at_instruction(s, 13),
        forall|k: int| 0 <= k < SCREEN_SIZE ==> s.screen[k] == 0,
        step_spec(s, pressed, value).1 is Ok,
    ensures
        step_spec(s, pressed, value).0.registers[15] == 0,
{
    law_draw(s, pressed, value);
    let p = s.pc as int;
    let x = (s.memory[p] % 16) as int;
    let y = (s.memory[p + 1] / 16) as int;
    let ox = (s.registers[x] % 64) as int;
    let oy = (s.registers[y] % 32) as int;
    assert forall|row: int, col: int| 0 <= row < 32 && 0 <= col < 64 implies #[trigger] pixel(
        s.screen,
        row,
        col,
    ) != PIXEL_ON by {
        assert(0 <= row * 64 + col < SCREEN_SIZE) by (nonlinear_arith)
            requires
                0 <= row < 32,
                0 <= col < 64,
        ;
    }
}

/// The `0???` instructions other than `00E0`: with a third nibble other than
/// E nothing changes but the program counter; `00EE` (and `0?EE`) returns to
/// the instruction after the most recent call and pops it, and cannot run on
/// an empty stack; the other `0?E?` cannot run.
pub proof fn law_system(s: MachineState, pressed: bool, value: u8)
    requires
        at_instruction(s, 0),
        s.memory[s.pc + 1] != 0xE0,
    ensures
        ({
            let p = s.pc as int;
            let b = s.memory[p + 1];
            let t = step_spec(s, pressed, value).0;
            let r = step_spec(s, pressed, value).1;
            if b / 16 != 14 {
                &&& r == Ok::<Action, Fault>(Action::Continue)
                &&& t == (MachineState { pc: (p + 2) as u16, ..s })
            } else if b == 0xEE {
                if s.stack.len() > 0 {
                    &&& r == Ok::<Action, Fault>(Action::Continue)
                    &&& t.pc == (s.stack[0] + 2) % 65536
                    &&& t.stack == s.stack.subrange(1, s.stack.len() as int)
                    &&& t.registers == s.registers
                    &&& keeps_memory_screen_index(s, t)
                } else {
                    r == Err::<Action, Fault>(Fault::IllegalSubroutineCall)
                }
            } else {
                r == Err::<Action, Fault>(Fault::IllegalOperation)
            }
        }),
{
    reveal(execute_spec);
}

/// A running machine whose program counter has passed the end of memory
/// halts and stops running; a machine that does not run halts and stays as
/// it is; a running machine at the last byte of memory cannot fetch.
pub proof fn law_halt(s: MachineState, pressed: bool, value: u8)
    requires
        s.wf(),
    ensures
        s.running && s.pc >= MEMORY_SIZE ==> step_spec(s, pressed, value).1 == Ok::<Action, Fault>(
            Action::Halt,
        ) && step_spec(s, pressed, value).0 == (MachineState { running: false, ..s }),
        !s.running && s.pc < MEMORY_SIZE ==> step_spec(s, pressed, value).1 == Ok::<Action, Fault>(
            Action::Halt,
        ) && step_spec(s, pressed, value).0 == s,
        s.running && s.pc + 1 == MEMORY_SIZE ==> step_spec(s, pressed, value).1 == Err::<
            Action,
            Fault,
        >(Fault::MemoryOutOfBounds),
{
}

/// Loading a program puts its bytes from the program start on and leaves the
/// rest of memory alone.
pub proof fn law_program_placement(m: Seq<u8>, program: Seq<u8>)
    requires
        m.len() == MEMORY_SIZE,
        PROGRAM_START + program.len() <= MEMORY_SIZE,
    ensures
        with_program(m, program).len() == MEMORY_SIZE,
        forall|i: int| 0 <= i < program.len() ==> with_program(m, program)[512 + i] == program[i],
        forall|a: int|
            0 <= a < MEMORY_SIZE && (a < 512 || a >= 512 + program.len()) ==> with_program(
                m,
                program,
            )[a] == m[a],
{
}

/// Starting a machine puts the 80 font bytes from 0x50 on and leaves the rest
/// of memory alone.
pub proof fn law_font_placement(m: Seq<u8>)
    requires
        m.len() == MEMORY_SIZE,
    ensures
        with_font(m).len() == MEMORY_SIZE,
        font_spec().len() == 80,
        forall|i: int| 0 <= i < 80 ==> with_font(m)[0x50 + i] == font_spec()[i],
        forall|a: int|
            0 <= a < MEMORY_SIZE && (a < 0x50 || a >= 0xA0) ==> with_font(m)[a] == m[a],
{
    assert(FONT_START == 0x50);
}

/// A step asks for the state of a key only for `EX9E` and `EXA1`, and then
/// for the key of the low nibble of `VX`.
pub proof fn law_key_query(s: MachineState)
    requires
        s.wf(),
    ensures
        ({
            let p = s.pc as int;
            if s.running && p + 1 < MEMORY_SIZE && s.memory[p] / 16 == 14 && (s.memory[p + 1]
                == 0x9E || s.memory[p + 1] == 0xA1) {
                key_query_spec(s) == Some(key_of(s.registers[(s.memory[p] % 16) as int] % 16))
            } else {
                key_query_spec(s) is None
            }
        }),
{
}

} // verus!
