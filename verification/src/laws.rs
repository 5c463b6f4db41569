//! Properties that relate several operations of the machine and the assembler.
use vstd::prelude::*;
use crate::assembly::jump_word;
use crate::machine::{
    Action, Fault, MachineState, before, clear_screen_spec, execute_spec, subroutine_spec, MEMORY_SIZE, PIXEL_ON, REGISTER_COUNT, SCREEN_SIZE, bcd_digits,
    draw_covers, draw_spec, equal_registers_spec, equals_spec, f_spec, font_spec,
    key_query_spec, math_spec, not_equal_registers_spec, not_equals_spec, pixel_after_draw, skip,
    sprite_pixel_on, step_spec, with_font, FONT_START,
};

verus! {

/// The operand readers cut an instruction into its nibbles without loss: the
/// first byte is `op * 16 + x`, the second `y * 16 + n`, and `NNN` is
/// `x * 256 + NN`.
pub proof fn lemma_operand_fields(s: MachineState, p: u16)
    requires
        s.wf(),
        p + 1 < MEMORY_SIZE,
    ensures
        s.memory[p as int] == s.op_at(p) * 16 + s.x_at(p),
        s.nn_at(p) == s.y_at(p) * 16 + s.n_at(p),
        s.nnn_at(p) == s.x_at(p) * 256 + s.nn_at(p),
        s.op_at(p) < 16,
        s.x_at(p) < 16,
        s.y_at(p) < 16,
        s.n_at(p) < 16,
{
}

/// A register write is read back, and leaves the other registers alone.
pub proof fn lemma_register_write_read(s: MachineState, i: int, j: int, v: u8)
    requires
        s.wf(),
        0 <= i < REGISTER_COUNT,
        0 <= j < REGISTER_COUNT,
    ensures
        s.with_registers(s.registers.update(i, v)).registers[i] == v,
        i != j ==> s.with_registers(s.registers.update(i, v)).registers[j] == s.registers[j],
        s.with_registers(s.registers.update(i, v)).wf(),
{
}

/// A memory write is read back, and leaves the other addresses alone.
pub proof fn lemma_memory_write_read(s: MachineState, a: int, b: int, v: u8)
    requires
        s.wf(),
        0 <= a < MEMORY_SIZE,
        0 <= b < MEMORY_SIZE,
    ensures
        s.with_memory(s.memory.update(a, v)).memory[a] == v,
        a != b ==> s.with_memory(s.memory.update(a, v)).memory[b] == s.memory[b],
        s.with_memory(s.memory.update(a, v)).wf(),
{
}

/// A `JUMP` to an address below the end of memory, as the assembler encodes
/// it, is decoded by the machine as a jump, and one step lands the program
/// counter on that address.
pub proof fn lemma_assembled_jump_lands(s: MachineState, target: u16, pressed: bool, value: u8)
    requires
        s.wf(),
        s.running,
        s.pc + 1 < MEMORY_SIZE,
        target < MEMORY_SIZE,
        s.memory[s.pc as int] == jump_word(target).0,
        s.memory[s.pc + 1] == jump_word(target).1,
    ensures
        s.op_at(s.pc) == 1,
        s.nnn_at(s.pc) == target,
        step_spec(s, pressed, value).1 == Ok::<Action, Fault>(Action::Continue),
        step_spec(s, pressed, value).0 == (MachineState { pc: target, ..s }),
{
    reveal(execute_spec);
    let hi = (target / 256) as u8;
    assert(hi < 16);
    assert((hi | 0x10u8) / 16 == 1 && (hi | 0x10u8) % 16 == hi) by (bit_vector)
        requires
            hi < 16,
    ;
}

proof fn lemma_call_step(s: MachineState, pressed: bool, value: u8)
    requires
        s.wf(),
        s.running,
        s.pc + 1 < MEMORY_SIZE,
        s.op_at(s.pc) == 2,
    ensures
        step_spec(s, pressed, value).1 == Ok::<Action, Fault>(Action::Continue),
        step_spec(s, pressed, value).0 == (MachineState {
            stack: seq![s.pc] + s.stack,
            pc: s.nnn_at(s.pc),
            ..s
        }),
{
    reveal(execute_spec);
    assert(execute_spec(s, s.pc, pressed, value) == Ok::<(MachineState, u16, Action), Fault>(
        (subroutine_spec(s, s.pc), before(s.nnn_at(s.pc)), Action::Continue),
    ));
}

proof fn lemma_return_step(t: MachineState, pressed: bool, value: u8)
    requires
        t.wf(),
        t.running,
        t.pc + 1 < MEMORY_SIZE,
        t.op_at(t.pc) == 0,
        t.y_at(t.pc) == 14,
        t.nn_at(t.pc) == 0xEE,
        t.stack.len() > 0,
    ensures
        step_spec(t, pressed, value).1 == Ok::<Action, Fault>(Action::Continue),
        step_spec(t, pressed, value).0 == (MachineState {
            stack: t.stack.drop_first(),
            pc: skip(t.stack[0]),
            ..t
        }),
{
    reveal(execute_spec);
    assert(clear_screen_spec(t, t.pc) == Ok::<(MachineState, u16), Fault>(
        (MachineState { stack: t.stack.drop_first(), ..t }, t.stack[0]),
    ));
}

/// A return goes back to just after the most recent call: after a call at
/// `s.pc`, any state `t` whose stack is the one the call left and that
/// returns (`00EE`) steps to the instruction after the call, with the stack
/// as it was before the call.
pub proof fn lemma_return_after_call(
    s: MachineState,
    t: MachineState,
    pressed: bool,
    value: u8,
    pressed2: bool,
    value2: u8,
)
    requires
        s.wf(),
        s.running,
        s.pc + 1 < MEMORY_SIZE,
        s.op_at(s.pc) == 2,
        t.wf(),
        t.running,
        t.pc + 1 < MEMORY_SIZE,
        t.stack == step_spec(s, pressed, value).0.stack,
        t.op_at(t.pc) == 0,
        t.y_at(t.pc) == 14,
        t.nn_at(t.pc) == 0xEE,
    ensures
        step_spec(s, pressed, value).1 == Ok::<Action, Fault>(Action::Continue),
        step_spec(s, pressed, value).0.pc == s.nnn_at(s.pc),
        step_spec(t, pressed2, value2).1 == Ok::<Action, Fault>(Action::Continue),
        step_spec(t, pressed2, value2).0.pc == skip(s.pc),
        step_spec(t, pressed2, value2).0.stack == s.stack,
{
    lemma_call_step(s, pressed, value);
    assert(t.stack == seq![s.pc] + s.stack);
    assert(t.stack[0] == s.pc);
    lemma_return_step(t, pressed2, value2);
    assert((seq![s.pc] + s.stack).drop_first() =~= s.stack);
}

/// Exactly one of `3XNN` and `4XNN` skips, and exactly one of `5XY0` and
/// `9XY0`; an instruction that does not skip hands back its own address.
pub proof fn lemma_skips_complementary(s: MachineState, p: u16)
    requires
        s.wf(),
        p + 1 < MEMORY_SIZE,
    ensures
        skip(p) != p,
        (equals_spec(s, p) == skip(p)) != (not_equals_spec(s, p) == skip(p)),
        equals_spec(s, p) == p || equals_spec(s, p) == skip(p),
        not_equals_spec(s, p) == p || not_equals_spec(s, p) == skip(p),
        (equal_registers_spec(s, p) == skip(p)) != (not_equal_registers_spec(s, p) == skip(p)),
        equal_registers_spec(s, p) == p || equal_registers_spec(s, p) == skip(p),
        not_equal_registers_spec(s, p) == p || not_equal_registers_spec(s, p) == skip(p),
{
}

/// `FX33` stores the decimal digits of `VX`: each below 10, and together
/// they make up `VX`.
pub proof fn lemma_bcd_digits(v: u8)
    ensures
        bcd_digits(v).0 < 10,
        bcd_digits(v).1 < 10,
        bcd_digits(v).2 < 10,
        bcd_digits(v).0 * 100 + bcd_digits(v).1 * 10 + bcd_digits(v).2 == v,
{
}

/// Loading registers (`FX65`) from where they were just stored (`FX55`),
/// with the same `X`, gives back every register and leaves memory alone.
pub proof fn lemma_store_then_load(s: MachineState, p: u16, q: u16)
    requires
        s.wf(),
        p + 1 < MEMORY_SIZE,
        s.nn_at(p) == 0x55,
        s.index + s.x_at(p) < MEMORY_SIZE,
        q + 1 < MEMORY_SIZE,
        f_spec(s, p)->Ok_0.nn_at(q) == 0x65,
        f_spec(s, p)->Ok_0.x_at(q) == s.x_at(p),
    ensures
        f_spec(s, p) is Ok,
        f_spec(f_spec(s, p)->Ok_0, q) is Ok,
        f_spec(f_spec(s, p)->Ok_0, q)->Ok_0.registers == s.registers,
        f_spec(f_spec(s, p)->Ok_0, q)->Ok_0.memory == f_spec(s, p)->Ok_0.memory,
{
    let t = f_spec(s, p)->Ok_0;
    let u = f_spec(t, q)->Ok_0;
    assert(u.registers =~= s.registers);
}

/// After `start` the font is in memory: writing it again changes nothing.
pub proof fn lemma_font_present_after_start(m: Seq<u8>)
    ensures
        with_font(with_font(m)) == with_font(m),
{
    assert(with_font(with_font(m)) =~= with_font(m));
}

/// With the font in memory (as after `start`), `FX29` points `I` at the five
/// font rows of the glyph of the low nibble of `VX`.
pub proof fn lemma_font_glyph(s: MachineState, p: u16, r: int)
    requires
        s.wf(),
        s.memory == with_font(s.memory),
        p + 1 < MEMORY_SIZE,
        s.nn_at(p) == 0x29,
        0 <= r < 5,
    ensures
        f_spec(s, p) is Ok,
        f_spec(s, p)->Ok_0.memory[f_spec(s, p)->Ok_0.index + r] == font_spec()[5 * (s.vx(p) % 16) + r],
{
    let t = f_spec(s, p)->Ok_0;
    assert(t.index == FONT_START + 5 * (s.vx(p) % 16));
    assert(s.memory[t.index + r] == with_font(s.memory)[t.index + r]);
}

/// Whether every pixel of `screen` is dark (0) or lit.
pub open spec fn screen_is_binary(screen: Seq<u32>) -> bool {
    forall|k: int| 0 <= k < screen.len() ==> screen[k] == 0 || screen[k] == PIXEL_ON
}

/// Drawing a sprite keeps every pixel dark or lit, and drawing the same
/// sprite again at the same place (with `X` and `Y` not naming `VF`) gives
/// back the screen as it was: the draw flips pixels (exclusive or).
pub proof fn lemma_redraw_restores(s: MachineState, p: u16)
    requires
        s.wf(),
        screen_is_binary(s.screen),
        p + 1 < MEMORY_SIZE,
        s.x_at(p) != 15,
        s.y_at(p) != 15,
        draw_spec(s, p) is Ok,
    ensures
        screen_is_binary(draw_spec(s, p)->Ok_0.screen),
        draw_spec(draw_spec(s, p)->Ok_0, p) is Ok,
        draw_spec(draw_spec(s, p)->Ok_0, p)->Ok_0.screen == s.screen,
{
    let t = draw_spec(s, p)->Ok_0;
    assert(t.vx(p) == s.vx(p) && t.vy(p) == s.vy(p));
    assert forall|k: int| 0 <= k < SCREEN_SIZE implies pixel_after_draw(t, p, k) == s.screen[k] by {
        assert(draw_covers(t, p, k) == draw_covers(s, p, k));
        assert(sprite_pixel_on(t, p, k) == sprite_pixel_on(s, p, k));
    }
    assert(draw_spec(t, p)->Ok_0.screen =~= s.screen);
}

/// A step reads the key state only when it asks for it through
/// `key_query_spec`: otherwise it does not depend on it.
pub proof fn lemma_key_state_read_only_when_asked(s: MachineState, value: u8)
    requires
        s.wf(),
        key_query_spec(s) is None,
    ensures
        step_spec(s, true, value) == step_spec(s, false, value),
{
    reveal(execute_spec);
}

/// A step depends on the random byte only when it executes `CXNN`.
pub proof fn lemma_random_only_for_cxnn(s: MachineState, pressed: bool, v1: u8, v2: u8)
    requires
        s.wf(),
        s.pc + 1 < MEMORY_SIZE ==> s.op_at(s.pc) != 12,
    ensures
        step_spec(s, pressed, v1) == step_spec(s, pressed, v2),
{
    reveal(execute_spec);
}

/// A step keeps the sizes of memory, registers and screen.
pub proof fn lemma_step_keeps_shape(s: MachineState, pressed: bool, value: u8)
    requires
        s.wf(),
    ensures
        step_spec(s, pressed, value).0.wf(),
{
    reveal(execute_spec);
    let s1 = if s.pc >= MEMORY_SIZE { MachineState { running: !s.running, ..s } } else { s };
    if s1.running && s1.pc + 1 < MEMORY_SIZE {
        let p = s1.pc;
        if s1.op_at(p) == 15 && f_spec(s1, p) is Ok {
            let t = f_spec(s1, p)->Ok_0;
            assert(t.wf());
        }
        if s1.op_at(p) == 8 && math_spec(s1, p) is Ok {
            assert(math_spec(s1, p)->Ok_0.len() == REGISTER_COUNT);
        }
    }
}

} // verus!
