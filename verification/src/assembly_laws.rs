//! What the assembler does with decimal numbers and with a one-line program.
use vstd::prelude::*;
use crate::assembly::{
    CompileError, all_digits, assemble_from, assemble_line_spec, compile_spec, digits_value,
    field_end, instruction_room, is_digit, is_space, jump_mnemonic, jump_word, line_at, line_end,
    parse_u16_spec, space_end,
};
use crate::machine::MEMORY_SIZE;

verus! {

/// The decimal digits of `v`, most significant first, without leading zeros.
pub open spec fn decimal(v: nat) -> Seq<u8>
    decreases v,
{
    if v < 10 {
        seq![(48 + v) as u8]
    } else {
        decimal(v / 10).push((48 + v % 10) as u8)
    }
}

proof fn lemma_decimal(v: nat)
    ensures
        decimal(v).len() > 0,
        all_digits(decimal(v)),
        digits_value(decimal(v)) == v,
    decreases v,
{
    if v >= 10 {
        lemma_decimal(v / 10);
        let d = decimal(v);
        assert(d.drop_last() =~= decimal(v / 10));
        assert(d.last() == (48 + v % 10) as u8);
        assert(digits_value(d) == digits_value(d.drop_last()) * 10 + (d.last() - 48) as nat);
        assert((d.last() - 48) as nat == v % 10);
        assert(v / 10 * 10 + v % 10 == v);
        assert forall|i: int| 0 <= i < d.len() implies is_digit(#[trigger] d[i]) by {
            if i < d.len() - 1 {
                assert(d[i] == decimal(v / 10)[i]);
            }
        }
    } else {
        let d = decimal(v);
        assert(d.drop_last() =~= Seq::<u8>::empty());
        assert(digits_value(Seq::<u8>::empty()) == 0);
        assert(digits_value(d) == digits_value(d.drop_last()) * 10 + (d.last() - 48) as nat);
    }
}

/// Every `u16`, written in decimal, parses back to itself.
pub proof fn law_parse_decimal(v: u16)
    ensures
        parse_u16_spec(decimal(v as nat)) == Some(v),
{
    lemma_decimal(v as nat);
}

/// A text with a byte that is not a digit, other than one leading `+`, does
/// not parse.
pub proof fn law_parse_rejects_non_digits(s: Seq<u8>, i: int)
    requires
        0 <= i < s.len(),
        !is_digit(s[i]),
        i > 0 || s[i] != 43,
    ensures
        parse_u16_spec(s) is None,
{
    if s.len() > 0 && s[0] == 43 {
        assert(s.drop_first()[i - 1] == s[i]);
    }
}

proof fn lemma_field_end_at(s: Seq<u8>, i: int, j: int)
    requires
        0 <= i <= j <= s.len(),
        forall|k: int| i <= k < j ==> !is_space(#[trigger] s[k]),
        j == s.len() || is_space(s[j]),
    ensures
        field_end(s, i) == j,
    decreases j - i,
{
    if i < j {
        lemma_field_end_at(s, i + 1, j);
    }
}

proof fn lemma_space_end_at(s: Seq<u8>, i: int, j: int)
    requires
        0 <= i <= j <= s.len(),
        forall|k: int| i <= k < j ==> is_space(#[trigger] s[k]),
        j == s.len() || !is_space(s[j]),
    ensures
        space_end(s, i) == j,
    decreases j - i,
{
    if i < j {
        lemma_space_end_at(s, i + 1, j);
    }
}

proof fn lemma_line_end_at(t: Seq<u8>, i: int)
    requires
        0 <= i <= t.len(),
        forall|k: int| i <= k < t.len() ==> #[trigger] t[k] != 10,
    ensures
        line_end(t, i) == t.len(),
    decreases t.len() - i,
{
    if i < t.len() {
        lemma_line_end_at(t, i + 1);
    }
}

/// A one-line program `JUMP`, a run of blanks (space, tab, vertical tab,
/// form feed, carriage return) and a
/// number in decimal compiles to a memory image that holds the jump to that
/// number at the program start and zero everywhere else.
pub proof fn law_compile_one_jump(v: u16, gap: Seq<u8>)
    requires
        gap.len() > 0,
        forall|k: int|
            0 <= k < gap.len() ==> #[trigger] gap[k] == 32 || gap[k] == 9 || (11 <= gap[k] <= 13),
    ensures
        compile_spec(jump_mnemonic() + gap + decimal(v as nat)) is Ok,
        ({
            let image = compile_spec(jump_mnemonic() + gap + decimal(v as nat))->Ok_0;
            &&& image.len() == MEMORY_SIZE
            &&& image[512] == jump_word(v).0
            &&& image[513] == jump_word(v).1
            &&& forall|a: int| 0 <= a < MEMORY_SIZE && a != 512 && a != 513 ==> image[a] == 0
        }),
{
    let d = decimal(v as nat);
    lemma_decimal(v as nat);
    let t = jump_mnemonic() + gap + d;
    let g = gap.len() as int;
    assert forall|k: int| 0 <= k < t.len() implies #[trigger] t[k] != 10 by {
        if k >= 4 + g {
            assert(t[k] == d[k - 4 - g]);
            assert(is_digit(d[k - 4 - g]));
        } else if k >= 4 {
            assert(t[k] == gap[k - 4]);
        }
    }
    lemma_line_end_at(t, 0);
    assert(t.subrange(0, t.len() as int) =~= t);
    assert forall|k: int| 0 <= k < 4 implies !is_space(#[trigger] t[k]) by {}
    lemma_field_end_at(t, 0, 4);
    assert(t.subrange(0, 4) =~= jump_mnemonic());
    assert forall|k: int| 4 <= k < 4 + g implies is_space(#[trigger] t[k]) by {
        assert(t[k] == gap[k - 4]);
    }
    assert(t[4 + g] == d[0]);
    assert(is_digit(d[0]));
    lemma_space_end_at(t, 4, 4 + g);
    assert forall|k: int| 4 + g <= k < t.len() implies !is_space(#[trigger] t[k]) by {
        assert(t[k] == d[k - 4 - g]);
        assert(is_digit(d[k - 4 - g]));
    }
    lemma_field_end_at(t, 4 + g, t.len() as int);
    assert(t.subrange(4 + g, t.len() as int) =~= d);
    law_parse_decimal(v);
    assert(line_at(t, 0) =~= t);
    assert(assemble_line_spec(line_at(t, 0)) == Ok::<(u8, u8), CompileError>(jump_word(v)));
    let w = jump_word(v);
    assert(assemble_from(t, t.len() + 1int, (instruction_room() - 1) as nat) == Ok::<
        Seq<u8>,
        CompileError,
    >(Seq::empty()));
    assert(assemble_from(t, 0, instruction_room()) == Ok::<Seq<u8>, CompileError>(
        seq![w.0, w.1] + Seq::empty(),
    ));
    assert(seq![w.0, w.1] + Seq::<u8>::empty() =~= seq![w.0, w.1]);
}

} // verus!
