//! An assembler from `as8` source text to a memory image.
//!
//! The source is taken line by line (a line ends at `\n`, and a `\r` before
//! that `\n` is dropped); empty lines are skipped.  A line is cut into fields
//! at each run of ASCII whitespace (a line that starts with whitespace has an
//! empty first field); the first field is the mnemonic and the second its
//! operand.  The only mnemonic is `JUMP`, whose
//! operand is a decimal address.  Each instruction takes two bytes, written
//! from the program start on into an otherwise zero memory image.
use vstd::prelude::*;
use crate::machine::{MEMORY_SIZE, PROGRAM_START, with_program};

verus! {

/// Why a source text does not assemble.
#[derive(Clone, Copy, Debug, PartialEq, Eq, Structural)]
pub enum CompileError {
    /// The mnemonic of a line is not known.
    UnknownInstruction,
    /// A line has a mnemonic but no operand.
    MissingOperand,
    /// An operand is not a decimal number below 65536.
    InvalidNumber,
    /// The instructions do not fit between the program start and the end of memory.
    ProgramTooLarge,
}

/// Number of two-byte instructions that fit after the program start.
pub open spec fn instruction_room() -> nat {
    ((MEMORY_SIZE - PROGRAM_START) / 2) as nat
}

/// Whether `b` is an ASCII decimal digit.
pub open spec fn is_digit(b: u8) -> bool {
    48 <= b <= 57
}

/// Whether every byte of `s` is a decimal digit.
pub open spec fn all_digits(s: Seq<u8>) -> bool {
    forall|i: int| 0 <= i < s.len() ==> is_digit(#[trigger] s[i])
}

/// The value of the decimal digits `s`.
pub open spec fn digits_value(s: Seq<u8>) -> nat
    decreases s.len(),
{
    if s.len() == 0 {
        0
    } else {
        digits_value(s.drop_last()) * 10 + (s.last() - 48) as nat
    }
}

/// `s` without one leading `+`.
pub open spec fn unsigned_digits(s: Seq<u8>) -> Seq<u8> {
    if s.len() > 0 && s[0] == 43 {
        s.drop_first()
    } else {
        s
    }
}

/// The `u16` that `s` spells: an optional `+`, then at least one decimal
/// digit, with a value below 65536.
pub open spec fn parse_u16_spec(s: Seq<u8>) -> Option<u16> {
    let d = unsigned_digits(s);
    if d.len() > 0 && all_digits(d) && digits_value(d) <= 65535 {
        Some(digits_value(d) as u16)
    } else {
        None
    }
}

/// Where the line that starts at `i` ends: the first `\n` from `i` on, or the
/// end of the text.
pub open spec fn line_end(t: Seq<u8>, i: int) -> int
    decreases t.len() - i,
{
    if i >= t.len() {
        t.len() as int
    } else if t[i] == 10 {
        i
    } else {
        line_end(t, i + 1)
    }
}

/// The line that starts at `pos`, without its line ending.
pub open spec fn line_at(t: Seq<u8>, pos: int) -> Seq<u8> {
    let e = line_end(t, pos);
    let raw = t.subrange(pos, e);
    if e < t.len() && raw.len() > 0 && raw.last() == 13 {
        raw.drop_last()
    } else {
        raw
    }
}

/// Whether `b` is ASCII whitespace: space, tab, line feed, vertical tab,
/// form feed or carriage return.
pub open spec fn is_space(b: u8) -> bool {
    b == 32 || (9 <= b && b <= 13)
}

/// Where the field that starts at `i` ends: the first whitespace from `i` on,
/// or the end of the line.
pub open spec fn field_end(s: Seq<u8>, i: int) -> int
    decreases s.len() - i,
{
    if i >= s.len() {
        s.len() as int
    } else if is_space(s[i]) {
        i
    } else {
        field_end(s, i + 1)
    }
}

/// Where the run of whitespace that starts at `i` ends: the first
/// non-whitespace from `i` on, or the end of the line.
pub open spec fn space_end(s: Seq<u8>, i: int) -> int
    decreases s.len() - i,
{
    if i >= s.len() {
        s.len() as int
    } else if !is_space(s[i]) {
        i
    } else {
        space_end(s, i + 1)
    }
}

/// The mnemonic `JUMP`.
pub open spec fn jump_mnemonic() -> Seq<u8> {
    seq![74u8, 85, 77, 80]
}

/// The two bytes of `1NNN`, a jump to `target`.
pub open spec fn jump_word(target: u16) -> (u8, u8) {
    (((target / 256) as u8) | 0x10u8, (target % 256) as u8)
}

/// The two bytes that a non-empty line assembles to.
pub open spec fn assemble_line_spec(line: Seq<u8>) -> Result<(u8, u8), CompileError> {
    let e0 = field_end(line, 0);
    if line.subrange(0, e0) != jump_mnemonic() {
        Err(CompileError::UnknownInstruction)
    } else if e0 >= line.len() {
        Err(CompileError::MissingOperand)
    } else {
        let start = space_end(line, e0);
        match parse_u16_spec(line.subrange(start, field_end(line, start))) {
            Some(target) => Ok(jump_word(target)),
            None => Err(CompileError::InvalidNumber),
        }
    }
}

pub proof fn lemma_line_end_bounds(t: Seq<u8>, i: int)
    requires
        0 <= i,
    ensures
        i <= t.len() ==> i <= line_end(t, i) <= t.len(),
        line_end(t, i) < t.len() ==> t[line_end(t, i)] == 10,
    decreases t.len() - i,
{
    if i < t.len() && t[i] != 10 {
        lemma_line_end_bounds(t, i + 1);
    }
}

pub proof fn lemma_field_end_bounds(s: Seq<u8>, i: int)
    requires
        0 <= i <= s.len(),
    ensures
        i <= field_end(s, i) <= s.len(),
        field_end(s, i) < s.len() ==> is_space(s[field_end(s, i)]),
    decreases s.len() - i,
{
    if i < s.len() && !is_space(s[i]) {
        lemma_field_end_bounds(s, i + 1);
    }
}

pub proof fn lemma_space_end_bounds(s: Seq<u8>, i: int)
    requires
        0 <= i <= s.len(),
    ensures
        i <= space_end(s, i) <= s.len(),
    decreases s.len() - i,
{
    if i < s.len() && is_space(s[i]) {
        lemma_space_end_bounds(s, i + 1);
    }
}

/// The bytes that the text from `pos` on assembles to, with room left for
/// `room` instructions; the first error met, line by line, otherwise.
pub open spec fn assemble_from(t: Seq<u8>, pos: int, room: nat) -> Result<Seq<u8>, CompileError>
    decreases t.len() + 1 - pos,
{
    if pos < 0 || pos >= t.len() {
        Ok(Seq::empty())
    } else {
        let e = line_end(t, pos);
        proof {
            lemma_line_end_bounds(t, pos);
        }
        let line = line_at(t, pos);
        if line.len() == 0 {
            assemble_from(t, e + 1, room)
        } else {
            let word = assemble_line_spec(line);
            if word is Err {
                Err(word->Err_0)
            } else if room == 0 {
                Err(CompileError::ProgramTooLarge)
            } else {
                let rest = assemble_from(t, e + 1, (room - 1) as nat);
                if rest is Ok {
                    Ok(seq![word->Ok_0.0, word->Ok_0.1] + rest->Ok_0)
                } else {
                    rest
                }
            }
        }
    }
}

/// The memory image that `source` assembles to.
pub open spec fn compile_spec(source: Seq<u8>) -> Result<Seq<u8>, CompileError> {
    match assemble_from(source, 0, instruction_room()) {
        Ok(bytes) => Ok(with_program(Seq::new(MEMORY_SIZE as nat, |a: int| 0u8), bytes)),
        Err(err) => Err(err),
    }
}

spec fn prepend(prefix: Seq<u8>, r: Result<Seq<u8>, CompileError>) -> Result<Seq<u8>, CompileError> {
    match r {
        Ok(rest) => Ok(prefix + rest),
        Err(err) => Err(err),
    }
}

/// Parses an unsigned 16-bit decimal number: an optional `+`, then digits.
pub fn parse_u16(s: &[u8]) -> (r: Option<u16>)
    ensures
        r == parse_u16_spec(s@),
{
    let start: usize = if s.len() > 0 && s[0] == 43 {
        1
    } else {
        0
    };
    let ghost d = unsigned_digits(s@);
    assert(d =~= s@.subrange(start as int, s@.len() as int));
    if start >= s.len() {
        return None;
    }
    let mut value: u32 = 0;
    let mut i: usize = start;
    while i < s.len()
        invariant
            start <= i <= s.len(),
            start < s.len(),
            d == unsigned_digits(s@),
            d == s@.subrange(start as int, s@.len() as int),
            all_digits(d.take(i - start)),
            value == if digits_value(d.take(i - start)) < 65536 {
                digits_value(d.take(i - start))
            } else {
                65536
            },
        decreases s.len() - i,
    {
        let b = s[i];
        if b < 48 || b > 57 {
            assert(d[i - start] == b);
            assert(!is_digit(d[i - start]));
            return None;
        }
        let ghost prev = d.take(i - start);
        let ghost next = d.take(i - start + 1);
        assert(next.drop_last() =~= prev);
        assert(next.last() == b);
        let digit = (b - 48) as u32;
        value = value * 10 + digit;
        if value > 65536 {
            value = 65536;
        }
        i += 1;
    }
    assert(d.take(i - start) =~= d);
    if value > 65535 {
        None
    } else {
        Some(value as u16)
    }
}

/// The end of the line that starts at `pos`.
fn find_line_end(t: &[u8], pos: usize) -> (e: usize)
    requires
        pos <= t.len(),
    ensures
        e == line_end(t@, pos as int),
{
    let mut i = pos;
    while i < t.len() && t[i] != 10
        invariant
            pos <= i <= t.len(),
            line_end(t@, i as int) == line_end(t@, pos as int),
        decreases t.len() - i,
    {
        i += 1;
    }
    i
}

fn is_space_byte(b: u8) -> (r: bool)
    ensures
        r == is_space(b),
{
    b == 32 || (9 <= b && b <= 13)
}

/// The end of the field that starts at `from`.
fn find_field_end(s: &[u8], from: usize) -> (e: usize)
    requires
        from <= s.len(),
    ensures
        e == field_end(s@, from as int),
{
    let mut i = from;
    while i < s.len() && !is_space_byte(s[i])
        invariant
            from <= i <= s.len(),
            field_end(s@, i as int) == field_end(s@, from as int),
        decreases s.len() - i,
    {
        i += 1;
    }
    i
}

/// The end of the run of whitespace that starts at `from`.
fn find_space_end(s: &[u8], from: usize) -> (e: usize)
    requires
        from <= s.len(),
    ensures
        e == space_end(s@, from as int),
{
    let mut i = from;
    while i < s.len() && is_space_byte(s[i])
        invariant
            from <= i <= s.len(),
            space_end(s@, i as int) == space_end(s@, from as int),
        decreases s.len() - i,
    {
        i += 1;
    }
    i
}

/// A copy of `s[lo..hi]`.
fn copy_range(s: &[u8], lo: usize, hi: usize) -> (v: Vec<u8>)
    requires
        lo <= hi <= s.len(),
    ensures
        v@ == s@.subrange(lo as int, hi as int),
{
    let mut v: Vec<u8> = Vec::new();
    let mut i = lo;
    while i < hi
        invariant
            lo <= i <= hi <= s.len(),
            v@ == s@.subrange(lo as int, i as int),
        decreases hi - i,
    {
        v.push(s[i]);
        i += 1;
        assert(v@ =~= s@.subrange(lo as int, i as int));
    }
    v
}

/// How an instruction is assembled from its operands.
pub struct InstructionToken {
    /// Number of operands that follow the mnemonic.
    pub follow_tokens: usize,
}

/// The instruction token of a mnemonic; only `JUMP` is known.
pub fn instruction_token(mnemonic: &[u8]) -> (t: Option<InstructionToken>)
    ensures
        t is Some <==> mnemonic@ == jump_mnemonic(),
        t matches Some(tok) ==> tok.follow_tokens == 1,
{
    if mnemonic.len() == 4 && mnemonic[0] == 74 && mnemonic[1] == 85 && mnemonic[2] == 77
        && mnemonic[3] == 80 {
        assert(mnemonic@ =~= jump_mnemonic());
        Some(InstructionToken { follow_tokens: 1 })
    } else {
        proof {
            if mnemonic@ == jump_mnemonic() {
                assert(mnemonic@[0] == 74 && mnemonic@[1] == 85 && mnemonic@[2] == 77
                    && mnemonic@[3] == 80);
            }
        }
        None
    }
}

impl InstructionToken {
    /// The two bytes of a jump to the address that `operand` spells.
    fn encode(&self, operand: &[u8]) -> (r: Result<(u8, u8), CompileError>)
        ensures
            match parse_u16_spec(operand@) {
                Some(target) => r == Ok::<(u8, u8), CompileError>(jump_word(target)),
                None => r == Err::<(u8, u8), CompileError>(CompileError::InvalidNumber),
            },
    {
        match parse_u16(operand) {
            Some(jump_to) => {
                let last = (jump_to % 256) as u8;
                Ok((((jump_to / 256) as u8) | 0x10, last))
            },
            None => Err(CompileError::InvalidNumber),
        }
    }
}

/// Assembles one non-empty line.
fn assemble_line(line: &[u8]) -> (r: Result<(u8, u8), CompileError>)
    ensures
        r == assemble_line_spec(line@),
{
    let e0 = find_field_end(line, 0);
    proof {
        lemma_field_end_bounds(line@, 0);
    }
    let mnemonic = copy_range(line, 0, e0);
    match instruction_token(mnemonic.as_slice()) {
        None => Err(CompileError::UnknownInstruction),
        Some(token) => {
            if e0 >= line.len() {
                return Err(CompileError::MissingOperand);
            }
            let start = find_space_end(line, e0);
            proof {
                lemma_space_end_bounds(line@, e0 as int);
            }
            let e1 = find_field_end(line, start);
            proof {
                lemma_field_end_bounds(line@, start as int);
            }
            let operand = copy_range(line, start, e1);
            token.encode(operand.as_slice())
        },
    }
}

/// Assembles `source` into a memory image of `MEMORY_SIZE` bytes with the
/// program at the program start.  The source must assemble; see
/// [`check_source`].
pub fn compile(source: &[u8]) -> (image: Vec<u8>)
    requires
        compile_spec(source@) is Ok,
    ensures
        image@ == compile_spec(source@)->Ok_0,
{
    match assemble(source) {
        Ok(image) => image,
        Err(_) => Vec::new(),
    }
}

/// Why `source` does not assemble: the first error, line by line; `None`
/// when it does.
pub fn check_source(source: &[u8]) -> (r: Option<CompileError>)
    ensures
        r == match compile_spec(source@) {
            Ok(_) => None::<CompileError>,
            Err(err) => Some(err),
        },
{
    match assemble(source) {
        Ok(_) => None,
        Err(err) => Some(err),
    }
}

/// The memory image that `source` assembles to, or the first error, line by
/// line.
fn assemble(source: &[u8]) -> (r: Result<Vec<u8>, CompileError>)
    ensures
        match compile_spec(source@) {
            Ok(image) => r matches Ok(mem) && mem@ == image,
            Err(err) => r == Err::<Vec<u8>, CompileError>(err),
        },
{
    let mut mem: Vec<u8> = Vec::new();
    let mut k: usize = 0;
    while k < MEMORY_SIZE
        invariant
            k <= MEMORY_SIZE,
            mem@ == Seq::new(k as nat, |a: int| 0u8),
        decreases MEMORY_SIZE - k,
    {
        mem.push(0);
        k += 1;
    }
    let ghost zero = Seq::new(MEMORY_SIZE as nat, |a: int| 0u8);
    let ghost t = source@;
    let ghost mut emitted: Seq<u8> = Seq::empty();
    assert(mem@ =~= with_program(zero, emitted));
    let mut i: usize = PROGRAM_START as usize;
    let mut pos: usize = 0;
    while pos < source.len()
        invariant
            t == source@,
            pos <= source.len() + 1,
            emitted.len() % 2 == 0,
            i == PROGRAM_START + emitted.len(),
            i <= MEMORY_SIZE,
            mem@.len() == MEMORY_SIZE,
            prepend(emitted, assemble_from(t, pos as int, (instruction_room() - emitted.len() / 2) as nat))
                == assemble_from(t, 0, instruction_room()),
            mem@ == with_program(zero, emitted),
        decreases source.len() + 1 - pos,
    {
        let e = find_line_end(source, pos);
        proof {
            lemma_line_end_bounds(t, pos as int);
        }
        let mut stop = e;
        if e < source.len() && stop > pos && source[stop - 1] == 13 {
            stop = stop - 1;
        }
        let ghost room = (instruction_room() - emitted.len() / 2) as nat;
        if stop > pos {
            let line = copy_range(source, pos, stop);
            assert(line@ =~= line_at(t, pos as int));
            match assemble_line(line.as_slice()) {
                Err(err) => {
                    return Err(err);
                },
                Ok((a, b)) => {
                    if i >= MEMORY_SIZE {
                        return Err(CompileError::ProgramTooLarge);
                    }
                    mem[i] = a;
                    mem[i + 1] = b;
                    proof {
                        let old_emitted = emitted;
                        emitted = emitted + seq![a, b];
                        let rest = assemble_from(t, e + 1, (room - 1) as nat);
                        match rest {
                            Ok(r) => {
                                assert(old_emitted + (seq![a, b] + r) =~= emitted + r);
                            },
                            Err(_) => {},
                        }
                        assert(mem@ =~= with_program(zero, emitted));
                    }
                    i = i + 2;
                },
            }
        } else {
            assert(line_at(t, pos as int).len() == 0);
        }
        pos = if e < source.len() {
            e + 1
        } else {
            e
        };
    }
    proof {
        assert(emitted + Seq::<u8>::empty() =~= emitted);
    }
    Ok(mem)
}

} // verus!
