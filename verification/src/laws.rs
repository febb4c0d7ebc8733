//! What holds of the processor across its operations: statements about
//! the semantics in `semantics`, each proved from the definitions.

use vstd::prelude::*;
use crate::cpu::{flag_set, lemma_flag_written, with_flag, wrap32, CpuView, StatusFlag};
use crate::memory::{
    lemma_byte_apart, lemma_u32_apart, lemma_u32_store_elsewhere, lemma_u32_stored_is_read, set_u32,
    u32_at,
};
use crate::opcodes::{is_indirect, width_bytes, ArgumentSize, Op};
use crate::semantics::{jmp_taken, load_w, low_byte, store_w};

verus! {

/// The program counter can be read back: it is the field `pc`, or its four
/// bytes lie inside the RAM.
pub open spec fn pc_readable(c: CpuView, m: Seq<u8>) -> bool {
    c.pc_reg == 0 || c.pc_reg + 4 <= m.len()
}

/// A program counter that can be read back holds what it was set to.
pub proof fn lemma_pc_set_is_read(c: CpuView, m: Seq<u8>, v: u32)
    requires
        pc_readable(c, m),
    ensures
        c.with_pc(m, v).0.pc_in(c.with_pc(m, v).1) == v,
        pc_readable(c.with_pc(m, v).0, c.with_pc(m, v).1),
{
    if c.pc_reg != 0 {
        lemma_u32_stored_is_read(m, c.pc_reg as int, v);
    }
}

/// `CMP` sets Carry exactly when operand 1 minus operand 0 is not negative,
/// and Zero exactly when the two are equal; at byte width both speak of the
/// low bytes of the operands. Memory and program counter stay as they are.
pub proof fn lemma_compare_flags(c: CpuView, m: Seq<u8>)
    requires
        c.instruction.opcode == Op::CMP,
    ensures
        c.after_execute(m).1 == m,
        c.after_execute(m).0 == (CpuView { p: c.after_execute(m).0.p, ..c }),
        c.width() is Int ==> (flag_set(c.after_execute(m).0.p, StatusFlag::Carry) <==> c.arg(1)
            - c.arg(0) >= 0),
        c.width() is Int ==> (flag_set(c.after_execute(m).0.p, StatusFlag::Zero) <==> c.arg(1)
            == c.arg(0)),
        c.width() is Byte ==> (flag_set(c.after_execute(m).0.p, StatusFlag::Carry) <==> low_byte(
            c.arg(1),
        ) - low_byte(c.arg(0)) >= 0),
        c.width() is Byte ==> (flag_set(c.after_execute(m).0.p, StatusFlag::Zero) <==> low_byte(
            c.arg(1),
        ) == low_byte(c.arg(0))),
{
    let difference: int = match c.width() {
        ArgumentSize::Byte => low_byte(c.arg(1)) - low_byte(c.arg(0)),
        ArgumentSize::Int => c.arg(1) - c.arg(0),
    };
    let zero = match c.width() {
        ArgumentSize::Byte => ((difference % 0x100) as u8) == 0,
        ArgumentSize::Int => wrap32(difference) == 0,
    };
    let negative = match c.width() {
        ArgumentSize::Byte => ((difference % 0x100) as u8) >= 0x80,
        ArgumentSize::Int => wrap32(difference) >= 0x8000_0000,
    };
    let carried = with_flag(c.p, StatusFlag::Carry, difference >= 0);
    let zeroed = with_flag(carried, StatusFlag::Zero, zero);
    let signed = with_flag(zeroed, StatusFlag::Negative, negative);
    assert(c.after_compare() == signed);
    lemma_flag_written(c.p, StatusFlag::Carry, difference >= 0, StatusFlag::Carry);
    lemma_flag_written(carried, StatusFlag::Zero, zero, StatusFlag::Carry);
    lemma_flag_written(zeroed, StatusFlag::Negative, negative, StatusFlag::Carry);
    lemma_flag_written(zeroed, StatusFlag::Negative, negative, StatusFlag::Zero);
}

/// The two bases of a relative `JMP`. With condition code 17 the operand is
/// added to the program counter as it stands after the operands were read;
/// with codes 9 to 16, where the condition holds, it is added to the address
/// of the instruction, and where it does not hold nothing changes.
pub proof fn lemma_jump_offset_bases(c: CpuView, m: Seq<u8>)
    requires
        c.instruction.opcode == Op::JMP,
        pc_readable(c, m),
    ensures
        c.arg(1) == 17 ==> c.after_execute(m).0.pc_in(c.after_execute(m).1) == wrap32(
            c.pc_in(m) + c.arg(0),
        ),
        9 <= c.arg(1) <= 16 && jmp_taken(c.arg(1), c.p) ==> c.after_execute(m).0.pc_in(
            c.after_execute(m).1,
        ) == wrap32(c.prev_pc + c.arg(0)),
        9 <= c.arg(1) <= 16 && !jmp_taken(c.arg(1), c.p) ==> c.after_execute(m) == (c, m),
{
    lemma_pc_set_is_read(c, m, wrap32(c.pc_in(m) + c.arg(0)));
    lemma_pc_set_is_read(c, m, wrap32(c.prev_pc + c.arg(0)));
}

/// The bytes from `a` on, `n` of them, lie inside the RAM and share no byte
/// with the four bytes at `reg`.
pub open spec fn inside_and_clear_of(m: Seq<u8>, a: int, n: int, reg: int) -> bool {
    &&& 0 <= a
    &&& a + n <= m.len()
    &&& (a + n <= reg || reg + 4 <= a)
}

/// What a value is once it has been stored and read at a width.
pub open spec fn kept(width: ArgumentSize, v: u32) -> u32 {
    match width {
        ArgumentSize::Byte => low_byte(v) as u32,
        ArgumentSize::Int => v,
    }
}

/// A value stored inside the RAM at a width is read back at that width.
pub proof fn lemma_stored_is_loaded(m: Seq<u8>, width: ArgumentSize, a: u32, v: u32)
    requires
        a + width_bytes(width) <= m.len(),
    ensures
        load_w(store_w(m, width, a, v), width, a) == kept(width, v),
        store_w(m, width, a, v).len() == m.len(),
{
    if width is Int {
        lemma_u32_stored_is_read(m, a as int, v);
    }
}

/// A store at a width leaves a 32-bit value that it does not touch.
pub proof fn lemma_store_keeps_u32(m: Seq<u8>, width: ArgumentSize, a: u32, v: u32, reg: int)
    requires
        a + width_bytes(width) <= reg || reg + 4 <= a,
    ensures
        u32_at(store_w(m, width, a, v), reg) == u32_at(m, reg),
{
    match width {
        ArgumentSize::Byte => lemma_byte_apart(m, a as int, low_byte(v), reg),
        ArgumentSize::Int => lemma_u32_apart(m, a as int, v, reg),
    }
}

/// A read at a width sees nothing of a 32-bit store that does not touch it.
pub proof fn lemma_u32_keeps_load(m: Seq<u8>, reg: int, x: u32, width: ArgumentSize, a: u32)
    requires
        a + width_bytes(width) <= reg || reg + 4 <= a,
    ensures
        load_w(set_u32(m, reg, x), width, a) == load_w(m, width, a),
{
    match width {
        ArgumentSize::Byte => lemma_u32_store_elsewhere(m, reg, x, a as int),
        ArgumentSize::Int => lemma_u32_apart(m, reg, x, a as int),
    }
}

proof fn lemma_wrap_sums(x: u32, top: u32, step: int)
    requires
        step == 1 || step == 4,
    ensures
        wrap32(wrap32(x + step) + wrap32(top - step)) == wrap32(x + top),
        wrap32(wrap32(top - step) + step) == top,
{
}

/// Push, then pop. `STR` with operands 1 and 2 direct and operand 2 the
/// address of a pointer stores operand 0 at operand 1 plus the pointer and
/// takes the width off the pointer. `LDR` of the same form and width on the
/// same pointer, with an operand 1 that is larger by the width, then reads
/// that value into its destination and leaves the pointer as it was before
/// the `STR`. The pointer, the place stored to and the destination lie
/// inside the RAM, and neither of the two shares a byte with the pointer.
pub proof fn lemma_push_then_pop(push: CpuView, pop: CpuView, m: Seq<u8>)
    requires
        push.instruction.opcode == Op::STR,
        pop.instruction.opcode == Op::LDR,
        push.width() == pop.width(),
        !is_indirect(push.instruction.args, 1) && !is_indirect(push.instruction.args, 2),
        !is_indirect(pop.instruction.args, 1) && !is_indirect(pop.instruction.args, 2),
        push.arg(2) != 0,
        pop.arg(2) == push.arg(2),
        push.arg(2) + 4 <= m.len(),
        pop.arg(1) == wrap32(push.arg(1) + width_bytes(push.width())),
        inside_and_clear_of(
            m,
            wrap32(push.arg(1) + u32_at(m, push.arg(2) as int)) as int,
            width_bytes(push.width()),
            push.arg(2) as int,
        ),
        inside_and_clear_of(
            m,
            pop.arg(0) as int,
            width_bytes(push.width()),
            push.arg(2) as int,
        ),
    ensures
        u32_at(push.after_execute(m).1, push.arg(2) as int) == wrap32(
            u32_at(m, push.arg(2) as int) - width_bytes(push.width()),
        ),
        u32_at(pop.after_execute(push.after_execute(m).1).1, push.arg(2) as int) == u32_at(
            m,
            push.arg(2) as int,
        ),
        load_w(pop.after_execute(push.after_execute(m).1).1, pop.width(), pop.arg(0)) == kept(
            push.width(),
            push.arg(0),
        ),
{
    let w = push.width();
    let step = width_bytes(w);
    let reg = push.arg(2);
    let top = u32_at(m, reg as int);
    let place = wrap32(push.arg(1) + top);
    let lowered = wrap32(top - step);
    let m1 = store_w(m, w, place, push.arg(0));
    let m2 = set_u32(m1, reg as int, lowered);
    assert(push.after_execute(m).1 == m2);
    lemma_stored_is_loaded(m, w, place, push.arg(0));
    lemma_store_keeps_u32(m, w, place, push.arg(0), reg as int);
    lemma_u32_stored_is_read(m1, reg as int, lowered);
    lemma_u32_keeps_load(m1, reg as int, lowered, w, place);
    lemma_wrap_sums(push.arg(1), top, step);
    let value = kept(w, push.arg(0));
    assert(load_w(m2, w, place) == value);
    let m3 = store_w(m2, w, pop.arg(0), value);
    let m4 = set_u32(m3, reg as int, top);
    assert(pop.after_execute(m2).1 == m4);
    lemma_stored_is_loaded(m2, w, pop.arg(0), value);
    lemma_store_keeps_u32(m2, w, pop.arg(0), value, reg as int);
    lemma_u32_stored_is_read(m3, reg as int, top);
    lemma_u32_keeps_load(m3, reg as int, top, w, pop.arg(0));
    lemma_kept_twice(w, push.arg(0));
}

proof fn lemma_kept_twice(width: ArgumentSize, v: u32)
    ensures
        kept(width, kept(width, v)) == kept(width, v),
{
    assert(((((v & 0xff) as u8) as u32) & 0xff) as u8 == (v & 0xff) as u8) by (bit_vector);
}

} // verus!
