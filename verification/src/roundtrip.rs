//! An instruction that is disassembled and committed without a choice goes
//! back to memory as it came: the proof, step by step.

use vstd::prelude::*;
use crate::cpu::{wrap32, CpuView};
use crate::edit::no_edit;
use crate::laws::{lemma_pc_set_is_read, pc_readable};
use crate::memory::{
    byte_at, lemma_bytes_of_u32, lemma_store_what_is_there, lemma_u32_store_elsewhere, set_byte,
    set_u32, u32_at,
};
use crate::opcodes::{
    decode, instruction_len, lemma_encode_decode, width_bytes, ArgumentSize, InstructionView,
};
use crate::semantics::{load_w, store_w};

verus! {

/// Two memories of one length that hold the same bytes everywhere but, for
/// a program counter that lives in memory, in its four bytes.
pub open spec fn agree(pc_reg: u32, a: Seq<u8>, b: Seq<u8>) -> bool {
    &&& a.len() == b.len()
    &&& forall|i: int|
        0 <= i < a.len() && (pc_reg == 0 || i < pc_reg || i >= pc_reg + 4) ==> a[i] == b[i]
}

/// Number of bytes that `n` operands of a width take.
pub open spec fn span(width: ArgumentSize, n: int) -> int {
    match width {
        ArgumentSize::Byte => n,
        ArgumentSize::Int => 4 * n,
    }
}

/// The `n` bytes from `start` on share no byte with a program counter that
/// lives in memory, and do not run past the last address.
pub open spec fn clear_of_pc(pc_reg: u32, start: int, n: int) -> bool {
    pc_reg == 0 || start + n <= pc_reg || (pc_reg + 4 <= start && start + n <= 0x1_0000_0000)
}

proof fn lemma_with_pc(c: CpuView, m: Seq<u8>, v: u32)
    requires
        pc_readable(c, m),
    ensures
        agree(c.pc_reg, c.with_pc(m, v).1, m),
        pc_readable(c.with_pc(m, v).0, c.with_pc(m, v).1),
        c.with_pc(m, v).0.pc_in(c.with_pc(m, v).1) == v,
        c.with_pc(m, v).0 == (CpuView { pc: c.with_pc(m, v).0.pc, ..c }),
{
    lemma_pc_set_is_read(c, m, v);
    if c.pc_reg != 0 {
        let m2 = set_u32(m, c.pc_reg as int, v);
        assert forall|i: int| 0 <= i < m2.len() && (i < c.pc_reg || i >= c.pc_reg + 4) implies m2[i]
            == m[i] by {
            lemma_u32_store_elsewhere(m, c.pc_reg as int, v, i);
        }
        lemma_u32_store_elsewhere(m, c.pc_reg as int, v, -1);
    }
}

proof fn lemma_agree_load(pc_reg: u32, a: Seq<u8>, b: Seq<u8>, width: ArgumentSize, at: u32)
    requires
        agree(pc_reg, a, b),
        clear_of_pc(pc_reg, at as int, width_bytes(width)),
    ensures
        load_w(a, width, at) == load_w(b, width, at),
{
    reveal(u32_at);
    assert(byte_at(a, at as int) == byte_at(b, at as int));
    if width is Int {
        assert(byte_at(a, at + 1) == byte_at(b, at + 1));
        assert(byte_at(a, at + 2) == byte_at(b, at + 2));
        assert(byte_at(a, at + 3) == byte_at(b, at + 3));
    }
}

proof fn lemma_store_loaded(m: Seq<u8>, width: ArgumentSize, at: u32)
    ensures
        store_w(m, width, at, load_w(m, width, at)) == m,
{
    lemma_store_what_is_there(m, at as int);
    let b = byte_at(m, at as int);
    assert((((b as u32) & 0xff) as u8) == b) by (bit_vector);
}

proof fn lemma_agree_same_cell(pc_reg: u32, a: Seq<u8>, b: Seq<u8>)
    requires
        agree(pc_reg, a, b),
        pc_reg != 0 ==> pc_reg + 4 <= a.len() && u32_at(a, pc_reg as int) == u32_at(b, pc_reg as int),
    ensures
        a == b,
{
    if pc_reg != 0 {
        reveal(u32_at);
        let r = pc_reg as int;
        lemma_bytes_of_u32(a[r], a[r + 1], a[r + 2], a[r + 3]);
        lemma_bytes_of_u32(b[r], b[r + 1], b[r + 2], b[r + 3]);
    }
    assert(a =~= b);
}

proof fn lemma_next_literal(c: CpuView, m: Seq<u8>)
    requires
        pc_readable(c, m),
    ensures
        ({
            let (c2, m2, literal) = c.after_next_literal(m);
            &&& agree(c.pc_reg, m2, m)
            &&& pc_readable(c2, m2)
            &&& c2.pc_in(m2) == wrap32(c.pc_in(m) + width_bytes(c.width()))
            &&& c2 == (CpuView { pc: c2.pc, ..c })
            &&& literal == load_w(m, c.width(), c.pc_in(m))
        }),
{
    let pc = c.pc_in(m);
    lemma_with_pc(c, m, wrap32(pc + 1));
    lemma_with_pc(c, m, wrap32(pc + 4));
}

proof fn lemma_step_position(pc_reg: u32, start: u32, width: ArgumentSize, k: int)
    requires
        0 <= k < 3,
        clear_of_pc(pc_reg, start as int, span(width, k + 1)),
    ensures
        clear_of_pc(pc_reg, start as int, span(width, k)),
        clear_of_pc(pc_reg, wrap32(start + span(width, k)) as int, width_bytes(width)),
        wrap32(wrap32(start + span(width, k)) + width_bytes(width)) == wrap32(
            start + span(width, k + 1),
        ),
{
}

proof fn lemma_pull_slot(c: CpuView, m: Seq<u8>, slot: int)
    requires
        pc_readable(c, m),
        0 <= slot < 3,
        c.instruction.arg.len() == 3,
    ensures
        ({
            let (c2, m2) = c.after_pull_slot(m, slot);
            &&& agree(c.pc_reg, m2, m)
            &&& pc_readable(c2, m2)
            &&& c2.pc_in(m2) == wrap32(c.pc_in(m) + width_bytes(c.width()))
            &&& c2 == (CpuView {
                pc: c2.pc,
                instruction: InstructionView {
                    arg: c.instruction.arg.update(slot, load_w(m, c.width(), c.pc_in(m))),
                    ..c.instruction
                },
                ..c
            })
        }),
{
    lemma_next_literal(c, m);
}

proof fn lemma_push_slot(d: CpuView, md: Seq<u8>, m: Seq<u8>, slot: int)
    requires
        pc_readable(d, md),
        agree(d.pc_reg, md, m),
        clear_of_pc(d.pc_reg, d.pc_in(md) as int, width_bytes(d.width())),
        d.arg(slot) == load_w(m, d.width(), d.pc_in(md)),
    ensures
        ({
            let (d2, m2) = d.after_push_slot(md, slot);
            &&& agree(d.pc_reg, m2, m)
            &&& pc_readable(d2, m2)
            &&& d2.pc_in(m2) == wrap32(d.pc_in(md) + width_bytes(d.width()))
            &&& d2 == (CpuView { pc: d2.pc, ..d })
        }),
{
    let at = d.pc_in(md);
    lemma_agree_load(d.pc_reg, md, m, d.width(), at);
    lemma_store_loaded(md, d.width(), at);
    lemma_with_pc(d, md, wrap32(at + width_bytes(d.width())));
}

proof fn lemma_agree_chain(pc_reg: u32, a: Seq<u8>, b: Seq<u8>, c: Seq<u8>)
    requires
        agree(pc_reg, a, b),
        agree(pc_reg, b, c),
    ensures
        agree(pc_reg, a, c),
        agree(pc_reg, b, a),
{
}

proof fn lemma_pull(c: CpuView, m: Seq<u8>, n: nat)
    requires
        pc_readable(c, m),
        n <= 3,
        c.instruction.arg.len() == 3,
        clear_of_pc(c.pc_reg, c.pc_in(m) as int, span(c.width(), n as int)),
    ensures
        ({
            let (cn, mn) = c.after_pull(m, n);
            &&& agree(c.pc_reg, mn, m)
            &&& pc_readable(cn, mn)
            &&& cn.pc_in(mn) == wrap32(c.pc_in(m) + span(c.width(), n as int))
            &&& cn == (CpuView {
                pc: cn.pc,
                instruction: InstructionView { arg: cn.instruction.arg, ..c.instruction },
                ..c
            })
            &&& cn.instruction.arg.len() == 3
            &&& forall|i: int|
                0 <= i < n ==> #[trigger] cn.arg(i) == load_w(
                    m,
                    c.width(),
                    wrap32(c.pc_in(m) + span(c.width(), i)),
                )
        }),
    decreases n,
{
    if n > 0 {
        let k = (n - 1) as nat;
        lemma_step_position(c.pc_reg, c.pc_in(m), c.width(), k as int);
        lemma_pull(c, m, k);
        let (ck, mk) = c.after_pull(m, k);
        lemma_pull_slot(ck, mk, k as int);
        let (cn, mn) = ck.after_pull_slot(mk, k as int);
        assert(c.after_pull(m, n) == (cn, mn));
        let at = ck.pc_in(mk);
        lemma_agree_load(c.pc_reg, mk, m, c.width(), at);
        lemma_agree_chain(c.pc_reg, mn, mk, m);
        assert forall|i: int| 0 <= i < n implies #[trigger] cn.arg(i) == load_w(
            m,
            c.width(),
            wrap32(c.pc_in(m) + span(c.width(), i)),
        ) by {
            if i < k {
                assert(cn.arg(i) == ck.arg(i));
            }
        }
    }
}

proof fn lemma_push(d: CpuView, md: Seq<u8>, m: Seq<u8>, n: nat)
    requires
        pc_readable(d, md),
        n <= 3,
        agree(d.pc_reg, md, m),
        clear_of_pc(d.pc_reg, d.pc_in(md) as int, span(d.width(), n as int)),
        forall|i: int|
            0 <= i < n ==> #[trigger] d.arg(i) == load_w(
                m,
                d.width(),
                wrap32(d.pc_in(md) + span(d.width(), i)),
            ),
    ensures
        ({
            let (dn, mn) = d.after_push(md, n);
            &&& agree(d.pc_reg, mn, m)
            &&& pc_readable(dn, mn)
            &&& dn.pc_in(mn) == wrap32(d.pc_in(md) + span(d.width(), n as int))
            &&& dn == (CpuView { pc: dn.pc, ..d })
        }),
    decreases n,
{
    if n > 0 {
        let k = (n - 1) as nat;
        lemma_step_position(d.pc_reg, d.pc_in(md), d.width(), k as int);
        lemma_push(d, md, m, k);
        let (dk, mk) = d.after_push(md, k);
        assert(dk.arg(k as int) == d.arg(k as int));
        lemma_push_slot(dk, mk, m, k as int);
        assert(d.after_push(md, n) == dk.after_push_slot(mk, k as int));
    }
}

/// Two processors that differ at most in the list of symbols and in the
/// places noted for the operands.
pub open spec fn same_code(a: CpuView, b: CpuView) -> bool {
    a == (CpuView {
        data: a.data,
        instruction: InstructionView { arg_index: a.instruction.arg_index, ..b.instruction },
        ..b
    })
}

proof fn lemma_operand_symbols_keep_code(c: CpuView, n: nat)
    ensures
        same_code(c.after_operand_symbols(n), c),
    decreases n,
{
    if n > 0 {
        lemma_operand_symbols_keep_code(c, (n - 1) as nat);
    }
}

/// Naming the operands changes nothing but the list of symbols and the
/// places noted for the operands.
pub proof fn lemma_symbols_keep_code(c: CpuView, m: Seq<u8>)
    ensures
        same_code(c.after_symbols(m), c),
{
    lemma_operand_symbols_keep_code(c, c.instruction.size as nat);
}

proof fn lemma_no_edit_keeps(c: CpuView, byte: u8)
    requires
        c.instruction.arg.len() == 3,
        c.instruction_u8 == byte,
        c.instruction.opcode == decode(byte).0,
        c.instruction.size == decode(byte).1,
        c.instruction.args == decode(byte).2,
        c.instruction.addressing_type == decode(byte).3,
    ensures
        c.with_edit(no_edit()) == c,
        c.instruction.encoding() == byte,
{
    assert((byte & 0xF8) | (((byte & 0x07) & 0x04) | ((byte & 0x07) & 0x02) | ((byte & 0x07) & 0x01))
        == byte) by (bit_vector);
    assert(c.staged_byte(no_edit()) == byte);
    lemma_encode_decode(byte);
    let e = c.with_edit(no_edit());
    assert(e.instruction.arg =~= c.instruction.arg);
    assert(e.instruction =~= c.instruction);
    assert(e =~= c);
}

/// What holds of processor `c` and memory `m` once the instruction at
/// `address` has been loaded from memory `m0`: the instruction is what the
/// byte at `address` says, its operands are what follows that byte, the
/// program counter stands behind them, and memory is as it was but for the
/// four bytes of a program counter that lives there.
pub open spec fn loaded(c: CpuView, m: Seq<u8>, m0: Seq<u8>, address: u32) -> bool {
    let byte = byte_at(m0, address as int);
    let w = decode(byte).3;
    let n = decode(byte).1;
    let start = wrap32(address + 1);
    &&& c.instruction_u8 == byte
    &&& c.instruction.opcode == decode(byte).0
    &&& c.instruction.size == n
    &&& c.instruction.args == decode(byte).2
    &&& c.instruction.addressing_type == w
    &&& c.instruction.arg.len() == 3
    &&& c.prev_pc == address
    &&& pc_readable(c, m)
    &&& agree(c.pc_reg, m, m0)
    &&& c.pc_in(m) == wrap32(start + span(w, n as int))
    &&& forall|i: int|
        0 <= i < n ==> #[trigger] c.arg(i) == load_w(m0, w, wrap32(start + span(w, i)))
}

proof fn lemma_span_of_len(byte: u8)
    ensures
        instruction_len(byte) == 1 + span(decode(byte).3, decode(byte).1 as int),
        2 <= decode(byte).1 <= 3,
{
}

proof fn lemma_load(c0: CpuView, m0: Seq<u8>, address: u32)
    requires
        c0.instruction.wf(),
        pc_readable(c0, m0),
        clear_of_pc(c0.pc_reg, address as int, instruction_len(byte_at(m0, address as int))),
    ensures
        loaded(c0.after_load_opcode(m0, address).0, c0.after_load_opcode(m0, address).1, m0, address),
        c0.after_load_opcode(m0, address).0.pc_reg == c0.pc_reg,
{
    let reg = c0.pc_reg;
    lemma_with_pc(c0, m0, address);
    let (c1, m1) = c0.with_pc(m0, address);
    let c2 = CpuView { prev_pc: c1.pc_in(m1), ..c1 };
    lemma_with_pc(c2, m1, wrap32(address + 1));
    let (c3, m3, byte) = c2.after_next_byte(m1);
    lemma_span_of_len(byte_at(m0, address as int));
    assert(byte == byte_at(m0, address as int));
    lemma_agree_chain(reg, m3, m1, m0);
    let c4 = c3.with_decoded(byte);
    let n = c4.instruction.size as nat;
    let w = c4.width();
    let start = wrap32(address + 1);
    assert(c4.pc_in(m3) == start);
    assert(clear_of_pc(reg, start as int, span(w, n as int)));
    lemma_pull(c4, m3, n);
    let (c5, m5) = c4.after_pull(m3, n);
    assert(c0.after_load_opcode(m0, address) == (c5, m5));
    lemma_agree_chain(reg, m5, m3, m0);
    assert forall|i: int| 0 <= i < n implies #[trigger] c5.arg(i) == load_w(
        m0,
        w,
        wrap32(start + span(w, i)),
    ) by {
        lemma_step_position(reg, start, w, i);
        lemma_agree_load(reg, m3, m0, w, wrap32(start + span(w, i)));
    }
}

proof fn lemma_write_back(c: CpuView, m: Seq<u8>, m0: Seq<u8>, address: u32)
    requires
        loaded(c, m, m0, address),
        clear_of_pc(c.pc_reg, address as int, instruction_len(byte_at(m0, address as int))),
    ensures
        c.after_commit(m, no_edit()).1 == m,
{
    let reg = c.pc_reg;
    let byte = byte_at(m0, address as int);
    let n = c.instruction.size as nat;
    let w = c.width();
    let start = wrap32(address + 1);
    lemma_span_of_len(byte);
    lemma_no_edit_keeps(c, byte);
    lemma_with_pc(c, m, address);
    let (c6, m6) = c.with_pc(m, address);
    let c7 = CpuView { instruction_u8: byte, ..c6 };
    lemma_agree_chain(reg, m6, m, m0);
    assert(byte_at(m6, address as int) == byte);
    assert(set_byte(m6, address as int, byte) =~= m6);
    lemma_with_pc(c7, m6, start);
    let (c8, m8) = c7.with_pc(m6, start);
    lemma_agree_chain(reg, m8, m6, m0);
    assert(clear_of_pc(reg, start as int, span(w, n as int)));
    assert forall|i: int| 0 <= i < n implies #[trigger] c8.arg(i) == load_w(
        m0,
        c8.width(),
        wrap32(c8.pc_in(m8) + span(c8.width(), i)),
    ) by {
        assert(c8.arg(i) == c.arg(i));
    }
    lemma_push(c8, m8, m0, n);
    let (c9, m9) = c8.after_push(m8, n);
    assert(c.after_commit(m, no_edit()) == (c9, m9));
    lemma_agree_chain(reg, m, m0, m0);
    lemma_agree_chain(reg, m9, m0, m);
    lemma_agree_same_cell(reg, m9, m);
}

/// An instruction that is disassembled and then committed without any
/// choice leaves memory as the disassembler left it, byte for byte; and
/// the disassembler leaves memory as it found it but for the four bytes of
/// a program counter that lives there. Where the program counter lives in
/// memory, its four bytes lie inside the RAM, and the instruction shares no
/// byte with them and does not run past the last address.
pub proof fn lemma_commit_unedited(c0: CpuView, m0: Seq<u8>, address: u32)
    requires
        c0.instruction.wf(),
        pc_readable(c0, m0),
        clear_of_pc(c0.pc_reg, address as int, instruction_len(byte_at(m0, address as int))),
    ensures
        ({
            let (c, m) = c0.after_disassemble(m0, address);
            c.after_commit(m, no_edit()).1 == m
        }),
        agree(c0.pc_reg, c0.after_disassemble(m0, address).1, m0),
        c0.pc_reg == 0 ==> c0.after_disassemble(m0, address).1 == m0,
{
    lemma_load(c0, m0, address);
    let (c5, m5) = c0.after_load_opcode(m0, address);
    lemma_symbols_keep_code(c5, m5);
    let c = c5.after_symbols(m5);
    assert(c0.after_disassemble(m0, address) == (c, m5));
    assert(loaded(c, m5, m0, address)) by {
        assert(c.instruction.arg == c5.instruction.arg);
        assert forall|i: int|
            0 <= i < decode(byte_at(m0, address as int)).1 implies #[trigger] c.arg(i) == c5.arg(i) by {}
    }
    lemma_write_back(c, m5, m0, address);
    if c0.pc_reg == 0 {
        lemma_agree_same_cell(0, m5, m0);
    }
}

} // verus!
