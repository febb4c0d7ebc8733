//! The listing of the code: the instructions from address 0 on, one line
//! each, as far as the window around the edited line needs them.

use vstd::prelude::*;
use crate::cpu::{CpuView, CPU};
use crate::edit::{EditView, StagedEdit};
use crate::editor::shown_choices;
use crate::memory::Memory;
use crate::menus::command_index;
use crate::opcodes::is_indirect;
use crate::symbols::{builtin_items, BUILTIN_ITEMS};

verus! {

/// One line of the listing.
pub struct CodeLine {
    /// Address of the instruction.
    pub address: u32,
    /// The instruction as text.
    pub text: String,
    /// Whether this is the line being edited.
    pub edited: bool,
    /// Whether the machine stands still on this instruction.
    pub current: bool,
}

/// A line of the listing as a value.
pub struct LineView {
    pub address: u32,
    pub text: Seq<char>,
    pub edited: bool,
    pub current: bool,
}

impl View for CodeLine {
    type V = LineView;

    open spec fn view(&self) -> LineView {
        LineView { address: self.address, text: self.text@, edited: self.edited, current: self.current }
    }
}

/// The lines of a listing as values.
pub open spec fn lines_view(lines: Seq<CodeLine>) -> Seq<LineView> {
    Seq::new(lines.len(), |i: int| lines[i]@)
}

/// A listing: its visible lines, the address of the edited line, and what
/// the three menus show for it, if the edited line was reached.
pub struct Listing {
    pub lines: Vec<CodeLine>,
    pub edit_pc: u32,
    pub choices: Option<(u32, u32, u32)>,
}

/// Number of lines that are disassembled for a window of `visible` lines:
/// enough of them to put the edited line in the middle of the window once
/// it lies below the first half.
pub open spec fn listing_end(edit_line: u32, visible: u32) -> int {
    if edit_line + visible / 2 > visible {
        edit_line + visible / 2
    } else {
        visible as int
    }
}

/// What the three menus show for operand `cur_arg` of the loaded
/// instruction: a staged choice, or what the instruction has.
pub open spec fn choices_of(c: CpuView, e: EditView, cur_arg: int) -> (u32, u32, u32) {
    (
        match e.opcode {
            Some(cmd) => cmd,
            None => command_index(c.instruction_u8, c.instruction.addressing_type),
        },
        match e.values[cur_arg] {
            Some(index) => index,
            None => c.instruction.arg_index[cur_arg],
        },
        match e.modes[cur_arg] {
            Some(mode) => mode,
            None => if is_indirect(c.instruction_u8, cur_arg) {
                1u32
            } else {
                0u32
            },
        },
    )
}

impl CpuView {
    /// Processor, memory and next address after the first `n` instructions
    /// from address 0 on are disassembled.
    #[verifier::opaque]
    pub open spec fn after_lines(self, m: Seq<u8>, n: nat) -> (CpuView, Seq<u8>, u32)
        decreases n,
    {
        if n == 0 {
            (self, m, 0u32)
        } else {
            let (c, m2, at) = self.after_lines(m, (n - 1) as nat);
            let (c2, m3) = c.after_disassemble(m2, at);
            (c2, m3, c2.pc_in(m3))
        }
    }

    /// Line number `i` of the listing, counted from 0: the address and the
    /// text of instruction `i`; the machine stands on it when it is stopped
    /// with its program counter inside the instruction.
    #[verifier::opaque]
    pub open spec fn line(self, m: Seq<u8>, i: nat, edit_line: u32, current_pc: u32, stopped: bool)
        -> LineView {
        let at = self.after_lines(m, i).2;
        let (c, m2, next) = self.after_lines(m, i + 1);
        LineView {
            address: at,
            text: c.text(),
            edited: i == edit_line,
            current: stopped && at <= current_pc < next,
        }
    }
}

proof fn lemma_next_line(c: CpuView, m: Seq<u8>, i: nat)
    ensures
        c.after_lines(m, i + 1) == ({
            let (c1, m1, at) = c.after_lines(m, i);
            let (c2, m2) = c1.after_disassemble(m1, at);
            (c2, m2, c2.pc_in(m2))
        }),
        c.after_lines(m, 0) == (c, m, 0u32),
{
    reveal_with_fuel(CpuView::after_lines, 2);
}

/// Disassembles the listing for a window of `visible` lines around the
/// edited line, from a fresh list of symbols, and then loads the edited
/// instruction again and leaves the program counter on it.
pub fn code_listing(
    cpu: &mut CPU,
    mem: &mut Memory,
    edit: &StagedEdit,
    cur_arg: usize,
    edit_line: u32,
    visible: u32,
    current_pc: u32,
    stopped: bool,
    edit_pc: u32,
) -> (listing: Listing)
    requires
        cur_arg < 3,
        3 * listing_end(edit_line, visible) + 4 < u32::MAX,
    ensures
        ({
            let start = CpuView { data: builtin_items(), ..old(cpu)@ };
            let end = listing_end(edit_line, visible) as nat;
            let (c, m, next) = start.after_lines(old(mem)@, end);
            &&& lines_view(listing.lines@) == Seq::new(
                visible as nat,
                |j: int|
                    start.line(
                        old(mem)@,
                        (end - visible + j) as nat,
                        edit_line,
                        current_pc,
                        stopped,
                    ),
            )
            &&& listing.edit_pc == if edit_line < end {
                start.after_lines(old(mem)@, edit_line as nat).2
            } else {
                edit_pc
            }
            &&& listing.choices == if edit_line < end {
                Some(
                    choices_of(
                        start.after_lines(old(mem)@, (edit_line + 1) as nat).0,
                        edit@,
                        cur_arg as int,
                    ),
                )
            } else {
                None
            }
            &&& (final(cpu)@, final(mem)@) == c.after_load_opcode(m, listing.edit_pc).0.with_pc(
                c.after_load_opcode(m, listing.edit_pc).1,
                listing.edit_pc,
            )
        }),
        final(cpu)@.instruction.wf(),
{
    let half = visible / 2;
    let end: u32 = if edit_line + half > visible {
        edit_line + half
    } else {
        visible
    };
    let skipped: u32 = end - visible;
    cpu.data = CPU::get_variables_list();
    let ghost start = cpu@;
    let ghost m0 = mem@;
    assert(start =~= (CpuView { data: builtin_items(), ..old(cpu)@ }));
    let mut lines: Vec<CodeLine> = Vec::new();
    let mut found_pc = edit_pc;
    let mut choices: Option<(u32, u32, u32)> = None;
    let mut lpc: u32 = 0;
    let mut i: u32 = 0;
    proof {
        lemma_next_line(start, m0, 0);
    }
    while i < end
        invariant
            i <= end,
            3 * end + 4 < u32::MAX,
            skipped <= end,
            cur_arg < 3,
            cpu@.data.len() <= BUILTIN_ITEMS + 3 * i,
            (cpu@, mem@, lpc) == start.after_lines(m0, i as nat),
            lines@.len() == if i > skipped {
                i - skipped
            } else {
                0
            },
            forall|j: int|
                0 <= j < lines@.len() ==> (#[trigger] lines@[j])@ == start.line(
                    m0,
                    (skipped + j) as nat,
                    edit_line,
                    current_pc,
                    stopped,
                ),
            found_pc == if edit_line < i {
                start.after_lines(m0, edit_line as nat).2
            } else {
                edit_pc
            },
            choices == if edit_line < i {
                Some(
                    choices_of(start.after_lines(m0, (edit_line + 1) as nat).0, edit@, cur_arg as int),
                )
            } else {
                None
            },
        decreases end - i,
    {
        let ghost before = (cpu@, mem@, lpc);
        let tpc = cpu.disassemble(mem, lpc);
        proof {
            lemma_next_line(start, m0, i as nat);
        }
        assert((cpu@, mem@, tpc) == start.after_lines(m0, (i + 1) as nat));
        if i == edit_line {
            found_pc = lpc;
            choices = Some(shown_choices(cpu, edit, cur_arg));
        }
        if i >= skipped {
            let line = CodeLine {
                address: lpc,
                text: cpu.instruction_to_text(),
                edited: i == edit_line,
                current: stopped && lpc <= current_pc && current_pc < tpc,
            };
            assert(line@ == start.line(m0, i as nat, edit_line, current_pc, stopped)) by {
                reveal(CpuView::line);
            }
            lines.push(line);
        }
        lpc = tpc;
        i += 1;
    }
    cpu.load_opcode_data(mem, found_pc);
    cpu.set_pc(mem, found_pc);
    assert(lines_view(lines@) =~= Seq::new(
        visible as nat,
        |j: int|
            start.line(m0, (end - visible + j) as nat, edit_line, current_pc, stopped),
    ));
    Listing { lines, edit_pc: found_pc, choices }
}

} // verus!
