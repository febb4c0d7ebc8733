//! The lists from which an editor lets its user choose: commands,
//! addressing modes, jump conditions, registers, and the labels of a region.

use vstd::prelude::*;
use vstd::string::StringExecFns;
use crate::cpu::{LabelView, BSS, CPU};
use crate::opcodes::{mnemonic, opcode_of, ArgumentSize};
use crate::symbols::pairs_view;
use crate::text::{dec_digits, hex_padded, push_dec, push_hex};

verus! {

/// Number of commands: sixteen opcodes at each of two widths.
pub const COMMANDS: usize = 32;

/// Number of jump conditions on offer.
pub const JUMP_OPTIONS: usize = 17;

/// Number of general registers on offer, after the program counter and the
/// stack pointer.
pub const GENERAL_REGISTERS: u32 = 100;

/// Address of the first general register.
pub const FIRST_REGISTER: u32 = 0xF008;

/// The name of command `i`: `b` for the first sixteen and `i` for the
/// others, then the mnemonic of the opcode that the four low bits of `i`
/// select.
pub open spec fn command_name(i: int) -> Seq<char> {
    (if i < 16 {
        "b"@
    } else {
        "i"@
    }) + mnemonic(opcode_of((i % 16) as u8))
}

/// What each command does, in a few words.
pub open spec fn command_description(i: int) -> Seq<char> {
    if i == 0 {
        "(byte) Jump a, b=cond"@
    } else if i == 1 {
        "(byte) Call a+b, c=pc"@
    } else if i == 2 {
        "(byte) Add a=b+c"@
    } else if i == 3 {
        "(byte) Subtract a=b-c"@
    } else if i == 4 {
        "(byte) Bit-shift left"@
    } else if i == 5 {
        "(byte) Bit-shift right"@
    } else if i == 6 {
        "(byte) Rotate right"@
    } else if i == 7 {
        "(byte) Rotate left"@
    } else if i == 8 {
        "(byte) And a=b&c"@
    } else if i == 9 {
        "(byte) Or a=b|c"@
    } else if i == 10 {
        "(byte) Xor a=b^c"@
    } else if i == 11 {
        "(byte) Multiply a=b*c"@
    } else if i == 12 {
        "(byte) Store a=>[b], dec c"@
    } else if i == 13 {
        "(byte) Load a<=[b], inc c"@
    } else if i == 14 {
        "(byte) Not a != b"@
    } else if i == 15 {
        "(byte) Compare a?b, c=?"@
    } else if i == 16 {
        "(int) Jump a, b=cond"@
    } else if i == 17 {
        "(int) Call a+b, c=pc"@
    } else if i == 18 {
        "(int) Add a=b+c"@
    } else if i == 19 {
        "(int) Subtract a=b-c"@
    } else if i == 20 {
        "(int) Bit-shift left"@
    } else if i == 21 {
        "(int) Bit-shift right"@
    } else if i == 22 {
        "(int) Rotate right"@
    } else if i == 23 {
        "(int) Rotate left"@
    } else if i == 24 {
        "(int) And a=b&c"@
    } else if i == 25 {
        "(int) Or a=b|c"@
    } else if i == 26 {
        "(int) Xor a=b^c"@
    } else if i == 27 {
        "(int) Multiply a=b*c"@
    } else if i == 28 {
        "(int) Store a=[b], dec c"@
    } else if i == 29 {
        "(int) Load a=[b], inc c"@
    } else if i == 30 {
        "(int) Not a != b"@
    } else {
        "(int) Compare a?b, c=?"@
    }
}

/// The jump condition on offer for each code from 0 to 16.
pub open spec fn jump_option(i: int) -> Seq<char> {
    if i == 0 {
        "0 => unconditional jump"@
    } else if i == 1 {
        "1 => StatusFlag::Carry=1"@
    } else if i == 2 {
        "2 => StatusFlag::Zero=1"@
    } else if i == 3 {
        "3 => StatusFlag::Overflow=1"@
    } else if i == 4 {
        "4 => StatusFlag::Negative=1"@
    } else if i == 5 {
        "5 => StatusFlag::Carry=0"@
    } else if i == 6 {
        "6 => StatusFlag::Zero=0"@
    } else if i == 7 {
        "7 => StatusFlag::Overflow=0"@
    } else if i == 8 {
        "8 => StatusFlag::Negative=0"@
    } else if i == 9 {
        "9 => StatusFlag::Carry=1, PC relative jump"@
    } else if i == 10 {
        "10 => StatusFlag::Zero=1, PC relative jump"@
    } else if i == 11 {
        "11 => StatusFlag::Overflow=1, PC relative jump"@
    } else if i == 12 {
        "12 => StatusFlag::Negative=1, PC relative jump"@
    } else if i == 13 {
        "13 => StatusFlag::Carry=0, PC relative jump"@
    } else if i == 14 {
        "14 => StatusFlag::Zero=0, PC relative jump"@
    } else if i == 15 {
        "15 => StatusFlag::Overflow=0, PC relative jump"@
    } else {
        "16 => StatusFlag::Negative=0, PC relative jump"@
    }
}

/// The register on offer at each place: the program counter, the stack
/// pointer, then the general registers, four bytes apart, each with its
/// place, its number and its address.
pub open spec fn register_option(i: int) -> Seq<char> {
    if i == 0 {
        "0 => pc (0xF000)"@
    } else if i == 1 {
        "1 => stack (0xF004)"@
    } else {
        dec_digits(i as nat) + " => reg"@ + dec_digits((i - 2) as nat) + " ("@ + hex_padded(
            ((i - 2) * 4 + FIRST_REGISTER) as nat,
            8,
        ) + ")"@
    }
}

/// Tag and address, in decimal, of each of the first `n` labels that lie
/// below the static data (`code`) or not below it.
pub open spec fn label_entries(labels: Seq<LabelView>, code: bool, n: int) -> Seq<
    (Seq<char>, Seq<char>),
>
    decreases n,
{
    if n <= 0 {
        Seq::empty()
    } else {
        let rest = label_entries(labels, code, n - 1);
        let label = labels[n - 1];
        if (label.address < BSS) == code {
            rest.push((label.tag, dec_digits(label.address as nat)))
        } else {
            rest
        }
    }
}

fn command_letters(i: usize) -> (s: &'static str)
    requires
        i < 16,
    ensures
        s@ == mnemonic(opcode_of(i as u8)),
{
    match i {
        0 => "JMP",
        1 => "CLL",
        2 => "ADD",
        3 => "SUB",
        4 => "BSL",
        5 => "BSR",
        6 => "RR",
        7 => "RL",
        8 => "AND",
        9 => "OR",
        10 => "XOR",
        11 => "MUL",
        12 => "STR",
        13 => "LDR",
        14 => "NOT",
        _ => "CMP",
    }
}

fn command_words(i: usize) -> (s: &'static str)
    requires
        i < 32,
    ensures
        s@ == command_description(i as int),
{
    match i {
        0 => "(byte) Jump a, b=cond",
        1 => "(byte) Call a+b, c=pc",
        2 => "(byte) Add a=b+c",
        3 => "(byte) Subtract a=b-c",
        4 => "(byte) Bit-shift left",
        5 => "(byte) Bit-shift right",
        6 => "(byte) Rotate right",
        7 => "(byte) Rotate left",
        8 => "(byte) And a=b&c",
        9 => "(byte) Or a=b|c",
        10 => "(byte) Xor a=b^c",
        11 => "(byte) Multiply a=b*c",
        12 => "(byte) Store a=>[b], dec c",
        13 => "(byte) Load a<=[b], inc c",
        14 => "(byte) Not a != b",
        15 => "(byte) Compare a?b, c=?",
        16 => "(int) Jump a, b=cond",
        17 => "(int) Call a+b, c=pc",
        18 => "(int) Add a=b+c",
        19 => "(int) Subtract a=b-c",
        20 => "(int) Bit-shift left",
        21 => "(int) Bit-shift right",
        22 => "(int) Rotate right",
        23 => "(int) Rotate left",
        24 => "(int) And a=b&c",
        25 => "(int) Or a=b|c",
        26 => "(int) Xor a=b^c",
        27 => "(int) Multiply a=b*c",
        28 => "(int) Store a=[b], dec c",
        29 => "(int) Load a=[b], inc c",
        30 => "(int) Not a != b",
        _ => "(int) Compare a?b, c=?",
    }
}

fn jump_words(i: usize) -> (s: &'static str)
    requires
        i < 17,
    ensures
        s@ == jump_option(i as int),
{
    match i {
        0 => "0 => unconditional jump",
        1 => "1 => StatusFlag::Carry=1",
        2 => "2 => StatusFlag::Zero=1",
        3 => "3 => StatusFlag::Overflow=1",
        4 => "4 => StatusFlag::Negative=1",
        5 => "5 => StatusFlag::Carry=0",
        6 => "6 => StatusFlag::Zero=0",
        7 => "7 => StatusFlag::Overflow=0",
        8 => "8 => StatusFlag::Negative=0",
        9 => "9 => StatusFlag::Carry=1, PC relative jump",
        10 => "10 => StatusFlag::Zero=1, PC relative jump",
        11 => "11 => StatusFlag::Overflow=1, PC relative jump",
        12 => "12 => StatusFlag::Negative=1, PC relative jump",
        13 => "13 => StatusFlag::Carry=0, PC relative jump",
        14 => "14 => StatusFlag::Zero=0, PC relative jump",
        15 => "15 => StatusFlag::Overflow=0, PC relative jump",
        _ => "16 => StatusFlag::Negative=0, PC relative jump",
    }
}

fn register_words(i: u32) -> (s: String)
    requires
        i < GENERAL_REGISTERS + 2,
    ensures
        s@ == register_option(i as int),
{
    if i == 0 {
        String::from_str("0 => pc (0xF000)")
    } else if i == 1 {
        String::from_str("1 => stack (0xF004)")
    } else {
        let mut s = String::new();
        push_dec(&mut s, i);
        s.append(" => reg");
        push_dec(&mut s, i - 2);
        s.append(" (");
        push_hex(&mut s, (i - 2) * 4 + FIRST_REGISTER, 8);
        s.append(")");
        assert(s@ =~= register_option(i as int));
        s
    }
}

/// The place of an instruction in the list of commands: the high four bits
/// of its encoding byte, and sixteen more at 32-bit width.
pub open spec fn command_index(byte: u8, width: ArgumentSize) -> u32 {
    if width is Int {
        ((byte >> 4) + 16) as u32
    } else {
        (byte >> 4) as u32
    }
}

impl CPU {
    /// The place of the loaded instruction in the list of commands.
    pub fn get_instruction_index(&self) -> (index: u32)
        ensures
            index == command_index(self.instruction_u8, self.instruction.addressing_type),
    {
        let byte = self.instruction_u8;
        assert(byte >> 4 < 16) by (bit_vector);
        match self.instruction.addressing_type {
            ArgumentSize::Int => (self.instruction_u8 >> 4) as u32 + 16,
            ArgumentSize::Byte => (self.instruction_u8 >> 4) as u32,
        }
    }

    /// The addressing mode of operand `arg` as the encoding byte has it: 1
    /// for indirect, 0 for direct and for an operand that does not exist.
    pub fn argument_type(&self, arg: u32) -> (mode: u32)
        ensures
            mode == if crate::opcodes::is_indirect(self.instruction_u8, arg as int) {
                1u32
            } else {
                0u32
            },
    {
        let set = match arg {
            0 => self.instruction_u8 & 0x04 != 0,
            1 => self.instruction_u8 & 0x02 != 0,
            2 => self.instruction_u8 & 0x01 != 0,
            _ => false,
        };
        if set {
            1
        } else {
            0
        }
    }

    /// The two addressing modes, direct first.
    pub fn get_addressing_mode_list(&self) -> (list: Vec<(String, String)>)
        ensures
            pairs_view(list@) == seq![("direct"@, " "@), ("indirect"@, " "@)],
    {
        let mut list: Vec<(String, String)> = Vec::new();
        list.push((String::from_str("direct"), String::from_str(" ")));
        list.push((String::from_str("indirect"), String::from_str(" ")));
        assert(pairs_view(list@) =~= seq![("direct"@, " "@), ("indirect"@, " "@)]);
        list
    }

    /// The commands, each with its description: the place of a command in
    /// the list is what `set_opcode` takes.
    pub fn get_commands_list(&self) -> (list: Vec<(String, String)>)
        ensures
            pairs_view(list@) == Seq::new(
                COMMANDS as nat,
                |i: int| (command_name(i), command_description(i)),
            ),
    {
        let mut list: Vec<(String, String)> = Vec::new();
        let mut i: usize = 0;
        while i < COMMANDS
            invariant
                i <= COMMANDS,
                list@.len() == i,
                forall|k: int|
                    0 <= k < i ==> (#[trigger] list@[k]).0@ == command_name(k) && list@[k].1@
                        == command_description(k),
            decreases COMMANDS - i,
        {
            let mut name = if i < 16 {
                String::from_str("b")
            } else {
                String::from_str("i")
            };
            name.append(command_letters(i % 16));
            list.push((name, String::from_str(command_words(i))));
            i += 1;
        }
        assert(pairs_view(list@) =~= Seq::new(
            COMMANDS as nat,
            |i: int| (command_name(i), command_description(i)),
        ));
        list
    }

    /// The jump conditions on offer, each with a blank description.
    pub fn jmp_opts(&self) -> (list: Vec<(String, String)>)
        ensures
            pairs_view(list@) == Seq::new(JUMP_OPTIONS as nat, |i: int| (jump_option(i), " "@)),
    {
        let mut list: Vec<(String, String)> = Vec::new();
        let mut i: usize = 0;
        while i < JUMP_OPTIONS
            invariant
                i <= JUMP_OPTIONS,
                list@.len() == i,
                forall|k: int|
                    0 <= k < i ==> (#[trigger] list@[k]).0@ == jump_option(k) && list@[k].1@ == " "@,
            decreases JUMP_OPTIONS - i,
        {
            list.push((String::from_str(jump_words(i)), String::from_str(" ")));
            i += 1;
        }
        assert(pairs_view(list@) =~= Seq::new(
            JUMP_OPTIONS as nat,
            |i: int| (jump_option(i), " "@),
        ));
        list
    }

    /// The registers on offer, each with a blank description.
    pub fn reg_opts(&self) -> (list: Vec<(String, String)>)
        ensures
            pairs_view(list@) == Seq::new(
                (GENERAL_REGISTERS + 2) as nat,
                |i: int| (register_option(i), " "@),
            ),
    {
        let mut list: Vec<(String, String)> = Vec::new();
        let mut i: u32 = 0;
        while i < GENERAL_REGISTERS + 2
            invariant
                i <= GENERAL_REGISTERS + 2,
                list@.len() == i,
                forall|k: int|
                    0 <= k < i ==> (#[trigger] list@[k]).0@ == register_option(k) && list@[k].1@
                        == " "@,
            decreases GENERAL_REGISTERS + 2 - i,
        {
            list.push((register_words(i), String::from_str(" ")));
            i += 1;
        }
        assert(pairs_view(list@) =~= Seq::new(
            (GENERAL_REGISTERS + 2) as nat,
            |i: int| (register_option(i), " "@),
        ));
        list
    }

    fn label_list(&self, code: bool) -> (list: Vec<(String, String)>)
        ensures
            pairs_view(list@) == label_entries(self@.labels, code, self@.labels.len() as int),
    {
        let mut list: Vec<(String, String)> = Vec::new();
        let n = self.labels.len();
        let mut i: usize = 0;
        assert(pairs_view(list@) =~= label_entries(self@.labels, code, 0));
        while i < n
            invariant
                i <= n == self.labels.len(),
                pairs_view(list@) == label_entries(self@.labels, code, i as int),
            decreases n - i,
        {
            assert(self@.labels[i as int] == self.labels@[i as int]@);
            if (self.labels[i].address < BSS) == code {
                let mut address = String::new();
                push_dec(&mut address, self.labels[i].address);
                let ghost before = pairs_view(list@);
                list.push((self.labels[i].tag.clone(), address));
                assert(pairs_view(list@) =~= before.push(
                    (self@.labels[i as int].tag, dec_digits(self@.labels[i as int].address as nat)),
                ));
            }
            i += 1;
        }
        list
    }

    /// Tag and address, in decimal, of every label below the static data.
    pub fn get_code_label_list(&self) -> (list: Vec<(String, String)>)
        ensures
            pairs_view(list@) == label_entries(self@.labels, true, self@.labels.len() as int),
    {
        self.label_list(true)
    }

    /// Tag and address, in decimal, of every label in the static data or
    /// above it.
    pub fn get_mem_label_list(&self) -> (list: Vec<(String, String)>)
        ensures
            pairs_view(list@) == label_entries(self@.labels, false, self@.labels.len() as int),
    {
        self.label_list(false)
    }
}

} // verus!
