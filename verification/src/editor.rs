//! What an editor of the machine decides between two keys: numbers typed
//! as text, the places of its windows, the dialog that a choice opens, and
//! the editing of memory digit by digit.

use vstd::prelude::*;
use vstd::string::StrSliceExecFns;
use vstd::string::StringExecFns;
use crate::cpu::{wrap32, CpuView, ItemView, LabelView, CPU, REGISTERS};
use crate::disasm::tagged;
use crate::edit::{EditView, StagedEdit};
use crate::labels::{labels_sorted, lookup_label, with_label};
use crate::memory::{byte_at, Memory, MEM_SIZE};
use crate::menus::command_index;
use crate::opcodes::is_indirect;
use crate::symbols::{item_index, with_item};
use crate::text::{dec_digits, hex_padded, push_dec, push_hex};
use crate::utils::{fetch_c64_color_rgba, palette};

verus! {

/// Half of `x`, rounded towards zero.
pub open spec fn half(x: int) -> int {
    if x >= 0 {
        x / 2
    } else {
        -((-x) / 2)
    }
}

/// Width of the windows in the left column.
pub const LEFT_WIDTH: i32 = 35;

/// Height of the window of addressing modes.
pub const MODES_HEIGHT: i32 = 4;

/// One measure of one of the five windows on a screen of the given size:
/// `y` and `x` for its upper left corner, `h` and `w` for its height and
/// width, `u` and `v` for the line and column where it ends. The commands
/// (1) stand above the variables (3) and the addressing modes (4) in the
/// left column, the code (2) above the memory view (5) to their right. Any
/// other window or measure gives 0.
pub open spec fn window_measure(sh: int, sw: int, window: u32, dimension: char) -> int {
    if window == 1 {
        if dimension == 'y' {
            1
        } else if dimension == 'x' {
            0
        } else if dimension == 'h' {
            half(sh) - 1
        } else if dimension == 'w' {
            LEFT_WIDTH as int
        } else if dimension == 'u' {
            half(sh)
        } else if dimension == 'v' {
            LEFT_WIDTH as int
        } else {
            0
        }
    } else if window == 2 {
        if dimension == 'y' {
            1
        } else if dimension == 'x' {
            LEFT_WIDTH as int
        } else if dimension == 'h' {
            half(sh) - 1
        } else if dimension == 'w' {
            sw - LEFT_WIDTH
        } else if dimension == 'u' {
            half(sh)
        } else if dimension == 'v' {
            sw
        } else {
            0
        }
    } else if window == 3 {
        if dimension == 'y' {
            half(sh)
        } else if dimension == 'x' {
            0
        } else if dimension == 'h' {
            half(sh) - MODES_HEIGHT
        } else if dimension == 'w' {
            LEFT_WIDTH as int
        } else if dimension == 'u' {
            sh - MODES_HEIGHT
        } else if dimension == 'v' {
            LEFT_WIDTH as int
        } else {
            0
        }
    } else if window == 4 {
        if dimension == 'y' {
            sh - MODES_HEIGHT
        } else if dimension == 'x' {
            0
        } else if dimension == 'h' {
            MODES_HEIGHT as int
        } else if dimension == 'w' {
            LEFT_WIDTH as int
        } else if dimension == 'u' {
            sh
        } else if dimension == 'v' {
            LEFT_WIDTH as int
        } else {
            0
        }
    } else if window == 5 {
        if dimension == 'y' {
            half(sh)
        } else if dimension == 'x' {
            LEFT_WIDTH as int
        } else if dimension == 'h' {
            half(sh)
        } else if dimension == 'w' {
            sw - LEFT_WIDTH
        } else if dimension == 'u' {
            sh
        } else if dimension == 'v' {
            sw
        } else {
            0
        }
    } else {
        0
    }
}

/// One measure of one of the five windows.
pub fn wd(screen_height: i32, screen_width: i32, window: u32, dimension: char) -> (measure: i32)
    requires
        screen_height >= i32::MIN + MODES_HEIGHT,
        screen_width >= i32::MIN + LEFT_WIDTH,
    ensures
        measure == window_measure(screen_height as int, screen_width as int, window, dimension),
{
    let sh = screen_height;
    let sw = screen_width;
    let half_sh = sh / 2;
    match window {
        1 => match dimension {
            'y' => 1,
            'x' => 0,
            'h' => half_sh - 1,
            'w' => LEFT_WIDTH,
            'u' => half_sh,
            'v' => LEFT_WIDTH,
            _ => 0,
        },
        2 => match dimension {
            'y' => 1,
            'x' => LEFT_WIDTH,
            'h' => half_sh - 1,
            'w' => sw - LEFT_WIDTH,
            'u' => half_sh,
            'v' => sw,
            _ => 0,
        },
        3 => match dimension {
            'y' => half_sh,
            'x' => 0,
            'h' => half_sh - MODES_HEIGHT,
            'w' => LEFT_WIDTH,
            'u' => sh - MODES_HEIGHT,
            'v' => LEFT_WIDTH,
            _ => 0,
        },
        4 => match dimension {
            'y' => sh - MODES_HEIGHT,
            'x' => 0,
            'h' => MODES_HEIGHT,
            'w' => LEFT_WIDTH,
            'u' => sh,
            'v' => LEFT_WIDTH,
            _ => 0,
        },
        5 => match dimension {
            'y' => half_sh,
            'x' => LEFT_WIDTH,
            'h' => half_sh,
            'w' => sw - LEFT_WIDTH,
            'u' => sh,
            'v' => sw,
            _ => 0,
        },
        _ => 0,
    }
}

/// The character shown for a byte of memory: the byte itself where it is a
/// printable ASCII character, a dot for any other.
pub open spec fn shown_char(byte: u8) -> char {
    if 0x20 <= byte < 0x7F {
        byte as char
    } else {
        '.'
    }
}

/// The character shown for a byte of memory.
pub fn printable(byte: u8) -> (c: char)
    ensures
        c == shown_char(byte),
{
    if 0x20 <= byte && byte < 0x7F {
        byte as char
    } else {
        '.'
    }
}

/// The value of a character as a digit: 0 to 9 for the decimal digits, 10
/// to 35 for the letters of either case, 36 for any other character.
pub open spec fn digit_value(c: char) -> int {
    if '0' <= c <= '9' {
        c as int - '0' as int
    } else if 'a' <= c <= 'z' {
        c as int - 'a' as int + 10
    } else if 'A' <= c <= 'Z' {
        c as int - 'A' as int + 10
    } else {
        36
    }
}

/// Every character is a digit of the radix.
pub open spec fn all_digits(s: Seq<char>, radix: int) -> bool {
    forall|i: int| 0 <= i < s.len() ==> digit_value(#[trigger] s[i]) < radix
}

/// The number that digits stand for, most significant first.
pub open spec fn number(s: Seq<char>, radix: int) -> int
    decreases s.len(),
{
    if s.len() == 0 {
        0
    } else {
        number(s.drop_last(), radix) * radix + digit_value(s.last())
    }
}

/// The 32-bit number that a text stands for in a radix: an optional `+`,
/// then one digit or more and nothing else, the number not above 2^32 - 1.
pub open spec fn parsed(s: Seq<char>, radix: int) -> Option<u32> {
    let digits = if s.len() > 0 && s[0] == '+' {
        s.drop_first()
    } else {
        s
    };
    if digits.len() > 0 && all_digits(digits, radix) && number(digits, radix) <= u32::MAX {
        Some(number(digits, radix) as u32)
    } else {
        None
    }
}

/// The text without every `0x` that it starts with.
pub open spec fn without_0x(s: Seq<char>) -> Seq<char>
    decreases s.len(),
{
    if s.len() >= 2 && s[0] == '0' && s[1] == 'x' {
        without_0x(s.subrange(2, s.len() as int))
    } else {
        s
    }
}

/// What comes of a hexadecimal text that is no number.
pub const BAD_HEX: u32 = 0xDEADBEEF;

/// What comes of a text that is no number in either radix.
pub const BAD_NUMBER: u32 = 0xDEADDEAD;

/// The number that a typed text stands for. A text of more than two
/// characters that starts with `0x` or `0X` is hexadecimal once every
/// leading `0x` is taken off, and `BAD_HEX` if that is no number. Any other
/// text is decimal, or else hexadecimal, or else `BAD_NUMBER`.
pub open spec fn text_value(s: Seq<char>) -> u32 {
    if s.len() > 2 && s[0] == '0' && (s[1] == 'X' || s[1] == 'x') {
        match parsed(without_0x(s), 16) {
            Some(v) => v,
            None => BAD_HEX,
        }
    } else {
        match parsed(s, 10) {
            Some(v) => v,
            None => match parsed(s, 16) {
                Some(v) => v,
                None => BAD_NUMBER,
            },
        }
    }
}

fn digit_of(c: char) -> (d: u32)
    ensures
        d == digit_value(c),
{
    if '0' <= c && c <= '9' {
        c as u32 - '0' as u32
    } else if 'a' <= c && c <= 'z' {
        c as u32 - 'a' as u32 + 10
    } else if 'A' <= c && c <= 'Z' {
        c as u32 - 'A' as u32 + 10
    } else {
        36
    }
}

proof fn lemma_number_grows(s: Seq<char>, radix: int, k: int)
    requires
        2 <= radix <= 36,
        0 <= k <= s.len(),
    ensures
        0 <= number(s.subrange(0, k), radix) <= number(s, radix),
    decreases s.len() - k,
{
    if k == s.len() {
        assert(s.subrange(0, k) =~= s);
        lemma_number_nonnegative(s, radix);
    } else {
        lemma_number_grows(s, radix, k + 1);
        let longer = s.subrange(0, k + 1);
        assert(longer.drop_last() =~= s.subrange(0, k));
        lemma_number_nonnegative(s.subrange(0, k), radix);
        assert(number(longer, radix) >= number(s.subrange(0, k), radix)) by (nonlinear_arith)
            requires
                number(longer, radix) == number(s.subrange(0, k), radix) * radix + digit_value(
                    longer.last(),
                ),
                digit_value(longer.last()) >= 0,
                radix >= 1,
                number(s.subrange(0, k), radix) >= 0,
        ;
    }
}

proof fn lemma_number_nonnegative(s: Seq<char>, radix: int)
    requires
        radix >= 1,
    ensures
        number(s, radix) >= 0,
    decreases s.len(),
{
    if s.len() > 0 {
        lemma_number_nonnegative(s.drop_last(), radix);
        assert(number(s.drop_last(), radix) * radix >= 0) by (nonlinear_arith)
            requires
                number(s.drop_last(), radix) >= 0,
                radix >= 1,
        ;
    }
}

/// The 32-bit number that the characters of `s` from `from` on stand for.
fn parse_from(s: &str, from: usize, radix: u32) -> (value: Option<u32>)
    requires
        2 <= radix <= 36,
        from <= s@.len(),
    ensures
        value == parsed(s@.subrange(from as int, s@.len() as int), radix as int),
{
    let n = s.unicode_len();
    let ghost text = s@.subrange(from as int, n as int);
    let mut i: usize = from;
    if i < n && s.get_char(i) == '+' {
        i += 1;
    }
    let start = i;
    let ghost digits = s@.subrange(start as int, n as int);
    assert(digits =~= if text.len() > 0 && text[0] == '+' {
        text.drop_first()
    } else {
        text
    });
    if start == n {
        return None;
    }
    let ghost wanted = parsed(s@.subrange(from as int, s@.len() as int), radix as int);
    let mut acc: u64 = 0;
    while i < n
        invariant
            start <= i <= n == s@.len(),
            2 <= radix <= 36,
            digits == s@.subrange(start as int, n as int),
            from <= s@.len(),
            wanted == parsed(s@.subrange(from as int, s@.len() as int), radix as int),
            wanted == if all_digits(digits, radix as int) && number(digits, radix as int)
                <= u32::MAX {
                Some(number(digits, radix as int) as u32)
            } else {
                None
            },
            all_digits(digits.subrange(0, i - start), radix as int),
            acc == number(digits.subrange(0, i - start), radix as int),
            acc <= u32::MAX,
        decreases n - i,
    {
        let d = digit_of(s.get_char(i));
        let ghost shorter = digits.subrange(0, i - start);
        let ghost longer = digits.subrange(0, i + 1 - start);
        assert(longer.drop_last() =~= shorter);
        assert(longer.last() == s@[i as int]);
        if d >= radix {
            assert(!all_digits(digits, radix as int)) by {
                assert(digits[i - start] == s@[i as int]);
            }
            return None;
        }
        assert(acc * radix + d <= 0xFFFF_FFFF * 36 + 36) by (nonlinear_arith)
            requires
                acc <= 0xFFFF_FFFF,
                radix <= 36,
                d < 36,
        ;
        acc = acc * radix as u64 + d as u64;
        assert(acc == number(longer, radix as int));
        assert(all_digits(longer, radix as int)) by {
            assert forall|k: int| 0 <= k < longer.len() implies digit_value(#[trigger] longer[k])
                < radix by {
                if k < shorter.len() {
                    assert(longer[k] == shorter[k]);
                }
            }
        }
        if acc > u32::MAX as u64 {
            proof {
                lemma_number_grows(digits, radix as int, i + 1 - start);
            }
            return None;
        }
        i += 1;
    }
    assert(digits.subrange(0, i - start) =~= digits);
    assert(wanted == Some(acc as u32));
    Some(acc as u32)
}

/// The number that a typed text stands for.
pub fn string_to_val(val: &str) -> (value: u32)
    ensures
        value == text_value(val@),
{
    let n = val.unicode_len();
    if n > 2 && val.get_char(0) == '0' && (val.get_char(1) == 'X' || val.get_char(1) == 'x') {
        let mut k: usize = 0;
        assert(val@.subrange(0, n as int) =~= val@);
        while n - k >= 2 && val.get_char(k) == '0' && val.get_char(k + 1) == 'x'
            invariant
                k <= n == val@.len(),
                without_0x(val@) == without_0x(val@.subrange(k as int, n as int)),
            decreases n - k,
        {
            let ghost rest = val@.subrange(k as int, n as int);
            assert(rest.subrange(2, rest.len() as int) =~= val@.subrange(k + 2, n as int));
            k += 2;
        }
        assert(without_0x(val@) == val@.subrange(k as int, n as int));
        match parse_from(val, k, 16) {
            Some(u) => u,
            None => BAD_HEX,
        }
    } else {
        assert(val@.subrange(0, n as int) =~= val@);
        match parse_from(val, 0, 10) {
            Some(u) => u,
            None => match parse_from(val, 0, 16) {
                Some(u) => u,
                None => BAD_NUMBER,
            },
        }
    }
}

/// The dialogs in which a new value is made.
#[derive(Clone, Copy, Debug, PartialEq, Eq, Structural)]
pub enum Dialog {
    Register,
    JumpOption,
    CodeLabel,
    MemLabel,
    Bss,
    Number,
}

/// The dialog that a built-in entry of the list of symbols opens for an
/// operand of an instruction whose opcode has the four bits `code`: entry 0
/// the registers; entry 1 the jump conditions for operand 1 of `JMP`;
/// entry 2 the labels of the code for operand 1 of `CLL` and those of
/// memory for every other operand; entry 3 the static data; anything else
/// a number to type.
pub open spec fn dialog_for(entry: u32, cur_arg: u32, code: u8) -> Dialog {
    if entry == 0 {
        Dialog::Register
    } else if entry == 1 && cur_arg == 1 && code == 0x00 {
        Dialog::JumpOption
    } else if entry == 2 && cur_arg == 1 && code == 0x01 {
        Dialog::CodeLabel
    } else if entry == 2 {
        Dialog::MemLabel
    } else if entry == 3 {
        Dialog::Bss
    } else {
        Dialog::Number
    }
}

/// The four bits that select the opcode being edited: those of the staged
/// command, or those of the loaded instruction.
pub open spec fn edited_code(command: Option<u32>, instruction_u8: u8) -> u8 {
    match command {
        Some(cmd) => (cmd & 0x0f) as u8,
        None => (instruction_u8 >> 4) & 0x0f,
    }
}

/// The dialog that the built-in entry `entry`, chosen for operand `cur_arg`,
/// opens.
pub fn value_dialog(entry: u32, cur_arg: u32, command: Option<u32>, instruction_u8: u8) -> (dialog:
    Dialog)
    ensures
        dialog == dialog_for(entry, cur_arg, edited_code(command, instruction_u8)),
{
    let code: u8 = match command {
        Some(cmd) => (cmd & 0x0f) as u8,
        None => (instruction_u8 >> 4) & 0x0f,
    };
    if entry == 0 {
        Dialog::Register
    } else if entry == 1 && cur_arg == 1 && code == 0x00 {
        Dialog::JumpOption
    } else if entry == 2 && cur_arg == 1 && code == 0x01 {
        Dialog::CodeLabel
    } else if entry == 2 {
        Dialog::MemLabel
    } else if entry == 3 {
        Dialog::Bss
    } else {
        Dialog::Number
    }
}

/// Processor and staged choices after a symbol is put in the list and
/// chosen for operand `slot`.
pub open spec fn with_chosen(c: CpuView, e: EditView, slot: int, item: ItemView) -> (
    CpuView,
    EditView,
) {
    (
        CpuView { data: with_item(c.data, item), ..c },
        EditView { values: e.values.update(slot, Some(item_index(c.data, item) as u32)), ..e },
    )
}

/// The staged choices with an addressing mode for operand `slot`.
pub open spec fn with_mode(e: EditView, slot: int, mode: u32) -> EditView {
    EditView { modes: e.modes.update(slot, Some(mode)), ..e }
}

/// The symbol for a jump condition: `CONST_` and the code.
pub open spec fn jump_item(select: u32) -> ItemView {
    ItemView { name: tagged("CONST_"@, select), description: " "@, value: select }
}

/// The symbol for the register at place `select` of the list of registers:
/// `REG_` and the place, with the address of the register as its value.
pub open spec fn register_item(select: u32) -> ItemView {
    ItemView {
        name: "REG_"@ + dec_digits(select as nat),
        description: " "@,
        value: wrap32(select * 4 + REGISTERS),
    }
}

/// The symbol for a typed number: `CONST_` and the number.
pub open spec fn number_item(text: Seq<char>) -> ItemView {
    ItemView {
        name: tagged("CONST_"@, text_value(text)),
        description: " "@,
        value: text_value(text),
    }
}

/// The symbol for a label that exists: its tag, or an empty name where no
/// label stands at the address; the description is empty.
pub open spec fn label_item(labels: Seq<LabelView>, address: u32) -> ItemView {
    ItemView {
        name: match lookup_label(labels, address) {
            Some(label) => label.tag,
            None => Seq::empty(),
        },
        description: Seq::empty(),
        value: address,
    }
}

impl CPU {
    /// Puts a symbol in the list and stages it for operand `slot`.
    pub fn stage_symbol(
        &mut self,
        edit: &mut StagedEdit,
        slot: usize,
        name: String,
        description: String,
        value: u32,
    )
        requires
            slot < 3,
            old(self)@.data.len() < u32::MAX,
        ensures
            (final(self)@, final(edit)@) == with_chosen(
                old(self)@,
                old(edit)@,
                slot as int,
                ItemView { name: name@, description: description@, value },
            ),
    {
        let item = CPU::new_item(name, description, value);
        let index = CPU::add_new_item(&mut self.data, item);
        edit.set_pending_value(slot, index);
    }

    /// Stages the jump condition `select` for operand `cur_arg`, and the
    /// direct mode for operand 1.
    pub fn stage_jump_option(&mut self, edit: &mut StagedEdit, cur_arg: usize, select: u32)
        requires
            cur_arg < 3,
            old(self)@.data.len() < u32::MAX,
        ensures
            (final(self)@, final(edit)@) == with_chosen(
                old(self)@,
                with_mode(old(edit)@, 1, 0),
                cur_arg as int,
                jump_item(select),
            ),
    {
        let mut name = String::from_str("CONST_");
        push_hex(&mut name, select, 8);
        edit.set_pending_addressing(1, 0);
        self.stage_symbol(edit, cur_arg, name, String::from_str(" "), select);
    }

    /// Stages the register at place `select` for operand `cur_arg`: direct
    /// for operand 0, which names where a result goes, indirect for the
    /// others.
    pub fn stage_register(&mut self, edit: &mut StagedEdit, cur_arg: usize, select: u32)
        requires
            cur_arg < 3,
            old(self)@.data.len() < u32::MAX,
        ensures
            (final(self)@, final(edit)@) == with_chosen(
                old(self)@,
                with_mode(
                    old(edit)@,
                    cur_arg as int,
                    if cur_arg == 0 {
                        0u32
                    } else {
                        1u32
                    },
                ),
                cur_arg as int,
                register_item(select),
            ),
    {
        let mut name = String::from_str("REG_");
        push_dec(&mut name, select);
        let value = select.wrapping_mul(4).wrapping_add(REGISTERS);
        assert(value == wrap32(select * 4 + REGISTERS));
        if cur_arg == 0 {
            edit.set_pending_addressing(0, 0);
        } else {
            edit.set_pending_addressing(cur_arg, 1);
        }
        self.stage_symbol(edit, cur_arg, name, String::from_str(" "), value);
    }

    /// Stages a typed number for operand `cur_arg`.
    pub fn stage_number(&mut self, edit: &mut StagedEdit, cur_arg: usize, text: &str)
        requires
            cur_arg < 3,
            old(self)@.data.len() < u32::MAX,
        ensures
            (final(self)@, final(edit)@) == with_chosen(
                old(self)@,
                old(edit)@,
                cur_arg as int,
                number_item(text@),
            ),
    {
        let v = string_to_val(text);
        let mut name = String::from_str("CONST_");
        push_hex(&mut name, v, 8);
        self.stage_symbol(edit, cur_arg, name, String::from_str(" "), v);
    }

    /// Stages the label that stands at `address` for operand `cur_arg`.
    pub fn stage_existing_label(&mut self, edit: &mut StagedEdit, cur_arg: usize, address: u32)
        requires
            cur_arg < 3,
            old(self)@.data.len() < u32::MAX,
        ensures
            (final(self)@, final(edit)@) == with_chosen(
                old(self)@,
                old(edit)@,
                cur_arg as int,
                label_item(old(self)@.labels, address),
            ),
    {
        let name = match self.get_label(address) {
            Some(label) => label.tag,
            None => String::new(),
        };
        self.stage_symbol(edit, cur_arg, name, String::new(), address);
    }

    /// Makes a label from the three fields of the label dialog, the address
    /// and the size as typed numbers, and stages it for operand `cur_arg`.
    pub fn stage_new_label(
        &mut self,
        edit: &mut StagedEdit,
        cur_arg: usize,
        address: &str,
        name: &str,
        size: &str,
    )
        requires
            cur_arg < 3,
            old(self)@.data.len() < u32::MAX,
            labels_sorted(old(self)@.labels),
            old(self)@.labels.len() < u32::MAX,
        ensures
            (final(self)@, final(edit)@) == with_chosen(
                CpuView {
                    labels: with_label(
                        old(self)@.labels,
                        LabelView {
                            address: text_value(address@),
                            size: text_value(size@),
                            tag: name@,
                        },
                    ),
                    ..old(self)@
                },
                old(edit)@,
                cur_arg as int,
                ItemView {
                    name: name@,
                    description: Seq::empty(),
                    value: text_value(address@),
                },
            ),
            labels_sorted(final(self)@.labels),
    {
        let v = string_to_val(address);
        self.add_new_label(String::from_str(name), v, string_to_val(size));
        self.stage_symbol(edit, cur_arg, String::from_str(name), String::new(), v);
    }
}

/// The three fields with which the dialog for a new label opens: the
/// address as `0x` and eight digits, a name made of a prefix and the same
/// digits, and the size 1.
pub fn label_defaults(prefix: &str, adr: u32) -> (fields: (String, String, String))
    ensures
        fields.0@ == "0x"@ + hex_padded(adr as nat, 8),
        fields.1@ == prefix@ + hex_padded(adr as nat, 8),
        fields.2@ == "1"@,
{
    let mut address = String::from_str("0x");
    push_hex(&mut address, adr, 8);
    let mut name = String::from_str(prefix);
    push_hex(&mut name, adr, 8);
    (address, name, String::from_str("1"))
}

/// The three fields that the dialog shows for a label: the address in eight
/// hexadecimal digits, the tag, and the size in decimal.
pub fn label_fields(address: u32, tag: &str, size: u32) -> (fields: (String, String, String))
    ensures
        fields.0@ == hex_padded(address as nat, 8),
        fields.1@ == tag@,
        fields.2@ == dec_digits(size as nat),
{
    let mut first = String::new();
    push_hex(&mut first, address, 8);
    let mut third = String::new();
    push_dec(&mut third, size);
    (first, String::from_str(tag), third)
}

/// The low eight bits of a key code.
pub open spec fn key_byte(ch: i32) -> u8 {
    (ch & 0xff) as u8
}

/// A hexadecimal digit of either case.
pub open spec fn is_hex_digit(b: u8) -> bool {
    ('0' as u8 <= b <= '9' as u8) || ('a' as u8 <= b <= 'f' as u8) || ('A' as u8 <= b <= 'F' as u8)
}

/// Whether a field for a number takes a key: the field has room, and the
/// key is a hexadecimal digit by its low eight bits, or is `x` or `X`.
pub open spec fn number_key_taken(ch: i32, len: nat, limit: nat) -> bool {
    (is_hex_digit(key_byte(ch)) || ch == 0x78 || ch == 0x58) && len < limit
}

/// Whether a field for a number of at most `limit` characters, which holds
/// `len` of them, takes the key `ch`.
pub fn accepts_number_key(ch: i32, len: usize, limit: usize) -> (taken: bool)
    ensures
        taken == number_key_taken(ch, len as nat, limit as nat),
{
    let b: u8 = (ch & 0xff) as u8;
    let digit = (0x30 <= b && b <= 0x39) || (0x61 <= b && b <= 0x66) || (0x41 <= b && b <= 0x46);
    (digit || ch == 0x78 || ch == 0x58) && len < limit
}

/// The character that a key code types: the one whose code is the low eight
/// bits of the key.
pub fn key_char(ch: i32) -> (c: char)
    ensures
        c == key_byte(ch) as char,
{
    ((ch & 0xff) as u8) as char
}

/// The status line of the editor.
pub open spec fn status_text(edit_line: u32, current_pc: u32, running: bool) -> Seq<char> {
    "edit:"@ + hex_padded(edit_line as nat, 8) + ",current:"@ + hex_padded(current_pc as nat, 8)
        + " "@ + (if running {
        "running"@
    } else {
        "stopped"@
    }) + " <F5 run/pause> <F6 reset> <F8 step> <F9 breakpoint>"@
}

/// The status line of the editor: the line being edited, the program
/// counter of the machine, whether the machine runs, and the keys.
pub fn status_line(edit_line: u32, current_pc: u32, running: bool) -> (line: String)
    ensures
        line@ == status_text(edit_line, current_pc, running),
{
    let mut s = String::from_str("edit:");
    push_hex(&mut s, edit_line, 8);
    s.append(",current:");
    push_hex(&mut s, current_pc, 8);
    s.append(" ");
    if running {
        s.append("running");
    } else {
        s.append("stopped");
    }
    s.append(" <F5 run/pause> <F6 reset> <F8 step> <F9 breakpoint>");
    assert(s@ =~= status_text(edit_line, current_pc, running));
    s
}

/// The window that has the focus: the code first, then the commands, the
/// variables, the addressing modes and the memory view.
pub open spec fn focused_window(focus: i32) -> u32 {
    if focus == 0 {
        2
    } else if focus == 1 {
        1
    } else if focus == 2 {
        3
    } else if focus == 3 {
        4
    } else if focus == 4 {
        5
    } else {
        0
    }
}

/// The name of a window.
pub open spec fn window_name(window: u32) -> Seq<char> {
    if window == 1 {
        "commands"@
    } else if window == 2 {
        "code"@
    } else if window == 3 {
        "variables"@
    } else if window == 4 {
        "addressing mode"@
    } else {
        "memory view"@
    }
}

/// The title of a window: its name between blanks, or between `<` and `>`
/// when it has the focus; for the variables also the operand in hand.
pub open spec fn title_text(window: u32, focus: i32, cur_arg: u32) -> Seq<char> {
    let focused = focused_window(focus) == window;
    (if focused {
        "<"@
    } else {
        " "@
    }) + window_name(window) + (if focused {
        ">"@
    } else {
        " "@
    }) + (if window == 3 {
        " - arg "@ + dec_digits(cur_arg as nat) + " "@
    } else {
        Seq::empty()
    })
}

/// The title of one of the five windows.
pub fn window_title(window: u32, focus: i32, cur_arg: u32) -> (title: String)
    requires
        1 <= window <= 5,
    ensures
        title@ == title_text(window, focus, cur_arg),
{
    let target: u32 = match focus {
        0 => 2,
        1 => 1,
        2 => 3,
        3 => 4,
        4 => 5,
        _ => 0,
    };
    let focused = target == window;
    let mut s = if focused {
        String::from_str("<")
    } else {
        String::from_str(" ")
    };
    match window {
        1 => s.append("commands"),
        2 => s.append("code"),
        3 => s.append("variables"),
        4 => s.append("addressing mode"),
        _ => s.append("memory view"),
    }
    if focused {
        s.append(">");
    } else {
        s.append(" ");
    }
    if window == 3 {
        s.append(" - arg ");
        push_dec(&mut s, cur_arg);
        s.append(" ");
    }
    assert(s@ =~= title_text(window, focus, cur_arg));
    s
}

/// The focus after the key that moves it on: the five windows in turn.
pub fn next_focus(focus: i32) -> (next: i32)
    ensures
        next == if focus >= 4 {
            0
        } else {
            focus + 1
        },
{
    if focus >= 4 {
        0
    } else {
        focus + 1
    }
}

/// What the three menus show for operand `cur_arg`: the staged choice where
/// there is one, else what the loaded instruction has.
pub fn shown_choices(cpu: &CPU, edit: &StagedEdit, cur_arg: usize) -> (choices: (u32, u32, u32))
    requires
        cur_arg < 3,
    ensures
        choices.0 == match edit@.opcode {
            Some(cmd) => cmd,
            None => command_index(cpu.instruction_u8, cpu.instruction.addressing_type),
        },
        choices.1 == match edit@.values[cur_arg as int] {
            Some(index) => index,
            None => cpu@.instruction.arg_index[cur_arg as int],
        },
        choices.2 == match edit@.modes[cur_arg as int] {
            Some(mode) => mode,
            None => if is_indirect(cpu.instruction_u8, cur_arg as int) {
                1u32
            } else {
                0u32
            },
        },
{
    let command = match edit.opcode {
        Some(cmd) => cmd,
        None => cpu.get_instruction_index(),
    };
    let value = match edit.values[cur_arg] {
        Some(index) => index,
        None => cpu.instruction.arg_index[cur_arg],
    };
    let mode = match edit.modes[cur_arg] {
        Some(mode) => mode,
        None => cpu.argument_type(cur_arg as u32),
    };
    (command, value, mode)
}

/// Where the memory view starts so that `adr` is in its first row: `adr`
/// rounded down to a multiple of the `per_row` bytes of a row.
pub fn memview_offset(adr: u32, per_row: u32) -> (offset: u32)
    requires
        per_row > 0,
    ensures
        offset == adr - adr % per_row,
{
    assert(adr % per_row <= adr) by (nonlinear_arith)
        requires
            per_row > 0,
    ;
    adr - adr % per_row
}

/// The two digits shown for a byte of the memory view, or two blanks for an
/// address outside the RAM.
pub fn memview_digits(mem: &Memory, adr: u32) -> (digits: String)
    ensures
        digits@ == if adr < MEM_SIZE {
            hex_padded(byte_at(mem@, adr as int) as nat, 2)
        } else {
            "  "@
        },
{
    if adr < MEM_SIZE as u32 {
        let mut s = String::new();
        push_hex(&mut s, mem.read_byte(adr) as u32, 2);
        s
    } else {
        String::from_str("  ")
    }
}

/// The character shown for a byte of the memory view, or a blank for an
/// address outside the RAM.
pub fn memview_char(mem: &Memory, adr: u32) -> (c: char)
    ensures
        c == if adr < MEM_SIZE {
            shown_char(byte_at(mem@, adr as int))
        } else {
            ' '
        },
{
    if adr < MEM_SIZE as u32 {
        printable(mem.read_byte(adr))
    } else {
        ' '
    }
}

/// The start of the memory view a row up: not before address 0.
pub fn scroll_up(offset: u32, per_row: u32) -> (start: u32)
    ensures
        start == if offset >= per_row {
            offset - per_row
        } else {
            0
        },
{
    if offset >= per_row {
        offset - per_row
    } else {
        0
    }
}

/// The start of the memory view a row down, modulo 2^32: a view that
/// starts at the last byte of the RAM or above it stays.
pub fn scroll_down(offset: u32, per_row: u32) -> (start: u32)
    ensures
        start == if offset < MEM_SIZE - 1 {
            wrap32(offset + per_row)
        } else {
            offset
        },
{
    if offset < MEM_SIZE as u32 - 1 {
        offset.wrapping_add(per_row)
    } else {
        offset
    }
}

/// Whether the byte at `adr` is one of the `size` bytes marked from
/// `start` on.
pub fn is_marked(adr: u32, start: u32, size: u32) -> (marked: bool)
    ensures
        marked == (start <= adr < start + size),
{
    adr >= start && (adr as u64) < start as u64 + size as u64
}

/// Number of bytes of a page of the debug view.
pub const PAGE_SIZE: u32 = 0x400;

/// Start of the last page of the debug view.
pub const LAST_PAGE: u32 = 0xFC00;

/// The page after the one that starts at `offset`; after the last page of
/// the first 64 KiB, the first one.
pub fn page_after(offset: u32) -> (next: u32)
    ensures
        next == if offset + PAGE_SIZE > LAST_PAGE {
            0
        } else {
            offset + PAGE_SIZE
        },
{
    if offset > LAST_PAGE - PAGE_SIZE {
        0
    } else {
        offset + PAGE_SIZE
    }
}

/// The page before the one that starts at `offset`, modulo 2^32; before
/// the first page, the last one of the first 64 KiB.
pub fn page_before(offset: u32) -> (previous: u32)
    ensures
        previous == if offset == 0 {
            LAST_PAGE
        } else {
            wrap32(offset - PAGE_SIZE)
        },
{
    if offset == 0 {
        LAST_PAGE
    } else {
        offset.wrapping_sub(PAGE_SIZE)
    }
}

/// The colour in which the debug view writes a byte in hexadecimal: that
/// of the palette for the high four bits of the byte, a dark grey where
/// that is black, and a darker one for the byte 0.
pub fn hex_color(byte: u8) -> (rgb: u32)
    ensures
        rgb == if byte == 0 {
            0x00101010
        } else if palette(byte as int / 16) == 0 {
            0x00333333
        } else {
            palette(byte as int / 16)
        },
{
    assert(byte >> 4 == byte / 16) by (bit_vector);
    let base = fetch_c64_color_rgba(byte >> 4);
    if byte == 0 {
        0x00101010
    } else if base == 0 {
        0x00333333
    } else {
        base
    }
}

/// The keys that the editor tells apart.
#[derive(Clone, Copy, Debug, PartialEq, Eq, Structural)]
pub enum Key {
    Tab,
    Enter,
    RunPause,
    Reset,
    Step,
    Breakpoint,
    Up,
    Down,
    Left,
    Right,
    Search,
    Edit,
    Other,
}

/// What the editor does for a key.
#[derive(Clone, Copy, Debug, PartialEq, Eq, Structural)]
pub enum Action {
    /// Give the focus to the next window.
    FocusNext,
    /// Commit the staged choices.
    Commit,
    /// Let the machine run, or stop it.
    RunPause,
    /// Reset the machine.
    Reset,
    /// Let the machine do one step.
    Step,
    /// Set or take away a breakpoint on the edited line.
    Breakpoint,
    /// Edit the line above.
    LineUp,
    /// Edit the line below.
    LineDown,
    /// Look through the labels.
    SearchLabel,
    /// Take the operand before the one in hand.
    ArgLeft,
    /// Take the operand after the one in hand.
    ArgRight,
    /// Hand the key to the menu of the window with this number.
    Menu(u32),
    /// Scroll the memory view a row up.
    ScrollUp,
    /// Scroll the memory view a row down.
    ScrollDown,
    /// Edit memory in place.
    EditMemory,
    /// Draw the memory view again.
    RefreshMemory,
    /// Nothing.
    Nothing,
}

/// What the editor does for a key, by the window that has the focus and
/// the operand in hand. Six keys mean the same everywhere; the others go
/// to the code, the commands, the variables, the addressing modes or the
/// memory view.
pub open spec fn action_for(focus: i32, cur_arg: u32, key: Key) -> Action {
    match key {
        Key::Tab => Action::FocusNext,
        Key::Enter => Action::Commit,
        Key::RunPause => Action::RunPause,
        Key::Reset => Action::Reset,
        Key::Step => Action::Step,
        Key::Breakpoint => Action::Breakpoint,
        _ => if focus == 0 {
            match key {
                Key::Up => Action::LineUp,
                Key::Down => Action::LineDown,
                Key::Search => Action::SearchLabel,
                _ => Action::Nothing,
            }
        } else if focus == 1 {
            Action::Menu(1)
        } else if focus == 2 {
            match key {
                Key::Left => if cur_arg > 0 {
                    Action::ArgLeft
                } else {
                    Action::Nothing
                },
                Key::Right => if cur_arg < 2 {
                    Action::ArgRight
                } else {
                    Action::Nothing
                },
                _ => Action::Menu(3),
            }
        } else if focus == 3 {
            Action::Menu(4)
        } else if focus == 4 {
            match key {
                Key::Up => Action::ScrollUp,
                Key::Down => Action::ScrollDown,
                Key::Edit => Action::EditMemory,
                Key::Search => Action::SearchLabel,
                _ => Action::RefreshMemory,
            }
        } else {
            Action::Nothing
        },
    }
}

/// What the editor does for a key.
pub fn key_action(focus: i32, cur_arg: u32, key: Key) -> (action: Action)
    ensures
        action == action_for(focus, cur_arg, key),
{
    match key {
        Key::Tab => Action::FocusNext,
        Key::Enter => Action::Commit,
        Key::RunPause => Action::RunPause,
        Key::Reset => Action::Reset,
        Key::Step => Action::Step,
        Key::Breakpoint => Action::Breakpoint,
        _ => match focus {
            0 => match key {
                Key::Up => Action::LineUp,
                Key::Down => Action::LineDown,
                Key::Search => Action::SearchLabel,
                _ => Action::Nothing,
            },
            1 => Action::Menu(1),
            2 => match key {
                Key::Left => if cur_arg > 0 {
                    Action::ArgLeft
                } else {
                    Action::Nothing
                },
                Key::Right => if cur_arg < 2 {
                    Action::ArgRight
                } else {
                    Action::Nothing
                },
                _ => Action::Menu(3),
            },
            3 => Action::Menu(4),
            4 => match key {
                Key::Up => Action::ScrollUp,
                Key::Down => Action::ScrollDown,
                Key::Edit => Action::EditMemory,
                Key::Search => Action::SearchLabel,
                _ => Action::RefreshMemory,
            },
            _ => Action::Nothing,
        },
    }
}

} // verus!
