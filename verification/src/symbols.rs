//! The list of symbols: the named values among which the operands of an
//! instruction are chosen. A name with its description occurs once.

use vstd::prelude::*;
use vstd::string::StringExecFns;
use crate::cpu::{items_view, CPUState, CpuView, ItemView, Items, CPU};
use crate::opcodes::{ArgumentSize, Instruction, InstructionView, Op};

verus! {

/// Number of entries that every list of symbols starts with: four that ask
/// for a new value of some kind, and the heading of the values that exist.
pub const BUILTIN_ITEMS: u32 = 5;

/// The index of the first symbol at or after `from` with this name and
/// description, or the length of the list.
pub open spec fn find_item(
    items: Seq<ItemView>,
    name: Seq<char>,
    description: Seq<char>,
    from: int,
) -> int
    decreases items.len() - from,
{
    if from < 0 || from >= items.len() {
        items.len() as int
    } else if items[from].name == name && items[from].description == description {
        from
    } else {
        find_item(items, name, description, from + 1)
    }
}

/// The index that a symbol has once it is in the list: that of the first
/// symbol with its name and description, or the next free one.
pub open spec fn item_index(items: Seq<ItemView>, item: ItemView) -> int {
    find_item(items, item.name, item.description, 0)
}

/// The list after a symbol is added: unchanged where its name and
/// description are there already, else longer by the symbol.
pub open spec fn with_item(items: Seq<ItemView>, item: ItemView) -> Seq<ItemView> {
    if item_index(items, item) < items.len() {
        items
    } else {
        items.push(item)
    }
}

/// The entries that every list of symbols starts with.
pub open spec fn builtin_items() -> Seq<ItemView> {
    seq![
        ItemView { name: "register  (0xF000)"@, description: " "@, value: 0 },
        ItemView { name: "new const  (code)"@, description: " "@, value: 0 },
        ItemView { name: "new label/var  (code/0x10000)"@, description: " "@, value: 0 },
        ItemView { name: "new bss  (0xE000)"@, description: " "@, value: 0 },
        ItemView { name: "-existing-"@, description: " "@, value: 0 },
    ]
}

/// Names and descriptions of a list of pairs of strings.
pub open spec fn pairs_view(pairs: Seq<(String, String)>) -> Seq<(Seq<char>, Seq<char>)> {
    Seq::new(pairs.len(), |i: int| (pairs[i].0@, pairs[i].1@))
}

proof fn lemma_find_item(items: Seq<ItemView>, name: Seq<char>, description: Seq<char>, from: int)
    requires
        0 <= from <= items.len(),
    ensures
        from <= find_item(items, name, description, from) <= items.len(),
        find_item(items, name, description, from) < items.len() ==> {
            let at = find_item(items, name, description, from);
            items[at].name == name && items[at].description == description
        },
        forall|k: int|
            from <= k < find_item(items, name, description, from) ==> !(items[k].name == name
                && items[k].description == description),
    decreases items.len() - from,
{
    if from < items.len() && !(items[from].name == name && items[from].description == description) {
        lemma_find_item(items, name, description, from + 1);
    }
}

proof fn lemma_find_item_is_first(
    items: Seq<ItemView>,
    name: Seq<char>,
    description: Seq<char>,
    at: int,
)
    requires
        0 <= at <= items.len(),
        at < items.len() ==> items[at].name == name && items[at].description == description,
        forall|k: int| 0 <= k < at ==> !(items[k].name == name && items[k].description == description),
    ensures
        find_item(items, name, description, 0) == at,
{
    lemma_find_item(items, name, description, 0);
    let found = find_item(items, name, description, 0);
    if found < at {
        assert(!(items[found].name == name && items[found].description == description));
    }
}

/// A symbol added a second time gets the index that it got the first time,
/// and the list stays as the first addition left it. This holds of any
/// symbol with the same name and description, whatever its value.
pub proof fn lemma_add_item_twice(items: Seq<ItemView>, first: ItemView, second: ItemView)
    requires
        first.name == second.name,
        first.description == second.description,
    ensures
        item_index(with_item(items, first), second) == item_index(items, first),
        with_item(with_item(items, first), second) == with_item(items, first),
{
    lemma_find_item(items, first.name, first.description, 0);
    let at = item_index(items, first);
    let after = with_item(items, first);
    lemma_find_item_is_first(after, first.name, first.description, at);
}

impl CPU {
    /// A symbol with name `n`, description `d` and value `v`.
    pub fn new_item(n: String, d: String, v: u32) -> (item: Items)
        ensures
            item@ == (ItemView { name: n@, description: d@, value: v }),
    {
        Items { name: n, description: d, value: v }
    }

    /// Adds a symbol unless its name and description are in the list, and
    /// returns its index.
    pub fn add_new_item(items: &mut Vec<Items>, new_item: Items) -> (index: u32)
        requires
            old(items).len() < u32::MAX,
        ensures
            items_view(final(items)@) == with_item(items_view(old(items)@), new_item@),
            index == item_index(items_view(old(items)@), new_item@),
            final(items).len() <= old(items).len() + 1,
    {
        let ghost before = items_view(items@);
        let n = items.len();
        let mut i: usize = 0;
        while i < n
            invariant
                i <= n == items.len(),
                n < u32::MAX,
                items@ == old(items)@,
                before == items_view(items@),
                item_index(before, new_item@) == find_item(
                    before,
                    new_item@.name,
                    new_item@.description,
                    i as int,
                ),
            decreases n - i,
        {
            assert(before[i as int] == items@[i as int]@);
            if items[i].name == new_item.name {
                if items[i].description == new_item.description {
                    return i as u32;
                }
            }
            i += 1;
        }
        items.push(new_item);
        assert(items_view(items@) =~= before.push(new_item@));
        (items.len() - 1) as u32
    }

    /// The list of symbols that every pass of the disassembler starts from.
    pub fn get_variables_list() -> (list: Vec<Items>)
        ensures
            items_view(list@) == builtin_items(),
    {
        let mut litems: Vec<Items> = Vec::new();
        litems.push(CPU::new_item(String::from_str("register  (0xF000)"), String::from_str(" "), 0));
        litems.push(CPU::new_item(String::from_str("new const  (code)"), String::from_str(" "), 0));
        litems.push(
            CPU::new_item(String::from_str("new label/var  (code/0x10000)"), String::from_str(" "), 0),
        );
        litems.push(CPU::new_item(String::from_str("new bss  (0xE000)"), String::from_str(" "), 0));
        litems.push(CPU::new_item(String::from_str("-existing-"), String::from_str(" "), 0));
        assert(items_view(litems@) =~= builtin_items());
        litems
    }

    /// A processor at rest, with the program counter in the field `pc` when
    /// `pc` is 0 and in memory at the address `pc` otherwise.
    pub fn new_shared(pc: u32) -> (cpu: CPU)
        ensures
            cpu@ == (CpuView {
                p: 0,
                instruction: InstructionView {
                    opcode: Op::CMP,
                    size: 0,
                    args: 0,
                    addressing_type: ArgumentSize::Int,
                    arg: seq![0u32, 0u32, 0u32],
                    arg_index: seq![0u32, 0u32, 0u32],
                },
                instruction_u8: 0,
                state: CPUState::FetchOp,
                prev_pc: 0,
                data: builtin_items(),
                labels: Seq::empty(),
                pc_reg: pc,
                pc: 0,
            }),
            cpu@.instruction.wf(),
    {
        let cpu = CPU {
            p: 0,
            instruction_u8: 0,
            state: CPUState::FetchOp,
            instruction: Instruction::new(),
            prev_pc: 0,
            data: CPU::get_variables_list(),
            labels: Vec::new(),
            pc_reg: pc,
            pc: 0,
        };
        assert(cpu@.labels =~= Seq::empty());
        cpu
    }

    /// The value of the symbol at `index`.
    pub fn get_data_value(&self, index: u32) -> (value: u32)
        requires
            index < self@.data.len(),
        ensures
            value == self@.data[index as int].value,
    {
        self.data[index as usize].value
    }

    /// Name and description of every symbol, in the order of the list.
    pub fn get_data_list(&self) -> (list: Vec<(String, String)>)
        ensures
            pairs_view(list@) == Seq::new(
                self@.data.len(),
                |i: int| (self@.data[i].name, self@.data[i].description),
            ),
    {
        let mut list: Vec<(String, String)> = Vec::new();
        let n = self.data.len();
        let mut i: usize = 0;
        while i < n
            invariant
                i <= n == self.data.len(),
                list@.len() == i,
                forall|k: int|
                    0 <= k < i ==> (#[trigger] list@[k]).0@ == self.data@[k].name@ && list@[k].1@
                        == self.data@[k].description@,
            decreases n - i,
        {
            list.push((self.data[i].name.clone(), self.data[i].description.clone()));
            i += 1;
        }
        assert(pairs_view(list@) =~= Seq::new(
            self@.data.len(),
            |i: int| (self@.data[i].name, self@.data[i].description),
        ));
        list
    }
}

} // verus!
