//! The label table: names with a size for addresses, kept in the order of
//! their addresses, and the search for free space that it serves.

use vstd::prelude::*;
use vstd::string::StringExecFns;
use crate::cpu::{CpuView, Label, LabelView, BSS, CPU, MEMORY, REGISTERS, STACK};
use crate::text::{hex_padded, push_hex};

verus! {

/// The addresses of a label table go up strictly: no address has two labels.
pub open spec fn labels_sorted(labels: Seq<LabelView>) -> bool {
    forall|i: int, j: int| 0 <= i < j < labels.len() ==> labels[i].address < labels[j].address
}

/// The first label at or after index `from` that stands at exactly `adr`.
pub open spec fn lookup_from(labels: Seq<LabelView>, adr: u32, from: int) -> Option<LabelView>
    decreases labels.len() - from,
{
    if from < 0 || from >= labels.len() {
        None
    } else if labels[from].address == adr {
        Some(labels[from])
    } else {
        lookup_from(labels, adr, from + 1)
    }
}

/// The label that stands at exactly `adr`. An address that a label merely
/// covers has none.
pub open spec fn lookup_label(labels: Seq<LabelView>, adr: u32) -> Option<LabelView> {
    lookup_from(labels, adr, 0)
}

/// The index of the first label at or after `from` that stands at `adr`, or
/// the length of the table.
pub open spec fn position_from(labels: Seq<LabelView>, adr: u32, from: int) -> int
    decreases labels.len() - from,
{
    if from < 0 || from >= labels.len() {
        labels.len() as int
    } else if labels[from].address == adr {
        from
    } else {
        position_from(labels, adr, from + 1)
    }
}

/// Number of labels among the first `n` whose address is below `adr`.
pub open spec fn count_below(labels: Seq<LabelView>, adr: u32, n: int) -> int
    decreases n,
{
    if n <= 0 {
        0
    } else {
        count_below(labels, adr, n - 1) + if labels[n - 1].address < adr {
            1int
        } else {
            0int
        }
    }
}

/// The table after a label is added: a label that stands at `label.address`
/// is replaced where it is; else the new one takes its place in the order
/// of addresses.
pub open spec fn with_label(labels: Seq<LabelView>, label: LabelView) -> Seq<LabelView> {
    let at = position_from(labels, label.address, 0);
    if at < labels.len() {
        labels.update(at, label)
    } else {
        labels.insert(count_below(labels, label.address, labels.len() as int), label)
    }
}

/// What adding a label returns: the index of the label that it replaced, or
/// the length of the table after the new label went in.
pub open spec fn add_label_result(labels: Seq<LabelView>, adr: u32) -> int {
    let at = position_from(labels, adr, 0);
    if at < labels.len() {
        at
    } else {
        labels.len() as int + 1
    }
}

/// The prefix of the name made up for an address without a label, by the
/// region that holds the address.
pub open spec fn region_prefix(adr: u32) -> Seq<char> {
    if adr < BSS {
        "LABEL_"@
    } else if adr < REGISTERS {
        "BSS_"@
    } else if adr < MEMORY {
        "REG_"@
    } else if adr < STACK {
        "VAR_"@
    } else {
        "adr_"@
    }
}

/// The name shown for an address: the tag of its label, or a name made up
/// from its region and its eight hexadecimal digits.
pub open spec fn mem_label(labels: Seq<LabelView>, adr: u32) -> Seq<char> {
    match lookup_label(labels, adr) {
        Some(label) => label.tag,
        None => region_prefix(adr) + hex_padded(adr as nat, 8),
    }
}

/// The label column of a line of code: the tag and a tab, or two tabs.
pub open spec fn code_label(labels: Seq<LabelView>, adr: u32) -> Seq<char> {
    match lookup_label(labels, adr) {
        Some(label) => label.tag + "\t"@,
        None => "\t\t"@,
    }
}

/// The highest end, among the first `n` labels, of a label whose address
/// lies in the region from `lo` up to but without `hi`; `lo` if there is
/// none.
pub open spec fn region_top(labels: Seq<LabelView>, lo: u32, hi: u32, n: int) -> int
    decreases n,
{
    if n <= 0 {
        lo as int
    } else {
        let top = region_top(labels, lo, hi, n - 1);
        let label = labels[n - 1];
        if lo <= label.address < hi && label.address + label.size > top {
            label.address + label.size
        } else {
            top
        }
    }
}

/// The first free address of a region: the highest end of its labels, or 0
/// where that is not below `hi`, the region being full.
pub open spec fn free_in_region(labels: Seq<LabelView>, lo: u32, hi: u32) -> u32 {
    let top = region_top(labels, lo, hi, labels.len() as int);
    if top >= hi {
        0
    } else {
        top as u32
    }
}

proof fn lemma_position_lookup(labels: Seq<LabelView>, adr: u32, from: int)
    requires
        0 <= from <= labels.len(),
    ensures
        from <= position_from(labels, adr, from) <= labels.len(),
        position_from(labels, adr, from) < labels.len() ==> labels[position_from(
            labels,
            adr,
            from,
        )].address == adr,
        forall|k: int| from <= k < position_from(labels, adr, from) ==> labels[k].address != adr,
        lookup_from(labels, adr, from) == if position_from(labels, adr, from) < labels.len() {
            Some(labels[position_from(labels, adr, from)])
        } else {
            None
        },
    decreases labels.len() - from,
{
    if from < labels.len() && labels[from].address != adr {
        lemma_position_lookup(labels, adr, from + 1);
    }
}

proof fn lemma_count_below_sorted(labels: Seq<LabelView>, adr: u32, n: int)
    requires
        labels_sorted(labels),
        0 <= n <= labels.len(),
    ensures
        0 <= count_below(labels, adr, n) <= n,
        forall|k: int| 0 <= k < count_below(labels, adr, n) ==> labels[k].address < adr,
        forall|k: int| count_below(labels, adr, n) <= k < n ==> labels[k].address >= adr,
    decreases n,
{
    if n > 0 {
        lemma_count_below_sorted(labels, adr, n - 1);
        let c = count_below(labels, adr, n - 1);
        if labels[n - 1].address < adr {
            if c < n - 1 {
                assert(labels[c].address >= adr);
                assert(labels[c].address < labels[n - 1].address);
            }
        }
    }
}

/// Adding a label keeps the addresses of the table in strict order.
pub proof fn lemma_with_label_sorted(labels: Seq<LabelView>, label: LabelView)
    requires
        labels_sorted(labels),
    ensures
        labels_sorted(with_label(labels, label)),
        lookup_label(with_label(labels, label), label.address) == Some(label),
{
    let adr = label.address;
    let at = position_from(labels, adr, 0);
    lemma_position_lookup(labels, adr, 0);
    let after = with_label(labels, label);
    if at < labels.len() {
        assert forall|i: int, j: int| 0 <= i < j < after.len() implies after[i].address
            < after[j].address by {
            assert(labels[i].address < labels[j].address);
        }
    } else {
        let c = count_below(labels, adr, labels.len() as int);
        lemma_count_below_sorted(labels, adr, labels.len() as int);
        assert forall|i: int, j: int| 0 <= i < j < after.len() implies after[i].address
            < after[j].address by {
            let oi = if i < c { i } else { i - 1 };
            let oj = if j < c { j } else { j - 1 };
            if i != c && j != c {
                assert(labels[oi].address < labels[oj].address);
            } else if i == c {
                assert(labels[oj].address >= adr);
                assert(labels[oj].address != adr);
            } else {
                assert(labels[oi].address < adr);
            }
        }
    }
    lemma_position_lookup(after, adr, 0);
    let at2 = position_from(after, adr, 0);
    let target = if at < labels.len() { at } else { count_below(labels, adr, labels.len() as int) };
    assert(after[target] == label);
    if at2 != target {
        if at2 < target {
            assert(after[at2].address < after[target].address);
        } else {
            assert(at2 >= after.len() || after[target].address < after[at2].address);
        }
    }
}

impl CpuView {
    /// What the operations of the processor ask of its state: an
    /// instruction of at most three operands, a label table in the order
    /// of its addresses, and lists short enough for their indices to be
    /// 32-bit numbers after three more symbols and one more label.
    pub open spec fn wf(self) -> bool {
        &&& self.instruction.wf()
        &&& labels_sorted(self.labels)
        &&& self.labels.len() < u32::MAX
        &&& self.data.len() + 3 < u32::MAX
    }
}

impl CPU {
    /// Whether the state of the processor is what its operations ask for.
    pub fn is_well_formed(&self) -> (ok: bool)
        ensures
            ok == self@.wf(),
    {
        if self.instruction.size > 3 {
            return false;
        }
        if self.labels.len() >= u32::MAX as usize {
            return false;
        }
        if self.data.len() >= (u32::MAX - 3) as usize {
            return false;
        }
        let n = self.labels.len();
        let mut i: usize = 1;
        while i < n
            invariant
                1 <= i,
                n == self.labels.len(),
                forall|a: int, b: int|
                    0 <= a < b < i && b < n ==> self@.labels[a].address < self@.labels[b].address,
            decreases n - i,
        {
            assert(self@.labels[i as int] == self.labels@[i as int]@);
            assert(self@.labels[i - 1] == self.labels@[i - 1]@);
            if self.labels[i - 1].address >= self.labels[i].address {
                assert(!labels_sorted(self@.labels));
                return false;
            }
            assert forall|a: int, b: int| 0 <= a < b < i + 1 && b < n implies self@.labels[a].address
                < self@.labels[b].address by {
                if b == i && a < i - 1 {
                    assert(self@.labels[a].address < self@.labels[i - 1].address);
                }
            }
            i += 1;
        }
        true
    }

    /// Adds a label, or replaces the tag and size of the label that stands
    /// at `adr`. Returns the index of the label replaced, or the new number
    /// of labels.
    pub fn add_new_label(&mut self, tag: String, adr: u32, size: u32) -> (result: u32)
        requires
            labels_sorted(old(self)@.labels),
            old(self).labels.len() < u32::MAX,
        ensures
            final(self)@ == (CpuView {
                labels: with_label(old(self)@.labels, LabelView { address: adr, size, tag: tag@ }),
                ..old(self)@
            }),
            result == add_label_result(old(self)@.labels, adr),
            labels_sorted(final(self)@.labels),
    {
        let ghost before = self@.labels;
        let ghost label = LabelView { address: adr, size, tag: tag@ };
        proof {
            lemma_position_lookup(before, adr, 0);
            lemma_with_label_sorted(before, label);
        }
        let n = self.labels.len();
        let mut i: usize = 0;
        let mut below: usize = 0;
        while i < n
            invariant
                i <= n == self.labels.len(),
                self@ == old(self)@,
                before == self@.labels,
                position_from(before, adr, 0) == position_from(before, adr, i as int),
                below == count_below(before, adr, i as int),
                below <= i,
                n < u32::MAX,
                label == (LabelView { address: adr, size, tag: tag@ }),
                labels_sorted(with_label(before, label)),
            decreases n - i,
        {
            assert(before[i as int] == self.labels@[i as int]@);
            if self.labels[i].address == adr {
                assert(position_from(before, adr, i as int) == i);
                self.labels[i] = Label { address: adr, size, tag };
                assert(self@.labels =~= before.update(i as int, label));
                return i as u32;
            }
            if self.labels[i].address < adr {
                below += 1;
            }
            i += 1;
        }
        assert(position_from(before, adr, 0) == n);
        self.labels.insert(below, Label { address: adr, size, tag });
        assert(self@.labels =~= before.insert(below as int, label));
        self.labels.len() as u32
    }

    /// The label that stands at exactly `adr`, if there is one.
    pub fn get_label(&self, adr: u32) -> (found: Option<Label>)
        ensures
            found is Some == lookup_label(self@.labels, adr) is Some,
            found is Some ==> Some(found->0@) == lookup_label(self@.labels, adr),
    {
        let n = self.labels.len();
        let mut i: usize = 0;
        while i < n
            invariant
                i <= n == self.labels.len(),
                lookup_label(self@.labels, adr) == lookup_from(self@.labels, adr, i as int),
            decreases n - i,
        {
            if self.labels[i].address == adr {
                let tmp = Label {
                    tag: self.labels[i].tag.clone(),
                    address: adr,
                    size: self.labels[i].size,
                };
                return Some(tmp);
            }
            i += 1;
        }
        None
    }

    /// The name shown for an address.
    pub fn get_mem_label(&self, adr: u32) -> (name: String)
        ensures
            name@ == mem_label(self@.labels, adr),
    {
        match self.get_label(adr) {
            Some(lbl) => lbl.tag,
            None => {
                let mut s = String::new();
                if adr < BSS {
                    s.append("LABEL_");
                } else if adr < REGISTERS {
                    s.append("BSS_");
                } else if adr < MEMORY {
                    s.append("REG_");
                } else if adr < STACK {
                    s.append("VAR_");
                } else {
                    s.append("adr_");
                }
                assert(s@ =~= region_prefix(adr));
                push_hex(&mut s, adr, 8);
                s
            },
        }
    }

    /// The label column of a line of code.
    pub fn get_code_label(&self, adr: u32) -> (column: String)
        ensures
            column@ == code_label(self@.labels, adr),
    {
        match self.get_label(adr) {
            Some(lbl) => {
                let mut s = lbl.tag;
                s.append("\t");
                s
            },
            None => String::from_str("\t\t"),
        }
    }

    fn free_address(&self, lo: u32, hi: u32) -> (adr: u32)
        requires
            lo < hi,
        ensures
            adr == free_in_region(self@.labels, lo, hi),
    {
        let n = self.labels.len();
        let mut top: u64 = lo as u64;
        let mut i: usize = 0;
        while i < n
            invariant
                i <= n == self.labels.len(),
                top == region_top(self@.labels, lo, hi, i as int),
                lo <= top <= 2 * u32::MAX,
            decreases n - i,
        {
            let address = self.labels[i].address;
            let end = address as u64 + self.labels[i].size as u64;
            if lo <= address && address < hi && end > top {
                top = end;
            }
            i += 1;
        }
        if top >= hi as u64 {
            0
        } else {
            top as u32
        }
    }

    /// The first free address of the region of static data, or 0 when the
    /// region is full.
    pub fn get_free_bss(&self) -> (adr: u32)
        ensures
            adr == free_in_region(self@.labels, BSS, REGISTERS),
    {
        self.free_address(BSS, REGISTERS)
    }

    /// The first free address of the heap, or 0 when the heap is full.
    pub fn get_free_mem(&self) -> (adr: u32)
        ensures
            adr == free_in_region(self@.labels, MEMORY, STACK),
    {
        self.free_address(MEMORY, STACK)
    }
}

/// An address that the search for free space returns lies in no label that
/// starts in the region or above it, nor in one that ends at or before the
/// region's start. The address 0, which says that the region is full, may
/// lie in a label; so may an address under a label that starts below the
/// region and reaches into it.
pub proof fn lemma_free_address_not_covered(labels: Seq<LabelView>, lo: u32, hi: u32, i: int)
    requires
        0 <= i < labels.len(),
        free_in_region(labels, lo, hi) != 0,
        labels[i].address >= lo || labels[i].address + labels[i].size <= lo,
    ensures
        !(labels[i].address <= free_in_region(labels, lo, hi) < labels[i].address + labels[i].size),
{
    lemma_region_top(labels, lo, hi, labels.len() as int);
}

proof fn lemma_region_top(labels: Seq<LabelView>, lo: u32, hi: u32, n: int)
    requires
        0 <= n <= labels.len(),
    ensures
        region_top(labels, lo, hi, n) >= lo,
        forall|k: int|
            0 <= k < n && lo <= labels[k].address < hi ==> labels[k].address + labels[k].size
                <= region_top(labels, lo, hi, n),
    decreases n,
{
    if n > 0 {
        lemma_region_top(labels, lo, hi, n - 1);
    }
}

} // verus!
