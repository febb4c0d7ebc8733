//! The flat address space: one bank of RAM and a catch-all bank that answers
//! every address outside it.

use vstd::prelude::*;

verus! {

/// Number of bytes of RAM, which starts at address 0.
pub const MEM_SIZE: usize = 0x080000;

/// The byte found at address `a` of a memory whose RAM holds `m`: the RAM byte
/// where `a` lies inside it, 0 everywhere else.
pub open spec fn byte_at(m: Seq<u8>, a: int) -> u8 {
    if 0 <= a < m.len() {
        m[a]
    } else {
        0u8
    }
}

/// The RAM after one byte is stored at `a`: a store outside the RAM is dropped.
pub open spec fn set_byte(m: Seq<u8>, a: int, v: u8) -> Seq<u8> {
    if 0 <= a < m.len() {
        m.update(a, v)
    } else {
        m
    }
}

/// The kinds of bank.
pub enum MemType {
    Ram,
    Void,
}

/// One bank of memory. A `Ram` bank holds `MEM_SIZE` bytes, a `Void` bank none.
pub struct MemBank {
    bank_type: MemType,
    read_only: bool,
    offset: u32,
    data: Vec<u8>,
}

impl MemBank {
    #[verifier::type_invariant]
    spec fn inv(self) -> bool {
        &&& self.offset == 0
        &&& self.bank_type is Ram ==> self.data@.len() == MEM_SIZE && !self.read_only
        &&& self.bank_type is Void ==> self.data@.len() == 0 && self.read_only
    }

    /// The bytes that the bank stores, from its first address on.
    pub closed spec fn view(&self) -> Seq<u8> {
        self.data@
    }

    /// Whether the bank is the RAM.
    pub closed spec fn is_ram(&self) -> bool {
        self.bank_type is Ram
    }

    /// A bank of RAM, all zero, or a void bank.
    pub fn new(mem_type: MemType) -> (bank: MemBank)
        ensures
            bank.is_ram() == (mem_type is Ram),
            mem_type is Ram ==> bank@ == Seq::new(MEM_SIZE as nat, |i: int| 0u8),
            mem_type is Void ==> bank@ == Seq::<u8>::empty(),
    {
        match mem_type {
            MemType::Ram => {
                let mut data: Vec<u8> = Vec::with_capacity(MEM_SIZE);
                let mut i: usize = 0;
                while i < MEM_SIZE
                    invariant
                        i <= MEM_SIZE,
                        data@.len() == i,
                        forall|j: int| 0 <= j < i ==> data@[j] == 0u8,
                    decreases MEM_SIZE - i,
                {
                    data.push(0);
                    i += 1;
                }
                assert(data@ =~= Seq::new(MEM_SIZE as nat, |i: int| 0u8));
                MemBank { bank_type: MemType::Ram, read_only: false, offset: 0, data }
            },
            MemType::Void => {
                MemBank { bank_type: MemType::Void, read_only: true, offset: 0, data: Vec::new() }
            },
        }
    }

    /// Stores a byte. A store outside the bytes of the bank is dropped.
    pub fn write(&mut self, addr: u32, val: u8)
        ensures
            final(self)@ == set_byte(old(self)@, addr as int, val),
            final(self).is_ram() == old(self).is_ram(),
        no_unwind
    {
        proof {
            use_type_invariant(&*self);
        }
        match self.bank_type {
            MemType::Ram => {
                let i = addr as usize;
                if i < self.data.len() {
                    self.data[i] = val;
                }
            },
            MemType::Void => {},
        }
    }

    /// Reads a byte. A read outside the bytes of the bank gives 0.
    pub fn read(&self, addr: u32) -> (val: u8)
        ensures
            val == byte_at(self@, addr as int),
    {
        proof {
            use_type_invariant(self);
        }
        match self.bank_type {
            MemType::Ram => {
                let i = addr as usize;
                if i < self.data.len() {
                    self.data[i]
                } else {
                    0
                }
            },
            MemType::Void => 0,
        }
    }
}


/// The 32-bit value that four consecutive bytes form, lowest byte first.
pub open spec fn u32_of_bytes(b0: u8, b1: u8, b2: u8, b3: u8) -> u32 {
    (b0 as u32) | ((b1 as u32) << 8) | ((b2 as u32) << 16) | ((b3 as u32) << 24)
}

/// Byte number `k` (0 is the lowest) of a 32-bit value.
pub open spec fn byte_of_u32(v: u32, k: int) -> u8 {
    if k == 0 {
        (v & 0xff) as u8
    } else if k == 1 {
        ((v >> 8) & 0xff) as u8
    } else if k == 2 {
        ((v >> 16) & 0xff) as u8
    } else {
        ((v >> 24) & 0xff) as u8
    }
}

/// The little-endian 32-bit value read at `a`: four byte reads, each answered
/// on its own, so that a value may straddle the end of the RAM.
#[verifier::opaque]
pub open spec fn u32_at(m: Seq<u8>, a: int) -> u32 {
    u32_of_bytes(byte_at(m, a), byte_at(m, a + 1), byte_at(m, a + 2), byte_at(m, a + 3))
}

/// The RAM after a little-endian 32-bit store at `a`: four byte stores.
#[verifier::opaque]
pub open spec fn set_u32(m: Seq<u8>, a: int, v: u32) -> Seq<u8> {
    set_byte(
        set_byte(
            set_byte(set_byte(m, a, byte_of_u32(v, 0)), a + 1, byte_of_u32(v, 1)),
            a + 2,
            byte_of_u32(v, 2),
        ),
        a + 3,
        byte_of_u32(v, 3),
    )
}

/// The whole address space: the RAM bank from address 0 to `MEM_SIZE - 1`,
/// and the void bank for every other address.
pub struct Memory {
    ram: MemBank,
    void: MemBank,
}

impl Memory {
    #[verifier::type_invariant]
    spec fn inv(self) -> bool {
        &&& self.ram.is_ram()
        &&& !self.void.is_ram()
        &&& self.ram@.len() == MEM_SIZE
        &&& self.void@.len() == 0
    }

    /// The contents of the RAM.
    pub closed spec fn view(&self) -> Seq<u8> {
        self.ram@
    }

    /// A memory whose RAM is all zero.
    pub fn new_shared() -> (mem: Memory)
        ensures
            mem@ == Seq::new(MEM_SIZE as nat, |i: int| 0u8),
    {
        Memory { ram: MemBank::new(MemType::Ram), void: MemBank::new(MemType::Void) }
    }

    /// The bank that answers for `addr`.
    pub fn get_bank(&self, addr: u32) -> (bank: &MemBank)
        ensures
            bank.is_ram() == (addr < MEM_SIZE),
            addr < MEM_SIZE ==> bank@ == self@,
            addr >= MEM_SIZE ==> bank@ == Seq::<u8>::empty(),
    {
        proof {
            use_type_invariant(self);
        }
        if addr < MEM_SIZE as u32 {
            &self.ram
        } else {
            &self.void
        }
    }

    /// The bank of the given kind.
    pub fn get_ram_bank(&self, bank_type: MemType) -> (bank: &MemBank)
        ensures
            bank.is_ram() == (bank_type is Ram),
            bank_type is Ram ==> bank@ == self@,
            bank_type is Void ==> bank@ == Seq::<u8>::empty(),
    {
        proof {
            use_type_invariant(self);
        }
        match bank_type {
            MemType::Ram => &self.ram,
            MemType::Void => &self.void,
        }
    }

    /// Leaves the memory as it is.
    pub fn reset(&mut self)
        ensures
            final(self)@ == old(self)@,
    {
    }

    /// Stores one byte. A store outside the RAM is dropped. Always returns `true`.
    pub fn write_byte(&mut self, addr: u32, value: u8) -> (done: bool)
        ensures
            done,
            final(self)@ == set_byte(old(self)@, addr as int, value),
            final(self)@.len() == MEM_SIZE,
    {
        proof {
            use_type_invariant(&*self);
        }
        if addr < MEM_SIZE as u32 {
            self.ram.write(addr, value);
        }
        true
    }

    /// Reads one byte. A read outside the RAM gives 0.
    pub fn read_byte(&self, addr: u32) -> (value: u8)
        ensures
            value == byte_at(self@, addr as int),
            self@.len() == MEM_SIZE,
    {
        proof {
            use_type_invariant(self);
        }
        if addr < MEM_SIZE as u32 {
            self.ram.read(addr)
        } else {
            self.void.read(addr)
        }
    }
}


impl Memory {
    /// Reads a little-endian 32-bit value: four byte reads.
    pub fn read_int_le(&self, addr: u32) -> (value: u32)
        ensures
            value == u32_at(self@, addr as int),
            self@.len() == MEM_SIZE,
    {
        proof {
            reveal(u32_at);
            use_type_invariant(self);
        }
        let b0 = self.read_at(addr as u64);
        let b1 = self.read_at(addr as u64 + 1);
        let b2 = self.read_at(addr as u64 + 2);
        let b3 = self.read_at(addr as u64 + 3);
        (b0 as u32) | ((b1 as u32) << 8) | ((b2 as u32) << 16) | ((b3 as u32) << 24)
    }

    /// Stores a little-endian 32-bit value: four byte stores. Always returns `true`.
    pub fn write_int_le(&mut self, addr: u32, value: u32) -> (done: bool)
        ensures
            done,
            final(self)@ == set_u32(old(self)@, addr as int, value),
            final(self)@.len() == MEM_SIZE,
    {
        proof {
            reveal(set_u32);
            use_type_invariant(&*self);
        }
        self.write_at(addr as u64, (value & 0xff) as u8);
        self.write_at(addr as u64 + 1, ((value >> 8) & 0xff) as u8);
        self.write_at(addr as u64 + 2, ((value >> 16) & 0xff) as u8);
        self.write_at(addr as u64 + 3, ((value >> 24) & 0xff) as u8);
        true
    }

    fn read_at(&self, a: u64) -> (value: u8)
        ensures
            value == byte_at(self@, a as int),
    {
        proof {
            use_type_invariant(self);
        }
        if a < MEM_SIZE as u64 {
            self.ram.read(a as u32)
        } else {
            0
        }
    }

    fn write_at(&mut self, a: u64, value: u8)
        ensures
            final(self)@ == set_byte(old(self)@, a as int, value),
    {
        proof {
            use_type_invariant(&*self);
        }
        if a < MEM_SIZE as u64 {
            self.ram.write(a as u32, value);
        }
    }
}

/// The bytes of a 32-bit value, put together again, give the value.
pub proof fn lemma_u32_of_its_bytes(v: u32)
    ensures
        u32_of_bytes(byte_of_u32(v, 0), byte_of_u32(v, 1), byte_of_u32(v, 2), byte_of_u32(v, 3))
            == v,
{
    assert((((v & 0xff) as u8) as u32) | (((((v >> 8) & 0xff) as u8) as u32) << 8) | (((((v >> 16)
        & 0xff) as u8) as u32) << 16) | (((((v >> 24) & 0xff) as u8) as u32) << 24) == v)
        by (bit_vector);
}

/// The value that four bytes form has these bytes.
pub proof fn lemma_bytes_of_u32(b0: u8, b1: u8, b2: u8, b3: u8)
    ensures
        byte_of_u32(u32_of_bytes(b0, b1, b2, b3), 0) == b0,
        byte_of_u32(u32_of_bytes(b0, b1, b2, b3), 1) == b1,
        byte_of_u32(u32_of_bytes(b0, b1, b2, b3), 2) == b2,
        byte_of_u32(u32_of_bytes(b0, b1, b2, b3), 3) == b3,
{
    let v = u32_of_bytes(b0, b1, b2, b3);
    assert(v == (b0 as u32) | ((b1 as u32) << 8) | ((b2 as u32) << 16) | ((b3 as u32) << 24));
    assert(v == (b0 as u32) | ((b1 as u32) << 8) | ((b2 as u32) << 16) | ((b3 as u32) << 24) ==> ((v
        & 0xff) as u8 == b0 && ((v >> 8) & 0xff) as u8 == b1 && ((v >> 16) & 0xff) as u8 == b2 && ((v
        >> 24) & 0xff) as u8 == b3)) by (bit_vector);
}

/// A 32-bit value stored inside the RAM is read back at the same address.
pub proof fn lemma_u32_stored_is_read(m: Seq<u8>, a: int, v: u32)
    requires
        0 <= a,
        a + 4 <= m.len(),
    ensures
        u32_at(set_u32(m, a, v), a) == v,
        set_u32(m, a, v).len() == m.len(),
{
    reveal(u32_at);
    reveal(set_u32);
    lemma_u32_of_its_bytes(v);
}

/// A store leaves every byte outside the bytes that it covers as it was,
/// and the length of the RAM too.
pub proof fn lemma_u32_store_elsewhere(m: Seq<u8>, a: int, v: u32, b: int)
    requires
        b < a || b >= a + 4,
    ensures
        byte_at(set_u32(m, a, v), b) == byte_at(m, b),
        set_u32(m, a, v).len() == m.len(),
{
    reveal(u32_at);
    reveal(set_u32);
}

/// A 32-bit read sees nothing of a 32-bit store that does not overlap it.
pub proof fn lemma_u32_apart(m: Seq<u8>, a: int, v: u32, b: int)
    requires
        b + 4 <= a || b >= a + 4,
    ensures
        u32_at(set_u32(m, a, v), b) == u32_at(m, b),
{
    reveal(u32_at);
    reveal(set_u32);
}

/// To store what is there changes nothing.
pub proof fn lemma_store_what_is_there(m: Seq<u8>, a: int)
    ensures
        set_byte(m, a, byte_at(m, a)) == m,
        set_u32(m, a, u32_at(m, a)) == m,
{
    reveal(u32_at);
    reveal(set_u32);
    assert(set_byte(m, a, byte_at(m, a)) =~= m);
    lemma_bytes_of_u32(byte_at(m, a), byte_at(m, a + 1), byte_at(m, a + 2), byte_at(m, a + 3));
    assert(set_u32(m, a, u32_at(m, a)) =~= m);
}

/// A 32-bit read sees nothing of a byte stored outside its four bytes.
pub proof fn lemma_byte_apart(m: Seq<u8>, a: int, v: u8, b: int)
    requires
        a < b || a >= b + 4,
    ensures
        u32_at(set_byte(m, a, v), b) == u32_at(m, b),
{
    reveal(u32_at);
}

/// The address at which a program image is loaded: its first two bytes,
/// lowest first.
pub open spec fn load_address(image: Seq<u8>) -> int {
    image[0] + 256 * image[1]
}

/// The RAM after a program image is loaded: the bytes after the first two
/// stand from the load address on; a byte that falls outside the RAM is
/// dropped.
pub open spec fn with_image(m: Seq<u8>, image: Seq<u8>) -> Seq<u8> {
    Seq::new(
        m.len(),
        |a: int|
            if load_address(image) <= a < load_address(image) + image.len() - 2 {
                image[a - load_address(image) + 2]
            } else {
                m[a]
            },
    )
}

/// Loads a program image. An image of less than two bytes has no load
/// address: nothing is loaded and `false` is returned.
pub fn load_prg(mem: &mut Memory, prg_data: &Vec<u8>) -> (loaded: bool)
    ensures
        loaded == (prg_data@.len() >= 2),
        loaded ==> final(mem)@ == with_image(old(mem)@, prg_data@),
        !loaded ==> final(mem)@ == old(mem)@,
{
    let n = prg_data.len();
    if n < 2 {
        return false;
    }
    let start: u64 = ((prg_data[1] as u64) << 8) | (prg_data[0] as u64);
    assert(start == load_address(prg_data@)) by {
        let lo = prg_data[0];
        let hi = prg_data[1];
        assert((((hi as u64) << 8) | (lo as u64)) == lo as u64 + 256 * (hi as u64)) by (bit_vector);
    }
    proof {
        use_type_invariant(&*mem);
    }
    let mut i: usize = 2;
    while i < n
        invariant
            2 <= i <= n == prg_data@.len(),
            start == load_address(prg_data@),
            start <= 0xFFFF,
            mem@.len() == old(mem)@.len() == MEM_SIZE,
            forall|a: int|
                0 <= a < mem@.len() ==> mem@[a] == if start <= a < start + i - 2 {
                    prg_data@[a - start + 2]
                } else {
                    old(mem)@[a]
                },
        decreases n - i,
    {
        if i - 2 < MEM_SIZE {
            mem.write_at(start + (i - 2) as u64, prg_data[i]);
        }
        i += 1;
    }
    assert(mem@ =~= with_image(old(mem)@, prg_data@));
    true
}

} // verus!
