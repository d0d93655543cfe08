//! The memory subsystem: a byte-addressable store of fixed capacity mapped at
//! a fixed base address, and the bus that is the sole gateway to it. The bus
//! validates that every address lies inside the configured window; the memory
//! validates the access width and that the touched byte range fits inside its
//! capacity. Values of 8, 16, 32 or 64 bits are read and written in
//! little-endian order.

use vstd::prelude::*;

use crate::exceptions::Exception;

verus! {

/// The first valid address of the memory window.
pub const MEMORY_START_ADDRESS: u64 = 0x10000000;

/// The number of bytes the memory can hold.
pub const MEMORY_SIZE: u64 = 0x40000000;

/// The access widths, in bits, that the memory accepts.
pub open spec fn valid_width(size: usize) -> bool {
    size == 8 || size == 16 || size == 32 || size == 64
}

/// How many bytes an access of `size` bits touches.
pub open spec fn width_bytes(size: usize) -> int {
    size as int / 8
}

/// The local offset of `addr` inside the memory array.
pub open spec fn mem_offset(addr: u64) -> int {
    addr - MEMORY_START_ADDRESS
}

/// Whether a `size`-bit access at `addr` lies entirely inside the capacity.
pub open spec fn mem_range_fits(addr: u64, size: usize) -> bool {
    &&& MEMORY_START_ADDRESS <= addr
    &&& mem_offset(addr) + width_bytes(size) <= MEMORY_SIZE
}

/// Whether `addr` lies in the window the bus accepts: `[base, base + size]`,
/// inclusive at both ends, so one address past the last byte is let through.
pub open spec fn in_bus_window(addr: u64) -> bool {
    MEMORY_START_ADDRESS <= addr <= MEMORY_START_ADDRESS + MEMORY_SIZE
}

/// 256 to the power `n` (1 for `n <= 0`).
pub open spec fn pow256(n: int) -> int
    decreases n,
{
    if n <= 0 {
        1
    } else {
        256 * pow256(n - 1)
    }
}

/// The little-endian value of the `n` bytes of `mem` starting at `off`.
pub open spec fn le_word(mem: Seq<u8>, off: int, n: int) -> int
    decreases n,
{
    if n <= 0 {
        0
    } else {
        mem[off] + 256 * le_word(mem, off + 1, n - 1)
    }
}

/// Byte `k` of the little-endian encoding of `val`.
pub open spec fn le_byte(val: u64, k: int) -> u8 {
    ((val >> ((8 * k) as u64)) & 0xFF) as u8
}

/// `mem` with the `n`-byte little-endian encoding of `val` written at `off`;
/// every byte outside `[off, off + n)` keeps its old value.
pub open spec fn write_bytes(mem: Seq<u8>, off: int, val: u64, n: int) -> Seq<u8> {
    Seq::new(
        mem.len(),
        |i: int| if off <= i < off + n {
            le_byte(val, i - off)
        } else {
            mem[i]
        },
    )
}

/// What `AVMMemory::read` returns: the size is validated first, then the
/// touched byte range is held against the capacity, then the little-endian
/// value is formed.
pub open spec fn mem_read_spec(mem: Seq<u8>, addr: u64, size: usize) -> Result<u64, Exception> {
    if !valid_width(size) {
        Err(Exception::IllegalSizeArgument(size))
    } else if !mem_range_fits(addr, size) {
        Err(Exception::AddressNotInMemoryBounds(addr))
    } else {
        Ok(le_word(mem, mem_offset(addr), width_bytes(size)) as u64)
    }
}

/// What `AVMMemory::write` does: on success the new memory contents and the
/// returned local offset; the same error order as a read.
pub open spec fn mem_write_spec(mem: Seq<u8>, addr: u64, data: u64, size: usize) -> Result<
    (Seq<u8>, u64),
    Exception,
> {
    if !valid_width(size) {
        Err(Exception::IllegalSizeArgument(size))
    } else if !mem_range_fits(addr, size) {
        Err(Exception::AddressNotInMemoryBounds(addr))
    } else {
        Ok((write_bytes(mem, mem_offset(addr), data, width_bytes(size)), mem_offset(addr) as u64))
    }
}

/// What `AVMBus::read` returns: the window check, then the memory's own rules.
pub open spec fn bus_read_spec(mem: Seq<u8>, addr: u64, size: usize) -> Result<u64, Exception> {
    if !in_bus_window(addr) {
        Err(Exception::AddressNotInMemoryBounds(addr))
    } else {
        mem_read_spec(mem, addr, size)
    }
}

/// What `AVMBus::write` does: the window check, then the memory's own rules.
pub open spec fn bus_write_spec(mem: Seq<u8>, addr: u64, data: u64, size: usize) -> Result<
    (Seq<u8>, u64),
    Exception,
> {
    if !in_bus_window(addr) {
        Err(Exception::AddressNotInMemoryBounds(addr))
    } else {
        mem_write_spec(mem, addr, data, size)
    }
}

/// Every device reachable over the bus reads and writes little-endian values
/// of 8, 16, 32 or 64 bits at 64-bit addresses.
pub trait AVMDevice {
    /// Writes the low `size` bits of `data` at `addr`.
    fn write(&mut self, addr: u64, data: u64, size: usize) -> Result<u64, Exception>;

    /// Reads a `size`-bit value from `addr`.
    fn read(&mut self, addr: u64, size: usize) -> Result<u64, Exception>;
}

/// The physical memory: `MEMORY_SIZE` bytes, all zero until written. The
/// backing vector grows on demand; bytes past its length read as zero.
pub struct AVMMemory {
    data: Vec<u8>,
}

impl View for AVMMemory {
    type V = Seq<u8>;

    closed spec fn view(&self) -> Seq<u8> {
        Seq::new(
            MEMORY_SIZE as nat,
            |i: int| if i < self.data@.len() {
                self.data@[i]
            } else {
                0u8
            },
        )
    }
}

/// `le_word` is bounded by `pow256` of its length.
pub proof fn lemma_le_word_bound(mem: Seq<u8>, off: int, n: int)
    ensures
        0 <= le_word(mem, off, n) < pow256(n),
    decreases n,
{
    if n <= 0 {
    } else {
        lemma_le_word_bound(mem, off + 1, n - 1);
    }
}

/// Reading one more byte appends it at the top of the little-endian value.
pub proof fn lemma_le_word_snoc(mem: Seq<u8>, off: int, n: int)
    requires
        n >= 0,
    ensures
        le_word(mem, off, n + 1) == le_word(mem, off, n) + pow256(n) * mem[off + n],
    decreases n,
{
    if n == 0 {
    } else {
        lemma_le_word_snoc(mem, off + 1, n - 1);
        assert(le_word(mem, off, n + 1) == mem[off] + 256 * le_word(mem, off + 1, n));
        assert(256 * (pow256(n - 1) * mem[off + n]) == pow256(n) * mem[off + n]) by (nonlinear_arith)
            requires
                pow256(n) == 256 * pow256(n - 1),
        ;
    }
}

/// `1u64 << (8 * k)` is `pow256(k)` for the byte indices of a 64-bit value.
proof fn lemma_pow256_shift(k: u64)
    requires
        k < 8,
    ensures
        (1u64 << ((8 * k) as u64)) as int == pow256(k as int),
    decreases k,
{
    if k == 0 {
        assert((1u64 << 0u64) == 1) by (bit_vector);
    } else {
        lemma_pow256_shift((k - 1) as u64);
        let j = (k - 1) as u64;
        assert((1u64 << ((8 * (j + 1)) as u64)) == 256 * (1u64 << ((8 * j) as u64))) by (bit_vector)
            requires
                j < 7,
        ;
    }
}

impl AVMMemory {
    /// Creates the memory, entirely zero.
    pub fn new() -> (m: AVMMemory)
        ensures
            m@.len() == MEMORY_SIZE,
            forall|i: int| 0 <= i < m@.len() ==> m@[i] == 0u8,
    {
        AVMMemory { data: Vec::new() }
    }

    /// The byte at local offset `off`, zero where the store never grew.
    fn get_byte(&self, off: usize) -> (b: u8)
        requires
            off < MEMORY_SIZE,
        ensures
            b == self@[off as int],
    {
        if off < self.data.len() {
            self.data[off]
        } else {
            0
        }
    }

    /// Grows the backing vector to at least `end` bytes without changing the
    /// memory contents.
    fn grow_to(&mut self, end: usize)
        requires
            end <= MEMORY_SIZE,
        ensures
            final(self)@ == old(self)@,
            final(self).data@.len() >= end,
    {
        while self.data.len() < end
            invariant
                end <= MEMORY_SIZE,
                self@ == old(self)@,
            decreases end - self.data.len(),
        {
            self.data.push(0u8);
            proof {
                assert(self@ =~= old(self)@);
            }
        }
    }

    /// Reads the `n` bytes at local offset `index` as a little-endian value.
    fn load_bytes(&self, index: usize, n: usize) -> (r: u64)
        requires
            n <= 8,
            index + n <= MEMORY_SIZE,
        ensures
            r as int == le_word(self@, index as int, n as int),
    {
        let mut acc: u64 = 0;
        let mut k: usize = 0;
        proof {
            lemma_le_word_bound(self@, index as int, 0);
        }
        while k < n
            invariant
                k <= n,
                n <= 8,
                index + n <= MEMORY_SIZE,
                acc as int == le_word(self@, index as int, k as int),
            decreases n - k,
        {
            let b = self.get_byte(index + k);
            let shift = (8 * k) as u64;
            proof {
                lemma_le_word_bound(self@, index as int, k as int);
                lemma_le_word_snoc(self@, index as int, k as int);
                lemma_pow256_shift(k as u64);
                let bb = self@[index + k];
                assert((acc | ((b as u64) << shift)) == acc + (1u64 << shift) * b) by (bit_vector)
                    requires
                        shift == 8 * k && k < 8 && acc < (1u64 << shift) && b == bb,
                ;
                assert(acc < (1u64 << shift)) by {
                    assert(acc < pow256(k as int));
                }
            }
            acc = acc | ((b as u64) << shift);
            k = k + 1;
        }
        acc
    }

    /// Writes the low `8 * n` bits of `val` at local offset `index`,
    /// little-endian, leaving every other byte unchanged.
    fn store_bytes(&mut self, index: usize, val: u64, n: usize)
        requires
            n <= 8,
            index + n <= MEMORY_SIZE,
        ensures
            final(self)@ == write_bytes(old(self)@, index as int, val, n as int),
    {
        self.grow_to(index + n);
        let mut k: usize = 0;
        proof {
            assert(self@ =~= write_bytes(old(self)@, index as int, val, 0));
        }
        while k < n
            invariant
                k <= n,
                n <= 8,
                index + n <= MEMORY_SIZE,
                self.data@.len() >= index + n,
                self@ == write_bytes(old(self)@, index as int, val, k as int),
            decreases n - k,
        {
            let shift = (8 * k) as u64;
            let b = ((val >> shift) & 0xFF) as u8;
            proof {
                assert(b == le_byte(val, k as int)) by (bit_vector)
                    requires
                        b == ((val >> shift) & 0xFF) as u8 && shift == 8 * k && k < 8,
                ;
            }
            let ghost before = self@;
            self.data[index + k] = b;
            proof {
                assert(self@ =~= before.update(index + k, b));
                assert(self@ =~= write_bytes(old(self)@, index as int, val, (k + 1) as int));
            }
            k = k + 1;
        }
    }

    /// Reads a single byte from memory.
    fn load_byte(&self, addr: u64) -> (r: u64)
        requires
            mem_range_fits(addr, 8),
        ensures
            r as int == le_word(self@, mem_offset(addr), 1),
    {
        let index = (addr - MEMORY_START_ADDRESS) as usize;
        self.load_bytes(index, 1)
    }

    /// Reads a 16-bit word from memory.
    fn load_short(&self, addr: u64) -> (r: u64)
        requires
            mem_range_fits(addr, 16),
        ensures
            r as int == le_word(self@, mem_offset(addr), 2),
    {
        let index = (addr - MEMORY_START_ADDRESS) as usize;
        self.load_bytes(index, 2)
    }

    /// Reads a 32-bit word from memory.
    fn load_int(&self, addr: u64) -> (r: u64)
        requires
            mem_range_fits(addr, 32),
        ensures
            r as int == le_word(self@, mem_offset(addr), 4),
    {
        let index = (addr - MEMORY_START_ADDRESS) as usize;
        self.int_load_util(index)
    }

    /// Reads a 64-bit word from memory.
    fn load_long(&self, addr: u64) -> (r: u64)
        requires
            mem_range_fits(addr, 64),
        ensures
            r as int == le_word(self@, mem_offset(addr), 8),
    {
        let index = (addr - MEMORY_START_ADDRESS) as usize;
        self.load_bytes(index, 8)
    }

    /// Reads the 32-bit little-endian value at local offset `index`.
    fn int_load_util(&self, index: usize) -> (r: u64)
        requires
            index + 4 <= MEMORY_SIZE,
        ensures
            r as int == le_word(self@, index as int, 4),
    {
        self.load_bytes(index, 4)
    }

    /// Writes a single byte to memory.
    fn write_byte(&mut self, addr: u64, val: u64) -> (r: u64)
        requires
            mem_range_fits(addr, 8),
        ensures
            final(self)@ == write_bytes(old(self)@, mem_offset(addr), val, 1),
            r == mem_offset(addr),
    {
        let index = (addr - MEMORY_START_ADDRESS) as usize;
        self.store_bytes(index, val, 1);
        index as u64
    }

    /// Writes a 16-bit word to memory.
    fn write_short(&mut self, addr: u64, val: u64) -> (r: u64)
        requires
            mem_range_fits(addr, 16),
        ensures
            final(self)@ == write_bytes(old(self)@, mem_offset(addr), val, 2),
            r == mem_offset(addr),
    {
        let index = (addr - MEMORY_START_ADDRESS) as usize;
        self.store_bytes(index, val, 2);
        index as u64
    }

    /// Writes a 32-bit word to memory.
    fn write_int(&mut self, addr: u64, val: u64) -> (r: u64)
        requires
            mem_range_fits(addr, 32),
        ensures
            final(self)@ == write_bytes(old(self)@, mem_offset(addr), val, 4),
            r == mem_offset(addr),
    {
        let index = (addr - MEMORY_START_ADDRESS) as usize;
        self.store_bytes(index, val, 4);
        index as u64
    }

    /// Writes a 64-bit word to memory.
    fn write_long(&mut self, addr: u64, val: u64) -> (r: u64)
        requires
            mem_range_fits(addr, 64),
        ensures
            final(self)@ == write_bytes(old(self)@, mem_offset(addr), val, 8),
            r == mem_offset(addr),
    {
        let index = (addr - MEMORY_START_ADDRESS) as usize;
        self.store_bytes(index, val, 8);
        index as u64
    }

    /// Whether an `nbytes`-byte access at `addr` fits inside the capacity.
    fn fits(addr: u64, nbytes: u64) -> (r: bool)
        requires
            nbytes <= 8,
        ensures
            r == (MEMORY_START_ADDRESS <= addr && addr - MEMORY_START_ADDRESS + nbytes
                <= MEMORY_SIZE),
    {
        addr >= MEMORY_START_ADDRESS && addr - MEMORY_START_ADDRESS <= MEMORY_SIZE - nbytes
    }
}

impl AVMDevice for AVMMemory {
    fn write(&mut self, addr: u64, data: u64, size: usize) -> (r: Result<u64, Exception>)
        ensures
            (match mem_write_spec(old(self)@, addr, data, size) {
                Ok((m, idx)) => final(self)@ == m && r == Ok::<u64, Exception>(idx),
                Err(e) => final(self)@ == old(self)@ && r == Err::<u64, Exception>(e),
            }),
    {
        match size {
            8 => {
                if AVMMemory::fits(addr, 1) {
                    Ok(self.write_byte(addr, data))
                } else {
                    Err(Exception::AddressNotInMemoryBounds(addr))
                }
            },
            16 => {
                if AVMMemory::fits(addr, 2) {
                    Ok(self.write_short(addr, data))
                } else {
                    Err(Exception::AddressNotInMemoryBounds(addr))
                }
            },
            32 => {
                if AVMMemory::fits(addr, 4) {
                    Ok(self.write_int(addr, data))
                } else {
                    Err(Exception::AddressNotInMemoryBounds(addr))
                }
            },
            64 => {
                if AVMMemory::fits(addr, 8) {
                    Ok(self.write_long(addr, data))
                } else {
                    Err(Exception::AddressNotInMemoryBounds(addr))
                }
            },
            _ => Err(Exception::IllegalSizeArgument(size)),
        }
    }

    fn read(&mut self, addr: u64, size: usize) -> (r: Result<u64, Exception>)
        ensures
            final(self)@ == old(self)@,
            r == mem_read_spec(old(self)@, addr, size),
    {
        match size {
            8 => {
                if AVMMemory::fits(addr, 1) {
                    Ok(self.load_byte(addr))
                } else {
                    Err(Exception::AddressNotInMemoryBounds(addr))
                }
            },
            16 => {
                if AVMMemory::fits(addr, 2) {
                    Ok(self.load_short(addr))
                } else {
                    Err(Exception::AddressNotInMemoryBounds(addr))
                }
            },
            32 => {
                if AVMMemory::fits(addr, 4) {
                    Ok(self.load_int(addr))
                } else {
                    Err(Exception::AddressNotInMemoryBounds(addr))
                }
            },
            64 => {
                if AVMMemory::fits(addr, 8) {
                    Ok(self.load_long(addr))
                } else {
                    Err(Exception::AddressNotInMemoryBounds(addr))
                }
            },
            _ => Err(Exception::IllegalSizeArgument(size)),
        }
    }
}

/// The bus: the sole gateway between the CPU and the memory. It holds no
/// state of its own beyond the memory it owns.
pub struct AVMBus {
    memory: AVMMemory,
}

impl View for AVMBus {
    type V = Seq<u8>;

    closed spec fn view(&self) -> Seq<u8> {
        self.memory@
    }
}

impl AVMBus {
    /// Creates the bus with a fresh, zeroed memory.
    pub fn new() -> (b: AVMBus)
        ensures
            b@.len() == MEMORY_SIZE,
            forall|i: int| 0 <= i < b@.len() ==> b@[i] == 0u8,
    {
        AVMBus { memory: AVMMemory::new() }
    }
}

impl AVMDevice for AVMBus {
    fn write(&mut self, addr: u64, data: u64, size: usize) -> (r: Result<u64, Exception>)
        ensures
            (match bus_write_spec(old(self)@, addr, data, size) {
                Ok((m, idx)) => final(self)@ == m && r == Ok::<u64, Exception>(idx),
                Err(e) => final(self)@ == old(self)@ && r == Err::<u64, Exception>(e),
            }),
    {
        if addr < MEMORY_START_ADDRESS || addr > MEMORY_START_ADDRESS + MEMORY_SIZE {
            return Err(Exception::AddressNotInMemoryBounds(addr));
        }
        self.memory.write(addr, data, size)
    }

    fn read(&mut self, addr: u64, size: usize) -> (r: Result<u64, Exception>)
        ensures
            final(self)@ == old(self)@,
            r == bus_read_spec(old(self)@, addr, size),
    {
        if addr < MEMORY_START_ADDRESS || addr > MEMORY_START_ADDRESS + MEMORY_SIZE {
            return Err(Exception::AddressNotInMemoryBounds(addr));
        }
        self.memory.read(addr, size)
    }
}

/// The little-endian value of the first `n` encoded bytes of `val` is
/// `val` reduced modulo `pow256(n)`, for every accepted width.
proof fn lemma_le_bytes_value(val: u64, n: int)
    requires
        n == 1 || n == 2 || n == 4 || n == 8,
    ensures
        (forall|mem: Seq<u8>, off: int|
            0 <= off && off + n <= mem.len() ==> le_word(
                #[trigger] write_bytes(mem, off, val, n),
                off,
                n,
            ) == val as int % pow256(n)),
{
    assert forall|mem: Seq<u8>, off: int| 0 <= off && off + n <= mem.len() implies le_word(
        #[trigger] write_bytes(mem, off, val, n),
        off,
        n,
    ) == val as int % pow256(n) by {
        reveal_with_fuel(le_word, 9);
        reveal_with_fuel(pow256, 9);
        assert(pow256(1) == 0x100 && pow256(2) == 0x10000 && pow256(4) == 0x100000000 && pow256(8)
            == 0x10000000000000000);
        let w = write_bytes(mem, off, val, n);
        assert(forall|k: int| 0 <= k < n ==> #[trigger] w[off + k] == le_byte(val, k));
        let ghost v = val;
        if n == 1 {
            assert(le_word(w, off, 1) == w[off] + 256 * le_word(w, off + 1, 0));
            assert(le_byte(v, 0) == v % 256) by (bit_vector);
        } else if n == 2 {
            assert(le_word(w, off, 2) == w[off] + 256 * (w[off + 1] + 256 * le_word(w, off + 2, 0)));
            assert(le_byte(v, 0) + 256 * le_byte(v, 1) == v % 0x10000) by (bit_vector);
        } else if n == 4 {
            assert(le_word(w, off, 4) == w[off] + 256 * (w[off + 1] + 256 * (w[off + 2] + 256 * (w[off
                + 3] + 256 * le_word(w, off + 4, 0)))));
            assert(le_byte(v, 0) + 256 * (le_byte(v, 1) + 256 * (le_byte(v, 2) + 256 * le_byte(v, 3)))
                == v % 0x100000000) by (bit_vector);
        } else {
            assert(le_word(w, off, 8) == w[off] + 256 * (w[off + 1] + 256 * (w[off + 2] + 256 * (w[off
                + 3] + 256 * (w[off + 4] + 256 * (w[off + 5] + 256 * (w[off + 6] + 256 * (w[off + 7]
                + 256 * le_word(w, off + 8, 0)))))))));
            assert(le_byte(v, 0) + 256 * (le_byte(v, 1) + 256 * (le_byte(v, 2) + 256 * (le_byte(v, 3)
                + 256 * (le_byte(v, 4) + 256 * (le_byte(v, 5) + 256 * (le_byte(v, 6) + 256 * le_byte(
                v, 7))))))) == v) by (bit_vector);
            assert(pow256(8) == 0x10000000000000000) by {
                reveal_with_fuel(pow256, 9);
            }
            assert(v as int % pow256(8) == v as int);
        }
    }
}

/// Round trip with frame: writing a valid width at an address whose byte
/// range fits, then reading the same address and width, returns the written
/// value reduced modulo `2^width`, and no byte outside the written range is
/// altered. (At the one window address past the last byte, `base + size`,
/// the bus lets the access through but the capacity check fails it, so the
/// law speaks of accesses that fit.)
pub proof fn lemma_bus_write_then_read(mem: Seq<u8>, addr: u64, val: u64, size: usize)
    requires
        mem.len() == MEMORY_SIZE,
        valid_width(size),
        mem_range_fits(addr, size),
    ensures
        bus_write_spec(mem, addr, val, size) is Ok,
        ({
            let (m2, idx) = bus_write_spec(mem, addr, val, size)->Ok_0;
            &&& bus_read_spec(m2, addr, size) == Ok::<u64, Exception>(
                (val as int % pow256(width_bytes(size))) as u64,
            )
            &&& idx == mem_offset(addr)
            &&& m2.len() == mem.len()
            &&& forall|i: int|
                0 <= i < mem.len() && !(mem_offset(addr) <= i < mem_offset(addr) + width_bytes(size))
                    ==> m2[i] == mem[i]
        }),
{
    let n = width_bytes(size);
    let off = mem_offset(addr);
    assert(in_bus_window(addr));
    let (m2, idx) = bus_write_spec(mem, addr, val, size)->Ok_0;
    lemma_le_bytes_value(val, n);
    assert(le_word(m2, off, n) == val as int % pow256(n));
    lemma_le_word_bound(m2, off, n);
    lemma_pow256_increases(n, 8);
    assert(pow256(8) == 0x10000000000000000) by {
        reveal_with_fuel(pow256, 9);
    }
}

/// An address below the window's base or above its inclusive top makes both
/// bus operations fail with that address, whatever the width and the data;
/// the memory contents play no part and are never touched (the executable
/// operations return the untouched state on every error).
pub proof fn lemma_bus_rejects_out_of_window(mem: Seq<u8>, addr: u64, data: u64, size: usize)
    requires
        !in_bus_window(addr),
    ensures
        bus_read_spec(mem, addr, size) == Err::<u64, Exception>(
            Exception::AddressNotInMemoryBounds(addr),
        ),
        bus_write_spec(mem, addr, data, size) == Err::<(Seq<u8>, u64), Exception>(
            Exception::AddressNotInMemoryBounds(addr),
        ),
{
}

/// A width outside {8, 16, 32, 64} makes every read and write fail with that
/// width, at the memory and over the bus alike, for every in-window address.
pub proof fn lemma_illegal_width_rejected(mem: Seq<u8>, addr: u64, data: u64, size: usize)
    requires
        !valid_width(size),
    ensures
        mem_read_spec(mem, addr, size) == Err::<u64, Exception>(
            Exception::IllegalSizeArgument(size),
        ),
        mem_write_spec(mem, addr, data, size) == Err::<(Seq<u8>, u64), Exception>(
            Exception::IllegalSizeArgument(size),
        ),
        in_bus_window(addr) ==> bus_read_spec(mem, addr, size) == Err::<u64, Exception>(
            Exception::IllegalSizeArgument(size),
        ),
        in_bus_window(addr) ==> bus_write_spec(mem, addr, data, size) == Err::<
            (Seq<u8>, u64),
            Exception,
        >(Exception::IllegalSizeArgument(size)),
{
}

/// `pow256` grows with its argument.
proof fn lemma_pow256_increases(a: int, b: int)
    requires
        a <= b,
    ensures
        pow256(a) <= pow256(b),
    decreases b - a,
{
    if a < b {
        if b <= 0 {
        } else {
            lemma_pow256_increases(a, b - 1);
            assert(pow256(b) == 256 * pow256(b - 1));
            assert(pow256(b - 1) >= 1) by {
                lemma_pow256_pos(b - 1);
            }
        }
    }
}

/// `pow256` is positive.
proof fn lemma_pow256_pos(n: int)
    ensures
        pow256(n) >= 1,
    decreases n,
{
    if n > 0 {
        lemma_pow256_pos(n - 1);
    }
}

} // verus!
