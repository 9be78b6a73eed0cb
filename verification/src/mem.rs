//! Model of the physical-memory window that the ELF loader fills: a byte
//! region at a fixed base address. The unverified runtime shell maps it onto
//! real memory; tests inspect it directly.

use vstd::prelude::*;

verus! {

/// The bytes of `m` with the range starting at `at` replaced by `content`.
pub open spec fn spec_store(m: Seq<u8>, at: int, content: Seq<u8>) -> Seq<u8> {
    m.subrange(0, at) + content + m.subrange(at + content.len(), m.len() as int)
}

/// A window of physical memory: `data[i]` models the byte at address
/// `base + i`.
pub struct PhysMemory {
    pub base: u32,
    pub data: Vec<u8>,
}

impl PhysMemory {
    /// A zero-filled window of `size` bytes at address `base`.
    pub fn new(base: u32, size: usize) -> (r: PhysMemory)
        ensures
            r.base == base,
            r.data@ == Seq::new(size as nat, |i: int| 0u8),
    {
        let data = vec![0u8; size];
        proof {
            assert(data@ =~= Seq::new(size as nat, |i: int| 0u8));
        }
        PhysMemory { base, data }
    }

    /// Whether the address range `[addr, addr + len)` lies inside the
    /// window.
    pub open spec fn spec_contains(&self, addr: int, len: int) -> bool {
        self.base <= addr && addr + len <= self.base + self.data@.len()
    }

    /// Whether the address range `[addr, addr + len)` lies inside the
    /// window.
    pub fn contains(&self, addr: u32, len: u32) -> (r: bool)
        ensures
            r == self.spec_contains(addr as int, len as int),
    {
        let n: usize = self.data.len();
        addr >= self.base && (addr - self.base) as u64 + len as u64 <= n as u64
    }

    /// Copy `src[from..to]` to addresses `[addr, addr + (to - from))`.
    pub fn write_bytes(&mut self, addr: u32, src: &Vec<u8>, from: usize, to: usize)
        requires
            from <= to <= src@.len(),
            old(self).spec_contains(addr as int, to - from),
        ensures
            final(self).base == old(self).base,
            final(self).data@ == spec_store(
                old(self).data@,
                addr - old(self).base,
                src@.subrange(from as int, to as int),
            ),
    {
        let _n: usize = self.data.len();
        let rel: usize = (addr - self.base) as usize;
        let mut k: usize = 0;
        while k < to - from
            invariant
                from <= to <= src@.len(),
                self.data@.len() <= usize::MAX,
                rel + (to - from) <= self.data@.len(),
                k <= to - from,
                self.base == old(self).base,
                self.data@.len() == old(self).data@.len(),
                forall|i: int|
                    0 <= i < self.data@.len() && !(rel <= i < rel + k) ==> self.data@[i] == old(
                        self,
                    ).data@[i],
                forall|i: int|
                    0 <= i < k ==> #[trigger] self.data@[rel + i] == src@[from + i],
            decreases to - from - k,
        {
            let b = src[from + k];
            self.data.set(rel + k, b);
            k = k + 1;
        }
        proof {
            let c = src@.subrange(from as int, to as int);
            let st = spec_store(old(self).data@, rel as int, c);
            assert forall|i: int| 0 <= i < self.data@.len() implies self.data@[i] == st[i] by {
                if i < rel {
                } else if i < rel + c.len() {
                    assert(self.data@[rel + (i - rel)] == src@[from + (i - rel)]);
                } else {
                }
            }
            assert(self.data@ =~= st);
        }
    }

    /// Zero the addresses `[addr, addr + len)`.
    pub fn zero_range(&mut self, addr: u32, len: u32)
        requires
            old(self).spec_contains(addr as int, len as int),
        ensures
            final(self).base == old(self).base,
            final(self).data@ == spec_store(
                old(self).data@,
                addr - old(self).base,
                Seq::new(len as nat, |i: int| 0u8),
            ),
    {
        let _n: usize = self.data.len();
        let rel: usize = (addr - self.base) as usize;
        let lenu: usize = len as usize;
        let mut k: usize = 0;
        while k < lenu
            invariant
                self.data@.len() <= usize::MAX,
                rel + lenu <= self.data@.len(),
                k <= lenu,
                self.base == old(self).base,
                self.data@.len() == old(self).data@.len(),
                forall|i: int|
                    0 <= i < self.data@.len() && !(rel <= i < rel + k) ==> self.data@[i] == old(
                        self,
                    ).data@[i],
                forall|i: int| 0 <= i < k ==> #[trigger] self.data@[rel + i] == 0,
            decreases lenu - k,
        {
            self.data.set(rel + k, 0);
            k = k + 1;
        }
        proof {
            let c = Seq::new(len as nat, |i: int| 0u8);
            let st = spec_store(old(self).data@, rel as int, c);
            assert forall|i: int| 0 <= i < self.data@.len() implies self.data@[i] == st[i] by {
                if i < rel {
                } else if i < rel + c.len() {
                    assert(self.data@[rel + (i - rel)] == 0);
                } else {
                }
            }
            assert(self.data@ =~= st);
        }
    }

    /// The byte at address `addr`.
    pub fn get(&self, addr: u32) -> (r: u8)
        requires
            self.spec_contains(addr as int, 1),
        ensures
            r == self.data@[addr - self.base],
    {
        self.data[(addr - self.base) as usize]
    }
}

} // verus!
