//! The memory that the stopgap interpreter works on: blocks of bytes at
//! addresses, which are allocated for the local variables of a frame and
//! released when the frame is popped.

use vstd::prelude::*;

verus! {

/// A block of memory.
#[derive(Debug)]
pub struct Region {
    /// The address of the block's first byte.
    pub base: usize,
    /// The bytes of the block.
    pub bytes: Vec<u8>,
    /// Has the block not been released?
    pub live: bool,
}

/// Memory: blocks that keep clear of each other, in the order of their
/// addresses.
#[derive(Debug)]
pub struct Memory {
    pub regions: Vec<Region>,
    /// The first address that no block has ever covered.
    pub next: usize,
}

/// The size in bytes of a pointer in memory.
pub const PTR_SIZE: usize = 8;

/// The number that the bytes `b` stand for, least significant byte first.
pub open spec fn le_value(b: Seq<u8>) -> nat
    decreases b.len(),
{
    if b.len() == 0 {
        0
    } else {
        b[0] as nat + 256 * le_value(b.subrange(1, b.len() as int))
    }
}

/// The `n` bytes that stand for the number `v`, least significant byte
/// first.
pub open spec fn le_bytes(v: nat, n: nat) -> Seq<u8>
    decreases n,
{
    if n == 0 {
        Seq::empty()
    } else {
        seq![(v % 256) as u8] + le_bytes(v / 256, (n - 1) as nat)
    }
}

/// Writing a number down and reading it back gives the number, as far as
/// the bytes can hold it.
pub proof fn lemma_le_roundtrip(v: nat, n: nat)
    ensures
        le_bytes(v, n).len() == n,
        le_value(le_bytes(v, n)) == v % vstd::arithmetic::power::pow(256, n) as nat,
    decreases n,
{
    vstd::arithmetic::power::lemma_pow0(256);
    if n > 0 {
        lemma_le_roundtrip(v / 256, (n - 1) as nat);
        let rest = le_bytes(v / 256, (n - 1) as nat);
        let all = le_bytes(v, n);
        assert(all.subrange(1, all.len() as int) =~= rest);
        vstd::arithmetic::power::lemma_pow_positive(256, (n - 1) as nat);
        vstd::arithmetic::power::lemma_pow1(256);
        vstd::arithmetic::power::lemma_pow_adds(256, 1, (n - 1) as nat);
        let p = vstd::arithmetic::power::pow(256, (n - 1) as nat);
        assert(vstd::arithmetic::power::pow(256, n) == 256 * p);
        assert(v % 256 + 256 * ((v / 256) % (p as nat)) == v % ((256 * p) as nat)) by {
            vstd::arithmetic::div_mod::lemma_breakdown(v as int, 256, p);
        }
    }
}

/// The address of the next block that is aligned to `align`, where the
/// blocks so far end at `next`.
pub open spec fn block_base(next: usize, align: usize) -> int
    recommends
        align > 0,
{
    if next % align == 0 {
        next as int
    } else {
        next + (align - next % align)
    }
}

impl Memory {
    /// `self` is `o` with one more block, which is live, holds `bytes`, and
    /// lies at the next address that is aligned to `align`.
    pub open spec fn extended(&self, o: &Self, bytes: Seq<u8>, align: usize) -> bool {
        &&& self.next == block_base(o.next, align) + bytes.len()
        &&& self.regions@.len() == o.regions@.len() + 1
        &&& forall|j: int|
            0 <= j < o.regions@.len() ==> {
                &&& (#[trigger] self.regions@[j]).base == o.regions@[j].base
                &&& self.regions@[j].live == o.regions@[j].live
                &&& self.regions@[j].bytes@ == o.regions@[j].bytes@
            }
        &&& self.regions@.last().base == block_base(o.next, align)
        &&& self.regions@.last().live
        &&& self.regions@.last().bytes@ == bytes
    }

    /// The blocks come in the order of their addresses and keep clear of
    /// each other, and none reaches beyond the last address.
    pub open spec fn wf(&self) -> bool {
        &&& forall|i: int|
            0 <= i < self.regions@.len() ==> (#[trigger] self.regions@[i]).base
                + self.regions@[i].bytes@.len() <= self.next
        &&& forall|i: int, j: int|
            0 <= i < j < self.regions@.len() ==> (#[trigger] self.regions@[i]).base
                + self.regions@[i].bytes@.len() <= (#[trigger] self.regions@[j]).base
    }

    /// Does the live block of index `i` hold the `len` bytes from `addr` on?
    pub open spec fn holds(&self, i: int, addr: usize, len: nat) -> bool {
        &&& 0 <= i < self.regions@.len()
        &&& self.regions@[i].live
        &&& self.regions@[i].base <= addr
        &&& addr + len <= self.regions@[i].base + self.regions@[i].bytes@.len()
    }

    /// Can the `len` bytes from `addr` on be read and written?
    pub open spec fn valid(&self, addr: usize, len: nat) -> bool {
        exists|i: int| self.holds(i, addr, len)
    }

    /// The `len` bytes from `addr` on, which must be valid.
    pub open spec fn spec_read(&self, addr: usize, len: nat) -> Seq<u8> {
        let i = choose|i: int| self.holds(i, addr, len);
        let off = addr - self.regions@[i].base;
        self.regions@[i].bytes@.subrange(off, off + len)
    }

    /// `self` is `o` but for the `bytes` written at `addr`, which must be
    /// valid: the blocks are where they were, and hold what they held
    /// anywhere else.
    pub open spec fn written(&self, o: &Self, addr: usize, bytes: Seq<u8>) -> bool {
        let i = choose|i: int| o.holds(i, addr, bytes.len());
        let off = addr - o.regions@[i].base;
        &&& self.next == o.next
        &&& self.regions@.len() == o.regions@.len()
        &&& forall|j: int|
            0 <= j < o.regions@.len() ==> {
                &&& (#[trigger] self.regions@[j]).base == o.regions@[j].base
                &&& self.regions@[j].live == o.regions@[j].live
                &&& self.regions@[j].bytes@.len() == o.regions@[j].bytes@.len()
                &&& j != i ==> self.regions@[j].bytes@ == o.regions@[j].bytes@
            }
        &&& forall|k: int|
            0 <= k < o.regions@[i].bytes@.len() ==> #[trigger] self.regions@[i].bytes@[k] == if off
                <= k < off + bytes.len() {
                bytes[k - off]
            } else {
                o.regions@[i].bytes@[k]
            }
    }

    /// `self` has the blocks of `o` where `o` has them, live or not as in
    /// `o`, and as long.
    pub open spec fn same_shape(&self, o: &Self) -> bool {
        &&& self.next == o.next
        &&& self.regions@.len() == o.regions@.len()
        &&& forall|j: int|
            0 <= j < o.regions@.len() ==> {
                &&& (#[trigger] self.regions@[j]).base == o.regions@[j].base
                &&& self.regions@[j].live == o.regions@[j].live
                &&& self.regions@[j].bytes@.len() == o.regions@[j].bytes@.len()
            }
    }

    /// What can be read and written depends on where the blocks are, how
    /// long they are and whether they are live, and on nothing else.
    pub proof fn lemma_shape_valid(&self, o: &Self, addr: usize, len: nat)
        requires
            self.same_shape(o),
        ensures
            self.valid(addr, len) == o.valid(addr, len),
    {
        if self.valid(addr, len) {
            let i = choose|i: int| self.holds(i, addr, len);
            assert(o.holds(i, addr, len));
        }
        if o.valid(addr, len) {
            let i = choose|i: int| o.holds(i, addr, len);
            assert(self.holds(i, addr, len));
        }
    }

    /// An address lies in one block at most.
    pub proof fn lemma_unique(&self, i: int, j: int, addr: usize, len: nat)
        requires
            self.wf(),
            len > 0,
            self.holds(i, addr, len),
            self.holds(j, addr, len),
        ensures
            i == j,
    {
        if i < j {
            assert(self.regions@[i].base + self.regions@[i].bytes@.len() <= self.regions@[j].base);
        } else if j < i {
            assert(self.regions@[j].base + self.regions@[j].bytes@.len() <= self.regions@[i].base);
        }
    }

    /// Memory without any block.
    pub fn new() -> (m: Self)
        ensures
            m.wf(),
            m.regions@.len() == 0,
            m.next == 0,
    {
        Memory { regions: Vec::new(), next: 0 }
    }

    /// Allocate a block of `size` bytes, all zero, at a multiple of `align`,
    /// which must not be zero, and return its address. `None`, and no
    /// change, if the address space is used up.
    pub fn allocate(&mut self, size: usize, align: usize) -> (r: Option<usize>)
        requires
            old(self).wf(),
            align > 0,
        ensures
            final(self).wf(),
            match r {
                Some(base) => {
                    &&& base == block_base(old(self).next, align)
                    &&& base % align == 0
                    &&& final(self).extended(old(self), Seq::new(size as nat, |k: int| 0u8), align)
                    &&& final(self).valid(base, size as nat)
                },
                None => *final(self) == *old(self) && block_base(old(self).next, align) + size
                    > usize::MAX,
            },
    {
        let rem = self.next % align;
        let pad = if rem == 0 {
            0
        } else {
            align - rem
        };
        if pad > usize::MAX - self.next {
            return None;
        }
        let base = self.next + pad;
        if size > usize::MAX - base {
            return None;
        }
        assert(base % align == 0) by (nonlinear_arith)
            requires
                align > 0,
                rem == self.next % align,
                base == self.next + if rem == 0 {
                    0
                } else {
                    align - rem
                },
        ;
        let mut bytes: Vec<u8> = Vec::new();
        let mut k: usize = 0;
        while k < size
            invariant
                k <= size,
                bytes@ == Seq::new(k as nat, |j: int| 0u8),
            decreases size - k,
        {
            bytes.push(0);
            proof {
                assert(bytes@ =~= Seq::new((k + 1) as nat, |j: int| 0u8));
            }
            k = k + 1;
        }
        let ghost pre = self.regions@;
        self.regions.push(Region { base, bytes, live: true });
        self.next = base + size;
        proof {
            assert(self.regions@.subrange(0, pre.len() as int) =~= pre);
            assert forall|i: int, j: int| 0 <= i < j < self.regions@.len() implies (
            #[trigger] self.regions@[i]).base + self.regions@[i].bytes@.len() <= (
            #[trigger] self.regions@[j]).base by {
                if j == pre.len() {
                    assert(self.regions@[i] == pre[i]);
                } else {
                    assert(self.regions@[i] == pre[i]);
                    assert(self.regions@[j] == pre[j]);
                }
            }
            assert forall|i: int| 0 <= i < self.regions@.len() implies (
            #[trigger] self.regions@[i]).base + self.regions@[i].bytes@.len() <= self.next by {
                if i < pre.len() {
                    assert(self.regions@[i] == pre[i]);
                }
            }
            assert(self.holds(pre.len() as int, base, size as nat));
            assert forall|j: int| 0 <= j < pre.len() implies self.regions@[j] == pre[j] by {}
        }
        Some(base)
    }

    /// Put the block `bytes` into memory, at a multiple of `align`, and
    /// return its address.
    pub fn place(&mut self, bytes: &Vec<u8>, align: usize) -> (r: Option<usize>)
        requires
            old(self).wf(),
            align > 0,
        ensures
            final(self).wf(),
            match r {
                Some(base) => {
                    &&& base == block_base(old(self).next, align)
                    &&& final(self).extended(old(self), bytes@, align)
                    &&& final(self).valid(base, bytes@.len())
                    &&& final(self).spec_read(base, bytes@.len()) == bytes@
                },
                None => *final(self) == *old(self) && block_base(old(self).next, align)
                    + bytes@.len() > usize::MAX,
            },
    {
        let base = match self.allocate(bytes.len(), align) {
            Some(b) => b,
            None => {
                return None;
            },
        };
        let ghost mid = *self;
        let ok = self.write(base, bytes);
        proof {
            let i = mid.regions@.len() - 1;
            assert(mid.holds(i, base, bytes@.len()));
            assert(ok);
            let w = choose|w: int| mid.holds(w, base, bytes@.len());
            if bytes@.len() > 0 {
                mid.lemma_unique(w, i, base, bytes@.len());
            }
            assert(self.regions@[i].bytes@ =~= bytes@);
            assert forall|j: int| 0 <= j < old(self).regions@.len() implies (
            #[trigger] self.regions@[j]).bytes@ == old(self).regions@[j].bytes@ by {
                assert(self.regions@[j].bytes@ =~= mid.regions@[j].bytes@);
            }
        }
        Some(base)
    }

    /// Is the block of index `i` the first live block at `base`?
    pub open spec fn first_live_at(&self, i: int, base: usize) -> bool {
        &&& 0 <= i < self.regions@.len()
        &&& self.regions@[i].live
        &&& self.regions@[i].base == base
        &&& forall|j: int|
            0 <= j < i ==> !((#[trigger] self.regions@[j]).live && self.regions@[j].base == base)
    }

    /// `self` is `o` with the first live block at `base` released, if there
    /// is a live block there: the blocks are where they were and hold what
    /// they held.
    pub open spec fn released(&self, o: &Self, base: usize) -> bool {
        &&& self.next == o.next
        &&& self.regions@.len() == o.regions@.len()
        &&& forall|j: int|
            0 <= j < o.regions@.len() ==> {
                &&& (#[trigger] self.regions@[j]).base == o.regions@[j].base
                &&& self.regions@[j].bytes@ == o.regions@[j].bytes@
                &&& self.regions@[j].live == (o.regions@[j].live && !o.first_live_at(j, base))
            }
    }

    /// Release the block at `base`. Returns whether there was a live block
    /// there.
    #[verifier::loop_isolation(false)]
    pub fn release(&mut self, base: usize) -> (r: bool)
        requires
            old(self).wf(),
        ensures
            final(self).wf(),
            final(self).next == old(self).next,
            final(self).regions@.len() == old(self).regions@.len(),
            r == exists|i: int|
                0 <= i < old(self).regions@.len() && (#[trigger] old(self).regions@[i]).live && old(
                    self,
                ).regions@[i].base == base,
            final(self).released(old(self), base),
    {
        let mut i: usize = 0;
        while i < self.regions.len()
            invariant
                i <= self.regions@.len(),
                *self == *old(self),
                forall|j: int|
                    0 <= j < i ==> !((#[trigger] self.regions@[j]).live && self.regions@[j].base
                        == base),
            decreases self.regions@.len() - i,
        {
            if self.regions[i].live && self.regions[i].base == base {
                let ghost pre = self.regions@;
                let mut tail = self.regions.split_off(i);
                let mut reg = tail.remove(0);
                reg.live = false;
                self.regions.push(reg);
                self.regions.append(&mut tail);
                proof {
                    assert(pre[i as int].live && pre[i as int].base == base);
                    assert(self.regions@.len() == pre.len());
                    assert(old(self).first_live_at(i as int, base));
                    assert forall|j: int| 0 <= j < pre.len() implies {
                        &&& (#[trigger] self.regions@[j]).base == pre[j].base
                        &&& self.regions@[j].bytes@ == pre[j].bytes@
                        &&& self.regions@[j].live == (pre[j].live && !old(self).first_live_at(
                            j,
                            base,
                        ))
                    } by {
                        if j > i {
                            assert(!old(self).first_live_at(j, base));
                        }
                    }
                }
                return true;
            }
            i = i + 1;
        }
        false
    }

    /// Find the live block that holds the `len` bytes from `addr` on.
    pub fn find(&self, addr: usize, len: usize) -> (r: Option<usize>)
        ensures
            match r {
                Some(i) => self.holds(i as int, addr, len as nat),
                None => !self.valid(addr, len as nat),
            },
    {
        let mut i: usize = 0;
        while i < self.regions.len()
            invariant
                i <= self.regions@.len(),
                forall|j: int| 0 <= j < i ==> !self.holds(j, addr, len as nat),
            decreases self.regions@.len() - i,
        {
            let reg = &self.regions[i];
            if reg.live && reg.base <= addr && addr - reg.base <= reg.bytes.len() && len
                <= reg.bytes.len() - (addr - reg.base) {
                return Some(i);
            }
            i = i + 1;
        }
        None
    }

    /// Read the `len` bytes from `addr` on. `None` if they are not valid.
    #[verifier::loop_isolation(false)]
    pub fn read(&self, addr: usize, len: usize) -> (r: Option<Vec<u8>>)
        requires
            self.wf(),
        ensures
            match r {
                Some(b) => self.valid(addr, len as nat) && b@ == self.spec_read(addr, len as nat),
                None => !self.valid(addr, len as nat),
            },
    {
        let i = match self.find(addr, len) {
            Some(i) => i,
            None => {
                return None;
            },
        };
        let off = addr - self.regions[i].base;
        let mut out: Vec<u8> = Vec::new();
        let mut k: usize = 0;
        while k < len
            invariant
                k <= len,
                self.holds(i as int, addr, len as nat),
                off == addr - self.regions@[i as int].base,
                out@ == self.regions@[i as int].bytes@.subrange(off as int, off + k),
            decreases len - k,
        {
            out.push(self.regions[i].bytes[off + k]);
            proof {
                assert(out@ =~= self.regions@[i as int].bytes@.subrange(off as int, off + k + 1));
            }
            k = k + 1;
        }
        proof {
            let c = choose|c: int| self.holds(c, addr, len as nat);
            if len > 0 {
                self.lemma_unique(i as int, c, addr, len as nat);
            } else {
                assert(out@ =~= self.spec_read(addr, 0));
            }
        }
        Some(out)
    }

    /// Write `bytes` at `addr` on. Returns `false`, and changes nothing, if
    /// the bytes to be written are not valid.
    #[verifier::loop_isolation(false)]
    pub fn write(&mut self, addr: usize, bytes: &Vec<u8>) -> (r: bool)
        requires
            old(self).wf(),
        ensures
            final(self).wf(),
            r == old(self).valid(addr, bytes@.len()),
            r ==> final(self).written(old(self), addr, bytes@) && final(self).valid(
                addr,
                bytes@.len(),
            ) && final(self).spec_read(addr, bytes@.len()) == bytes@,
            !r ==> *final(self) == *old(self),
            final(self).same_shape(old(self)),
    {
        let i = match self.find(addr, bytes.len()) {
            Some(i) => i,
            None => {
                return false;
            },
        };
        if bytes.len() == 0 {
            proof {
                assert(self.spec_read(addr, 0) =~= bytes@);
            }
            return true;
        }
        let ghost pre = *self;
        let off = addr - self.regions[i].base;
        let mut tail = self.regions.split_off(i);
        let mut reg = tail.remove(0);
        let ghost reg0 = reg.bytes@;
        let mut k: usize = 0;
        proof {
            assert(self.regions@ =~= pre.regions@.subrange(0, i as int));
            assert(tail@ =~= pre.regions@.subrange(i + 1, pre.regions@.len() as int));
            assert(reg == pre.regions@[i as int]);
        }
        while k < bytes.len()
            invariant
                k <= bytes@.len(),
                off + bytes@.len() <= reg0.len(),
                reg.bytes@.len() == reg0.len(),
                reg.base == pre.regions@[i as int].base,
                reg.live == pre.regions@[i as int].live,
                reg0 == pre.regions@[i as int].bytes@,
                self.regions@ == pre.regions@.subrange(0, i as int),
                tail@ == pre.regions@.subrange(i + 1, pre.regions@.len() as int),
                forall|j: int|
                    0 <= j < reg0.len() ==> #[trigger] reg.bytes@[j] == if off <= j < off + k {
                        bytes@[j - off]
                    } else {
                        reg0[j]
                    },
            decreases bytes@.len() - k,
        {
            reg.bytes.set(off + k, bytes[k]);
            k = k + 1;
        }
        self.regions.push(reg);
        self.regions.append(&mut tail);
        proof {
            assert(self.regions@.len() == pre.regions@.len());
            assert forall|j: int| 0 <= j < pre.regions@.len() implies {
                &&& (#[trigger] self.regions@[j]).base == pre.regions@[j].base
                &&& self.regions@[j].live == pre.regions@[j].live
                &&& self.regions@[j].bytes@.len() == pre.regions@[j].bytes@.len()
                &&& j != i ==> self.regions@[j].bytes@ == pre.regions@[j].bytes@
            } by {}
            assert(self.holds(i as int, addr, bytes@.len()));
            let c = choose|c: int| pre.holds(c, addr, bytes@.len());
            let d = choose|d: int| self.holds(d, addr, bytes@.len());
            if bytes@.len() > 0 {
                pre.lemma_unique(i as int, c, addr, bytes@.len());
                self.lemma_unique(i as int, d, addr, bytes@.len());
            }
            assert(self.regions@[d].bytes@.subrange(
                addr - self.regions@[d].base,
                addr - self.regions@[d].base + bytes@.len(),
            ) =~= bytes@);
        }
        true
    }

    /// Copy `size` bytes from `src` to `dst`. The two may overlap. Returns
    /// `false`, and changes nothing, if the bytes to be read or to be
    /// written are not valid.
    pub fn write_val(&mut self, dst: usize, src: usize, size: usize) -> (r: bool)
        requires
            old(self).wf(),
        ensures
            final(self).wf(),
            r == (old(self).valid(src, size as nat) && old(self).valid(dst, size as nat)),
            r ==> final(self).written(old(self), dst, old(self).spec_read(src, size as nat))
                && final(self).valid(dst, size as nat) && final(self).spec_read(dst, size as nat)
                == old(self).spec_read(src, size as nat),
            !r ==> *final(self) == *old(self),
            final(self).same_shape(old(self)),
    {
        match self.read(src, size) {
            Some(bytes) => self.write(dst, &bytes),
            None => false,
        }
    }

    /// Read the byte at `addr`.
    pub fn read_u8(&self, addr: usize) -> (r: Option<u8>)
        requires
            self.wf(),
        ensures
            match r {
                Some(b) => self.valid(addr, 1) && self.spec_read(addr, 1) == seq![b],
                None => !self.valid(addr, 1),
            },
    {
        match self.read(addr, 1) {
            Some(b) => {
                proof {
                    assert(b@ =~= seq![b@[0]]);
                }
                Some(b[0])
            },
            None => None,
        }
    }

    /// Read the pointer at `addr`: eight bytes, least significant first.
    pub fn read_ptr(&self, addr: usize) -> (r: Option<usize>)
        requires
            self.wf(),
        ensures
            match r {
                Some(p) => self.valid(addr, PTR_SIZE as nat) && p == le_value(
                    self.spec_read(addr, PTR_SIZE as nat),
                ),
                None => !self.valid(addr, PTR_SIZE as nat) || le_value(
                    self.spec_read(addr, PTR_SIZE as nat),
                ) > usize::MAX,
            },
    {
        match self.read(addr, PTR_SIZE) {
            Some(b) => value_of(&b),
            None => None,
        }
    }

    /// Write the pointer `p` at `addr`: eight bytes, least significant
    /// first.
    pub fn write_ptr(&mut self, addr: usize, p: usize) -> (r: bool)
        requires
            old(self).wf(),
        ensures
            final(self).wf(),
            r == old(self).valid(addr, PTR_SIZE as nat),
            r ==> final(self).written(old(self), addr, le_bytes(p as nat, PTR_SIZE as nat))
                && final(self).valid(addr, PTR_SIZE as nat) && final(self).spec_read(
                addr,
                PTR_SIZE as nat,
            ) == le_bytes(p as nat, PTR_SIZE as nat),
            !r ==> *final(self) == *old(self),
            final(self).same_shape(old(self)),
    {
        let bytes = bytes_of(p as u64, PTR_SIZE);
        proof {
            lemma_le_roundtrip(p as nat, PTR_SIZE as nat);
        }
        self.write(addr, &bytes)
    }
}

/// The number that the bytes of `b` stand for, least significant byte
/// first, if a machine word can hold it.
pub fn value_of(b: &Vec<u8>) -> (r: Option<usize>)
    ensures
        match r {
            Some(v) => v == le_value(b@),
            None => le_value(b@) > usize::MAX,
        },
{
    let mut v: usize = 0;
    let mut k: usize = b.len();
    proof {
        assert(b@.subrange(b@.len() as int, b@.len() as int) =~= Seq::<u8>::empty());
    }
    while k > 0
        invariant
            k <= b@.len(),
            v == le_value(b@.subrange(k as int, b@.len() as int)),
        decreases k,
    {
        k = k - 1;
        proof {
            let cur = b@.subrange(k as int, b@.len() as int);
            assert(cur.subrange(1, cur.len() as int) =~= b@.subrange(k + 1, b@.len() as int));
            assert(cur[0] == b@[k as int]);
        }
        if v > (usize::MAX - b[k] as usize) / 256 {
            proof {
                lemma_value_grows(b@, k as int);
            }
            return None;
        }
        v = b[k] as usize + 256 * v;
    }
    proof {
        assert(b@.subrange(0, b@.len() as int) =~= b@);
    }
    Some(v)
}

/// The number that the bytes from position `k` on stand for is no larger
/// than the number that all of them stand for.
pub proof fn lemma_value_grows(b: Seq<u8>, k: int)
    requires
        0 <= k <= b.len(),
    ensures
        le_value(b.subrange(k, b.len() as int)) <= le_value(b),
    decreases k,
{
    if k > 0 {
        let cur = b.subrange(k - 1, b.len() as int);
        assert(cur.subrange(1, cur.len() as int) =~= b.subrange(k, b.len() as int));
        lemma_value_grows(b, k - 1);
    } else {
        assert(b.subrange(0, b.len() as int) =~= b);
    }
}

/// The `n` bytes that stand for `v`, least significant byte first.
pub fn bytes_of(v: u64, n: usize) -> (r: Vec<u8>)
    ensures
        r@ == le_bytes(v as nat, n as nat),
{
    let mut out: Vec<u8> = Vec::new();
    let mut rest = v;
    let mut k: usize = 0;
    let ghost mut done: Seq<u8> = Seq::empty();
    while k < n
        invariant
            k <= n,
            out@ + le_bytes(rest as nat, (n - k) as nat) == le_bytes(v as nat, n as nat),
        decreases n - k,
    {
        let ghost before = out@;
        out.push((rest % 256) as u8);
        proof {
            let tail = le_bytes(rest as nat, (n - k) as nat);
            assert(tail =~= seq![(rest % 256) as u8] + le_bytes(
                (rest / 256) as nat,
                (n - k - 1) as nat,
            ));
            assert(out@ + le_bytes((rest / 256) as nat, (n - k - 1) as nat) =~= before + tail);
        }
        rest = rest / 256;
        k = k + 1;
    }
    proof {
        assert(out@ + Seq::<u8>::empty() =~= out@);
    }
    out
}

} // verus!
