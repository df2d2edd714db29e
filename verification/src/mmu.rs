use vstd::prelude::*;
use crate::Fault;

verus! {

/// Permission bit: the byte may be executed.
pub const PERM_EXEC: u8 = 0x1;

/// Permission bit: the byte may be written.
pub const PERM_WRITE: u8 = 0x2;

/// Permission bit: the byte may be read.
pub const PERM_READ: u8 = 0x4;

/// Permission bit: the byte has never been written ("read-after-write"
/// pending); it blocks reads until a successful write covers it.
pub const PERM_RAW: u8 = 0x8;

/// An offset into the flat memory array of an [`Mmu`].
#[derive(Debug, Copy, Clone)]
pub struct VirtAddr(pub usize);

/// The permission byte attached to one byte of memory: a mask over
/// `PERM_EXEC`, `PERM_WRITE`, `PERM_READ` and `PERM_RAW`.
#[derive(Debug, Copy, Clone, PartialEq, Eq, Structural)]
pub struct Perm(pub u8);

/// A flat byte array with a parallel per-byte permission array of equal
/// length.
#[derive(Debug)]
pub struct Mmu {
    pub memory: Vec<u8>,
    pub permissions: Vec<Perm>,
}

impl Mmu {
    /// The two arrays always have the same length.
    pub open spec fn wf(self) -> bool {
        self.permissions@.len() == self.memory@.len()
    }

    /// Number of bytes of addressable memory.
    pub open spec fn size(self) -> nat {
        self.memory@.len()
    }

    /// The permission mask of byte `i`.
    pub open spec fn perm_at(self, i: int) -> u8 {
        self.permissions@[i].0
    }

    /// The range `[addr, addr + len)` lies inside the allocated memory.
    pub open spec fn in_bounds(self, addr: nat, len: nat) -> bool {
        addr + len <= self.size()
    }

    /// Every byte of `[addr, addr + len)` has the permission bit `flag` set.
    pub open spec fn range_has(self, addr: nat, len: nat, flag: u8) -> bool {
        forall|i: int| addr <= i < addr + len ==> (self.perm_at(i) & flag) != 0
    }

    /// Creates a memory of `size` bytes, zero-filled, with every byte
    /// writable but not yet readable (`PERM_WRITE | PERM_RAW`).
    pub fn new(size: usize) -> (m: Mmu)
        ensures
            m.wf(),
            m.size() == size,
            forall|i: int| 0 <= i < size ==> m.memory@[i] == 0u8,
            forall|i: int| 0 <= i < size ==> m.perm_at(i) == (PERM_WRITE | PERM_RAW),
    {
        Mmu {
            memory: vec![0u8; size],
            permissions: vec![Perm(PERM_WRITE | PERM_RAW); size],
        }
    }

    /// Copies `buf.len()` bytes starting at `off` into `buf`.
    ///
    /// Succeeds exactly when the whole range lies in bounds and every byte
    /// of it is readable; on any fault `buf` and the memory are untouched.
    pub fn read_into(&self, buf: &mut Vec<u8>, off: VirtAddr) -> (r: Result<(), Fault>)
        requires
            self.wf(),
        ensures
            final(buf)@.len() == old(buf)@.len(),
            r is Ok <==> self.in_bounds(off.0 as nat, old(buf)@.len())
                && self.range_has(off.0 as nat, old(buf)@.len(), PERM_READ),
            r == Err::<(), Fault>(Fault::Bounds) <==> !self.in_bounds(off.0 as nat, old(buf)@.len()),
            r == Err::<(), Fault>(Fault::Permission) <==> self.in_bounds(off.0 as nat, old(buf)@.len())
                && !self.range_has(off.0 as nat, old(buf)@.len(), PERM_READ),
            r is Ok ==> final(buf)@ == self.memory@.subrange(
                off.0 as int,
                off.0 + old(buf)@.len(),
            ),
            !(r is Ok) ==> final(buf)@ == old(buf)@,
    {
        let len = buf.len();
        if off.0 > self.memory.len() || len > self.memory.len() - off.0 {
            return Err(Fault::Bounds);
        }
        let mut i: usize = 0;
        while i < len
            invariant
                self.wf(),
                i <= len,
                off.0 + len <= self.size(),
                off.0 + len <= usize::MAX,
                len == old(buf)@.len(),
                forall|j: int| off.0 <= j < off.0 + i ==> (self.perm_at(j) & PERM_READ) != 0,
            decreases len - i,
        {
            if self.permissions[off.0 + i].0 & PERM_READ == 0 {
                proof {
                    assert((self.perm_at(off.0 + i as int) & PERM_READ) == 0);
                    assert(!self.range_has(off.0 as nat, len as nat, PERM_READ));
                }
                return Err(Fault::Permission);
            }
            i = i + 1;
        }
        let mut k: usize = 0;
        while k < len
            invariant
                self.wf(),
                k <= len,
                off.0 + len <= self.size(),
                off.0 + len <= usize::MAX,
                len == old(buf)@.len(),
                buf@.len() == len,
                forall|j: int| 0 <= j < k ==> buf@[j] == self.memory@[off.0 + j],
            decreases len - k,
        {
            let b = self.memory[off.0 + k];
            buf[k] = b;
            k = k + 1;
        }
        proof {
            assert(buf@ =~= self.memory@.subrange(off.0 as int, off.0 + len));
        }
        Ok(())
    }

    /// Copies out `len` bytes starting at `offset`, under the same
    /// permission and bounds rules as [`Mmu::read_into`].
    pub fn read(&self, offset: VirtAddr, len: usize) -> (r: Result<Vec<u8>, Fault>)
        requires
            self.wf(),
        ensures
            r is Ok <==> self.in_bounds(offset.0 as nat, len as nat)
                && self.range_has(offset.0 as nat, len as nat, PERM_READ),
            r == Err::<Vec<u8>, Fault>(Fault::Bounds) <==> !self.in_bounds(offset.0 as nat, len as nat),
            r == Err::<Vec<u8>, Fault>(Fault::Permission) <==> self.in_bounds(offset.0 as nat, len as nat)
                && !self.range_has(offset.0 as nat, len as nat, PERM_READ),
            r matches Ok(v) ==> v@ == self.memory@.subrange(offset.0 as int, offset.0 + len),
    {
        let mut buf = vec![0u8; len];
        match self.read_into(&mut buf, offset) {
            Ok(()) => Ok(buf),
            Err(f) => Err(f),
        }
    }
}

/// The permission a byte gets when a write that covered at least one
/// still-virgin (`PERM_RAW`) byte promotes its whole span: readable, no
/// longer virgin.
pub open spec fn promoted_perm(p: u8) -> u8 {
    (p | PERM_READ) & !PERM_RAW
}

/// Relates a memory before and after a successful write of `data` at
/// `addr`: the bytes of the range now hold `data`; everything outside the
/// range is untouched; and, if at least one byte of the range was still
/// `PERM_RAW`, every byte of the range is promoted by [`promoted_perm`],
/// otherwise the permissions are unchanged.
pub open spec fn write_effect(pre: Mmu, post: Mmu, addr: nat, data: Seq<u8>) -> bool {
    let raw = exists|i: int| addr <= i < addr + data.len() && (pre.perm_at(i) & PERM_RAW) != 0;
    &&& post.size() == pre.size()
    &&& post.wf()
    &&& forall|i: int|
        0 <= i < pre.size() && !(addr <= i < addr + data.len()) ==> post.memory@[i]
            == pre.memory@[i]
    &&& forall|i: int| addr <= i < addr + data.len() ==> post.memory@[i] == data[i - addr]
    &&& forall|i: int|
        0 <= i < pre.size() && !(addr <= i < addr + data.len()) ==> post.perm_at(i)
            == pre.perm_at(i)
    &&& forall|i: int|
        addr <= i < addr + data.len() ==> post.perm_at(i) == (if raw {
            promoted_perm(pre.perm_at(i))
        } else {
            pre.perm_at(i)
        })
}

impl Mmu {
    /// Writes `buf` at `addr`, all or nothing.
    ///
    /// Succeeds exactly when the whole range lies in bounds and every byte
    /// of it is writable; the successful effect, including the uniform
    /// promotion of a span that still held `PERM_RAW` bytes, is
    /// [`write_effect`]. On any fault nothing changes.
    #[verifier::loop_isolation(false)]
    pub fn write_from(&mut self, addr: VirtAddr, buf: &[u8]) -> (r: Result<(), Fault>)
        requires
            old(self).wf(),
        ensures
            final(self).wf(),
            final(self).size() == old(self).size(),
            r is Ok <==> old(self).in_bounds(addr.0 as nat, buf@.len())
                && old(self).range_has(addr.0 as nat, buf@.len(), PERM_WRITE),
            r == Err::<(), Fault>(Fault::Bounds) <==> !old(self).in_bounds(addr.0 as nat, buf@.len()),
            r == Err::<(), Fault>(Fault::Permission) <==> old(self).in_bounds(addr.0 as nat, buf@.len())
                && !old(self).range_has(addr.0 as nat, buf@.len(), PERM_WRITE),
            !(r is Ok) ==> *final(self) == *old(self),
            r is Ok ==> write_effect(*old(self), *final(self), addr.0 as nat, buf@),
    {
        let ghost pre = *self;
        let len = buf.len();
        if addr.0 > self.memory.len() || len > self.memory.len() - addr.0 {
            return Err(Fault::Bounds);
        }

        // Check that every byte is writable, and notice whether any byte of
        // the span is still virgin and will force the promotion below.
        let mut has_raw = false;
        let mut i: usize = 0;
        while i < len
            invariant
                *self == pre,
                self.wf(),
                i <= len,
                len == buf@.len(),
                addr.0 + len <= self.size(),
                addr.0 + len <= usize::MAX,
                forall|j: int| addr.0 <= j < addr.0 + i ==> (self.perm_at(j) & PERM_WRITE) != 0,
                has_raw <==> exists|j: int|
                    addr.0 <= j < addr.0 + i && (self.perm_at(j) & PERM_RAW) != 0,
            decreases len - i,
        {
            let p = self.permissions[addr.0 + i].0;
            proof {
                assert(p == self.perm_at(addr.0 + i as int));
            }
            if p & PERM_RAW != 0 {
                has_raw = true;
            }
            if p & PERM_WRITE == 0 {
                proof {
                    assert((self.perm_at(addr.0 + i as int) & PERM_WRITE) == 0);
                    assert(!self.range_has(addr.0 as nat, len as nat, PERM_WRITE));
                }
                return Err(Fault::Permission);
            }
            i = i + 1;
        }

        let mut k: usize = 0;
        while k < len
            invariant
                self.wf(),
                k <= len,
                len == buf@.len(),
                addr.0 + len <= self.size(),
                addr.0 + len <= usize::MAX,
                self.size() == pre.size(),
                self.permissions@ == pre.permissions@,
                forall|j: int|
                    0 <= j < self.size() && !(addr.0 <= j < addr.0 + k) ==> self.memory@[j]
                        == pre.memory@[j],
                forall|j: int| addr.0 <= j < addr.0 + k ==> self.memory@[j] == buf@[j - addr.0],
            decreases len - k,
        {
            let b = buf[k];
            self.memory[addr.0 + k] = b;
            k = k + 1;
        }

        // A write that covered at least one virgin byte promotes the whole
        // written span to readable and no-longer-virgin.
        let ghost mid = *self;
        if has_raw {
            let mut t: usize = 0;
            while t < len
                invariant
                    self.wf(),
                    t <= len,
                    addr.0 + len <= self.size(),
                    addr.0 + len <= usize::MAX,
                    self.size() == mid.size(),
                    mid.wf(),
                    self.memory@ == mid.memory@,
                    forall|j: int|
                        0 <= j < self.size() && !(addr.0 <= j < addr.0 + t) ==> self.perm_at(j)
                            == mid.perm_at(j),
                    forall|j: int|
                        addr.0 <= j < addr.0 + t ==> self.perm_at(j) == promoted_perm(
                            mid.perm_at(j),
                        ),
                decreases len - t,
            {
                let p = self.permissions[addr.0 + t].0;
                proof {
                    assert(p == mid.perm_at(addr.0 + t as int));
                }
                let ghost snap = *self;
                self.permissions[addr.0 + t] = Perm((p | PERM_READ) & !PERM_RAW);
                proof {
                    assert(self.permissions@ == snap.permissions@.update(
                        addr.0 + t as int,
                        Perm((p | PERM_READ) & !PERM_RAW),
                    ));
                    assert forall|j: int| addr.0 <= j <= addr.0 + t implies self.perm_at(j)
                        == promoted_perm(mid.perm_at(j)) by {
                        if j != addr.0 + t {
                            assert(self.perm_at(j) == snap.perm_at(j));
                        }
                    }
                }
                t = t + 1;
            }
        }
        proof {
            assert(mid.permissions@ == pre.permissions@);
            if has_raw {
                assert forall|j: int|
                    0 <= j < pre.size() && !(addr.0 <= j < addr.0 + buf@.len()) implies self.perm_at(
                    j,
                ) == pre.perm_at(j) by {
                    assert(self.perm_at(j) == mid.perm_at(j));
                }
            } else {
                assert(self.permissions@ == pre.permissions@);
            }
        }
        Ok(())
    }

    /// Unconditionally overwrites the permission byte of every byte in
    /// `[addr, addr + size)` with `perm`; used once per loaded segment, not
    /// during normal execution. Fails only when the range is out of bounds,
    /// and then changes nothing.
    #[verifier::loop_isolation(false)]
    pub fn set_perms(&mut self, addr: VirtAddr, size: usize, perm: Perm) -> (r: Result<
        (),
        Fault,
    >)
        requires
            old(self).wf(),
        ensures
            final(self).wf(),
            final(self).size() == old(self).size(),
            r is Ok <==> old(self).in_bounds(addr.0 as nat, size as nat),
            r == Err::<(), Fault>(Fault::Bounds) <==> !old(self).in_bounds(addr.0 as nat, size as nat),
            !(r is Ok) ==> *final(self) == *old(self),
            final(self).memory@ == old(self).memory@,
            r is Ok ==> forall|i: int|
                addr.0 <= i < addr.0 + size ==> final(self).perm_at(i) == perm.0,
            r is Ok ==> forall|i: int|
                0 <= i < old(self).size() && !(addr.0 <= i < addr.0 + size) ==> final(self).perm_at(
                    i,
                ) == old(self).perm_at(i),
    {
        let ghost pre = *self;
        if addr.0 > self.memory.len() || size > self.memory.len() - addr.0 {
            return Err(Fault::Bounds);
        }
        let mut t: usize = 0;
        while t < size
            invariant
                self.wf(),
                t <= size,
                addr.0 + size <= self.size(),
                self.size() == pre.size(),
                self.memory@ == pre.memory@,
                forall|j: int|
                    0 <= j < self.size() && !(addr.0 <= j < addr.0 + t) ==> self.perm_at(j)
                        == pre.perm_at(j),
                forall|j: int| addr.0 <= j < addr.0 + t ==> self.perm_at(j) == perm.0,
            decreases size - t,
        {
            let ghost snap = *self;
            self.permissions[addr.0 + t] = perm;
            proof {
                assert(self.permissions@ == snap.permissions@.update(addr.0 + t as int, perm));
                assert forall|j: int| addr.0 <= j <= addr.0 + t implies self.perm_at(j) == perm.0 by {
                    if j != addr.0 + t {
                        assert(self.perm_at(j) == snap.perm_at(j));
                    }
                }
            }
            t = t + 1;
        }
        Ok(())
    }
}

/// A fresh memory of any size is entirely unreadable: every byte still has
/// its virgin `PERM_WRITE | PERM_RAW` mask, so no non-empty range has
/// `PERM_READ`, and by the contract of [`Mmu::read_into`] a read over any
/// such range fails with a permission fault.
pub proof fn lemma_fresh_memory_unreadable(m: Mmu, addr: nat, len: nat)
    requires
        m.wf(),
        forall|i: int| 0 <= i < m.size() ==> m.perm_at(i) == (PERM_WRITE | PERM_RAW),
        0 < len,
        m.in_bounds(addr, len),
    ensures
        !m.range_has(addr, len, PERM_READ),
{
    let p = m.perm_at(addr as int);
    assert(p == (2u8 | 8u8));
    assert((p & 4u8) == 0) by (bit_vector)
        requires
            p == (2u8 | 8u8),
    ;
    assert((p & PERM_READ) == 0);
}

/// Writing a non-empty byte sequence and then reading the same range back
/// returns exactly the written bytes: after a successful write at `addr`,
/// provided every byte of the range was readable or still virgin before the
/// write, the whole range is readable and holds `data`, so by the contract
/// of [`Mmu::read_into`] the read succeeds and yields `data`.
pub proof fn lemma_write_then_read(pre: Mmu, post: Mmu, addr: nat, data: Seq<u8>)
    requires
        pre.wf(),
        0 < data.len(),
        pre.in_bounds(addr, data.len()),
        forall|i: int|
            addr <= i < addr + data.len() ==> (pre.perm_at(i) & (PERM_READ | PERM_RAW)) != 0,
        write_effect(pre, post, addr, data),
    ensures
        post.in_bounds(addr, data.len()),
        post.range_has(addr, data.len(), PERM_READ),
        post.memory@.subrange(addr as int, addr + data.len() as int) == data,
{
    let raw = exists|i: int| addr <= i < addr + data.len() && (pre.perm_at(i) & PERM_RAW) != 0;
    assert forall|i: int| addr <= i < addr + data.len() implies (post.perm_at(i) & PERM_READ)
        != 0 by {
        let p = pre.perm_at(i);
        let q = post.perm_at(i);
        if raw {
            assert(q == ((p | 4u8) & !8u8));
            assert((((p | 4u8) & !8u8) & 4u8) != 0) by (bit_vector);
            assert((q & PERM_READ) != 0);
        } else {
            assert((p & (4u8 | 8u8)) != 0);
            assert((p & 8u8) == 0);
            assert((p & 4u8) != 0) by (bit_vector)
                requires
                    (p & (4u8 | 8u8)) != 0,
                    (p & 8u8) == 0,
            ;
            assert((q & PERM_READ) != 0);
        }
    }
    assert(post.memory@.subrange(addr as int, addr + data.len() as int) =~= data);
}

} // verus!
