//! Guest memory manager: a byte-addressed DRAM with a per-byte permission
//! vector of the same length, bounds-checked access, growth by doubling up
//! to a hard cap, and circular (wrap-around) addressing for reads.
use vstd::prelude::*;

verus! {

/// Initial DRAM length: 1 MiB.
pub const DRAM_SIZE_INITIAL: usize = 1024 * 1024;

/// Hard cap on DRAM length: 8 MiB.
pub const DRAM_SIZE_MAX: usize = 8 * 1024 * 1024;

/// Permission bit: the byte may be read by loads.
pub const PERM_R: u8 = 1;

/// Permission bit: the byte may be written by stores.
pub const PERM_W: u8 = 2;

/// Permission bit: the byte may be fetched as instruction memory.
pub const PERM_X: u8 = 4;

#[derive(Debug, PartialEq, Eq, Structural, Clone, Copy)]
pub enum MmmuErr {
    IndexOutOfBounds(usize),
}

/// The memory manager: guest DRAM and the permission byte for each
/// DRAM byte.  The two vectors always have the same length.
pub struct Mmu {
    dram: Vec<u8>,
    perm: Vec<u8>,
}

/// Mathematical model of the MMU: the DRAM bytes and the permission bytes.
pub struct MmuView {
    pub dram: Seq<u8>,
    pub perm: Seq<u8>,
}

/// The DRAM lengths that doubling from the initial length can reach.
pub open spec fn valid_dram_len(l: nat) -> bool {
    ||| l == DRAM_SIZE_INITIAL
    ||| l == 2 * DRAM_SIZE_INITIAL
    ||| l == 4 * DRAM_SIZE_INITIAL
    ||| l == 8 * DRAM_SIZE_INITIAL
}

/// Well-formedness: the permission vector mirrors DRAM byte for byte, and
/// the DRAM length stays between its initial value and the hard cap,
/// always a doubling of the initial length.
pub open spec fn mmu_wf(v: MmuView) -> bool {
    &&& v.dram.len() == v.perm.len()
    &&& DRAM_SIZE_INITIAL <= v.dram.len() <= DRAM_SIZE_MAX
    &&& valid_dram_len(v.dram.len())
}

/// The end offset `vaddr + size`, saturated at `usize::MAX`; the payload of
/// an `IndexOutOfBounds` error.
pub open spec fn sat_end(vaddr: usize, size: usize) -> usize {
    if vaddr + size <= usize::MAX {
        (vaddr + size) as usize
    } else {
        usize::MAX
    }
}

/// A read-only access succeeds when it lies in bounds, or when it starts in
/// bounds and is no larger than the whole DRAM, in which case it wraps
/// around to the low addresses.
pub open spec fn read_ok(len: nat, vaddr: int, size: int) -> bool {
    0 <= vaddr && 0 <= size && (vaddr + size <= len || (vaddr < len && size <= len))
}

/// Index of the byte `i` positions into a circular access, for
/// `0 <= i < 2 * len`.
pub open spec fn wrap_index(len: nat, i: int) -> int {
    if i < len {
        i
    } else {
        i - len
    }
}

/// The bytes a circular read of `size` bytes at `vaddr` returns.
pub open spec fn read_bytes(mem: Seq<u8>, vaddr: int, size: int) -> Seq<u8>
    recommends
        read_ok(mem.len(), vaddr, size),
{
    Seq::new(size as nat, |i: int| mem[wrap_index(mem.len(), vaddr + i)])
}

/// The DRAM length after growing a DRAM of length `len` so that offset
/// `end` fits: the length doubles until `end` fits or the cap would be
/// passed.  The growing operation succeeds if and only if
/// `end <= grown_len(len, end)`.
pub open spec fn grown_len(len: nat, end: int) -> nat
    decreases DRAM_SIZE_MAX - len,
        when 0 < len <= DRAM_SIZE_MAX
{
    if end <= len {
        len
    } else if 2 * len <= DRAM_SIZE_MAX {
        grown_len(2 * len, end)
    } else {
        len
    }
}

/// `mem` extended with zero bytes to length `new_len`.
pub open spec fn grow_bytes(mem: Seq<u8>, new_len: nat) -> Seq<u8>
    recommends
        mem.len() <= new_len,
{
    Seq::new(new_len, |i: int| if i < mem.len() { mem[i] } else { 0u8 })
}

/// `mem` with `data` copied in at offset `vaddr`.
pub open spec fn store_bytes(mem: Seq<u8>, vaddr: int, data: Seq<u8>) -> Seq<u8>
    recommends
        vaddr + data.len() <= mem.len(),
{
    Seq::new(
        mem.len(),
        |i: int| if vaddr <= i < vaddr + data.len() {
            data[i - vaddr]
        } else {
            mem[i]
        },
    )
}

/// `mem` with the `size` bytes at offset `vaddr` overwritten by `val`.
pub open spec fn fill_bytes(mem: Seq<u8>, vaddr: int, size: int, val: u8) -> Seq<u8>
    recommends
        vaddr + size <= mem.len(),
{
    Seq::new(
        mem.len(),
        |i: int| if vaddr <= i < vaddr + size {
            val
        } else {
            mem[i]
        },
    )
}

/// A growing write succeeds when its end offset fits in the DRAM length
/// that doubling up to the cap can reach.
pub open spec fn write_ok(len: nat, vaddr: int, size: int) -> bool {
    0 <= vaddr && 0 <= size && vaddr + size <= grown_len(len, vaddr + size)
}

/// The MMU state after a successful `perm_set(vaddr, size, perm)`.
pub open spec fn mmu_after_perm_set(v: MmuView, vaddr: int, size: int, perm: u8) -> MmuView {
    let nl = grown_len(v.dram.len(), vaddr + size);
    MmuView {
        dram: grow_bytes(v.dram, nl),
        perm: fill_bytes(grow_bytes(v.perm, nl), vaddr, size, perm),
    }
}

/// The MMU state after a successful `dram_write(vaddr, data)`.
pub open spec fn mmu_after_dram_write(v: MmuView, vaddr: int, data: Seq<u8>) -> MmuView {
    let nl = grown_len(v.dram.len(), vaddr + data.len());
    MmuView {
        dram: store_bytes(grow_bytes(v.dram, nl), vaddr, data),
        perm: grow_bytes(v.perm, nl),
    }
}

/// The MMU state after a successful `dram_set(val, vaddr, size)`.
pub open spec fn mmu_after_dram_set(v: MmuView, val: u8, vaddr: int, size: int) -> MmuView {
    let nl = grown_len(v.dram.len(), vaddr + size);
    MmuView {
        dram: fill_bytes(grow_bytes(v.dram, nl), vaddr, size, val),
        perm: grow_bytes(v.perm, nl),
    }
}

impl View for Mmu {
    type V = MmuView;

    closed spec fn view(&self) -> MmuView {
        MmuView { dram: self.dram@, perm: self.perm@ }
    }
}

impl Mmu {
    pub open spec fn wf(&self) -> bool {
        mmu_wf(self@)
    }

    /// A fresh MMU: DRAM of the initial length, all bytes zero, all
    /// permissions empty.
    pub fn new() -> (m: Mmu)
        ensures
            m.wf(),
            m@.dram =~= Seq::new(DRAM_SIZE_INITIAL as nat, |i: int| 0u8),
            m@.perm =~= Seq::new(DRAM_SIZE_INITIAL as nat, |i: int| 0u8),
    {
        Mmu { dram: zero_vec(DRAM_SIZE_INITIAL), perm: zero_vec(DRAM_SIZE_INITIAL) }
    }

    /// Read-only view of the permission bytes for `[vaddr, vaddr + size)`,
    /// wrapping circularly; never grows the region.
    pub fn perm_get(&self, vaddr: usize, size: usize) -> (r: Result<Vec<u8>, MmmuErr>)
        requires
            self.wf(),
        ensures
            read_ok(self@.perm.len(), vaddr as int, size as int) ==> (r matches Ok(b) && b@ == read_bytes(
                self@.perm,
                vaddr as int,
                size as int,
            )),
            !read_ok(self@.perm.len(), vaddr as int, size as int) ==> r == Err::<Vec<u8>, MmmuErr>(
                MmmuErr::IndexOutOfBounds(sat_end(vaddr, size)),
            ),
    {
        read_circular(&self.perm, vaddr, size)
    }

    /// Read-only view of the DRAM bytes for `[vaddr, vaddr + size)`,
    /// wrapping circularly; never grows the region and does not consult
    /// permissions.
    pub fn dram_read(&self, vaddr: usize, size: usize) -> (r: Result<Vec<u8>, MmmuErr>)
        requires
            self.wf(),
        ensures
            read_ok(self@.dram.len(), vaddr as int, size as int) ==> (r matches Ok(b) && b@ == read_bytes(
                self@.dram,
                vaddr as int,
                size as int,
            )),
            !read_ok(self@.dram.len(), vaddr as int, size as int) ==> r == Err::<Vec<u8>, MmmuErr>(
                MmmuErr::IndexOutOfBounds(sat_end(vaddr, size)),
            ),
    {
        read_circular(&self.dram, vaddr, size)
    }
    /// Overwrite the permission bytes for `[vaddr, vaddr + size)` with
    /// `perm`, growing the region as needed.
    pub fn perm_set(&mut self, vaddr: usize, size: usize, perm: u8) -> (r: Result<(), MmmuErr>)
        requires
            old(self).wf(),
        ensures
            final(self).wf(),
            write_ok(old(self)@.dram.len(), vaddr as int, size as int) ==> r is Ok && final(self)@
                == mmu_after_perm_set(old(self)@, vaddr as int, size as int, perm),
            !write_ok(old(self)@.dram.len(), vaddr as int, size as int) ==> r == Err::<(), MmmuErr>(
                MmmuErr::IndexOutOfBounds(sat_end(vaddr, size)),
            ) && final(self)@ == old(self)@,
    {
        self.ensure_capacity(vaddr, size)?;
        let ghost mid = self@;
        let mut i: usize = 0;
        while i < size
            invariant
                i <= size,
                vaddr + size <= self@.perm.len(),
                self@.perm.len() <= DRAM_SIZE_MAX,
                self@.dram == mid.dram,
                self@.perm.len() == mid.perm.len(),
                forall|j: int|
                    0 <= j < self@.perm.len() ==> self@.perm[j] == (if vaddr <= j < vaddr + i {
                        perm
                    } else {
                        mid.perm[j]
                    }),
            decreases size - i,
        {
            self.perm[vaddr + i] = perm;
            i = i + 1;
        }
        assert(self@.perm =~= fill_bytes(mid.perm, vaddr as int, size as int, perm));
        Ok(())
    }

    /// Copy `data` into DRAM at `vaddr`, growing the region as needed.
    pub fn dram_write(&mut self, vaddr: usize, data: &[u8]) -> (r: Result<(), MmmuErr>)
        requires
            old(self).wf(),
        ensures
            final(self).wf(),
            write_ok(old(self)@.dram.len(), vaddr as int, data@.len() as int) ==> r is Ok && final(self)@
                == mmu_after_dram_write(old(self)@, vaddr as int, data@),
            !write_ok(old(self)@.dram.len(), vaddr as int, data@.len() as int) ==> r == Err::<(), MmmuErr>(
                MmmuErr::IndexOutOfBounds(sat_end(vaddr, data@.len() as usize)),
            ) && final(self)@ == old(self)@,
    {
        self.ensure_capacity(vaddr, data.len())?;
        let ghost mid = self@;
        let size = data.len();
        let mut i: usize = 0;
        while i < size
            invariant
                i <= size,
                size == data@.len(),
                vaddr + size <= self@.dram.len(),
                self@.dram.len() <= DRAM_SIZE_MAX,
                self@.perm == mid.perm,
                self@.dram.len() == mid.dram.len(),
                forall|j: int|
                    0 <= j < self@.dram.len() ==> self@.dram[j] == (if vaddr <= j < vaddr + i {
                        data@[j - vaddr]
                    } else {
                        mid.dram[j]
                    }),
            decreases size - i,
        {
            self.dram[vaddr + i] = data[i];
            i = i + 1;
        }
        assert(self@.dram =~= store_bytes(mid.dram, vaddr as int, data@));
        Ok(())
    }

    /// Fill the `size` DRAM bytes at `vaddr` with `val`, growing the
    /// region as needed.
    pub fn dram_set(&mut self, val: u8, vaddr: usize, size: usize) -> (r: Result<(), MmmuErr>)
        requires
            old(self).wf(),
        ensures
            final(self).wf(),
            write_ok(old(self)@.dram.len(), vaddr as int, size as int) ==> r is Ok && final(self)@
                == mmu_after_dram_set(old(self)@, val, vaddr as int, size as int),
            !write_ok(old(self)@.dram.len(), vaddr as int, size as int) ==> r == Err::<(), MmmuErr>(
                MmmuErr::IndexOutOfBounds(sat_end(vaddr, size)),
            ) && final(self)@ == old(self)@,
    {
        self.ensure_capacity(vaddr, size)?;
        let ghost mid = self@;
        let mut i: usize = 0;
        while i < size
            invariant
                i <= size,
                vaddr + size <= self@.dram.len(),
                self@.dram.len() <= DRAM_SIZE_MAX,
                self@.perm == mid.perm,
                self@.dram.len() == mid.dram.len(),
                forall|j: int|
                    0 <= j < self@.dram.len() ==> self@.dram[j] == (if vaddr <= j < vaddr + i {
                        val
                    } else {
                        mid.dram[j]
                    }),
            decreases size - i,
        {
            self.dram[vaddr + i] = val;
            i = i + 1;
        }
        assert(self@.dram =~= fill_bytes(mid.dram, vaddr as int, size as int, val));
        Ok(())
    }

    /// Grow DRAM and the permission vector by doubling until the access
    /// ending at `vaddr + size` fits; fail without mutating when even the
    /// cap is too small.
    fn ensure_capacity(&mut self, vaddr: usize, size: usize) -> (r: Result<(), MmmuErr>)
        requires
            old(self).wf(),
        ensures
            final(self).wf(),
            write_ok(old(self)@.dram.len(), vaddr as int, size as int) ==> r is Ok && ({
                let nl = grown_len(old(self)@.dram.len(), vaddr + size);
                final(self)@.dram == grow_bytes(old(self)@.dram, nl) && final(self)@.perm == grow_bytes(
                    old(self)@.perm,
                    nl,
                ) && vaddr + size <= nl
            }),
            !write_ok(old(self)@.dram.len(), vaddr as int, size as int) ==> r == Err::<(), MmmuErr>(
                MmmuErr::IndexOutOfBounds(sat_end(vaddr, size)),
            ) && final(self)@ == old(self)@,
    {
        let len = self.dram.len();
        if vaddr > usize::MAX - size {
            // The end offset does not even fit in a `usize`; no growth can
            // reach it, since the cap is far below `usize::MAX`.
            proof {
                lemma_grown_len_bounds(len as nat, vaddr + size);
            }
            return Err(MmmuErr::IndexOutOfBounds(usize::MAX));
        }
        let end = vaddr + size;
        let mut nl = len;
        while end > nl && nl <= DRAM_SIZE_MAX / 2
            invariant
                DRAM_SIZE_INITIAL <= nl <= DRAM_SIZE_MAX,
                len <= nl,
                grown_len(len as nat, end as int) == grown_len(nl as nat, end as int),
            decreases DRAM_SIZE_MAX - nl,
        {
            nl = 2 * nl;
        }
        assert(grown_len(nl as nat, end as int) == nl);
        if end > nl {
            return Err(MmmuErr::IndexOutOfBounds(end));
        }
        proof {
            lemma_grown_len_bounds(len as nat, end as int);
        }
        if nl > len {
            grow_vec(&mut self.dram, nl);
            grow_vec(&mut self.perm, nl);
        } else {
            assert(self@.dram =~= grow_bytes(old(self)@.dram, nl as nat));
            assert(self@.perm =~= grow_bytes(old(self)@.perm, nl as nat));
        }
        Ok(())
    }
}

/// The length that growth can reach never passes the cap and never
/// shrinks, and it stays a doubling of the initial length.
pub proof fn lemma_grown_len_bounds(len: nat, end: int)
    requires
        0 < len <= DRAM_SIZE_MAX,
    ensures
        len <= grown_len(len, end) <= DRAM_SIZE_MAX,
        valid_dram_len(len) ==> valid_dram_len(grown_len(len, end)),
    decreases DRAM_SIZE_MAX - len,
{
    if end <= len {
    } else if 2 * len <= DRAM_SIZE_MAX {
        lemma_grown_len_bounds(2 * len, end);
    }
}

/// From a reachable DRAM length, growth covers any end offset up to the
/// cap: a growing write fails only past `DRAM_SIZE_MAX`.
pub proof fn lemma_grown_len_reaches(len: nat, end: int)
    requires
        valid_dram_len(len),
        end <= DRAM_SIZE_MAX,
    ensures
        end <= grown_len(len, end),
    decreases DRAM_SIZE_MAX - len,
{
    if end <= len {
    } else {
        lemma_grown_len_reaches(2 * len, end);
    }
}

/// Writing permission `perm` over an in-range region and then reading it
/// back yields `perm` repeated over the whole region.
pub proof fn lemma_perm_set_then_get(v: MmuView, vaddr: int, size: int, perm: u8)
    requires
        mmu_wf(v),
        write_ok(v.dram.len(), vaddr, size),
    ensures
        ({
            let v2 = mmu_after_perm_set(v, vaddr, size, perm);
            &&& read_ok(v2.perm.len(), vaddr, size)
            &&& read_bytes(v2.perm, vaddr, size) =~= Seq::new(size as nat, |i: int| perm)
        }),
{
    lemma_grown_len_bounds(v.dram.len(), vaddr + size);
}

/// Round trip: bytes written wholly below the cap are read back intact.
pub proof fn lemma_dram_write_then_read(v: MmuView, vaddr: int, data: Seq<u8>)
    requires
        mmu_wf(v),
        0 <= vaddr,
        vaddr + data.len() <= DRAM_SIZE_MAX,
    ensures
        write_ok(v.dram.len(), vaddr, data.len() as int),
        ({
            let v2 = mmu_after_dram_write(v, vaddr, data);
            &&& read_ok(v2.dram.len(), vaddr, data.len() as int)
            &&& read_bytes(v2.dram, vaddr, data.len() as int) =~= data
        }),
{
    lemma_grown_len_reaches(v.dram.len(), vaddr + data.len());
    lemma_grown_len_bounds(v.dram.len(), vaddr + data.len());
}

/// Circular addressing: a two-byte read starting at the last DRAM byte
/// yields that byte followed by the byte at address zero.
pub proof fn lemma_read_wraps_around(v: MmuView)
    requires
        mmu_wf(v),
    ensures
        read_ok(v.dram.len(), v.dram.len() - 1, 2),
        read_bytes(v.dram, v.dram.len() - 1, 2) =~= seq![
            v.dram[v.dram.len() - 1],
            v.dram[0],
        ],
{
}

/// Extend `v` with zero bytes to length `nl`.
fn grow_vec(v: &mut Vec<u8>, nl: usize)
    requires
        old(v)@.len() <= nl,
    ensures
        final(v)@ =~= grow_bytes(old(v)@, nl as nat),
{
    while v.len() < nl
        invariant
            old(v)@.len() <= v@.len() <= nl,
            v@ =~= grow_bytes(old(v)@, v@.len()),
        decreases nl - v@.len(),
    {
        v.push(0u8);
    }
}

/// A vector of `n` zero bytes.
fn zero_vec(n: usize) -> (v: Vec<u8>)
    ensures
        v@ =~= Seq::new(n as nat, |i: int| 0u8),
{
    let mut v: Vec<u8> = Vec::new();
    let mut i: usize = 0;
    while i < n
        invariant
            i <= n,
            v@ =~= Seq::new(i as nat, |j: int| 0u8),
        decreases n - i,
    {
        v.push(0u8);
        i = i + 1;
        assert(v@ =~= Seq::new(i as nat, |j: int| 0u8));
    }
    v
}

/// The circular read shared by `dram_read` and `perm_get`.
fn read_circular(mem: &Vec<u8>, vaddr: usize, size: usize) -> (r: Result<Vec<u8>, MmmuErr>)
    requires
        mem@.len() <= DRAM_SIZE_MAX,
    ensures
        read_ok(mem@.len(), vaddr as int, size as int) ==> (r matches Ok(b) && b@ == read_bytes(
            mem@,
            vaddr as int,
            size as int,
        )),
        !read_ok(mem@.len(), vaddr as int, size as int) ==> r == Err::<Vec<u8>, MmmuErr>(
            MmmuErr::IndexOutOfBounds(sat_end(vaddr, size)),
        ),
{
    let len = mem.len();
    let in_bounds = vaddr <= len && size <= len - vaddr;
    let wraps = vaddr < len && size <= len;
    if !in_bounds && !wraps {
        let e = if vaddr <= usize::MAX - size {
            vaddr + size
        } else {
            usize::MAX
        };
        return Err(MmmuErr::IndexOutOfBounds(e));
    }
    let mut out: Vec<u8> = Vec::new();
    let mut i: usize = 0;
    while i < size
        invariant
            i <= size,
            read_ok(mem@.len(), vaddr as int, size as int),
            len == mem@.len(),
            len <= DRAM_SIZE_MAX,
            out@.len() == i,
            forall|j: int| 0 <= j < i ==> out@[j] == mem@[wrap_index(mem@.len(), vaddr + j)],
        decreases size - i,
    {
        let mut idx = vaddr + i;
        if idx >= len {
            idx = idx - len;
        }
        out.push(mem[idx]);
        i = i + 1;
    }
    assert(out@ =~= read_bytes(mem@, vaddr as int, size as int));
    Ok(out)
}

} // verus!
