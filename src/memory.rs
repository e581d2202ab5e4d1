use vstd::prelude::*;

verus! {

/// Size in bytes of one physical frame.
pub const FRAME_SIZE: u64 = 4096;

/// Classification of a region of the physical memory map.
#[derive(Clone, Copy, Debug, PartialEq, Eq, Structural)]
pub enum RegionKind {
    Usable,
    Reserved,
    Other,
}

/// One entry of the physical memory map: the addresses `start..end`.
#[derive(Clone, Copy, Debug, PartialEq, Eq, Structural)]
pub struct MemoryRegion {
    pub start: u64,
    pub end: u64,
    pub kind: RegionKind,
}

/// A 4 KiB physical frame, named by its (aligned) start address.
#[derive(Clone, Copy, Debug, PartialEq, Eq, Structural)]
pub struct PhysFrame {
    pub start: u64,
}

/// Start address of the frame that contains `addr`.
pub open spec fn frame_start(addr: u64) -> u64 {
    (addr - addr % 4096) as u64
}

/// How many addresses `start, start + 4096, ...` lie below `end`.
pub open spec fn region_frame_count(r: MemoryRegion) -> nat {
    if r.start < r.end {
        ((r.end - r.start - 1) / 4096 + 1) as nat
    } else {
        0
    }
}

/// The frames of one region, stepping through it by the frame size.
pub open spec fn region_frames(r: MemoryRegion) -> Seq<u64> {
    Seq::new(region_frame_count(r), |k: int| frame_start((r.start + k * 4096) as u64))
}

/// The usable frames of a memory map, region by region, in map order.
pub open spec fn usable_frames(rs: Seq<MemoryRegion>) -> Seq<u64>
    decreases rs.len(),
{
    if rs.len() == 0 {
        seq![]
    } else {
        usable_frames(rs.drop_last()) + if rs.last().kind == RegionKind::Usable {
            region_frames(rs.last())
        } else {
            seq![]
        }
    }
}

/// Abstract state of a frame allocator: the map and how many frames were handed out.
pub struct FrameAllocatorView {
    pub regions: Seq<MemoryRegion>,
    pub next: nat,
}

/// What one allocation returns, from a given state.
pub open spec fn allocation_result(v: FrameAllocatorView) -> Option<PhysFrame> {
    if v.next < usize::MAX && v.next < usable_frames(v.regions).len() {
        Some(PhysFrame { start: usable_frames(v.regions)[v.next as int] })
    } else {
        None
    }
}

/// The state after one allocation: the cursor moves past a frame handed out.
pub open spec fn allocation_next(v: FrameAllocatorView) -> FrameAllocatorView {
    FrameAllocatorView {
        regions: v.regions,
        next: if allocation_result(v) is Some { v.next + 1 } else { v.next },
    }
}

/// Hands out the usable frames of a physical memory map, one after another.
pub struct BootInfoFrameAllocator {
    memory_map: Vec<MemoryRegion>,
    next: usize,
}

impl View for BootInfoFrameAllocator {
    type V = FrameAllocatorView;

    closed spec fn view(&self) -> FrameAllocatorView {
        FrameAllocatorView { regions: self.memory_map@, next: self.next as nat }
    }
}

proof fn lemma_take_succ(rs: Seq<MemoryRegion>, i: int)
    requires
        0 <= i < rs.len(),
    ensures
        usable_frames(rs.take(i + 1)) == usable_frames(rs.take(i)) + if rs[i].kind
            == RegionKind::Usable {
            region_frames(rs[i])
        } else {
            seq![]
        },
{
    assert(rs.take(i + 1).drop_last() =~= rs.take(i));
}

/// Number of frames in region `r`, computed without overflow.
fn frame_count(r: &MemoryRegion) -> (n: u64)
    ensures
        n == region_frame_count(*r),
{
    if r.start < r.end {
        (r.end - r.start - 1) / FRAME_SIZE + 1
    } else {
        0
    }
}

/// The `k`-th frame of region `r`.
fn frame_at(r: &MemoryRegion, k: u64) -> (f: PhysFrame)
    requires
        k < region_frame_count(*r),
    ensures
        f.start == region_frames(*r)[k as int],
{
    assert(k * 4096 <= r.end - r.start - 1) by (nonlinear_arith)
        requires
            k <= (r.end - r.start - 1) / 4096,
            r.start < r.end,
    ;
    let addr: u64 = r.start + k * FRAME_SIZE;
    PhysFrame { start: addr - addr % FRAME_SIZE }
}

impl BootInfoFrameAllocator {
    /// Creates an allocator over `memory_map`, with no frame handed out yet.
    ///
    /// The caller vouches that every region marked usable is really free memory.
    pub fn init(memory_map: Vec<MemoryRegion>) -> (r: Self)
        ensures
            r@.regions == memory_map@,
            r@.next == 0,
    {
        BootInfoFrameAllocator { memory_map, next: 0 }
    }

    /// The `n`-th usable frame of the map, if the map has that many.
    fn nth_usable_frame(&self, n: usize) -> (r: Option<PhysFrame>)
        ensures
            r == if n < usable_frames(self@.regions).len() {
                Some(PhysFrame { start: usable_frames(self@.regions)[n as int] })
            } else {
                None::<PhysFrame>
            },
    {
        let ghost rs = self.memory_map@;
        let mut remaining: u64 = n as u64;
        let mut i: usize = 0;
        proof {
            assert(rs.take(0).len() == 0);
        }
        while i < self.memory_map.len()
            invariant
                rs == self.memory_map@,
                i <= rs.len(),
                usable_frames(rs.take(i as int)).len() + remaining == n,
            decreases rs.len() - i,
        {
            let region = &self.memory_map[i];
            proof {
                lemma_take_succ(rs, i as int);
            }
            if region.kind == RegionKind::Usable {
                let count = frame_count(region);
                if remaining < count {
                    let f = frame_at(region, remaining);
                    proof {
                        lemma_usable_frames_prefix(rs, i as int + 1);
                    }
                    return Some(f);
                }
                remaining = remaining - count;
            }
            i = i + 1;
        }
        proof {
            assert(rs.take(rs.len() as int) =~= rs);
        }
        None
    }

    /// Hands out the next usable frame, in map order, or `None` once all are gone.
    pub fn allocate_frame(&mut self) -> (r: Option<PhysFrame>)
        ensures
            r == allocation_result(old(self)@),
            final(self)@ == allocation_next(old(self)@),
    {
        if self.next == usize::MAX {
            return None;
        }
        let frame = self.nth_usable_frame(self.next);
        if frame.is_some() {
            self.next = self.next + 1;
        }
        frame
    }
}

/// The usable frames of a prefix of the map are a prefix of those of the whole map.
proof fn lemma_usable_frames_prefix(rs: Seq<MemoryRegion>, i: int)
    requires
        0 <= i <= rs.len(),
    ensures
        usable_frames(rs.take(i)).len() <= usable_frames(rs).len(),
        forall|j: int|
            0 <= j < usable_frames(rs.take(i)).len() ==> usable_frames(rs.take(i))[j]
                == usable_frames(rs)[j],
    decreases rs.len() - i,
{
    if i == rs.len() {
        assert(rs.take(i) =~= rs);
    } else {
        lemma_take_succ(rs, i);
        lemma_usable_frames_prefix(rs, i + 1);
    }
}

/// Whether `addr` is accepted as a virtual address: bits 47 to 63 are all clear,
/// all set, or only bit 47 is set (then it is sign-extended).
pub open spec fn virt_addr_accepted(addr: u64) -> bool {
    let top = addr >> 47u64;
    top == 0 || top == 0x1ffff || top == 1
}

/// The canonical form of an accepted virtual address: bit 47 copied into bits 48 to 63.
pub open spec fn canonical_virt_addr(addr: u64) -> u64 {
    if addr >> 47u64 == 1 {
        addr | 0xffff_0000_0000_0000u64
    } else {
        addr
    }
}

/// Virtual address at which the level-4 page table in `table_frame` is seen, when all
/// physical memory is mapped at `phys_mem_offset`; `None` when that address is out of
/// the virtual address space.
pub fn lvl_4_tbl_virt_addr(phys_mem_offset: u64, table_frame: PhysFrame) -> (r: Option<u64>)
    ensures
        r == if phys_mem_offset + table_frame.start <= u64::MAX && virt_addr_accepted(
            (phys_mem_offset + table_frame.start) as u64,
        ) {
            Some(canonical_virt_addr((phys_mem_offset + table_frame.start) as u64))
        } else {
            None::<u64>
        },
{
    if phys_mem_offset > u64::MAX - table_frame.start {
        return None;
    }
    let addr: u64 = phys_mem_offset + table_frame.start;
    let top: u64 = addr >> 47u64;
    if top == 0 || top == 0x1ffff {
        Some(addr)
    } else if top == 1 {
        Some(addr | 0xffff_0000_0000_0000u64)
    } else {
        None
    }
}

/// The state after `n` allocations starting from `v`.
pub open spec fn state_after(v: FrameAllocatorView, n: nat) -> FrameAllocatorView
    decreases n,
{
    if n == 0 {
        v
    } else {
        allocation_next(state_after(v, (n - 1) as nat))
    }
}

/// A fresh allocator hands out the usable frames of its map in map order, one per
/// call, and then returns nothing.
pub proof fn lemma_allocations_in_order(v: FrameAllocatorView, n: nat)
    requires
        v.next == 0,
        usable_frames(v.regions).len() < usize::MAX,
        n <= usable_frames(v.regions).len(),
    ensures
        state_after(v, n).regions == v.regions,
        state_after(v, n).next == n,
        n < usable_frames(v.regions).len() ==> allocation_result(state_after(v, n)) == Some(
            PhysFrame { start: usable_frames(v.regions)[n as int] },
        ),
        n == usable_frames(v.regions).len() ==> allocation_result(state_after(v, n)) is None,
    decreases n,
{
    if n > 0 {
        lemma_allocations_in_order(v, (n - 1) as nat);
    }
}

} // verus!
