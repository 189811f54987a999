pub mod area;
pub mod attr;
pub mod handler;
pub mod paging;
pub mod remap;

use vstd::prelude::*;
use crate::area::{MemoryArea, ranges_overlap};
use crate::attr::MemoryAttr;
use crate::handler::MemoryHandler;
use crate::paging::{Cpu, InactivePageTable, Translation};

verus! {

/// An address space: regions of virtual memory, no two of which share an
/// address, and the page table that realises them.
pub struct MemorySet {
    areas: Vec<MemoryArea>,
    page_table: InactivePageTable,
}

impl MemorySet {
    /// The regions, in the order they were registered.
    pub closed spec fn spec_areas(&self) -> Seq<MemoryArea> {
        self.areas@
    }

    /// The translation of each mapped page of the page table.
    pub closed spec fn spec_table(&self) -> Map<usize, Translation> {
        self.page_table@
    }

    pub closed spec fn spec_token(&self) -> usize {
        self.page_table.spec_token()
    }

    pub closed spec fn spec_kernel_mapped(&self) -> bool {
        self.page_table.spec_kernel_mapped()
    }

    pub closed spec fn wf(&self) -> bool {
        &&& self.page_table.wf()
        &&& forall|i: int|
            0 <= i < self.areas@.len() ==> (#[trigger] self.areas@[i]).spec_start()
                <= self.areas@[i].spec_end()
        &&& forall|i: int, j: int|
            0 <= i < self.areas@.len() && 0 <= j < self.areas@.len() && i != j ==> !ranges_overlap(
                #[trigger] self.areas@[i].spec_start(),
                self.areas@[i].spec_end(),
                #[trigger] self.areas@[j].spec_start(),
                self.areas@[j].spec_end(),
            )
    }

    /// Whether `[start, end)` shares no address with a registered region.
    pub open spec fn is_free(&self, start: usize, end: usize) -> bool {
        forall|i: int|
            0 <= i < self.spec_areas().len() ==> !ranges_overlap(
                #[trigger] self.spec_areas()[i].spec_start(),
                self.spec_areas()[i].spec_end(),
                start,
                end,
            )
    }

    /// An empty address space over a fresh page table rooted at `root`.
    pub fn new(root: usize) -> (r: MemorySet)
        ensures
            r.wf(),
            r.spec_areas().len() == 0,
            r.spec_table() == Map::<usize, Translation>::empty(),
            r.spec_token() == root,
            !r.spec_kernel_mapped(),
    {
        MemorySet { areas: Vec::new(), page_table: InactivePageTable::new(root) }
    }

    /// An empty address space whose page table, rooted at `root`, holds the
    /// kernel's own mappings.
    pub fn new_kern(root: usize) -> (r: MemorySet)
        ensures
            r.wf(),
            r.spec_areas().len() == 0,
            r.spec_table() == Map::<usize, Translation>::empty(),
            r.spec_token() == root,
            r.spec_kernel_mapped(),
    {
        let mut table = InactivePageTable::new(root);
        table.map_kernel();
        MemorySet { areas: Vec::new(), page_table: table }
    }

    /// Registers `[start, end)` with rights `attr`, backed as `handler` says,
    /// and maps its pages.
    pub fn push(&mut self, start: usize, end: usize, attr: MemoryAttr, handler: MemoryHandler)
        requires
            old(self).wf(),
            start <= end,
            old(self).is_free(start, end),
        ensures
            final(self).wf(),
            final(self).spec_areas().len() == old(self).spec_areas().len() + 1,
            forall|i: int|
                0 <= i < old(self).spec_areas().len() ==> final(self).spec_areas()[i]
                    == old(self).spec_areas()[i],
            final(self).spec_areas().last().spec_start() == start,
            final(self).spec_areas().last().spec_end() == end,
            final(self).spec_areas().last().spec_attr() == attr,
            final(self).spec_areas().last().spec_handler() == handler,
            final(self).spec_table() == final(self).spec_areas().last().mapped_over(
                old(self).spec_table(),
            ),
            final(self).spec_token() == old(self).spec_token(),
            final(self).spec_kernel_mapped() == old(self).spec_kernel_mapped(),
    {
        let area = MemoryArea::new(start, end, handler, attr);
        area.map(&mut self.page_table);
        self.areas.push(area);
        proof {
            let n = self.areas@.len() - 1;
            assert forall|i: int, j: int|
                0 <= i < self.areas@.len() && 0 <= j < self.areas@.len() && i != j implies !ranges_overlap(
                #[trigger] self.areas@[i].spec_start(),
                self.areas@[i].spec_end(),
                #[trigger] self.areas@[j].spec_start(),
                self.areas@[j].spec_end(),
            ) by {
                if i == n {
                    assert(old(self).spec_areas()[j] == self.areas@[j]);
                } else if j == n {
                    assert(old(self).spec_areas()[i] == self.areas@[i]);
                } else {
                    assert(old(self).spec_areas()[i] == self.areas@[i]);
                    assert(old(self).spec_areas()[j] == self.areas@[j]);
                }
            }
        }
    }

    /// Whether `[start_addr, end_addr)` shares no address with a registered region.
    pub fn test_free_area(&self, start_addr: usize, end_addr: usize) -> (r: bool)
        ensures
            r == self.is_free(start_addr, end_addr),
    {
        let mut i: usize = 0;
        while i < self.areas.len()
            invariant
                i <= self.areas@.len(),
                forall|j: int|
                    0 <= j < i ==> !ranges_overlap(
                        #[trigger] self.areas@[j].spec_start(),
                        self.areas@[j].spec_end(),
                        start_addr,
                        end_addr,
                    ),
            decreases self.areas@.len() - i,
        {
            if self.areas[i].is_overlap_with(start_addr, end_addr) {
                assert(ranges_overlap(
                    self.spec_areas()[i as int].spec_start(),
                    self.spec_areas()[i as int].spec_end(),
                    start_addr,
                    end_addr,
                ));
                return false;
            }
            i = i + 1;
        }
        true
    }

    /// The number of registered regions.
    pub fn len(&self) -> (r: usize)
        ensures
            r == self.spec_areas().len(),
    {
        self.areas.len()
    }

    /// The region registered `i`-th.
    pub fn area(&self, i: usize) -> (r: &MemoryArea)
        requires
            i < self.spec_areas().len(),
        ensures
            *r == self.spec_areas()[i as int],
    {
        &self.areas[i]
    }

    /// Reads the page table's entry for page `va`.
    pub fn translate(&self, va: usize) -> (r: Option<Translation>)
        requires
            self.wf(),
        ensures
            r == (if self.spec_table().contains_key(va) {
                Some(self.spec_table()[va])
            } else {
                None::<Translation>
            }),
    {
        self.page_table.translate(va)
    }

    /// Makes this address space the one that `cpu` translates through.
    pub fn activate(&self, cpu: &mut Cpu)
        ensures
            final(cpu).active == self.spec_token(),
    {
        self.page_table.activate(cpu);
    }

    /// Runs `f` once inside this address space: it is handed `cpu` with
    /// this space active. When `f` returns, the space that was active before
    /// is made live again.
    pub fn with<R, F: FnOnce(&Cpu) -> R>(&self, cpu: &mut Cpu, f: F) -> (r: R)
        requires
            f.requires((&Cpu { active: self.spec_token() },)),
        ensures
            f.ensures((&Cpu { active: self.spec_token() },), r),
            final(cpu).active == old(cpu).active,
    {
        self.page_table.with(cpu, f)
    }

    /// The identifier by which the hardware names this address space; it
    /// depends on the address space alone.
    pub fn token(&self) -> (r: usize)
        ensures
            r == self.spec_token(),
    {
        self.page_table.token()
    }
}

/// Registered regions never share an address: of two distinct ones, one
/// ends at or before the other starts.
pub proof fn lemma_areas_disjoint(ms: &MemorySet, i: int, j: int)
    requires
        ms.wf(),
        0 <= i < ms.spec_areas().len(),
        0 <= j < ms.spec_areas().len(),
        i != j,
    ensures
        ms.spec_areas()[i].spec_end() <= ms.spec_areas()[j].spec_start()
            || ms.spec_areas()[j].spec_end() <= ms.spec_areas()[i].spec_start(),
{
}

} // verus!
