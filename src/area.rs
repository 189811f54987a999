use vstd::prelude::*;
use crate::attr::MemoryAttr;
use crate::handler::MemoryHandler;
use crate::paging::{InactivePageTable, Translation, PAGE_SIZE};

verus! {

/// Whether `[s1, e1)` and `[s2, e2)` share an address.
pub open spec fn ranges_overlap(s1: usize, e1: usize, s2: usize, e2: usize) -> bool {
    s1 < e2 && s2 < e1
}

/// Whether `va` is a page-aligned address in `[start, end)`: one of the
/// pages of that range.
pub open spec fn covers(start: usize, end: usize, va: usize) -> bool {
    va % PAGE_SIZE == 0 && start <= va && va < end
}

proof fn lemma_page_bounds(p: usize, end: usize, stop: usize)
    requires
        stop == end / PAGE_SIZE + (if end % PAGE_SIZE != 0 { 1usize } else { 0usize }),
    ensures
        (p < stop) == ((p as int) * (PAGE_SIZE as int) < end as int),
{
    assert((p < stop) == ((p as int) * 4096 < end as int)) by (nonlinear_arith)
        requires
            stop == end / 4096 + (if end % 4096 != 0 { 1usize } else { 0usize }),
    ;
}

/// A contiguous range of virtual memory with one set of rights and one
/// backing strategy, which it owns.
pub struct MemoryArea {
    start: usize,
    end: usize,
    handler: MemoryHandler,
    attr: MemoryAttr,
}

impl MemoryArea {
    pub closed spec fn spec_start(&self) -> usize {
        self.start
    }

    pub closed spec fn spec_end(&self) -> usize {
        self.end
    }

    pub closed spec fn spec_handler(&self) -> MemoryHandler {
        self.handler
    }

    pub closed spec fn spec_attr(&self) -> MemoryAttr {
        self.attr
    }

    /// The table `pt` with every page of this area led to where its strategy says.
    pub open spec fn mapped_over(&self, pt: Map<usize, Translation>) -> Map<usize, Translation> {
        Map::new(
            |va: usize| pt.contains_key(va) || covers(self.spec_start(), self.spec_end(), va),
            |va: usize|
                if covers(self.spec_start(), self.spec_end(), va) {
                    Translation { target: self.spec_handler().target(va), attr: self.spec_attr() }
                } else {
                    pt[va]
                },
        )
    }

    /// The table `pt` without the pages of this area.
    pub open spec fn unmapped_from(&self, pt: Map<usize, Translation>) -> Map<usize, Translation> {
        pt.restrict(pt.dom().filter(|va: usize| !covers(self.spec_start(), self.spec_end(), va)))
    }

    pub fn new(start: usize, end: usize, handler: MemoryHandler, attr: MemoryAttr) -> (r: MemoryArea)
        ensures
            r.spec_start() == start,
            r.spec_end() == end,
            r.spec_handler() == handler,
            r.spec_attr() == attr,
    {
        MemoryArea { start, end, handler, attr }
    }

    pub fn start(&self) -> (r: usize)
        ensures
            r == self.spec_start(),
    {
        self.start
    }

    pub fn end(&self) -> (r: usize)
        ensures
            r == self.spec_end(),
    {
        self.end
    }

    pub fn attr(&self) -> (r: MemoryAttr)
        ensures
            r == self.spec_attr(),
    {
        self.attr
    }

    pub fn handler(&self) -> (r: &MemoryHandler)
        ensures
            *r == self.spec_handler(),
    {
        &self.handler
    }

    /// Whether this area and `[start_addr, end_addr)` share an address;
    /// ranges that only touch do not.
    pub fn is_overlap_with(&self, start_addr: usize, end_addr: usize) -> (r: bool)
        ensures
            r == ranges_overlap(self.spec_start(), self.spec_end(), start_addr, end_addr),
    {
        self.start < end_addr && start_addr < self.end
    }

    /// Installs, through the strategy, the entry of every page of this area.
    pub fn map(&self, pt: &mut InactivePageTable)
        requires
            old(pt).wf(),
        ensures
            final(pt).wf(),
            final(pt)@ == self.mapped_over(old(pt)@),
            final(pt).spec_token() == old(pt).spec_token(),
            final(pt).spec_kernel_mapped() == old(pt).spec_kernel_mapped(),
    {
        let first: usize = self.start / PAGE_SIZE + if self.start % PAGE_SIZE != 0 { 1 } else { 0 };
        let stop: usize = self.end / PAGE_SIZE + if self.end % PAGE_SIZE != 0 { 1 } else { 0 };
        let mut p: usize = first;
        while p < stop
            invariant
                pt.wf(),
                pt.spec_token() == old(pt).spec_token(),
                pt.spec_kernel_mapped() == old(pt).spec_kernel_mapped(),
                first == self.start / PAGE_SIZE + (if self.start % PAGE_SIZE != 0 { 1usize } else { 0usize }),
                stop == self.end / PAGE_SIZE + (if self.end % PAGE_SIZE != 0 { 1usize } else { 0usize }),
                first <= p || stop <= p,
                forall|va: usize|
                    pt@.contains_key(va) == (old(pt)@.contains_key(va) || (va % PAGE_SIZE == 0
                        && first <= va / PAGE_SIZE < p && va < self.end)),
                forall|va: usize|
                    #[trigger] pt@.contains_key(va) ==> pt@[va] == if va % PAGE_SIZE == 0 && first
                        <= va / PAGE_SIZE < p && va < self.end {
                        Translation { target: self.handler.target(va), attr: self.attr }
                    } else {
                        old(pt)@[va]
                    },
            decreases stop - p,
        {
            proof {
                lemma_page_bounds(p, self.end, stop);
            }
            let va: usize = p * PAGE_SIZE;
            assert(va % PAGE_SIZE == 0 && va / PAGE_SIZE == p);
            self.handler.map(pt, va, self.attr);
            p = p + 1;
        }
        proof {
            assert forall|va: usize| #[trigger] (va % PAGE_SIZE) == 0 && va / PAGE_SIZE >= stop implies va >= self.end by {
                lemma_page_bounds((va / PAGE_SIZE) as usize, self.end, stop);
                assert(va == (va / PAGE_SIZE) * 4096);
            }
            assert forall|va: usize| #[trigger] (va % PAGE_SIZE) == 0 implies (first <= va / PAGE_SIZE) == (
            self.start <= va) by {
                lemma_page_bounds((va / PAGE_SIZE) as usize, self.start, first);
                assert(va == (va / PAGE_SIZE) * 4096);
            }
            assert(pt@ =~= self.mapped_over(old(pt)@));
        }
    }

    /// Removes, through the strategy, the entry of every page of this area.
    pub fn unmap(&self, pt: &mut InactivePageTable)
        requires
            old(pt).wf(),
        ensures
            final(pt).wf(),
            final(pt)@ == self.unmapped_from(old(pt)@),
            final(pt).spec_token() == old(pt).spec_token(),
            final(pt).spec_kernel_mapped() == old(pt).spec_kernel_mapped(),
    {
        let first: usize = self.start / PAGE_SIZE + if self.start % PAGE_SIZE != 0 { 1 } else { 0 };
        let stop: usize = self.end / PAGE_SIZE + if self.end % PAGE_SIZE != 0 { 1 } else { 0 };
        let mut p: usize = first;
        while p < stop
            invariant
                pt.wf(),
                pt.spec_token() == old(pt).spec_token(),
                pt.spec_kernel_mapped() == old(pt).spec_kernel_mapped(),
                first == self.start / PAGE_SIZE + (if self.start % PAGE_SIZE != 0 { 1usize } else { 0usize }),
                stop == self.end / PAGE_SIZE + (if self.end % PAGE_SIZE != 0 { 1usize } else { 0usize }),
                first <= p || stop <= p,
                forall|va: usize|
                    pt@.contains_key(va) == (old(pt)@.contains_key(va) && !(va % PAGE_SIZE == 0
                        && first <= va / PAGE_SIZE < p && va < self.end)),
                forall|va: usize| #[trigger] pt@.contains_key(va) ==> pt@[va] == old(pt)@[va],
            decreases stop - p,
        {
            proof {
                lemma_page_bounds(p, self.end, stop);
            }
            let va: usize = p * PAGE_SIZE;
            assert(va % PAGE_SIZE == 0 && va / PAGE_SIZE == p);
            self.handler.unmap(pt, va);
            p = p + 1;
        }
        proof {
            assert forall|va: usize| #[trigger] (va % PAGE_SIZE) == 0 && va / PAGE_SIZE >= stop implies va >= self.end by {
                lemma_page_bounds((va / PAGE_SIZE) as usize, self.end, stop);
                assert(va == (va / PAGE_SIZE) * 4096);
            }
            assert forall|va: usize| #[trigger] (va % PAGE_SIZE) == 0 implies (first <= va / PAGE_SIZE) == (
            self.start <= va) by {
                lemma_page_bounds((va / PAGE_SIZE) as usize, self.start, first);
                assert(va == (va / PAGE_SIZE) * 4096);
            }
            assert(pt@ =~= self.unmapped_from(old(pt)@));
        }
    }
}

/// Under a linear strategy with offset `o`, mapping an area leads each of its
/// pages to that page plus `o` (wrapping, and exactly the sum where it is an
/// address), and unmapping it afterwards removes exactly
/// what the mapping installed: the table is as if the area had never been
/// mapped, but for the entries that the area's pages held before.
pub proof fn lemma_linear_map_unmap(area: &MemoryArea, o: isize, pt: Map<usize, Translation>)
    requires
        area.spec_handler() == MemoryHandler::Linear(crate::handler::Linear { offset: o }),
    ensures
        forall|va: usize|
            covers(area.spec_start(), area.spec_end(), va) ==> {
                &&& #[trigger] area.mapped_over(pt).contains_key(va)
                &&& area.mapped_over(pt)[va] == (Translation {
                    target: crate::handler::linear_target(va, o),
                    attr: area.spec_attr(),
                })
            },
        forall|va: usize|
            covers(area.spec_start(), area.spec_end(), va) && 0 <= va + o <= usize::MAX
                ==> #[trigger] area.mapped_over(pt)[va].target == va + o,
        area.unmapped_from(area.mapped_over(pt)) == area.unmapped_from(pt),
{
    assert(area.unmapped_from(area.mapped_over(pt)) =~= area.unmapped_from(pt));
}

} // verus!
