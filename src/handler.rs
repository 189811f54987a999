use vstd::prelude::*;
use crate::attr::MemoryAttr;
use crate::paging::{InactivePageTable, Translation};

verus! {

/// The physical address that `va` leads to under a fixed signed offset,
/// wrapping around the address space as the machine's addition does.
pub open spec fn linear_target(va: usize, offset: isize) -> usize {
    vstd::wrapping::usize_specs::wrapping_add_signed(va, offset)
}

/// Eager strategy: virtual address `v` is backed by physical address `v + offset`.
#[derive(Clone, Copy, Debug, PartialEq, Eq, Structural)]
pub struct Linear {
    pub offset: isize,
}

impl Linear {
    pub fn new(offset: isize) -> (r: Linear)
        ensures
            r.offset == offset,
    {
        Linear { offset }
    }
}

/// How the pages of a region are backed.
#[derive(Clone, Copy, Debug, PartialEq, Eq, Structural)]
pub enum MemoryHandler {
    Linear(Linear),
}

impl MemoryHandler {
    /// The physical address that this strategy gives to page `va`.
    pub open spec fn target(&self, va: usize) -> usize {
        match self {
            MemoryHandler::Linear(l) => linear_target(va, l.offset),
        }
    }

    /// Installs the entry of page `va`.
    pub fn map(&self, pt: &mut InactivePageTable, va: usize, attr: MemoryAttr)
        requires
            old(pt).wf(),
        ensures
            final(pt).wf(),
            final(pt)@ == old(pt)@.insert(va, Translation { target: self.target(va), attr }),
            final(pt).spec_token() == old(pt).spec_token(),
            final(pt).spec_kernel_mapped() == old(pt).spec_kernel_mapped(),
    {
        match self {
            MemoryHandler::Linear(l) => {
                let target = va.wrapping_add_signed(l.offset);
                pt.map_page(va, Translation { target, attr });
            },
        }
    }

    /// Removes the entry of page `va`, if it has one.
    pub fn unmap(&self, pt: &mut InactivePageTable, va: usize)
        requires
            old(pt).wf(),
        ensures
            final(pt).wf(),
            final(pt)@ == old(pt)@.remove(va),
            final(pt).spec_token() == old(pt).spec_token(),
            final(pt).spec_kernel_mapped() == old(pt).spec_kernel_mapped(),
    {
        match self {
            MemoryHandler::Linear(_) => {
                pt.unmap_page(va);
            },
        }
    }

    /// Tries to resolve a fault at `addr`; a linear region is mapped whole
    /// when it is registered, so it has nothing to add.
    pub fn handle_page_fault(&self, pt: &mut InactivePageTable, addr: usize) -> (r: bool)
        ensures
            *final(pt) == *old(pt),
            r == match self {
                MemoryHandler::Linear(_) => false,
            },
    {
        match self {
            MemoryHandler::Linear(_) => false,
        }
    }
}

} // verus!
