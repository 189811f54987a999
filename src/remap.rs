use vstd::prelude::*;
use crate::area::{covers, ranges_overlap};
use crate::attr::MemoryAttr;
use crate::handler::{linear_target, Linear, MemoryHandler};
use crate::paging::Cpu;
use crate::MemorySet;

verus! {

/// The most bytes that a device-tree blob may take.
pub const MAX_DTB_SIZE: usize = 0x2000;

/// Where the kernel was linked and loaded: its virtual and physical bases
/// and the bounds of each of its sections.
#[derive(Clone, Copy, Debug)]
pub struct KernelLayout {
    pub kernel_offset: usize,
    pub memory_offset: usize,
    pub stext: usize,
    pub etext: usize,
    pub srodata: usize,
    pub erodata: usize,
    pub sdata: usize,
    pub edata: usize,
    pub bootstack: usize,
    pub bootstacktop: usize,
    pub sbss: usize,
    pub ebss: usize,
}

/// Physical base minus virtual base, taken modulo the size of the address
/// space and read as a signed word.
pub open spec fn layout_offset(layout: KernelLayout) -> isize {
    let d: int = layout.memory_offset - layout.kernel_offset;
    if d > isize::MAX {
        (d - (usize::MAX + 1)) as isize
    } else if d < isize::MIN {
        (d + (usize::MAX + 1)) as isize
    } else {
        d as isize
    }
}

/// The regions of the kernel's address space, in order: text, read-only
/// data, data, boot stack, bss and the device-tree blob at `dtb`.
pub open spec fn kernel_ranges(layout: KernelLayout, dtb: usize) -> Seq<(usize, usize)> {
    seq![
        (layout.stext, layout.etext),
        (layout.srodata, layout.erodata),
        (layout.sdata, layout.edata),
        (layout.bootstack, layout.bootstacktop),
        (layout.sbss, layout.ebss),
        (dtb, (dtb + MAX_DTB_SIZE) as usize),
    ]
}

/// The rights of each region of `kernel_ranges`.
pub open spec fn kernel_attrs() -> Seq<MemoryAttr> {
    let rw = MemoryAttr { user: false, readonly: false, execute: false };
    seq![
        MemoryAttr { user: false, readonly: true, execute: true },
        MemoryAttr { user: false, readonly: true, execute: false },
        rw,
        rw,
        rw,
        rw,
    ]
}

/// The ranges are ordered and no two of them share an address.
pub open spec fn ranges_valid(r: Seq<(usize, usize)>) -> bool {
    &&& forall|i: int| 0 <= i < r.len() ==> (#[trigger] r[i]).0 <= r[i].1
    &&& forall|i: int, j: int|
        0 <= i < r.len() && 0 <= j < r.len() && i != j ==> !ranges_overlap(
            (#[trigger] r[i]).0,
            r[i].1,
            (#[trigger] r[j]).0,
            r[j].1,
        )
}

/// Builds the kernel's address space over a page table rooted at `root`
/// that holds the shared kernel mappings. Each region is mapped linearly by
/// physical base minus virtual base. The space is then made the one that
/// `cpu` translates through.
pub fn remap_kernel(layout: &KernelLayout, dtb: usize, root: usize, cpu: &mut Cpu) -> (r: MemorySet)
    requires
        dtb + MAX_DTB_SIZE <= usize::MAX,
        ranges_valid(kernel_ranges(*layout, dtb)),
    ensures
        r.wf(),
        r.spec_token() == root,
        r.spec_kernel_mapped(),
        final(cpu).active == root,
        r.spec_areas().len() == 6,
        forall|i: int|
            0 <= i < 6 ==> {
                &&& (#[trigger] r.spec_areas()[i]).spec_start() == kernel_ranges(*layout, dtb)[i].0
                &&& r.spec_areas()[i].spec_end() == kernel_ranges(*layout, dtb)[i].1
                &&& r.spec_areas()[i].spec_attr() == kernel_attrs()[i]
                &&& r.spec_areas()[i].spec_handler() == MemoryHandler::Linear(
                    Linear { offset: layout_offset(*layout) },
                )
            },
        forall|va: usize|
            #[trigger] r.spec_table().contains_key(va) == exists|i: int|
                0 <= i < 6 && covers(
                    kernel_ranges(*layout, dtb)[i].0,
                    kernel_ranges(*layout, dtb)[i].1,
                    va,
                ),
        forall|va: usize|
            #[trigger] r.spec_table().contains_key(va) ==> r.spec_table()[va].target
                == linear_target(va, layout_offset(*layout)),
        forall|i: int, va: usize|
            0 <= i < 6 && #[trigger] covers(
                kernel_ranges(*layout, dtb)[i].0,
                kernel_ranges(*layout, dtb)[i].1,
                va,
            ) ==> r.spec_table()[va].attr == kernel_attrs()[i],
        forall|va: usize|
            #[trigger] r.spec_table().contains_key(va) && 0 <= va + layout_offset(*layout)
                <= usize::MAX ==> r.spec_table()[va].target == va + layout_offset(*layout),
{
    let d: usize = layout.memory_offset.wrapping_sub(layout.kernel_offset);
    let offset: isize = if d <= isize::MAX as usize {
        d as isize
    } else {
        -((usize::MAX - d) as isize) - 1
    };
    assert(offset == layout_offset(*layout));
    let ghost ranges = kernel_ranges(*layout, dtb);
    let ghost h = MemoryHandler::Linear(Linear { offset });
    let mut memset = MemorySet::new_kern(root);
    memset.push(
        layout.stext,
        layout.etext,
        MemoryAttr::new().set_execute().set_readonly(),
        MemoryHandler::Linear(Linear::new(offset)),
    );
    assert(ranges[0] == (layout.stext, layout.etext));
    assert(ranges[1] == (layout.srodata, layout.erodata));
    memset.push(
        layout.srodata,
        layout.erodata,
        MemoryAttr::new().set_readonly(),
        MemoryHandler::Linear(Linear::new(offset)),
    );
    assert(ranges[2] == (layout.sdata, layout.edata));
    memset.push(layout.sdata, layout.edata, MemoryAttr::new(), MemoryHandler::Linear(Linear::new(offset)));
    assert(ranges[3] == (layout.bootstack, layout.bootstacktop));
    memset.push(
        layout.bootstack,
        layout.bootstacktop,
        MemoryAttr::new(),
        MemoryHandler::Linear(Linear::new(offset)),
    );
    assert(ranges[4] == (layout.sbss, layout.ebss));
    memset.push(layout.sbss, layout.ebss, MemoryAttr::new(), MemoryHandler::Linear(Linear::new(offset)));
    assert(ranges[5] == (dtb, (dtb + MAX_DTB_SIZE) as usize));
    memset.push(dtb, dtb + MAX_DTB_SIZE, MemoryAttr::new(), MemoryHandler::Linear(Linear::new(offset)));
    memset.activate(cpu);
    memset
}

} // verus!
