use memory_set::area::MemoryArea;
use memory_set::attr::MemoryAttr;
use memory_set::handler::{Linear, MemoryHandler};
use memory_set::paging::{Cpu, InactivePageTable, Translation, PAGE_SIZE};
use memory_set::remap::{remap_kernel, KernelLayout, MAX_DTB_SIZE};
use memory_set::MemorySet;

fn linear(offset: isize) -> MemoryHandler {
    MemoryHandler::Linear(Linear::new(offset))
}

#[test]
fn attr_default_and_toggles() {
    let a = MemoryAttr::new();
    assert!(!a.user && !a.readonly && !a.execute);
    assert!(a.is_writable());
    let t = MemoryAttr::new().set_execute().set_readonly();
    assert_eq!(t, MemoryAttr { user: false, readonly: true, execute: true });
    assert!(!t.is_writable());
    let u = MemoryAttr::new().set_user();
    assert_eq!(u, MemoryAttr { user: true, readonly: false, execute: false });
}

#[test]
fn overlapping_push_is_refused() {
    let mut ms = MemorySet::new(0x8020_0000);
    ms.push(10, 20, MemoryAttr::new(), linear(0));
    assert!(!ms.test_free_area(15, 25));
    assert!(!ms.test_free_area(0, 11));
    assert!(!ms.test_free_area(12, 13));
}

#[test]
fn touching_push_succeeds() {
    let mut ms = MemorySet::new(0x8020_0000);
    ms.push(10, 20, MemoryAttr::new(), linear(0));
    assert!(ms.test_free_area(20, 30));
    assert!(ms.test_free_area(0, 10));
    ms.push(20, 30, MemoryAttr::new(), linear(0));
    assert_eq!(ms.len(), 2);
    assert_eq!(ms.area(1).start(), 20);
    assert_eq!(ms.area(1).end(), 30);
}

#[test]
fn registered_areas_are_disjoint() {
    let mut ms = MemorySet::new(1);
    let ranges = [(0x3000usize, 0x5000usize), (0x1000, 0x3000), (0x5000, 0x5000 + 1), (0x9000, 0xa000)];
    for (s, e) in ranges {
        assert!(ms.test_free_area(s, e));
        ms.push(s, e, MemoryAttr::new(), linear(0));
    }
    for i in 0..ms.len() {
        for j in 0..ms.len() {
            if i != j {
                let (a, b) = (ms.area(i), ms.area(j));
                assert!(a.end() <= b.start() || b.end() <= a.start());
            }
        }
    }
}

#[test]
fn empty_range_is_free_between_areas() {
    let mut ms = MemorySet::new(1);
    ms.push(0, 0x1000, MemoryAttr::new(), linear(0));
    ms.push(0x1000, 0x2000, MemoryAttr::new(), linear(0));
    assert!(ms.test_free_area(0x1000, 0x1000));
    assert!(!ms.test_free_area(0x800, 0x1800));
}

#[test]
fn linear_push_maps_every_page_with_offset() {
    let mut ms = MemorySet::new(1);
    let attr = MemoryAttr::new().set_user();
    ms.push(0x1800, 0x3001, attr, linear(0x10_0000));
    for va in [0x2000usize, 0x3000] {
        assert_eq!(ms.translate(va), Some(Translation { target: va + 0x10_0000, attr }));
    }
    assert_eq!(ms.translate(0x1000), None);
    assert_eq!(ms.translate(0x0), None);
    assert_eq!(ms.translate(0x4000), None);
}

#[test]
fn unaligned_empty_region_maps_nothing() {
    let mut ms = MemorySet::new(1);
    ms.push(0x1800, 0x1800, MemoryAttr::new(), linear(0));
    assert_eq!(ms.len(), 1);
    assert_eq!(ms.translate(0x1000), None);
    assert_eq!(ms.translate(0x2000), None);
}

#[test]
fn touching_unaligned_regions_share_no_page() {
    let mut ms = MemorySet::new(1);
    ms.push(0x1000, 0x1800, MemoryAttr::new().set_readonly(), linear(0x100));
    ms.push(0x1800, 0x2000, MemoryAttr::new(), linear(0x200));
    let t = ms.translate(0x1000).unwrap();
    assert_eq!(t.target, 0x1100);
    assert_eq!(t.attr, MemoryAttr::new().set_readonly());
    assert_eq!(ms.translate(0x2000), None);
}

#[test]
fn linear_negative_offset_wraps() {
    let mut ms = MemorySet::new(1);
    ms.push(0x2000, 0x3000, MemoryAttr::new(), linear(-0x3000));
    let t = ms.translate(0x2000).unwrap();
    assert_eq!(t.target, 0usize.wrapping_sub(0x1000));
}

#[test]
fn area_unmap_removes_installed_entries() {
    let mut pt = InactivePageTable::new(9);
    pt.map_page(0x9000, Translation { target: 1, attr: MemoryAttr::new() });
    let area = MemoryArea::new(0x1000, 0x3000, linear(0x100), MemoryAttr::new());
    area.map(&mut pt);
    assert_eq!(pt.translate(0x1000).unwrap().target, 0x1100);
    assert_eq!(pt.translate(0x2000).unwrap().target, 0x2100);
    area.unmap(&mut pt);
    assert_eq!(pt.translate(0x1000), None);
    assert_eq!(pt.translate(0x2000), None);
    assert_eq!(pt.translate(0x9000).unwrap().target, 1);
}

#[test]
fn page_table_unmap_of_unmapped_page_is_harmless() {
    let mut pt = InactivePageTable::new(9);
    pt.unmap_page(0x5000);
    assert_eq!(pt.translate(0x5000), None);
    pt.map_page(0x5000, Translation { target: 7, attr: MemoryAttr::new() });
    pt.map_page(0x5000, Translation { target: 8, attr: MemoryAttr::new() });
    assert_eq!(pt.translate(0x5000).unwrap().target, 8);
    pt.unmap_page(0x5000);
    pt.unmap_page(0x5000);
    assert_eq!(pt.translate(0x5000), None);
}

#[test]
fn linear_does_not_handle_faults() {
    let mut pt = InactivePageTable::new(9);
    assert!(!linear(0).handle_page_fault(&mut pt, 0x1000));
}

#[test]
fn overlap_test_of_area() {
    let area = MemoryArea::new(10, 20, linear(0), MemoryAttr::new());
    assert!(area.is_overlap_with(15, 25));
    assert!(area.is_overlap_with(0, 11));
    assert!(!area.is_overlap_with(20, 30));
    assert!(!area.is_overlap_with(0, 10));
}

#[test]
fn token_is_stable() {
    let mut ms = MemorySet::new(0x8040_0000);
    assert_eq!(ms.token(), ms.token());
    assert_eq!(ms.token(), 0x8040_0000);
    ms.push(0, 0x1000, MemoryAttr::new(), linear(0));
    assert_eq!(ms.token(), 0x8040_0000);
}

#[test]
fn kernel_set_starts_empty() {
    let ms = MemorySet::new_kern(0x8060_0000);
    assert_eq!(ms.len(), 0);
    assert_eq!(ms.token(), 0x8060_0000);
    assert_eq!(ms.translate(0), None);
}

#[test]
fn activate_and_scoped_activation() {
    let a = MemorySet::new(11);
    let b = MemorySet::new(22);
    let mut cpu = Cpu { active: 0 };
    a.activate(&mut cpu);
    assert_eq!(cpu.active, 11);
    let mut runs = 0;
    let seen = b.with(&mut cpu, |c: &Cpu| {
        runs += 1;
        c.active
    });
    assert_eq!(runs, 1);
    assert_eq!(seen, 22);
    assert_eq!(cpu.active, 11);
}

fn layout() -> KernelLayout {
    KernelLayout {
        kernel_offset: 0xffff_ffff_c000_0000,
        memory_offset: 0x8000_0000,
        stext: 0xffff_ffff_c020_0000,
        etext: 0xffff_ffff_c020_4000,
        srodata: 0xffff_ffff_c020_4000,
        erodata: 0xffff_ffff_c020_6000,
        sdata: 0xffff_ffff_c020_6000,
        edata: 0xffff_ffff_c020_7000,
        bootstack: 0xffff_ffff_c020_7000,
        bootstacktop: 0xffff_ffff_c020_b000,
        sbss: 0xffff_ffff_c020_b000,
        ebss: 0xffff_ffff_c020_c000,
    }
}

#[test]
fn remap_kernel_registers_six_regions() {
    let l = layout();
    let dtb: usize = 0xffff_ffff_c300_0000;
    let mut cpu = Cpu { active: 0 };
    let ms = remap_kernel(&l, dtb, 0x8100_0000, &mut cpu);
    assert_eq!(cpu.active, 0x8100_0000);
    assert_eq!(ms.token(), 0x8100_0000);
    assert_eq!(ms.len(), 6);
    let expected = [
        (l.stext, l.etext, MemoryAttr::new().set_execute().set_readonly()),
        (l.srodata, l.erodata, MemoryAttr::new().set_readonly()),
        (l.sdata, l.edata, MemoryAttr::new()),
        (l.bootstack, l.bootstacktop, MemoryAttr::new()),
        (l.sbss, l.ebss, MemoryAttr::new()),
        (dtb, dtb + MAX_DTB_SIZE, MemoryAttr::new()),
    ];
    let offset: isize = 0xc000_0000;
    for (i, (s, e, attr)) in expected.iter().enumerate() {
        let a = ms.area(i);
        assert_eq!((a.start(), a.end(), a.attr()), (*s, *e, *attr));
        assert_eq!(*a.handler(), linear(offset));
        let mut va = *s;
        while va < *e {
            let t = ms.translate(va).unwrap();
            assert_eq!(t.target, va - 0xffff_ffff_c000_0000 + 0x8000_0000);
            assert_eq!(t.attr, *attr);
            va += PAGE_SIZE;
        }
    }
    assert_eq!(ms.translate(0xffff_ffff_c020_c000), None);
    assert_eq!(ms.translate(dtb + MAX_DTB_SIZE), None);
    assert_eq!(ms.translate(dtb).unwrap().target, 0x8300_0000);
}
