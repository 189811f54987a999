use vstd::prelude::*;
use crate::attr::MemoryAttr;

verus! {

pub const PAGE_SIZE: usize = 4096;

/// Where one virtual page leads, and with which rights.
#[derive(Clone, Copy, Debug, PartialEq, Eq, Structural)]
pub struct Translation {
    pub target: usize,
    pub attr: MemoryAttr,
}

#[derive(Clone, Copy, Debug)]
struct PageEntry {
    page: usize,
    translation: Translation,
}

/// The state of the executing core that this layer touches: the token of
/// the page table it currently translates through.
pub struct Cpu {
    pub active: usize,
}

/// A page table that is not (necessarily) the live one: a set of entries,
/// one per mapped virtual page, and the root address that names it.
pub struct InactivePageTable {
    root: usize,
    kernel_mapped: bool,
    entries: Vec<PageEntry>,
    mapping: Ghost<Map<usize, Translation>>,
}

impl InactivePageTable {
    /// The translation of each mapped virtual page.
    pub closed spec fn view(&self) -> Map<usize, Translation> {
        self.mapping@
    }

    pub closed spec fn spec_token(&self) -> usize {
        self.root
    }

    /// Whether the kernel's own mappings were installed.
    pub closed spec fn spec_kernel_mapped(&self) -> bool {
        self.kernel_mapped
    }

    pub closed spec fn wf(&self) -> bool {
        &&& forall|i: int, j: int|
            0 <= i < j < self.entries@.len() ==> self.entries@[i].page != self.entries@[j].page
        &&& forall|i: int|
            0 <= i < self.entries@.len() ==> {
                &&& self.mapping@.contains_key(#[trigger] self.entries@[i].page)
                &&& self.mapping@[self.entries@[i].page] == self.entries@[i].translation
            }
        &&& forall|k: usize|
            #[trigger] self.mapping@.contains_key(k) ==> exists|i: int|
                0 <= i < self.entries@.len() && self.entries@[i].page == k
    }

    /// An empty table whose root lies at `root`.
    pub fn new(root: usize) -> (r: InactivePageTable)
        ensures
            r.wf(),
            r@ == Map::<usize, Translation>::empty(),
            r.spec_token() == root,
            !r.spec_kernel_mapped(),
    {
        InactivePageTable { root, kernel_mapped: false, entries: Vec::new(), mapping: Ghost(Map::empty()) }
    }

    /// Installs the mappings that every kernel address space shares.
    pub fn map_kernel(&mut self)
        requires
            old(self).wf(),
        ensures
            final(self)@ == old(self)@,
            final(self).spec_token() == old(self).spec_token(),
            final(self).spec_kernel_mapped(),
            final(self).wf(),
    {
        self.kernel_mapped = true;
        proof {
            assert forall|k: usize| #[trigger] self.mapping@.contains_key(k) implies exists|j: int|
                0 <= j < self.entries@.len() && self.entries@[j].page == k by {
                let j = choose|j: int| 0 <= j < old(self).entries@.len() && old(self).entries@[j].page == k;
                assert(self.entries@[j].page == k);
            }
        }
    }

    /// Where the entry for `page` sits, if there is one.
    fn find(&self, page: usize) -> (r: Option<usize>)
        requires
            self.wf(),
        ensures
            match r {
                Some(i) => i < self.entries@.len() && self.entries@[i as int].page == page,
                None => !self@.contains_key(page),
            },
    {
        let mut i: usize = 0;
        while i < self.entries.len()
            invariant
                i <= self.entries@.len(),
                forall|j: int| 0 <= j < i ==> self.entries@[j].page != page,
            decreases self.entries@.len() - i,
        {
            if self.entries[i].page == page {
                return Some(i);
            }
            i = i + 1;
        }
        None
    }

    /// Makes `page` lead to `translation`, replacing what it led to before.
    pub fn map_page(&mut self, page: usize, translation: Translation)
        requires
            old(self).wf(),
        ensures
            final(self).wf(),
            final(self)@ == old(self)@.insert(page, translation),
            final(self).spec_token() == old(self).spec_token(),
            final(self).spec_kernel_mapped() == old(self).spec_kernel_mapped(),
    {
        let e = PageEntry { page, translation };
        let ghost before = self.entries@;
        let found = self.find(page);
        match found {
            Some(i) => {
                self.entries.set(i, e);
            },
            None => {
                self.entries.push(e);
            },
        }
        self.mapping = Ghost(self.mapping@.insert(page, translation));
        proof {
            let at: int = match found {
                Some(i) => i as int,
                None => before.len() as int,
            };
            assert(self.entries@[at] == e);
            assert forall|k: usize| #[trigger] self.mapping@.contains_key(k) implies exists|j: int|
                0 <= j < self.entries@.len() && self.entries@[j].page == k by {
                if k != page {
                    let j = choose|j: int| 0 <= j < before.len() && before[j].page == k;
                    assert(self.entries@[j].page == k);
                } else {
                    assert(self.entries@[at].page == k);
                }
            }
        }
    }

    /// Removes the entry of `page`; a page without one is left as it is.
    pub fn unmap_page(&mut self, page: usize)
        requires
            old(self).wf(),
        ensures
            final(self).wf(),
            final(self)@ == old(self)@.remove(page),
            final(self).spec_token() == old(self).spec_token(),
            final(self).spec_kernel_mapped() == old(self).spec_kernel_mapped(),
    {
        let ghost before = self.entries@;
        let found = self.find(page);
        match found {
            Some(i) => {
                self.entries.remove(i);
                assert(self.entries@ == before.remove(i as int));
            },
            None => {},
        }
        self.mapping = Ghost(self.mapping@.remove(page));
        proof {
            assert forall|a: int, b: int|
                0 <= a < b < self.entries@.len() implies self.entries@[a].page != self.entries@[b].page by {
                if let Some(i) = found {
                    let a0 = if a < i { a } else { a + 1 };
                    let b0 = if b < i { b } else { b + 1 };
                    assert(self.entries@[a] == before[a0]);
                    assert(self.entries@[b] == before[b0]);
                }
            }
            assert forall|a: int| 0 <= a < self.entries@.len() implies {
                &&& self.mapping@.contains_key(#[trigger] self.entries@[a].page)
                &&& self.mapping@[self.entries@[a].page] == self.entries@[a].translation
            } by {
                if let Some(i) = found {
                    let a0 = if a < i { a } else { a + 1 };
                    assert(self.entries@[a] == before[a0]);
                    assert(a0 != i);
                }
            }
            assert forall|k: usize| #[trigger] self.mapping@.contains_key(k) implies exists|j: int|
                0 <= j < self.entries@.len() && self.entries@[j].page == k by {
                let j = choose|j: int| 0 <= j < before.len() && before[j].page == k;
                if let Some(i) = found {
                    if j < i {
                        assert(self.entries@[j].page == k);
                    } else {
                        assert(j != i);
                        assert(self.entries@[j - 1].page == k);
                    }
                } else {
                    assert(self.entries@[j].page == k);
                }
            }
        }
    }

    /// Reads the entry of `page`.
    pub fn translate(&self, page: usize) -> (r: Option<Translation>)
        requires
            self.wf(),
        ensures
            r == (if self@.contains_key(page) { Some(self@[page]) } else { None::<Translation> }),
    {
        match self.find(page) {
            Some(i) => Some(self.entries[i].translation),
            None => None,
        }
    }

    /// Makes this table the one that `cpu` translates through.
    pub fn activate(&self, cpu: &mut Cpu)
        ensures
            final(cpu).active == self.spec_token(),
    {
        cpu.active = self.root;
    }

    /// Runs `f` once, handing it `cpu` with this table active, then makes
    /// the table that was active before live again when `f` returns.
    pub fn with<R, F: FnOnce(&Cpu) -> R>(&self, cpu: &mut Cpu, f: F) -> (r: R)
        requires
            f.requires((&Cpu { active: self.spec_token() },)),
        ensures
            f.ensures((&Cpu { active: self.spec_token() },), r),
            final(cpu).active == old(cpu).active,
    {
        let previous = cpu.active;
        cpu.active = self.root;
        let r = f(&*cpu);
        cpu.active = previous;
        r
    }

    /// The identifier by which the hardware names this table.
    pub fn token(&self) -> (r: usize)
        ensures
            r == self.spec_token(),
    {
        self.root
    }
}

} // verus!
