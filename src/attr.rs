use vstd::prelude::*;

verus! {

/// Access rights of a memory region. Every region is readable; the default
/// is writable, kernel-only and not executable.
#[derive(Clone, Copy, Debug, PartialEq, Eq, Structural)]
pub struct MemoryAttr {
    pub user: bool,
    pub readonly: bool,
    pub execute: bool,
}

impl MemoryAttr {
    pub fn new() -> (r: MemoryAttr)
        ensures
            r == (MemoryAttr { user: false, readonly: false, execute: false }),
    {
        MemoryAttr { user: false, readonly: false, execute: false }
    }

    /// The same rights, reachable from user mode too.
    pub fn set_user(self) -> (r: MemoryAttr)
        ensures
            r == (MemoryAttr { user: true, ..self }),
    {
        MemoryAttr { user: true, ..self }
    }

    /// The same rights, without write access.
    pub fn set_readonly(self) -> (r: MemoryAttr)
        ensures
            r == (MemoryAttr { readonly: true, ..self }),
    {
        MemoryAttr { readonly: true, ..self }
    }

    /// The same rights, with execute access.
    pub fn set_execute(self) -> (r: MemoryAttr)
        ensures
            r == (MemoryAttr { execute: true, ..self }),
    {
        MemoryAttr { execute: true, ..self }
    }

    pub fn is_writable(&self) -> (r: bool)
        ensures
            r == !self.readonly,
    {
        !self.readonly
    }
}

} // verus!
