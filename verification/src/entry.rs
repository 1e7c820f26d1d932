//! Raw page-table entry bit patterns and the flag builder.
//!
//! The encoding is uniform across all four table levels: presence,
//! writability, user accessibility, cache policy and no-execute are bits of
//! one 64-bit word; bits 12..=51 carry the frame address.

use vstd::prelude::*;

use crate::addr::PhysAddr;

verus! {

/// The entry maps something.
pub const ENTRY_FLAG_PRESENT: u64 = 0x1;

/// The mapping is writable.
pub const ENTRY_FLAG_READWRITE: u64 = 0x2;

/// The mapping is reachable from user mode.
pub const ENTRY_FLAG_USER: u64 = 0x4;

/// Write-through caching.
pub const ENTRY_FLAG_WRITE_THROUGH: u64 = 0x8;

/// Caching disabled.
pub const ENTRY_FLAG_CACHE_DISABLE: u64 = 0x10;

/// Execution forbidden (the XD bit); usable only when the capability probe
/// found the no-execute-enable bit set.
pub const ENTRY_FLAG_NO_EXEC: u64 = 0x8000_0000_0000_0000;

/// Default flags of a leaf (page) entry.
pub const ENTRY_FLAG_DEFAULT_PAGE: u64 = 0x1;

/// Default flags of an intermediate (table) entry.
pub const ENTRY_FLAG_DEFAULT_TABLE: u64 = 0x3;

/// Bits 12..=51 of an entry: the physical frame address.
pub const ENTRY_ADDR_MASK: u64 = 0x000f_ffff_ffff_f000;

/// True when the entry's present bit is set.
pub open spec fn entry_present(e: u64) -> bool {
    e & ENTRY_FLAG_PRESENT == ENTRY_FLAG_PRESENT
}

/// The frame address carried by an entry.
pub open spec fn entry_address(e: u64) -> u64 {
    e & ENTRY_ADDR_MASK
}

/// The bit pattern of a leaf entry mapping `paddr` with `flags`, always
/// carrying the default page flag.
pub open spec fn leaf_entry(paddr: u64, flags: u64) -> u64 {
    (paddr & ENTRY_ADDR_MASK) | flags | ENTRY_FLAG_DEFAULT_PAGE
}

/// A page-protection flag set under construction, bound to the outcome of
/// the no-execute capability probe.
#[derive(Clone, Copy, Debug, PartialEq, Eq, Structural)]
pub struct PageFlags {
    /// The accumulated flag bits.
    pub data: u64,
    /// When true, the XD bit is reserved on this machine and must stay
    /// clear whatever `set_execute` asks for.
    pub no_exec_reserved: bool,
}

impl PageFlags {
    /// A fresh flag set holding only the default page flag.
    pub fn new(no_exec_reserved: bool) -> (r: Self)
        ensures
            r.data == ENTRY_FLAG_DEFAULT_PAGE,
            r.no_exec_reserved == no_exec_reserved,
    {
        PageFlags { data: ENTRY_FLAG_DEFAULT_PAGE, no_exec_reserved }
    }

    pub fn set_write(self, value: bool) -> (r: Self)
        ensures
            r.no_exec_reserved == self.no_exec_reserved,
            r.data == if value {
                self.data | ENTRY_FLAG_READWRITE
            } else {
                self.data & !ENTRY_FLAG_READWRITE
            },
    {
        if value {
            PageFlags { data: self.data | ENTRY_FLAG_READWRITE, ..self }
        } else {
            PageFlags { data: self.data & !ENTRY_FLAG_READWRITE, ..self }
        }
    }

    pub fn set_user(self, value: bool) -> (r: Self)
        ensures
            r.no_exec_reserved == self.no_exec_reserved,
            r.data == if value {
                self.data | ENTRY_FLAG_USER
            } else {
                self.data & !ENTRY_FLAG_USER
            },
    {
        if value {
            PageFlags { data: self.data | ENTRY_FLAG_USER, ..self }
        } else {
            PageFlags { data: self.data & !ENTRY_FLAG_USER, ..self }
        }
    }

    /// Sets or clears the no-execute bit; on a machine whose probe found
    /// the XD bit reserved the flags are returned unchanged.
    pub fn set_execute(self, value: bool) -> (r: Self)
        ensures
            r.no_exec_reserved == self.no_exec_reserved,
            r.data == if self.no_exec_reserved {
                self.data
            } else if value {
                self.data & !ENTRY_FLAG_NO_EXEC
            } else {
                self.data | ENTRY_FLAG_NO_EXEC
            },
    {
        if self.no_exec_reserved {
            self
        } else if value {
            PageFlags { data: self.data & !ENTRY_FLAG_NO_EXEC, ..self }
        } else {
            PageFlags { data: self.data | ENTRY_FLAG_NO_EXEC, ..self }
        }
    }

    pub fn data(self) -> (r: u64)
        ensures
            r == self.data,
    {
        self.data
    }
}

/// One raw page-table entry.
#[derive(Clone, Copy, Debug, PartialEq, Eq, Structural)]
pub struct PageEntry {
    pub data: u64,
}

impl PageEntry {
    /// An empty (not-present) entry.
    pub fn empty() -> (r: Self)
        ensures
            r.data == 0,
            !entry_present(r.data),
    {
        proof {
            assert(0u64 & 0x1u64 != 0x1u64) by (bit_vector);
        }
        PageEntry { data: 0 }
    }

    /// A leaf entry mapping `paddr` with `flags`.
    pub fn new(paddr: PhysAddr, flags: PageFlags) -> (r: Self)
        ensures
            r.data == leaf_entry(paddr.spec_data(), flags.data),
    {
        PageEntry { data: (paddr.data() & ENTRY_ADDR_MASK) | flags.data | ENTRY_FLAG_DEFAULT_PAGE }
    }

    pub fn from_data(data: u64) -> (r: Self)
        ensures
            r.data == data,
    {
        PageEntry { data }
    }

    pub fn data(self) -> (r: u64)
        ensures
            r == self.data,
    {
        self.data
    }

    pub fn present(self) -> (r: bool)
        ensures
            r == entry_present(self.data),
    {
        self.data & ENTRY_FLAG_PRESENT == ENTRY_FLAG_PRESENT
    }

    /// The physical frame address the entry carries.
    pub fn address(self) -> (r: PhysAddr)
        ensures
            r.spec_data() == entry_address(self.data),
    {
        PhysAddr::new(self.data & ENTRY_ADDR_MASK)
    }
}

} // verus!
