//! Physical-memory bootstrap and frame/page-table allocation for an x86-64
//! kernel: firmware memory discovery, a bootstrap bump allocator, a 4-level
//! page-table mapper, a power-of-two buddy frame allocator, and composition
//! of new address spaces from the live kernel mapping.

pub mod addr;
pub mod arch;
pub mod areas;
pub mod buddy;
pub mod bump;
pub mod entry;
pub mod frame;
pub mod lowmem;
pub mod mapper;
