//! A user-space ELF dynamic linker whose decision logic is verified: the ELF
//! object model over byte images, breadth-first dependency ordering, the
//! relocation engine, lazy binding and the static TLS layout.
pub mod page;
pub mod utils;
pub mod elf;
pub mod rela;
pub mod strtab;
pub mod link_info;
pub mod tls;
pub mod image;
pub mod gdb;
pub mod auxv;
pub mod kernel_block;
pub mod config;
pub mod loader;
pub mod relocation;
pub mod linker;
