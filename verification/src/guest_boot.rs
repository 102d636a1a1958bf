//! Guest boot: ELF images, the boot info blob builder and its parser.

pub mod boot_info;
pub mod elf;
pub mod parse;
pub mod smoke;
