//! Core of a freestanding text-mode kernel: a VGA text display driver that
//! keeps an in-range cursor position synchronized with the CRT controller,
//! and bit-exact construction of flat x86 segment descriptors.

pub mod gdt;
pub mod terminal;
