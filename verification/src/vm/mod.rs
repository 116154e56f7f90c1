//! The virtual machine: its word store, register file, instruction set and
//! fetch-decode-execute loop.
pub mod memory;
pub mod registers;
pub mod instructions;
pub mod trap;
pub mod vm;
pub mod webvm;
