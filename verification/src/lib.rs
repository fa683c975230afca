//! An emulator of the Universal Machine: a 32-bit, word-oriented virtual
//! machine with eight registers, a segmented memory and fourteen operations.
//!
//! [`state`] holds the machine and one function for each operation,
//! [`memory`] the segments and their identifiers, [`rumdis`] the instruction
//! decoder and the execution cycle, and [`load`] the reader of program
//! images. The machine performs no input or output of its own: the cycle
//! tells its caller which byte to write or that a byte is to be read.

pub mod fault;
pub mod load;
pub mod memory;
pub mod rumdis;
pub mod state;
