//! A CHIP-8 virtual machine: instruction decoding, the interpreter state and
//! its transitions, the monochrome framebuffer, and the decisions of the
//! fixed-rate runtime loop that a host drives.

pub mod screen;
pub mod opcode;
pub mod device;
pub mod runtime;
