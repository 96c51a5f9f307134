//! A CHIP-8 virtual machine: memory with the built-in font, the CPU register
//! file and its primitive operations, the opcode decoder, the monochrome
//! framebuffer and the fetch-decode-execute engine that ties them together.
//!
//! Every operation is stated over a mathematical model (`Seq` views and the
//! `*View` structs) and proved against it.

pub mod chip8;
pub mod cpu;
pub mod display;
pub mod instructions;
pub mod keyboard;
pub mod memory;
