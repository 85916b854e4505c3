//! A CHIP-8 / SUPER-CHIP virtual machine whose behaviour is stated and proved with Verus.
use vstd::prelude::*;

pub mod builder;
pub mod chip_8;
pub mod emu_err;
pub mod framebuffer;
pub mod instruction;
pub mod lemmas;
pub mod machine;
pub mod memory;
pub mod stack;

pub use builder::Chip8Builder;
pub use chip_8::Chip8;
pub use emu_err::EmuErr;
pub use framebuffer::Framebuffer;
pub use instruction::Instruction;
pub use machine::{Machine, Quirks};
pub use memory::{Memory, VReg};
pub use stack::Stack;
