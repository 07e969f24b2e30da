//! An instruction-level interpreter for the CHIP-8 virtual machine.
//!
//! The crate holds the machine itself: the 4096-byte memory with its
//! built-in font, the 64x32 framebuffer with its XOR sprite blit, the
//! instruction decoder and the fetch/decode/execute cycle. Windowing,
//! keyboard polling and file access belong to the host program, which
//! hands the machine a ROM image and, for every cycle, the keypad state.

pub mod chip8;
pub mod display;
pub mod instruction;
pub mod keypad;
pub mod laws;
pub mod machine;
pub mod ram;

pub use self::chip8::Chip8;
pub use self::display::Display;
pub use self::instruction::{decode, Instruction};
pub use self::keypad::{keymap, HostKey, Keypad};
pub use self::machine::Chip8Error;
pub use self::ram::Ram;
