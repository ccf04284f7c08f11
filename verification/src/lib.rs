//! The core of a Game Boy frontend: the command-line debugger's state
//! machine, its command and address parsing, the text it writes, the
//! disassembler, and the screen and keyboard mappings.
pub mod command;
pub mod debug;
pub mod display;
pub mod hex;
pub mod memory;
pub mod opcodes;
