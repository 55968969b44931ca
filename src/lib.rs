//! A CHIP-8 interpreter: machine state, instruction semantics and the tick
//! driver, each step proved against an abstract model of the machine.
pub mod cartridge;
pub mod keymap;
pub mod laws;
pub mod model;
pub mod processor;

pub use cartridge::CartridgeDriver;
pub use model::{Fault, LoadError, CHIP8_HEIGHT, CHIP8_WIDTH};
pub use processor::{Output, Processor};
