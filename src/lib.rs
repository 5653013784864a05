pub mod chip;
pub mod config;
pub mod instruction;
pub mod keyboard;
pub mod screen;

pub use chip::{Chip8, LOAD_ADDRESS, MEMORY_CAPACITY, TOTAL_STACK_DEPTH};
pub use config::WindowConfig;
pub use instruction::{decode, Instruction};
pub use keyboard::{Chip8Key, Keyboard};
pub use screen::Screen;
