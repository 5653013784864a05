use vstd::prelude::*;

verus! {

pub const CHIP8_WIDTH: u32 = 64;
pub const CHIP8_HEIGHT: u32 = 32;
pub const CHIP8_WINDOW_MULTIPLIER: u32 = 10;

/// Title and size in pixels of the window that shows the screen.
#[derive(Debug, Clone, Copy)]
pub struct WindowConfig {
    pub title: &'static str,
    pub width: u32,
    pub height: u32,
}

impl WindowConfig {
    pub fn new(title: &'static str, width: u32, height: u32) -> (r: Self)
        ensures
            r.title == title,
            r.width == width,
            r.height == height,
    {
        WindowConfig { title, width, height }
    }

    /// The screen scaled up ten times, under the title "CHIP-8 Emulator".
    pub fn default() -> (r: Self)
        ensures
            r.title@ == "CHIP-8 Emulator"@,
            r.width == CHIP8_WIDTH * CHIP8_WINDOW_MULTIPLIER,
            r.height == CHIP8_HEIGHT * CHIP8_WINDOW_MULTIPLIER,
    {
        WindowConfig {
            title: "CHIP-8 Emulator",
            width: CHIP8_WIDTH * CHIP8_WINDOW_MULTIPLIER,
            height: CHIP8_HEIGHT * CHIP8_WINDOW_MULTIPLIER,
        }
    }
}

} // verus!
