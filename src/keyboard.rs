use vstd::prelude::*;

verus! {

/// The sixteen keys of the hexadecimal keypad, listed in keypad layout order.
#[derive(Debug, Clone, Copy, PartialEq, Eq, Structural)]
pub enum Chip8Key {
    Key1,
    Key2,
    Key3,
    KeyC,
    Key4,
    Key5,
    Key6,
    KeyD,
    Key7,
    Key8,
    Key9,
    KeyE,
    KeyA,
    Key0,
    KeyB,
    KeyF,
}

impl Chip8Key {
    /// The hexadecimal digit that names the key.
    pub open spec fn spec_value(self) -> u8 {
        match self {
            Chip8Key::Key0 => 0x0,
            Chip8Key::Key1 => 0x1,
            Chip8Key::Key2 => 0x2,
            Chip8Key::Key3 => 0x3,
            Chip8Key::Key4 => 0x4,
            Chip8Key::Key5 => 0x5,
            Chip8Key::Key6 => 0x6,
            Chip8Key::Key7 => 0x7,
            Chip8Key::Key8 => 0x8,
            Chip8Key::Key9 => 0x9,
            Chip8Key::KeyA => 0xA,
            Chip8Key::KeyB => 0xB,
            Chip8Key::KeyC => 0xC,
            Chip8Key::KeyD => 0xD,
            Chip8Key::KeyE => 0xE,
            Chip8Key::KeyF => 0xF,
        }
    }

    pub fn value(self) -> (r: u8)
        ensures
            r == self.spec_value(),
            r < 16,
    {
        match self {
            Chip8Key::Key0 => 0x0,
            Chip8Key::Key1 => 0x1,
            Chip8Key::Key2 => 0x2,
            Chip8Key::Key3 => 0x3,
            Chip8Key::Key4 => 0x4,
            Chip8Key::Key5 => 0x5,
            Chip8Key::Key6 => 0x6,
            Chip8Key::Key7 => 0x7,
            Chip8Key::Key8 => 0x8,
            Chip8Key::Key9 => 0x9,
            Chip8Key::KeyA => 0xA,
            Chip8Key::KeyB => 0xB,
            Chip8Key::KeyC => 0xC,
            Chip8Key::KeyD => 0xD,
            Chip8Key::KeyE => 0xE,
            Chip8Key::KeyF => 0xF,
        }
    }
}

/// Up/down state of each key, indexed by the key's digit, and the latch of
/// the key pressed last (cleared when a key is released).
pub struct Keyboard {
    pub keys: [bool; 16],
    pub last_key: Option<Chip8Key>,
}

impl Keyboard {
    /// Whether the key whose digit is `value` is held down; no key has a
    /// digit of 16 or more.
    pub open spec fn spec_is_down(&self, value: int) -> bool {
        0 <= value < 16 && self.keys@[value]
    }

    pub fn new() -> (r: Self)
        ensures
            forall|k: int| 0 <= k < 16 ==> !r.keys@[k],
            r.last_key.is_none(),
    {
        Keyboard { keys: [false; 16], last_key: None }
    }

    pub fn key_down(&mut self, key: Chip8Key)
        ensures
            final(self).keys@ == old(self).keys@.update(key.spec_value() as int, true),
            final(self).last_key == Some(key),
    {
        let k = key.value();
        self.keys[k as usize] = true;
        self.last_key = Some(key);
    }

    pub fn key_up(&mut self, key: Chip8Key)
        ensures
            final(self).keys@ == old(self).keys@.update(key.spec_value() as int, false),
            final(self).last_key.is_none(),
    {
        let k = key.value();
        self.keys[k as usize] = false;
        self.last_key = None;
    }

    pub fn is_key_down(&self, key: Chip8Key) -> (r: bool)
        ensures
            r == self.spec_is_down(key.spec_value() as int),
    {
        let k = key.value();
        self.keys[k as usize]
    }

    /// Whether the key whose digit is `value` is held down.
    pub fn is_value_down(&self, value: u8) -> (r: bool)
        ensures
            r == self.spec_is_down(value as int),
    {
        value < 16 && self.keys[value as usize]
    }
}

} // verus!
