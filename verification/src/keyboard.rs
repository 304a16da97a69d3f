//! The input latch: at most one currently pressed hex key, set by the host.
use vstd::prelude::*;

verus! {

/// Holds the key code most recently latched by the host, or `None` when no
/// key is pressed. The CPU only reads it, except for the wait-for-key
/// operation, which consumes the latched value.
pub struct Keyboard {
    key_pressed: Option<u8>,
}

impl View for Keyboard {
    type V = Option<u8>;

    closed spec fn view(&self) -> Option<u8> {
        self.key_pressed
    }
}

impl Keyboard {
    /// A fresh latch holds no key.
    pub fn new() -> (r: Keyboard)
        ensures
            r@ == None::<u8>,
    {
        Keyboard { key_pressed: None }
    }

    /// A key counts as pressed exactly when it is the latched key.
    pub fn is_key_pressed(&self, key_code: u8) -> (r: bool)
        ensures
            r == (self@ == Some(key_code)),
    {
        match self.key_pressed {
            Some(latched) => latched == key_code,
            None => false,
        }
    }

    pub fn set_key_pressed(&mut self, key_code: Option<u8>)
        ensures
            final(self)@ == key_code,
    {
        self.key_pressed = key_code;
    }

    pub fn get_key_pressed(&self) -> (r: Option<u8>)
        ensures
            r == self@,
    {
        self.key_pressed
    }
}

} // verus!
