use vstd::prelude::*;

verus! {

/// The sixteen-key hexadecimal keypad.
#[derive(Debug)]
pub struct Keyboard {
    /// Whether each key 0 to F is held down.
    pub keys: [bool; 16],
    /// A key pressed during the current frame and not yet consumed.
    pub pressed_this_frame: Option<u8>,
}

impl Keyboard {
    /// No key held and none pressed.
    pub fn new() -> (k: Self)
        ensures
            forall|i: int| 0 <= i < 16 ==> !#[trigger] k.keys@[i],
            k.pressed_this_frame is None,
    {
        Keyboard { keys: [false; 16], pressed_this_frame: None }
    }

    /// Consumes the key pressed this frame: returns it, if any, and leaves
    /// none pending.
    pub fn just_pressed(&mut self) -> (key: Option<u8>)
        ensures
            key == old(self).pressed_this_frame,
            final(self).pressed_this_frame is None,
            final(self).keys == old(self).keys,
    {
        self.pressed_this_frame.take()
    }
}

impl Default for Keyboard {
    fn default() -> (k: Self)
        ensures
            forall|i: int| 0 <= i < 16 ==> !#[trigger] k.keys@[i],
            k.pressed_this_frame is None,
    {
        Keyboard::new()
    }
}

} // verus!
