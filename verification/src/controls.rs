//! Which camera keys are held down.

use vstd::prelude::*;

verus! {

/// A key that moves or turns the camera.
#[derive(Clone, Copy, PartialEq, Eq, Structural, Debug, Hash)]
pub enum CameraKey {
    Forward,
    Left,
    Backward,
    Right,
    Up,
    Down,
    RotateRight,
    RotateLeft,
}

/// For each camera key, whether it is held down.
#[derive(Clone, Copy, PartialEq, Eq, Structural, Debug)]
pub struct PressedKeys {
    is_forward_pressed: bool,
    is_backward_pressed: bool,
    is_left_pressed: bool,
    is_right_pressed: bool,
    is_space_pressed: bool,
    is_shift_pressed: bool,
    is_rotate_right_pressed: bool,
    is_rotate_left_pressed: bool,
}

impl PressedKeys {
    /// Whether `key` is held down.
    pub closed spec fn spec_is_pressed(&self, key: CameraKey) -> bool {
        match key {
            CameraKey::Forward => self.is_forward_pressed,
            CameraKey::Left => self.is_left_pressed,
            CameraKey::Backward => self.is_backward_pressed,
            CameraKey::Right => self.is_right_pressed,
            CameraKey::Up => self.is_space_pressed,
            CameraKey::Down => self.is_shift_pressed,
            CameraKey::RotateRight => self.is_rotate_right_pressed,
            CameraKey::RotateLeft => self.is_rotate_left_pressed,
        }
    }

    /// No key is held down.
    pub fn new() -> (keys: Self)
        ensures
            forall|key: CameraKey| !keys.spec_is_pressed(key),
    {
        PressedKeys {
            is_forward_pressed: false,
            is_backward_pressed: false,
            is_left_pressed: false,
            is_right_pressed: false,
            is_space_pressed: false,
            is_shift_pressed: false,
            is_rotate_right_pressed: false,
            is_rotate_left_pressed: false,
        }
    }

    /// Whether `key` is held down.
    #[verifier::when_used_as_spec(spec_is_pressed)]
    pub fn is_pressed(&self, key: CameraKey) -> (pressed: bool)
        ensures
            pressed == self.spec_is_pressed(key),
    {
        match key {
            CameraKey::Forward => self.is_forward_pressed,
            CameraKey::Left => self.is_left_pressed,
            CameraKey::Backward => self.is_backward_pressed,
            CameraKey::Right => self.is_right_pressed,
            CameraKey::Up => self.is_space_pressed,
            CameraKey::Down => self.is_shift_pressed,
            CameraKey::RotateRight => self.is_rotate_right_pressed,
            CameraKey::RotateLeft => self.is_rotate_left_pressed,
        }
    }

    /// Takes note that a key went down or up. A key that is no camera key
    /// changes nothing and is not handled; a camera key is handled, and it
    /// alone changes.
    pub fn process_key(&mut self, key: Option<CameraKey>, pressed: bool) -> (handled: bool)
        ensures
            handled == key is Some,
            key matches Some(k) ==> final(self).is_pressed(k) == pressed && forall|o: CameraKey|
                o != k ==> final(self).is_pressed(o) == old(self).is_pressed(o),
            key is None ==> *final(self) == *old(self),
    {
        match key {
            Some(CameraKey::Forward) => {
                self.is_forward_pressed = pressed;
                true
            },
            Some(CameraKey::Left) => {
                self.is_left_pressed = pressed;
                true
            },
            Some(CameraKey::Backward) => {
                self.is_backward_pressed = pressed;
                true
            },
            Some(CameraKey::Right) => {
                self.is_right_pressed = pressed;
                true
            },
            Some(CameraKey::Up) => {
                self.is_space_pressed = pressed;
                true
            },
            Some(CameraKey::Down) => {
                self.is_shift_pressed = pressed;
                true
            },
            Some(CameraKey::RotateRight) => {
                self.is_rotate_right_pressed = pressed;
                true
            },
            Some(CameraKey::RotateLeft) => {
                self.is_rotate_left_pressed = pressed;
                true
            },
            None => false,
        }
    }
}

} // verus!
