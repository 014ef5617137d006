//! The sixteen-key input latch.
//!
//! A snapshot of physical key-down state, refreshed wholesale by the caller:
//! the latch keeps no timers and no history of its own.

use vstd::prelude::*;

verus! {

/// The hexadecimal keypad: keys 0 through F, each either down or up.
pub struct Keypad {
    state: [bool; 16],
}

/// The single way a keypad operation can fail.
#[derive(Debug, Clone, Copy, PartialEq, Eq, Structural)]
pub enum KeypadError {
    /// The key index is outside 0..=15.
    NoSuchKey,
}

impl Keypad {
    /// Whether the key numbered `key` is currently down.
    pub closed spec fn pressed(self, key: int) -> bool {
        self.state[key]
    }

    /// Whether some key is currently down.
    pub open spec fn some_pressed(self) -> bool {
        exists|k: int| 0 <= k < 16 && self.pressed(k)
    }

    /// Create a latch with every key up.
    pub fn new() -> (r: Keypad)
        ensures
            forall|k: int| 0 <= k < 16 ==> !r.pressed(k),
    {
        Keypad { state: [false;16] }
    }

    /// Record that a key went down (`state` true) or up (`state` false).
    ///
    /// Rejects key indices outside 0..=15 and changes nothing for them.
    pub fn set_key_state(&mut self, key: u8, state: bool) -> (r: Result<(), KeypadError>)
        ensures
            r is Ok <==> key <= 15,
            key <= 15 ==> forall|k: int|
                0 <= k < 16 ==> final(self).pressed(k) == (if k == key {
                    state
                } else {
                    old(self).pressed(k)
                }),
            key > 15 ==> *final(self) == *old(self) && r == Err::<(), KeypadError>(
                KeypadError::NoSuchKey,
            ),
    {
        if key > 0xF {
            return Err(KeypadError::NoSuchKey);
        }
        self.state[key as usize] = state;
        Ok(())
    }

    /// Whether the key numbered `key` is down.
    ///
    /// Rejects key indices outside 0..=15.
    pub fn is_pressed(&self, key: u8) -> (r: Result<bool, KeypadError>)
        ensures
            key <= 15 ==> r == Ok::<bool, KeypadError>(self.pressed(key as int)),
            key > 15 ==> r == Err::<bool, KeypadError>(KeypadError::NoSuchKey),
    {
        if key > 0xF {
            return Err(KeypadError::NoSuchKey);
        }
        Ok(self.state[key as usize])
    }

    /// The lowest-numbered key currently down, if any.
    pub fn any_pressed(&self) -> (r: Option<u8>)
        ensures
            r matches Some(k) ==> k < 16 && self.pressed(k as int) && forall|j: int|
                0 <= j < k ==> !self.pressed(j),
            r is None ==> forall|k: int| 0 <= k < 16 ==> !self.pressed(k),
            r is Some <==> self.some_pressed(),
    {
        let mut k: usize = 0;
        while k < 16
            invariant
                k <= 16,
                forall|j: int| 0 <= j < k ==> !self.pressed(j),
            decreases 16 - k,
        {
            if self.state[k] {
                proof {
                    assert(self.pressed(k as int));
                }
                return Some(k as u8);
            }
            k = k + 1;
        }
        None
    }
}

} // verus!
