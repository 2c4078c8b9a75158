//! Keyboard and mouse state, updated once per frame.
use std::collections::HashMap;
use vstd::prelude::*;

verus! {

broadcast use vstd::std_specs::hash::group_hash_axioms;

/// The state of one keyboard key.
#[derive(Debug, Copy, Clone, PartialEq, Eq, Structural)]
pub struct KeyState {
    /// The key is held down.
    pub down: bool,
    /// The key's state changed this frame.
    pub changed: bool,
}

/// The state of a key after a frame in which it was seen as `pressed`.
pub open spec fn key_after(s: KeyState, pressed: bool) -> KeyState {
    KeyState { down: pressed, changed: pressed != s.down }
}

/// The key states after one reported key: a key seen for the first time
/// starts as it is reported, unchanged.
pub open spec fn apply_key(m: Map<i32, KeyState>, key: (i32, bool)) -> Map<i32, KeyState> {
    let s = if m.contains_key(key.0) {
        m[key.0]
    } else {
        KeyState { down: key.1, changed: false }
    };
    m.insert(key.0, key_after(s, key.1))
}

/// The key states after the reported keys, in order.
pub open spec fn apply_keys(m: Map<i32, KeyState>, keys: Seq<(i32, bool)>) -> Map<i32, KeyState>
    decreases keys.len(),
{
    if keys.len() == 0 {
        m
    } else {
        apply_key(apply_keys(m, keys.drop_last()), keys.last())
    }
}

impl KeyState {
    /// The key is held down.
    pub fn down(&self) -> (r: bool)
        ensures
            r == self.down,
    {
        self.down
    }

    /// The key went down this frame.
    pub fn pressed(&self) -> (r: bool)
        ensures
            r == (self.down && self.changed),
    {
        self.down && self.changed
    }

    /// The key went up this frame.
    pub fn released(&self) -> (r: bool)
        ensures
            r == (!self.down && self.changed),
    {
        !self.down && self.changed
    }

    /// Records whether the key is down this frame.
    pub fn update(&mut self, pressed: bool)
        ensures
            *final(self) == key_after(*old(self), pressed),
    {
        self.changed = pressed != self.down;
        self.down = pressed;
    }
}

/// Keyboard state by key code, and the mouse position.
pub struct InputManager {
    key_state: HashMap<i32, KeyState>,
    mouse_position: (i32, i32),
}

impl InputManager {
    /// States of the keys seen so far, by key code.
    pub closed spec fn spec_keys(&self) -> Map<i32, KeyState> {
        self.key_state@
    }

    pub closed spec fn spec_mouse(&self) -> (i32, i32) {
        self.mouse_position
    }

    /// No key seen yet; the mouse at the origin.
    pub fn new() -> (r: InputManager)
        ensures
            r.spec_keys() == Map::<i32, KeyState>::empty(),
            r.spec_mouse() == (0i32, 0i32),
    {
        InputManager { key_state: HashMap::new(), mouse_position: (0, 0) }
    }

    /// Takes this frame's state: each key code with whether it is down, and
    /// the mouse position in pixels from the window's top left corner.
    pub fn update(&mut self, keys: &Vec<(i32, bool)>, mouse_position: (i32, i32))
        ensures
            final(self).spec_keys() == apply_keys(old(self).spec_keys(), keys@),
            final(self).spec_mouse() == mouse_position,
    {
        let ghost start = self.key_state@;
        let n = keys.len();
        let mut i: usize = 0;
        while i < n
            invariant
                n == keys@.len(),
                0 <= i <= n,
                self.key_state@ == apply_keys(start, keys@.take(i as int)),
            decreases n - i,
        {
            proof {
                assert(keys@.take(i as int + 1).drop_last() =~= keys@.take(i as int));
            }
            let (keycode, pressed) = keys[i];
            let mut state = match self.key_state.get(&keycode) {
                Some(s) => *s,
                None => KeyState { down: pressed, changed: false },
            };
            state.update(pressed);
            self.key_state.insert(keycode, state);
            i = i + 1;
        }
        proof {
            assert(keys@.take(n as int) =~= keys@);
        }
        self.mouse_position = mouse_position;
    }

    /// Tells whether the key was seen.
    pub fn has_key(&self, keycode: i32) -> (r: bool)
        ensures
            r == self.spec_keys().contains_key(keycode),
    {
        self.key_state.contains_key(&keycode)
    }

    /// The key is held down.
    pub fn key_down(&self, keycode: i32) -> (r: bool)
        requires
            self.spec_keys().contains_key(keycode),
        ensures
            r == self.spec_keys()[keycode].down,
    {
        self.key_state.get(&keycode).unwrap().down()
    }

    /// The key went down this frame.
    pub fn key_pressed(&self, keycode: i32) -> (r: bool)
        requires
            self.spec_keys().contains_key(keycode),
        ensures
            r == (self.spec_keys()[keycode].down && self.spec_keys()[keycode].changed),
    {
        self.key_state.get(&keycode).unwrap().pressed()
    }

    /// The key went up this frame.
    pub fn key_released(&self, keycode: i32) -> (r: bool)
        requires
            self.spec_keys().contains_key(keycode),
        ensures
            r == (!self.spec_keys()[keycode].down && self.spec_keys()[keycode].changed),
    {
        self.key_state.get(&keycode).unwrap().released()
    }

    /// Mouse position in pixels, from the window's top left corner.
    pub fn mouse_position(&self) -> (r: (i32, i32))
        ensures
            r == self.spec_mouse(),
    {
        self.mouse_position
    }
}

} // verus!
