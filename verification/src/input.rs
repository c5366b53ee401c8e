//! Keyboard and cursor state, frame by frame.
//!
//! Three sets of keys are kept: the keys that went down since the frame
//! began, the keys that came up since the frame began, and the keys that are
//! down now. The first two start empty with every frame; the third lives on
//! until the key comes up.

use std::collections::HashMap;
use vstd::prelude::*;

verus! {

/// The keys that the game listens to.
#[derive(Copy, Clone, Debug, PartialEq, Eq, Structural, Hash)]
pub enum Key {
    Up,
    Right,
    Down,
    Left,
    W,
    A,
    S,
    D,
    Q,
    E,
    Space,
    Escape,
}

impl Key {
    /// The number under which a key is filed.
    pub open spec fn code_spec(self) -> u32 {
        match self {
            Key::Up => 0,
            Key::Right => 1,
            Key::Down => 2,
            Key::Left => 3,
            Key::W => 4,
            Key::A => 5,
            Key::S => 6,
            Key::D => 7,
            Key::Q => 8,
            Key::E => 9,
            Key::Space => 10,
            Key::Escape => 11,
        }
    }

    /// The number under which a key is filed. No two keys share one.
    pub fn code(self) -> (c: u32)
        ensures
            c == self.code_spec(),
    {
        match self {
            Key::Up => 0,
            Key::Right => 1,
            Key::Down => 2,
            Key::Left => 3,
            Key::W => 4,
            Key::A => 5,
            Key::S => 6,
            Key::D => 7,
            Key::Q => 8,
            Key::E => 9,
            Key::Space => 10,
            Key::Escape => 11,
        }
    }

    /// Two keys filed under one number are one key.
    pub proof fn lemma_code_injective(a: Key, b: Key)
        requires
            a.code_spec() == b.code_spec(),
        ensures
            a == b,
    {
    }
}

/// The keys that a table marks: those whose number it holds with `true`.
pub open spec fn marked(table: Map<u32, bool>) -> Set<Key> {
    Set::new(|k: Key| table.contains_key(k.code_spec()) && table[k.code_spec()])
}

/// Answers what the keyboard and the cursor did, as far as the events handed
/// in tell.
pub struct Input {
    pressed_keys: HashMap<u32, bool>,
    released_keys: HashMap<u32, bool>,
    held_keys: HashMap<u32, bool>,
    cursor_xy: (i32, i32),
}

impl Input {
    /// The keys that went down since the frame began.
    pub closed spec fn pressed(&self) -> Set<Key> {
        marked(self.pressed_keys@)
    }

    /// The keys that came up since the frame began.
    pub closed spec fn released(&self) -> Set<Key> {
        marked(self.released_keys@)
    }

    /// The keys that are down.
    pub closed spec fn held(&self) -> Set<Key> {
        marked(self.held_keys@)
    }

    /// Where the cursor was last seen, in screen coordinates.
    pub closed spec fn cursor(&self) -> (i32, i32) {
        self.cursor_xy
    }

    /// No key is down, none went down or came up, and the cursor is at the
    /// origin.
    pub fn new() -> (input: Input)
        ensures
            input.pressed() == Set::<Key>::empty(),
            input.released() == Set::<Key>::empty(),
            input.held() == Set::<Key>::empty(),
            input.cursor() == (0i32, 0i32),
    {
        let input = Input {
            pressed_keys: HashMap::<u32, bool>::new(),
            released_keys: HashMap::<u32, bool>::new(),
            held_keys: HashMap::<u32, bool>::new(),
            cursor_xy: (0, 0),
        };
        assert(input.pressed() =~= Set::<Key>::empty());
        assert(input.released() =~= Set::<Key>::empty());
        assert(input.held() =~= Set::<Key>::empty());
        input
    }

    /// Forgets which keys went down and which came up; the keys that are
    /// down stay down, and the cursor stays where it is.
    pub fn begin_new_frame(&mut self)
        ensures
            final(self).pressed() == Set::<Key>::empty(),
            final(self).released() == Set::<Key>::empty(),
            final(self).held() == old(self).held(),
            final(self).cursor() == old(self).cursor(),
    {
        self.pressed_keys.clear();
        self.released_keys.clear();
        assert(self.pressed() =~= Set::<Key>::empty());
        assert(self.released() =~= Set::<Key>::empty());
    }

    /// Takes note of where the cursor went.
    pub fn move_cursor(&mut self, x: i32, y: i32)
        ensures
            final(self).cursor() == (x, y),
            final(self).pressed() == old(self).pressed(),
            final(self).released() == old(self).released(),
            final(self).held() == old(self).held(),
    {
        self.cursor_xy = (x, y)
    }

    /// Takes note of a key going down: it went down this frame, and it is
    /// down.
    pub fn key_down_event(&mut self, key: Key)
        ensures
            final(self).pressed() == old(self).pressed().insert(key),
            final(self).held() == old(self).held().insert(key),
            final(self).released() == old(self).released(),
            final(self).cursor() == old(self).cursor(),
    {
        broadcast use vstd::std_specs::hash::group_hash_axioms;

        self.pressed_keys.insert(key.code(), true);
        self.held_keys.insert(key.code(), true);
        proof {
            assert forall|a: Key, b: Key| a.code_spec() == b.code_spec() implies a == b by {
                Key::lemma_code_injective(a, b);
            }
            assert(self.pressed() =~= old(self).pressed().insert(key));
            assert(self.held() =~= old(self).held().insert(key));
        }
    }

    /// Takes note of a key coming up: it came up this frame, and it is down
    /// no longer.
    pub fn key_up_event(&mut self, key: Key)
        ensures
            final(self).released() == old(self).released().insert(key),
            final(self).held() == old(self).held().remove(key),
            final(self).pressed() == old(self).pressed(),
            final(self).cursor() == old(self).cursor(),
    {
        broadcast use vstd::std_specs::hash::group_hash_axioms;

        self.released_keys.insert(key.code(), true);
        self.held_keys.insert(key.code(), false);
        proof {
            assert forall|a: Key, b: Key| a.code_spec() == b.code_spec() implies a == b by {
                Key::lemma_code_injective(a, b);
            }
            assert(self.released() =~= old(self).released().insert(key));
            assert(self.held() =~= old(self).held().remove(key));
        }
    }

    /// Where the cursor was last seen, in screen coordinates.
    pub fn get_cursor(&self) -> (xy: (i32, i32))
        ensures
            xy == self.cursor(),
    {
        self.cursor_xy
    }

    /// Whether the key went down since the frame began.
    pub fn was_key_pressed(&self, key: Key) -> (b: bool)
        ensures
            b == self.pressed().contains(key),
    {
        broadcast use vstd::std_specs::hash::group_hash_axioms;

        let key_cap = key.code();
        match self.pressed_keys.get(&key_cap) {
            Some(is_pressed) => *is_pressed,
            None => false,
        }
    }

    /// Whether the key came up since the frame began.
    pub fn was_key_released(&self, key: Key) -> (b: bool)
        ensures
            b == self.released().contains(key),
    {
        broadcast use vstd::std_specs::hash::group_hash_axioms;

        let key_cap = key.code();
        match self.released_keys.get(&key_cap) {
            Some(is_released) => *is_released,
            None => false,
        }
    }

    /// Whether the key is down: it went down, in this frame or an earlier
    /// one, and has not come up since.
    pub fn is_key_held(&self, key: Key) -> (b: bool)
        ensures
            b == self.held().contains(key),
    {
        broadcast use vstd::std_specs::hash::group_hash_axioms;

        let key_cap = key.code();
        match self.held_keys.get(&key_cap) {
            Some(is_held) => *is_held,
            None => false,
        }
    }
}

} // verus!
