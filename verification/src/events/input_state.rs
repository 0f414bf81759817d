//! What the keyboard and the mouse are doing, and what they did one
//! update ago.

use vstd::prelude::*;
use crate::components::transform::Position;
use crate::events::{KeyboardKey, MouseButton};

verus! {

/// An input state as its contracts see it.
pub struct InputModel {
    /// Where the pointer is.
    pub mouse_pos: Position,
    /// How far the pointer moved in the last update.
    pub mouse_diff: Position,
    /// The keys that are held down.
    pub keys: Set<KeyboardKey>,
    /// The keys that were held down before the last update.
    pub previous_keys: Set<KeyboardKey>,
    /// The buttons that are held down.
    pub buttons: Set<MouseButton>,
    /// The buttons that were held down before the last update.
    pub previous_buttons: Set<MouseButton>,
}

/// The keys that occur in `keys`.
pub open spec fn keys_of(keys: Seq<KeyboardKey>) -> Set<KeyboardKey> {
    Set::new(|key: KeyboardKey| keys.contains(key))
}

/// The buttons that occur in `buttons`.
pub open spec fn buttons_of(buttons: Seq<MouseButton>) -> Set<MouseButton> {
    Set::new(|button: MouseButton| buttons.contains(button))
}

/// Whether the way from `from` to `to` fits a pair of coordinates.
pub open spec fn within_reach(from: Position, to: Position) -> bool {
    &&& i32::MIN <= to.x - from.x <= i32::MAX
    &&& i32::MIN <= to.y - from.y <= i32::MAX
}

/// The pointer, the keys and the buttons, now and one update ago. A key
/// or a button that is not held down is released.
#[derive(Debug)]
pub struct InputState {
    mouse_pos: Position,
    mouse_diff: Position,
    current_keyboard_key_state: Vec<KeyboardKey>,
    previous_keyboard_key_state: Vec<KeyboardKey>,
    current_mouse_button_state: Vec<MouseButton>,
    previous_mouse_button_state: Vec<MouseButton>,
}

impl View for InputState {
    type V = InputModel;

    closed spec fn view(&self) -> InputModel {
        InputModel {
            mouse_pos: self.mouse_pos,
            mouse_diff: self.mouse_diff,
            keys: keys_of(self.current_keyboard_key_state@),
            previous_keys: keys_of(self.previous_keyboard_key_state@),
            buttons: buttons_of(self.current_mouse_button_state@),
            previous_buttons: buttons_of(self.previous_mouse_button_state@),
        }
    }
}

/// Whether `key` occurs in `keys`.
fn holds_key(keys: &Vec<KeyboardKey>, key: KeyboardKey) -> (found: bool)
    ensures
        found == keys_of(keys@).contains(key),
{
    let count = keys.len();
    let mut idx: usize = 0;
    while idx < count
        invariant
            idx <= count,
            count == keys.len(),
            forall|j: int| 0 <= j < idx ==> keys@[j] != key,
        decreases count - idx,
    {
        if keys[idx] == key {
            return true;
        }
        idx = idx + 1;
    }
    false
}

/// Whether `button` occurs in `buttons`.
fn holds_button(buttons: &Vec<MouseButton>, button: MouseButton) -> (found: bool)
    ensures
        found == buttons_of(buttons@).contains(button),
{
    let count = buttons.len();
    let mut idx: usize = 0;
    while idx < count
        invariant
            idx <= count,
            count == buttons.len(),
            forall|j: int| 0 <= j < idx ==> buttons@[j] != button,
        decreases count - idx,
    {
        if buttons[idx] == button {
            return true;
        }
        idx = idx + 1;
    }
    false
}

impl InputState {
    /// Takes in where the pointer is and what is held down now. What was
    /// held down until now is kept as the state before, and the way that
    /// the pointer went as its last move.
    pub fn update(
        &mut self,
        new_mouse_pos: Position,
        new_keyboard_key_state: Vec<KeyboardKey>,
        new_mouse_button_state: Vec<MouseButton>,
    )
        requires
            within_reach(old(self)@.mouse_pos, new_mouse_pos),
        ensures
            final(self)@.mouse_pos == new_mouse_pos,
            final(self)@.mouse_diff.x == new_mouse_pos.x - old(self)@.mouse_pos.x,
            final(self)@.mouse_diff.y == new_mouse_pos.y - old(self)@.mouse_pos.y,
            final(self)@.keys == keys_of(new_keyboard_key_state@),
            final(self)@.previous_keys == old(self)@.keys,
            final(self)@.buttons == buttons_of(new_mouse_button_state@),
            final(self)@.previous_buttons == old(self)@.buttons,
    {
        self.mouse_diff = Position {
            x: new_mouse_pos.x - self.mouse_pos.x,
            y: new_mouse_pos.y - self.mouse_pos.y,
        };
        self.mouse_pos = new_mouse_pos;

        let mut keys = new_keyboard_key_state;
        std::mem::swap(&mut self.current_keyboard_key_state, &mut keys);
        self.previous_keyboard_key_state = keys;

        let mut buttons = new_mouse_button_state;
        std::mem::swap(&mut self.current_mouse_button_state, &mut buttons);
        self.previous_mouse_button_state = buttons;
    }

    /// Whether the pointer can go to `new_mouse_pos` in one update.
    pub fn can_reach(&self, new_mouse_pos: &Position) -> (possible: bool)
        ensures
            possible == within_reach(self@.mouse_pos, *new_mouse_pos),
    {
        new_mouse_pos.x.checked_sub(self.mouse_pos.x).is_some() && new_mouse_pos.y.checked_sub(
            self.mouse_pos.y,
        ).is_some()
    }

    /// Where the pointer is.
    pub fn get_mouse_pos(&self) -> (pos: &Position)
        ensures
            *pos == self@.mouse_pos,
    {
        &self.mouse_pos
    }

    /// How far the pointer moved in the last update.
    pub fn get_mouse_diff(&self) -> (diff: &Position)
        ensures
            *diff == self@.mouse_diff,
    {
        &self.mouse_diff
    }

    pub fn is_key_pressed(&self, key: KeyboardKey) -> (pressed: bool)
        ensures
            pressed == self@.keys.contains(key),
    {
        holds_key(&self.current_keyboard_key_state, key)
    }

    pub fn is_key_released(&self, key: KeyboardKey) -> (released: bool)
        ensures
            released == !self@.keys.contains(key),
    {
        !holds_key(&self.current_keyboard_key_state, key)
    }

    /// Whether `key` is held down and was not before the last update.
    pub fn was_key_just_pressed(&self, key: KeyboardKey) -> (just_pressed: bool)
        ensures
            just_pressed == (self@.keys.contains(key) && !self@.previous_keys.contains(key)),
    {
        self.is_key_pressed(key) && !holds_key(&self.previous_keyboard_key_state, key)
    }

    /// Whether `key` is released and was held down before the last update.
    pub fn was_key_just_released(&self, key: KeyboardKey) -> (just_released: bool)
        ensures
            just_released == (!self@.keys.contains(key) && self@.previous_keys.contains(key)),
    {
        self.is_key_released(key) && holds_key(&self.previous_keyboard_key_state, key)
    }

    pub fn is_button_pressed(&self, button: MouseButton) -> (pressed: bool)
        ensures
            pressed == self@.buttons.contains(button),
    {
        holds_button(&self.current_mouse_button_state, button)
    }

    pub fn is_button_released(&self, button: MouseButton) -> (released: bool)
        ensures
            released == !self@.buttons.contains(button),
    {
        !holds_button(&self.current_mouse_button_state, button)
    }

    /// Whether `button` is held down and was not before the last update.
    pub fn was_button_just_pressed(&self, button: MouseButton) -> (just_pressed: bool)
        ensures
            just_pressed == (self@.buttons.contains(button) && !self@.previous_buttons.contains(
                button,
            )),
    {
        self.is_button_pressed(button) && !holds_button(&self.previous_mouse_button_state, button)
    }

    /// Whether `button` is released and was held down before the last
    /// update.
    pub fn was_button_just_released(&self, button: MouseButton) -> (just_released: bool)
        ensures
            just_released == (!self@.buttons.contains(button) && self@.previous_buttons.contains(
                button,
            )),
    {
        self.is_button_released(button) && holds_button(&self.previous_mouse_button_state, button)
    }
}

impl Default for InputState {
    /// The pointer at the origin, and nothing held down, now or before.
    fn default() -> (state: Self)
        ensures
            state@.mouse_pos == (Position { x: 0, y: 0 }),
            state@.mouse_diff == (Position { x: 0, y: 0 }),
            state@.keys == Set::<KeyboardKey>::empty(),
            state@.previous_keys == Set::<KeyboardKey>::empty(),
            state@.buttons == Set::<MouseButton>::empty(),
            state@.previous_buttons == Set::<MouseButton>::empty(),
    {
        let state = Self {
            mouse_pos: Position { x: 0, y: 0 },
            mouse_diff: Position { x: 0, y: 0 },
            current_keyboard_key_state: Vec::new(),
            previous_keyboard_key_state: Vec::new(),
            current_mouse_button_state: Vec::new(),
            previous_mouse_button_state: Vec::new(),
        };
        assert(state@.keys =~= Set::<KeyboardKey>::empty());
        assert(state@.previous_keys =~= Set::<KeyboardKey>::empty());
        assert(state@.buttons =~= Set::<MouseButton>::empty());
        assert(state@.previous_buttons =~= Set::<MouseButton>::empty());
        state
    }
}

} // verus!
