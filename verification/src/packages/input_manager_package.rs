use std::collections::HashSet;
use vstd::prelude::*;

verus! {

broadcast use vstd::std_specs::hash::group_hash_axioms;

/// Whether a key or button went down or up.
#[derive(Debug, Clone, Copy, PartialEq, Eq, Structural)]
pub enum ElementState {
    Pressed,
    Released,
}

/// The window events the input manager follows. Keys and mouse buttons are
/// identified by integer codes; a key without a known code is `None`; the
/// cursor position is given as `f32` bit patterns.
#[derive(Debug, Clone, Copy, PartialEq, Eq, Structural)]
pub enum InputEvent {
    KeyboardInput { key: Option<u32>, state: ElementState },
    CursorMoved { x: u32, y: u32 },
    MouseInput { button: u32, state: ElementState },
    Other,
}

/// Keyboard and mouse state gathered from window events: what is held down,
/// what went down since the last `reset`, and where the cursor is.
pub struct InputManager {
    currently_pressed: HashSet<u32>,
    just_pressed: HashSet<u32>,
    mouse_currently_pressed: HashSet<u32>,
    mouse_just_pressed: HashSet<u32>,
    /// `f32` bit patterns of the cursor position.
    pub mouse_screen_pos: (u32, u32),
}

impl InputManager {
    /// The cursor position (`f32` bit patterns).
    pub closed spec fn cursor(&self) -> (u32, u32) {
        self.mouse_screen_pos
    }

    pub closed spec fn pressed_keys(&self) -> Set<u32> {
        self.currently_pressed@
    }

    pub closed spec fn just_pressed_keys(&self) -> Set<u32> {
        self.just_pressed@
    }

    pub closed spec fn pressed_buttons(&self) -> Set<u32> {
        self.mouse_currently_pressed@
    }

    pub closed spec fn just_pressed_buttons(&self) -> Set<u32> {
        self.mouse_just_pressed@
    }

    /// The state after `event`: a key going down is held and just pressed,
    /// a key going up is no longer held; the cursor position is replaced; a
    /// mouse button going down is held and just pressed, a button going up
    /// is no longer just pressed (it stays held).
    pub open spec fn after(
        &self,
        event: InputEvent,
        keys: Set<u32>,
        just: Set<u32>,
        buttons: Set<u32>,
        just_buttons: Set<u32>,
        pos: (u32, u32),
    ) -> bool {
        match event {
            InputEvent::KeyboardInput { key, state } => {
                &&& buttons == self.pressed_buttons()
                &&& just_buttons == self.just_pressed_buttons()
                &&& pos == self.cursor()
                &&& match key {
                    None => keys == self.pressed_keys() && just == self.just_pressed_keys(),
                    Some(k) => match state {
                        ElementState::Pressed => keys == self.pressed_keys().insert(k) && just
                            == self.just_pressed_keys().insert(k),
                        ElementState::Released => keys == self.pressed_keys().remove(k) && just
                            == self.just_pressed_keys(),
                    },
                }
            },
            InputEvent::CursorMoved { x, y } => {
                &&& keys == self.pressed_keys()
                &&& just == self.just_pressed_keys()
                &&& buttons == self.pressed_buttons()
                &&& just_buttons == self.just_pressed_buttons()
                &&& pos == (x, y)
            },
            InputEvent::MouseInput { button, state } => {
                &&& keys == self.pressed_keys()
                &&& just == self.just_pressed_keys()
                &&& pos == self.cursor()
                &&& match state {
                    ElementState::Pressed => buttons == self.pressed_buttons().insert(button)
                        && just_buttons == self.just_pressed_buttons().insert(button),
                    ElementState::Released => buttons == self.pressed_buttons() && just_buttons
                        == self.just_pressed_buttons().remove(button),
                }
            },
            InputEvent::Other => {
                &&& keys == self.pressed_keys()
                &&& just == self.just_pressed_keys()
                &&& buttons == self.pressed_buttons()
                &&& just_buttons == self.just_pressed_buttons()
                &&& pos == self.cursor()
            },
        }
    }

    pub fn new() -> (res: Self)
        ensures
            res.pressed_keys() == Set::<u32>::empty(),
            res.just_pressed_keys() == Set::<u32>::empty(),
            res.pressed_buttons() == Set::<u32>::empty(),
            res.just_pressed_buttons() == Set::<u32>::empty(),
            res.cursor() == (0u32, 0u32),
    {
        InputManager {
            currently_pressed: HashSet::new(),
            just_pressed: HashSet::new(),
            mouse_screen_pos: (0, 0),
            mouse_currently_pressed: HashSet::new(),
            mouse_just_pressed: HashSet::new(),
        }
    }

    pub fn process_event(&mut self, event: &InputEvent)
        ensures
            old(self).after(
                *event,
                final(self).pressed_keys(),
                final(self).just_pressed_keys(),
                final(self).pressed_buttons(),
                final(self).just_pressed_buttons(),
                final(self).cursor(),
            ),
    {
        match *event {
            InputEvent::KeyboardInput { key, state } => {
                match state {
                    ElementState::Pressed => {
                        if let Some(keycode) = key {
                            self.currently_pressed.insert(keycode);
                            self.just_pressed.insert(keycode);
                        }
                    },
                    ElementState::Released => {
                        if let Some(keycode) = key {
                            self.currently_pressed.remove(&keycode);
                        }
                    },
                }
            },
            InputEvent::CursorMoved { x, y } => {
                self.mouse_screen_pos = (x, y);
            },
            InputEvent::MouseInput { button, state } => {
                match state {
                    ElementState::Pressed => {
                        self.mouse_currently_pressed.insert(button);
                        self.mouse_just_pressed.insert(button);
                    },
                    ElementState::Released => {
                        self.mouse_just_pressed.remove(&button);
                    },
                }
            },
            InputEvent::Other => {},
        }
    }

    pub fn is_key_pressed(&self, key: u32) -> (res: bool)
        ensures
            res == self.pressed_keys().contains(key),
    {
        self.currently_pressed.contains(&key)
    }

    pub fn is_key_just_pressed(&self, key: u32) -> (res: bool)
        ensures
            res == self.just_pressed_keys().contains(key),
    {
        self.just_pressed.contains(&key)
    }

    pub fn is_mouse_key_pressed(&self, button: u32) -> (res: bool)
        ensures
            res == self.pressed_buttons().contains(button),
    {
        self.mouse_currently_pressed.contains(&button)
    }

    pub fn is_mouse_key_just_pressed(&self, button: u32) -> (res: bool)
        ensures
            res == self.just_pressed_buttons().contains(button),
    {
        self.mouse_just_pressed.contains(&button)
    }

    /// Forgets the keys pressed since the last reset (mouse buttons are kept).
    pub fn reset(&mut self)
        ensures
            final(self).just_pressed_keys() == Set::<u32>::empty(),
            final(self).pressed_keys() == old(self).pressed_keys(),
            final(self).pressed_buttons() == old(self).pressed_buttons(),
            final(self).just_pressed_buttons() == old(self).just_pressed_buttons(),
            final(self).cursor() == old(self).cursor(),
    {
        self.just_pressed.clear();
    }
}

} // verus!
