//! Key bindings: a map from keyboard scancodes to actions.
//!
//! Instead of storing a response callback, `process_input` hands the
//! bound action back to the caller, which dispatches on it; this keeps
//! the binder a plain verified value.

use vstd::prelude::*;

verus! {

use std::collections::HashMap;

broadcast use vstd::std_specs::hash::group_hash_axioms;

/// The stock set of actions a viewer binds out of the box.
#[derive(Clone, Copy, Debug, PartialEq, Eq, Structural)]
pub enum DefaultBindings {
    Yes,
    No,
    Up,
    Down,
    Left,
    Right,
    Menu,
    Escape,
}

/// Maps keyboard scancodes to actions of type `E`.
pub struct KeyBinder<E> {
    pub bindings: HashMap<u32, E>,
}

impl<E> KeyBinder<E> {
    /// An empty key map.
    pub fn new() -> (b: KeyBinder<E>)
        ensures
            b.bindings@ == Map::<u32, E>::empty(),
    {
        KeyBinder { bindings: HashMap::new() }
    }

    /// Bind `e` to a scancode when the key is pressed; release events
    /// are ignored.  Rebinding an already-bound scancode overwrites.
    pub fn bind_key(&mut self, scancode: u32, pressed: bool, e: E)
        ensures
            final(self).bindings@ == if pressed {
                old(self).bindings@.insert(scancode, e)
            } else {
                old(self).bindings@
            },
    {
        if !pressed {
            return ;
        }
        self.bindings.insert(scancode, e);
    }

    /// The action bound to a scancode, if any.
    pub fn get_binding(&self, scancode: u32) -> (r: Option<&E>)
        ensures
            match r {
                Some(e) => self.bindings@.contains_key(scancode) && *e == self.bindings@[scancode],
                None => !self.bindings@.contains_key(scancode),
            },
    {
        self.bindings.get(&scancode)
    }

    /// Whether a scancode has a binding.
    pub fn is_bound(&self, scancode: u32) -> (r: bool)
        ensures
            r == self.bindings@.contains_key(scancode),
    {
        self.bindings.contains_key(&scancode)
    }

    /// The action a key press should trigger, if any; the caller
    /// responds to it.
    pub fn process_input(&self, scancode: u32) -> (r: Option<&E>)
        ensures
            match r {
                Some(e) => self.bindings@.contains_key(scancode) && *e == self.bindings@[scancode],
                None => !self.bindings@.contains_key(scancode),
            },
    {
        self.get_binding(scancode)
    }
}

impl KeyBinder<DefaultBindings> {
    /// The stock macOS scancode layout.
    pub fn set_macos_default(&mut self)
        ensures
            final(self).bindings@ == old(self).bindings@.insert(123, DefaultBindings::Left).insert(
                124,
                DefaultBindings::Right,
            ).insert(125, DefaultBindings::Down).insert(126, DefaultBindings::Up).insert(
                6,
                DefaultBindings::Yes,
            ).insert(7, DefaultBindings::No).insert(36, DefaultBindings::Menu).insert(
                53,
                DefaultBindings::Escape,
            ),
    {
        self.bindings.insert(123, DefaultBindings::Left);
        self.bindings.insert(124, DefaultBindings::Right);
        self.bindings.insert(125, DefaultBindings::Down);
        self.bindings.insert(126, DefaultBindings::Up);
        self.bindings.insert(6, DefaultBindings::Yes);
        self.bindings.insert(7, DefaultBindings::No);
        self.bindings.insert(36, DefaultBindings::Menu);
        self.bindings.insert(53, DefaultBindings::Escape);
    }

    /// The stock Windows scancode layout.
    pub fn set_windows_default(&mut self)
        ensures
            final(self).bindings@ == old(self).bindings@.insert(75, DefaultBindings::Left).insert(
                77,
                DefaultBindings::Right,
            ).insert(80, DefaultBindings::Down).insert(72, DefaultBindings::Up).insert(
                44,
                DefaultBindings::Yes,
            ).insert(45, DefaultBindings::No).insert(28, DefaultBindings::Menu).insert(
                1,
                DefaultBindings::Escape,
            ),
    {
        self.bindings.insert(75, DefaultBindings::Left);
        self.bindings.insert(77, DefaultBindings::Right);
        self.bindings.insert(80, DefaultBindings::Down);
        self.bindings.insert(72, DefaultBindings::Up);
        self.bindings.insert(44, DefaultBindings::Yes);
        self.bindings.insert(45, DefaultBindings::No);
        self.bindings.insert(28, DefaultBindings::Menu);
        self.bindings.insert(1, DefaultBindings::Escape);
    }

    /// The stock Linux scancode layout (same scancodes as Windows).
    pub fn set_linux_default(&mut self)
        ensures
            final(self).bindings@ == old(self).bindings@.insert(75, DefaultBindings::Left).insert(
                77,
                DefaultBindings::Right,
            ).insert(80, DefaultBindings::Down).insert(72, DefaultBindings::Up).insert(
                44,
                DefaultBindings::Yes,
            ).insert(45, DefaultBindings::No).insert(28, DefaultBindings::Menu).insert(
                1,
                DefaultBindings::Escape,
            ),
    {
        self.bindings.insert(75, DefaultBindings::Left);
        self.bindings.insert(77, DefaultBindings::Right);
        self.bindings.insert(80, DefaultBindings::Down);
        self.bindings.insert(72, DefaultBindings::Up);
        self.bindings.insert(44, DefaultBindings::Yes);
        self.bindings.insert(45, DefaultBindings::No);
        self.bindings.insert(28, DefaultBindings::Menu);
        self.bindings.insert(1, DefaultBindings::Escape);
    }
}

} // verus!
