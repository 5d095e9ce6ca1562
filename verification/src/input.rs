//! Keyboard input routing: a wrapper that forwards key presses and
//! modifier changes either to the physical-screen input provider or to a
//! virtual keyboard sink, depending on the current focus.

use vstd::prelude::*;

verus! {

/// Where keyboard input is currently routed.
#[derive(Clone, Copy, Debug, PartialEq, Eq, Structural)]
pub enum KeyboardFocus {
    PhysicalScreen,
    WayVR,
}

/// A key code as understood by the input providers.
#[derive(Clone, Copy, Debug, PartialEq, Eq, Structural)]
pub struct VirtualKey(pub u32);

/// The platform input provider behind the physical-screen route; the
/// application supplies the implementation.
pub trait HidProvider {
    fn send_key(&mut self, key: VirtualKey, down: bool);

    fn set_modifiers(&mut self, mods: u8);
}

/// A virtual keyboard sink behind the in-headset route; the application
/// supplies the implementation.
pub trait WayVrKeyboard {
    fn send_key_code(&mut self, key: u32, down: bool);

    fn set_modifiers(&mut self, mods: u8);
}

/// Routes keyboard events to the focused destination; the virtual sink is
/// attached only when the in-headset keyboard has been created.
#[derive(Debug)]
pub struct HidWrapper<P, W> {
    pub keyboard_focus: KeyboardFocus,
    pub inner: P,
    pub wayvr: Option<W>,
}

impl<P: HidProvider, W: WayVrKeyboard> HidWrapper<P, W> {
    /// A wrapper focused on the physical screen, with no virtual sink.
    pub fn new(inner: P) -> (r: Self)
        ensures
            r.keyboard_focus == KeyboardFocus::PhysicalScreen,
            r.wayvr is None,
            r.inner == inner,
    {
        HidWrapper { keyboard_focus: KeyboardFocus::PhysicalScreen, inner, wayvr: None }
    }

    /// Sends a key press or release to the focused destination; a virtual
    /// focus without an attached sink swallows the event.
    pub fn send_key_routed(&mut self, key: VirtualKey, down: bool)
        ensures
            final(self).keyboard_focus == old(self).keyboard_focus,
            old(self).keyboard_focus == KeyboardFocus::PhysicalScreen ==> final(self).wayvr
                == old(self).wayvr,
            old(self).keyboard_focus == KeyboardFocus::WayVR ==> final(self).inner == old(
                self,
            ).inner,
    {
        match self.keyboard_focus {
            KeyboardFocus::PhysicalScreen => self.inner.send_key(key, down),
            KeyboardFocus::WayVR => {
                match &mut self.wayvr {
                    Some(w) => w.send_key_code(key.0, down),
                    None => {},
                }
            },
        }
    }

    /// Applies a modifier state to the focused destination.
    pub fn set_modifiers_routed(&mut self, mods: u8)
        ensures
            final(self).keyboard_focus == old(self).keyboard_focus,
            old(self).keyboard_focus == KeyboardFocus::PhysicalScreen ==> final(self).wayvr
                == old(self).wayvr,
            old(self).keyboard_focus == KeyboardFocus::WayVR ==> final(self).inner == old(
                self,
            ).inner,
    {
        match self.keyboard_focus {
            KeyboardFocus::PhysicalScreen => self.inner.set_modifiers(mods),
            KeyboardFocus::WayVR => {
                match &mut self.wayvr {
                    Some(w) => w.set_modifiers(mods),
                    None => {},
                }
            },
        }
    }
}

} // verus!
