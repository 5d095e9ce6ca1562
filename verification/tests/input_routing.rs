//! Keyboard routing through the focus-aware wrapper.

use wlx_overlay::input::{HidProvider, HidWrapper, KeyboardFocus, VirtualKey, WayVrKeyboard};

#[derive(Default)]
struct RecordingProvider {
    keys: Vec<(u32, bool)>,
    mods: Vec<u8>,
}

impl HidProvider for RecordingProvider {
    fn send_key(&mut self, key: VirtualKey, down: bool) {
        self.keys.push((key.0, down));
    }

    fn set_modifiers(&mut self, mods: u8) {
        self.mods.push(mods);
    }
}

#[derive(Default)]
struct RecordingSink {
    keys: Vec<(u32, bool)>,
    mods: Vec<u8>,
}

impl WayVrKeyboard for RecordingSink {
    fn send_key_code(&mut self, key: u32, down: bool) {
        self.keys.push((key, down));
    }

    fn set_modifiers(&mut self, mods: u8) {
        self.mods.push(mods);
    }
}

#[test]
fn physical_focus_routes_to_the_provider() {
    let mut hid: HidWrapper<RecordingProvider, RecordingSink> =
        HidWrapper::new(RecordingProvider::default());
    hid.send_key_routed(VirtualKey(30), true);
    hid.send_key_routed(VirtualKey(30), false);
    hid.set_modifiers_routed(4);
    assert_eq!(hid.inner.keys, vec![(30, true), (30, false)]);
    assert_eq!(hid.inner.mods, vec![4]);
}

#[test]
fn virtual_focus_routes_to_the_sink() {
    let mut hid: HidWrapper<RecordingProvider, RecordingSink> =
        HidWrapper::new(RecordingProvider::default());
    hid.keyboard_focus = KeyboardFocus::WayVR;
    hid.wayvr = Some(RecordingSink::default());
    hid.send_key_routed(VirtualKey(57), true);
    hid.set_modifiers_routed(1);
    assert!(hid.inner.keys.is_empty());
    let sink = hid.wayvr.as_ref().unwrap();
    assert_eq!(sink.keys, vec![(57, true)]);
    assert_eq!(sink.mods, vec![1]);
}

#[test]
fn virtual_focus_without_sink_swallows_events() {
    let mut hid: HidWrapper<RecordingProvider, RecordingSink> =
        HidWrapper::new(RecordingProvider::default());
    hid.keyboard_focus = KeyboardFocus::WayVR;
    hid.send_key_routed(VirtualKey(1), true);
    hid.set_modifiers_routed(2);
    assert!(hid.inner.keys.is_empty());
    assert!(hid.inner.mods.is_empty());
}
