//! Selector resolution, insertion and removal in the overlay registry.

use wlx_overlay::overlay::{OverlayData, OverlayID, OverlayState};
use wlx_overlay::registry::{OverlayContainer, OverlaySelector};
use wlx_overlay::state::{AppSession, AppState, GeneralConfig, LeftRight, ScreenMeta};
use wlx_overlay::geometry::{QuatFx, Vec3Fx};

fn entity(id: usize, name: &str) -> OverlayData<u8> {
    let mut st = OverlayState::default();
    st.id = OverlayID(id);
    st.name = String::from(name);
    OverlayData::new(st, 0)
}

fn plain_config() -> GeneralConfig {
    GeneralConfig {
        show_screens: Vec::new(),
        realign_on_showhide: false,
        notifications_sound_enabled: false,
        notification_topics: Vec::new(),
        watch_pos: Vec3Fx { x: 0, y: 0, z: 0 },
        watch_rot: QuatFx { x: 0, y: 0, z: 0, w: 1000 },
        watch_hand: LeftRight::Left,
    }
}

#[test]
fn get_by_id_finds_the_exact_entity() {
    let mut c: OverlayContainer<u8> = OverlayContainer::empty();
    c.add(entity(1, "a"));
    c.add(entity(2, "b"));
    let found = c.get_by_id(OverlayID(2)).expect("entity 2 is live");
    assert_eq!(found.state.name, "b");
    assert!(c.get_by_id(OverlayID(9)).is_none());
}

#[test]
fn name_lookup_resolves_to_first_match() {
    let mut c: OverlayContainer<u8> = OverlayContainer::empty();
    c.add(entity(1, "twin"));
    c.add(entity(2, "twin"));
    let found = c.get_by_name("twin").expect("a twin is live");
    assert_eq!(found.state.id, OverlayID(1));
}

#[test]
fn remove_by_name_removes_only_the_first_match() {
    let mut c: OverlayContainer<u8> = OverlayContainer::empty();
    c.add(entity(1, "twin"));
    c.add(entity(2, "twin"));
    let removed = c
        .remove_by_selector(&OverlaySelector::Name(String::from("twin")))
        .expect("one twin leaves");
    assert_eq!(removed.state.id, OverlayID(1));
    assert_eq!(c.len(), 1);
    let rest = c.get_by_name("twin").expect("the second twin stays");
    assert_eq!(rest.state.id, OverlayID(2));
}

#[test]
fn remove_of_absent_selector_is_none() {
    let mut c: OverlayContainer<u8> = OverlayContainer::empty();
    c.add(entity(1, "a"));
    assert!(c.remove_by_selector(&OverlaySelector::Id(OverlayID(5))).is_none());
    assert!(c
        .remove_by_selector(&OverlaySelector::Name(String::from("nope")))
        .is_none());
    assert_eq!(c.len(), 1);
}

#[test]
fn add_with_same_identity_replaces_in_place() {
    let mut c: OverlayContainer<u8> = OverlayContainer::empty();
    c.add(entity(1, "old"));
    c.add(entity(2, "tail"));
    c.add(entity(1, "new"));
    assert_eq!(c.len(), 2);
    let first = c.get_by_id(OverlayID(1)).expect("still live");
    assert_eq!(first.state.name, "new");
    assert_eq!(c.iter()[0].state.name, "new");
    assert_eq!(c.iter()[1].state.name, "tail");
}

#[test]
fn mut_by_selector_updates_the_entity() {
    let mut c: OverlayContainer<u8> = OverlayContainer::empty();
    c.add(entity(1, "panel"));
    {
        let m = c
            .mut_by_selector(&OverlaySelector::Name(String::from("panel")))
            .expect("panel is live");
        m.state.want_visible = true;
    }
    assert!(c.get_by_id(OverlayID(1)).unwrap().state.want_visible);
}

#[test]
fn new_applies_startup_flags() {
    let mut config = plain_config();
    config.show_screens.push(String::from("DP-2"));
    let session = AppSession::load(config);
    let mut app = AppState::new(session);

    let screens = vec![
        (
            ScreenMeta { name: String::from("DP-1"), id: OverlayID(1), native_handle: 11 },
            entity(1, "DP-1"),
        ),
        (
            ScreenMeta { name: String::from("DP-2"), id: OverlayID(2), native_handle: 22 },
            entity(2, "DP-2"),
        ),
    ];
    let c = OverlayContainer::new(
        &mut app,
        screens,
        entity(3, "anchor"),
        entity(4, "watch"),
        entity(5, "keyboard"),
    );
    assert_eq!(c.len(), 5);
    assert!(!c.get_by_name("DP-1").unwrap().state.show_hide);
    assert!(c.get_by_name("DP-2").unwrap().state.show_hide);
    assert!(c.get_by_name("watch").unwrap().state.want_visible);
    let kbd = c.get_by_name("keyboard").unwrap();
    assert!(!kbd.state.show_hide);
    assert!(!kbd.state.want_visible);
    assert_eq!(app.screens.len(), 2);
    assert_eq!(app.screens[0].native_handle, 11);
}

#[test]
fn new_shows_first_screen_when_config_selects_none() {
    let session = AppSession::load(plain_config());
    let mut app = AppState::new(session);
    let screens = vec![
        (
            ScreenMeta { name: String::from("DP-1"), id: OverlayID(1), native_handle: 11 },
            entity(1, "DP-1"),
        ),
        (
            ScreenMeta { name: String::from("DP-2"), id: OverlayID(2), native_handle: 22 },
            entity(2, "DP-2"),
        ),
    ];
    let c = OverlayContainer::new(
        &mut app,
        screens,
        entity(3, "anchor"),
        entity(4, "watch"),
        entity(5, "keyboard"),
    );
    assert!(c.get_by_name("DP-1").unwrap().state.show_hide);
    assert!(!c.get_by_name("DP-2").unwrap().state.show_hide);
}
