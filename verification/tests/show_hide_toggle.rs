//! The global show/hide toggle: symmetry over two presses, the forced
//! watch panel, and the anchor re-derivation on the show transition.

use wlx_overlay::geometry::{QuatFx, Vec3Fx};
use wlx_overlay::overlay::{OverlayData, OverlayID, OverlayState};
use wlx_overlay::registry::OverlayContainer;
use wlx_overlay::state::{AppSession, AppState, GeneralConfig, LeftRight};

fn entity(id: usize, name: &str, group: bool, visible: bool) -> OverlayData<u8> {
    let mut st = OverlayState::default();
    st.id = OverlayID(id);
    st.name = String::from(name);
    st.show_hide = group;
    st.want_visible = visible;
    OverlayData::new(st, 0)
}

fn plain_config() -> GeneralConfig {
    GeneralConfig {
        show_screens: Vec::new(),
        realign_on_showhide: true,
        notifications_sound_enabled: false,
        notification_topics: Vec::new(),
        watch_pos: Vec3Fx { x: 0, y: 0, z: 0 },
        watch_rot: QuatFx { x: 0, y: 0, z: 0, w: 1000 },
        watch_hand: LeftRight::Left,
    }
}

fn group_visibility(c: &OverlayContainer<u8>) -> Vec<(String, bool)> {
    c.iter()
        .iter()
        .map(|o| (o.state.name.clone(), o.state.want_visible))
        .collect()
}

#[test]
fn hidden_group_shows_then_hides_back() {
    let mut app = AppState::new(AppSession::load(plain_config()));
    let mut c: OverlayContainer<u8> = OverlayContainer::empty();
    c.add(entity(1, "DP-1", true, false));
    c.add(entity(2, "keyboard", true, false));
    c.add(entity(3, "watch", false, false));

    let before = group_visibility(&c);
    c.show_hide(&mut app);
    assert!(c.get_by_name("DP-1").unwrap().state.want_visible);
    assert!(c.get_by_name("keyboard").unwrap().state.want_visible);
    assert!(c.get_by_name("watch").unwrap().state.want_visible);

    c.show_hide(&mut app);
    let after = group_visibility(&c);
    // group members are back to their original visibility
    assert_eq!(before[0], after[0]);
    assert_eq!(before[1], after[1]);
    // and the watch panel always ends visible
    assert!(c.get_by_name("watch").unwrap().state.want_visible);
}

#[test]
fn visible_group_hides_then_shows_back() {
    let mut app = AppState::new(AppSession::load(plain_config()));
    let mut c: OverlayContainer<u8> = OverlayContainer::empty();
    c.add(entity(1, "DP-1", true, true));
    c.add(entity(2, "keyboard", true, true));
    c.add(entity(3, "watch", false, true));

    c.show_hide(&mut app);
    assert!(!c.get_by_name("DP-1").unwrap().state.want_visible);
    assert!(!c.get_by_name("keyboard").unwrap().state.want_visible);

    c.show_hide(&mut app);
    assert!(c.get_by_name("DP-1").unwrap().state.want_visible);
    assert!(c.get_by_name("keyboard").unwrap().state.want_visible);
    assert!(c.get_by_name("watch").unwrap().state.want_visible);
}

#[test]
fn mixed_group_is_normalized_by_the_first_toggle() {
    // one member visible, one hidden: the group counts as shown, so the
    // first press hides everything and the second shows everything; the
    // individually-hidden member does not get its old flag back
    let mut app = AppState::new(AppSession::load(plain_config()));
    let mut c: OverlayContainer<u8> = OverlayContainer::empty();
    c.add(entity(1, "DP-1", true, true));
    c.add(entity(2, "DP-2", true, false));

    c.show_hide(&mut app);
    assert!(!c.get_by_name("DP-1").unwrap().state.want_visible);
    assert!(!c.get_by_name("DP-2").unwrap().state.want_visible);

    c.show_hide(&mut app);
    assert!(c.get_by_name("DP-1").unwrap().state.want_visible);
    assert!(c.get_by_name("DP-2").unwrap().state.want_visible);
}

#[test]
fn non_members_keep_their_visibility() {
    let mut app = AppState::new(AppSession::load(plain_config()));
    let mut c: OverlayContainer<u8> = OverlayContainer::empty();
    c.add(entity(1, "DP-1", true, true));
    c.add(entity(2, "toast", false, true));

    c.show_hide(&mut app);
    assert!(!c.get_by_name("DP-1").unwrap().state.want_visible);
    assert!(c.get_by_name("toast").unwrap().state.want_visible);
}

#[test]
fn show_transition_rederives_the_anchor() {
    let mut app = AppState::new(AppSession::load(plain_config()));
    let mut c: OverlayContainer<u8> = OverlayContainer::empty();
    c.add(entity(1, "DP-1", true, false));

    // the identity head pose is upright, so the anchor lands one meter
    // straight ahead with an identity basis
    c.show_hide(&mut app);
    assert_eq!(app.anchor.translation, Vec3Fx { x: 0, y: 0, z: -1000 });
    assert_eq!(app.anchor.x_axis, Vec3Fx { x: 1000, y: 0, z: 0 });
    assert_eq!(app.anchor.y_axis, Vec3Fx { x: 0, y: 1000, z: 0 });
    assert_eq!(app.anchor.z_axis, Vec3Fx { x: 0, y: 0, z: 1000 });

    // hiding again leaves the anchor alone
    let kept = app.anchor;
    c.show_hide(&mut app);
    assert_eq!(app.anchor, kept);
}

#[test]
fn re_shown_members_recenter_against_the_anchor() {
    let mut app = AppState::new(AppSession::load(plain_config()));
    let mut c: OverlayContainer<u8> = OverlayContainer::empty();
    let mut st = OverlayState::default();
    st.id = OverlayID(1);
    st.name = String::from("DP-1");
    st.show_hide = true;
    st.recenter = true;
    st.spawn_point = Vec3Fx { x: 0, y: 0, z: -500 };
    c.add(OverlayData::new(st, 0u8));

    c.show_hide(&mut app);
    let shown = c.get_by_name("DP-1").unwrap();
    assert!(shown.state.want_visible);
    assert!(shown.state.dirty);
    // anchor is one meter ahead; the member spawns half a meter beyond it
    assert_eq!(shown.state.transform.translation, Vec3Fx { x: 0, y: 0, z: -1500 });
}
