//! The anchor producer and the error-toast convenience producer.

use wlx_overlay::anchor::create_anchor;
use wlx_overlay::geometry::{QuatFx, Vec3Fx};
use wlx_overlay::overlay::{OverlayID, Positioning, Z_ORDER_ANCHOR};
use wlx_overlay::registry::OverlayContainer;
use wlx_overlay::state::{AppSession, AppState, GeneralConfig, LeftRight};
use wlx_overlay::task::{Task, TaskType};
use wlx_overlay::toast::{error_toast_str, run_toast_task, ToastFactory, ToastMetrics};

fn plain_config() -> GeneralConfig {
    GeneralConfig {
        show_screens: Vec::new(),
        realign_on_showhide: false,
        notifications_sound_enabled: false,
        notification_topics: Vec::new(),
        watch_pos: Vec3Fx { x: 0, y: 0, z: 0 },
        watch_rot: QuatFx { x: 0, y: 0, z: 0, w: 1000 },
        watch_hand: LeftRight::Left,
    }
}

#[test]
fn anchor_spawns_inert_half_a_meter_ahead() {
    let mut app = AppState::new(AppSession::load(plain_config()));
    let anchor = create_anchor(&mut app, 400, 0u8);
    assert_eq!(anchor.state.id, OverlayID(1));
    assert_eq!(anchor.state.name, "anchor");
    assert!(!anchor.state.want_visible);
    assert!(!anchor.state.interactable);
    assert!(!anchor.state.grabbable);
    assert_eq!(anchor.state.z_order, Z_ORDER_ANCHOR);
    assert_eq!(anchor.state.spawn_scale, 400);
    assert_eq!(anchor.state.spawn_point, Vec3Fx { x: 0, y: 0, z: -500 });
    assert_eq!(anchor.state.positioning, Positioning::Static);
    // the identity generator moved on
    assert_eq!(app.next_id, 2);
}

#[test]
fn error_toast_submits_a_three_second_system_toast() {
    let mut app = AppState::new(AppSession::load(plain_config()));
    let mut c: OverlayContainer<u8> = OverlayContainer::empty();
    error_toast_str(&mut app, "disk full", 0);

    let ready: Vec<Task<ToastFactory>> = app.tasks.drain_ready(0);
    assert_eq!(ready.len(), 2);
    assert!(matches!(ready[0].kind, TaskType::DropOverlay(_)));
    match &ready[1].kind {
        TaskType::CreateOverlay(_, f) => {
            assert_eq!(f.toast.title, "Error");
            assert_eq!(f.toast.body, "disk full");
            assert_eq!(f.toast.timeout, 3000);
            assert_eq!(f.destroy_at, 3000);
        }
        _ => panic!("create task expected"),
    }

    let metrics = ToastMetrics { title_w: 50_000, title_h: 16_000, body_w: 90_000, body_h: 40_000 };
    for task in ready {
        run_toast_task(&mut c, &mut app, task, &metrics, 0u8);
    }
    let live = c.get_by_name("toast").expect("the error toast is live");
    assert_eq!(live.state.want_visible, true);
    app.tasks.advance_epoch();
    // drops away at its timeout
    let ready: Vec<Task<ToastFactory>> = app.tasks.drain_ready(3000);
    for task in ready {
        run_toast_task(&mut c, &mut app, task, &metrics, 0u8);
    }
    assert!(c.get_by_name("toast").is_none());
}
