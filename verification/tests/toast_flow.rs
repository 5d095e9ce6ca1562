//! The toast lifecycle: submission, deferred creation, idempotency, and
//! timeout-driven removal that never kills a newer instance.

use wlx_overlay::geometry::{QuatFx, Vec3Fx};
use wlx_overlay::overlay::{OverlayID, Positioning};
use wlx_overlay::registry::OverlayContainer;
use wlx_overlay::state::{AppSession, AppState, GeneralConfig, LeftRight};
use wlx_overlay::task::{Task, TaskType};
use wlx_overlay::toast::{
    plan_toast, run_toast_task, DisplayMethod, Toast, ToastFactory, ToastMetrics, ToastTopic,
};

fn plain_config() -> GeneralConfig {
    GeneralConfig {
        show_screens: Vec::new(),
        realign_on_showhide: false,
        notifications_sound_enabled: false,
        notification_topics: Vec::new(),
        watch_pos: Vec3Fx { x: 100, y: 200, z: 300 },
        watch_rot: QuatFx { x: 0, y: 0, z: 0, w: 1000 },
        watch_hand: LeftRight::Left,
    }
}

fn fresh_app(config: GeneralConfig) -> AppState {
    AppState::new(AppSession::load(config))
}

fn metrics() -> ToastMetrics {
    ToastMetrics { title_w: 100_000, title_h: 16_000, body_w: 80_000, body_h: 40_000 }
}

/// Drains every elapsed task, executes it against the registry, and
/// enters the next frame.
fn tick(container: &mut OverlayContainer<u8>, app: &mut AppState, now: u64) {
    let ready: Vec<Task<ToastFactory>> = app.tasks.drain_ready(now);
    for task in ready {
        run_toast_task(container, app, task, &metrics(), 0u8);
    }
    app.tasks.advance_epoch();
}

#[test]
fn toast_lives_until_its_timeout() {
    let mut app = fresh_app(plain_config());
    let mut c: OverlayContainer<u8> = OverlayContainer::empty();

    let toast = Toast::new(
        ToastTopic::System,
        String::from("Error: disk full"),
        String::new(),
    )
    .with_timeout(3000);
    toast.submit_at(&mut app, 0);

    tick(&mut c, &mut app, 10);
    let live = c.get_by_name("toast").expect("toast is live shortly after submission");
    assert!(live.state.want_visible);
    assert_eq!(live.state.positioning, Positioning::FollowHead { lerp: 100 });

    tick(&mut c, &mut app, 3010);
    assert!(c.get_by_name("toast").is_none());
}

#[test]
fn same_instant_submissions_create_exactly_one_toast() {
    let mut app = fresh_app(plain_config());
    let mut c: OverlayContainer<u8> = OverlayContainer::empty();

    Toast::new(ToastTopic::System, String::from("first"), String::new())
        .submit_at(&mut app, 0);
    Toast::new(ToastTopic::System, String::from("second"), String::new())
        .submit_at(&mut app, 0);

    let ready = app.tasks.drain_ready(0);
    assert_eq!(ready.len(), 4);
    let mut created = 0;
    let mut skipped = 0;
    for task in ready {
        let is_create = matches!(task.kind, TaskType::CreateOverlay(..));
        let (unused, id) = run_toast_task(&mut c, &mut app, task, &metrics(), 0u8);
        if is_create {
            if id.is_some() {
                created += 1;
            } else {
                assert!(unused.is_some());
                skipped += 1;
            }
        }
    }
    assert_eq!(created, 1);
    assert_eq!(skipped, 1);
    assert_eq!(c.len(), 1);
}

#[test]
fn stale_timeout_never_kills_newer_toast() {
    let mut app = fresh_app(plain_config());
    let mut c: OverlayContainer<u8> = OverlayContainer::empty();

    Toast::new(ToastTopic::System, String::from("stale"), String::new())
        .with_timeout(1000)
        .submit_at(&mut app, 0);
    tick(&mut c, &mut app, 0);
    let first_id = c.get_by_name("toast").unwrap().state.id;

    // a fresh toast replaces the first well before its timeout fires
    Toast::new(ToastTopic::System, String::from("fresh"), String::new())
        .with_timeout(5000)
        .submit_at(&mut app, 500);
    tick(&mut c, &mut app, 500);
    let second_id = c.get_by_name("toast").unwrap().state.id;
    assert_ne!(first_id, second_id);

    // the stale drop-by-identity fires and must not touch the replacement
    tick(&mut c, &mut app, 1100);
    let live = c.get_by_name("toast").expect("the newer toast survives");
    assert_eq!(live.state.id, second_id);
    assert_eq!(c.len(), 1);
}

#[test]
fn hidden_topic_creates_no_overlay() {
    let mut config = plain_config();
    config.notification_topics.push((ToastTopic::System, DisplayMethod::Hide));
    let mut app = fresh_app(config);
    let mut c: OverlayContainer<u8> = OverlayContainer::empty();

    Toast::new(ToastTopic::System, String::from("quiet"), String::new())
        .submit_at(&mut app, 0);
    tick(&mut c, &mut app, 0);
    assert!(c.get_by_name("toast").is_none());
    assert_eq!(c.len(), 0);
}

#[test]
fn watch_method_docks_to_left_hand() {
    let mut config = plain_config();
    config.notification_topics.push((ToastTopic::System, DisplayMethod::Watch));
    let session = AppSession::load(config);
    let toast = Toast::new(ToastTopic::System, String::from("t"), String::new());
    let plan = plan_toast(&toast, &session, &metrics()).expect("watch method plans");
    assert_eq!(plan.positioning, Positioning::FollowHand { hand: 0, lerp: 1000 });
    assert_eq!(plan.spawn_point, Vec3Fx { x: 95, y: 150, z: 320 });
    assert_eq!(plan.spawn_rotation, QuatFx { x: 0, y: 0, z: 0, w: 1000 });
}

#[test]
fn watch_method_mirrors_for_right_hand() {
    let mut config = plain_config();
    config.watch_hand = LeftRight::Right;
    config.notification_topics.push((ToastTopic::System, DisplayMethod::Watch));
    let session = AppSession::load(config);
    let toast = Toast::new(ToastTopic::System, String::from("t"), String::new());
    let plan = plan_toast(&toast, &session, &metrics()).expect("watch method plans");
    assert_eq!(plan.positioning, Positioning::FollowHand { hand: 1, lerp: 1000 });
    assert_eq!(plan.spawn_point, Vec3Fx { x: -95, y: 150, z: 320 });
    // the identity watch rotation flipped by half turns about X then Z
    assert_eq!(plan.spawn_rotation, QuatFx { x: 0, y: -1000, z: 0, w: 0 });
}

#[test]
fn toast_canvas_size_without_body() {
    let session = AppSession::load(plain_config());
    let toast = Toast::new(ToastTopic::System, String::from("title"), String::new());
    let plan = plan_toast(&toast, &session, &metrics()).expect("centered");
    assert_eq!(plan.width, 100_000 + 50_000);
    assert_eq!(plan.height, 16_000 + 20_000);
    assert_eq!(plan.spawn_scale, 150_000 / 2000);
}

#[test]
fn toast_canvas_size_with_body() {
    let session = AppSession::load(plain_config());
    let toast = Toast::new(
        ToastTopic::System,
        String::from("title"),
        String::from("body"),
    );
    let plan = plan_toast(&toast, &session, &metrics()).expect("centered");
    // the title is wider than the body here
    assert_eq!(plan.width, 100_000 + 50_000);
    assert_eq!(plan.height, 40_000 + 50_000);
}

#[test]
fn empty_title_becomes_placeholder() {
    let session = AppSession::load(plain_config());
    let toast = Toast::new(ToastTopic::System, String::new(), String::from("body"));
    let plan = plan_toast(&toast, &session, &metrics()).expect("centered");
    assert_eq!(plan.title, "Notification");
}

#[test]
fn submit_reports_sound_only_when_enabled() {
    let mut config = plain_config();
    config.notifications_sound_enabled = true;
    let mut app = fresh_app(config);
    let loud = Toast::new(ToastTopic::System, String::from("a"), String::new())
        .with_sound(true);
    assert!(loud.submit_at(&mut app, 0));

    let mut muted_app = fresh_app(plain_config());
    let muted = Toast::new(ToastTopic::System, String::from("b"), String::new())
        .with_sound(true);
    assert!(!muted.submit_at(&mut muted_app, 0));
}

#[test]
fn session_defaults_center_common_topics() {
    let session = AppSession::load(plain_config());
    assert_eq!(session.topic_method(ToastTopic::System), DisplayMethod::Center);
    assert_eq!(
        session.topic_method(ToastTopic::DesktopNotification),
        DisplayMethod::Center
    );
    assert_eq!(
        session.topic_method(ToastTopic::XSNotification),
        DisplayMethod::Center
    );
    assert_eq!(session.topic_method(ToastTopic::IpdChange), DisplayMethod::Hide);
}

#[test]
fn configuration_overrides_topic_defaults() {
    let mut config = plain_config();
    config.notification_topics.push((ToastTopic::System, DisplayMethod::Watch));
    let session = AppSession::load(config);
    assert_eq!(session.topic_method(ToastTopic::System), DisplayMethod::Watch);
}

#[test]
fn builders_set_presentation() {
    let toast = Toast::new(ToastTopic::System, String::from("t"), String::from("b"));
    assert_eq!(toast.timeout, 3000);
    assert_eq!(toast.opacity, 1000);
    assert!(!toast.sound);
    let toast = toast.with_timeout(1500).with_opacity(700).with_sound(true);
    assert_eq!(toast.timeout, 1500);
    assert_eq!(toast.opacity, 700);
    assert!(toast.sound);
}

#[test]
fn create_schedules_drop_by_identity_at_destroy_instant() {
    let mut app = fresh_app(plain_config());
    let mut c: OverlayContainer<u8> = OverlayContainer::empty();
    Toast::new(ToastTopic::System, String::from("t"), String::new())
        .with_timeout(2000)
        .submit_at(&mut app, 100);
    tick(&mut c, &mut app, 100);
    let id = c.get_by_name("toast").unwrap().state.id;

    let pending = app.tasks.drain_ready(u64::MAX);
    assert_eq!(pending.len(), 1);
    assert_eq!(pending[0].not_before, 2100);
    match &pending[0].kind {
        TaskType::DropOverlay(sel) => match sel {
            wlx_overlay::registry::OverlaySelector::Id(got) => assert_eq!(*got, id),
            _ => panic!("drop-by-identity expected"),
        },
        _ => panic!("drop task expected"),
    }
}
