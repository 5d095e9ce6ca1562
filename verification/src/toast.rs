//! Toast notifications: transient overlays submitted by independent
//! producers and cleaned up by deferred drop tasks.
//!
//! A producer follows a two-phase pattern: it enqueues a drop-by-name task
//! at the submission instant, clearing any stale instance, then a
//! create-by-name task at the same instant.  The create task, when it
//! runs, builds the overlay only if no entity answers the name, which
//! makes overlapping submissions idempotent, and schedules a
//! drop-by-identity task at the timeout, which can never remove a newer
//! replacement because identities are never reused.

use crate::geometry::{
    half_turn_xz_spec, quat_identity, quat_identity_spec, rotate_half_turn_xz, scale_div,
    trunc_div, vec_in_bounds, QuatFx, Vec3Fx, FX_COORD_LIMIT, FX_ONE,
};
use crate::overlay::{state_bounded, OverlayData, OverlayID, OverlayState, Positioning, Z_ORDER_TOAST};
use crate::registry::{
    count_matches, has_match, has_stale_match, ids_below, insert_spec, lemma_count_matches_push,
    lemma_count_matches_zero, remove_stale_spec, sel_matches, stale_matches, OverlayContainer,
    OverlaySelector, SelectorView,
};
use crate::state::{config_bounded, topic_lookup, AppSession, AppState, GeneralConfig, LeftRight};
use crate::task::{split_point, Task, TaskType};
use vstd::prelude::*;

verus! {

/// How a toast category is displayed: not at all, centered in front of the
/// head, or docked to the watch hand.
#[derive(Clone, Copy, Debug, PartialEq, Eq, Structural)]
pub enum DisplayMethod {
    Hide,
    Center,
    Watch,
}

/// The category of a toast, used to look up its display method.
#[derive(Clone, Copy, Debug, PartialEq, Eq, Structural)]
pub enum ToastTopic {
    System,
    DesktopNotification,
    XSNotification,
    IpdChange,
}

/// A pending notification: title, body, presentation parameters and the
/// category it is filed under.  Opacity is in fixed-point thousandths and
/// the timeout is in milliseconds.
#[derive(Debug)]
pub struct Toast {
    pub title: String,
    pub body: String,
    pub opacity: i64,
    pub timeout: u64,
    pub sound: bool,
    pub topic: ToastTopic,
}

impl Toast {
    /// A toast with the default presentation: fully opaque, three-second
    /// timeout, silent.
    pub fn new(topic: ToastTopic, title: String, body: String) -> (t: Self)
        ensures
            t.topic == topic,
            t.title == title,
            t.body == body,
            t.opacity == FX_ONE,
            t.timeout == 3000,
            !t.sound,
    {
        Toast { title, body, opacity: FX_ONE, timeout: 3000, sound: false, topic }
    }

    pub fn with_timeout(self, timeout: u64) -> (t: Self)
        ensures
            t == (Toast { timeout, ..self }),
    {
        Toast { timeout, ..self }
    }

    pub fn with_opacity(self, opacity: i64) -> (t: Self)
        ensures
            t == (Toast { opacity, ..self }),
    {
        Toast { opacity, ..self }
    }

    pub fn with_sound(self, sound: bool) -> (t: Self)
        ensures
            t == (Toast { sound, ..self }),
    {
        Toast { sound, ..self }
    }
}

/// The payload of a deferred create task for a toast: the toast itself and
/// the instant at which the created overlay is to be dropped again.
#[derive(Debug)]
pub struct ToastFactory {
    pub toast: Toast,
    pub destroy_at: u64,
}

/// The display name shared by all toast overlays; at most one toast is
/// live at a time, enforced by the create task's idempotency.
pub open spec fn toast_name_spec() -> Seq<char> {
    "toast"@
}

pub fn toast_name() -> (r: &'static str)
    ensures
        r@ == toast_name_spec(),
{
    "toast"
}

/// Horizontal canvas padding on each side of the text, in milli-pixels.
pub const TOAST_PADDING_X: i64 = 25 * 1000;

/// Canvas pixels per meter of spawn scale.
pub const PIXELS_PER_METER: i64 = 2000;

/// Measured text extents of a toast's title and body, in milli-pixels;
/// the text system that measures them is the caller's.
#[derive(Clone, Copy, Debug)]
pub struct ToastMetrics {
    pub title_w: i64,
    pub title_h: i64,
    pub body_w: i64,
    pub body_h: i64,
}

pub open spec fn metrics_ok(m: ToastMetrics) -> bool {
    &&& 0 <= m.title_w <= 0x4000_0000
    &&& 0 <= m.title_h <= 0x4000_0000
    &&& 0 <= m.body_w <= 0x4000_0000
    &&& 0 <= m.body_h <= 0x4000_0000
}

/// Positioning policy of a toast under a display method: centered toasts
/// chase the head with light smoothing, watch-docked toasts stick to the
/// configured hand.
pub open spec fn toast_positioning_spec(c: GeneralConfig, method: DisplayMethod) -> Positioning {
    match method {
        DisplayMethod::Center => Positioning::FollowHead { lerp: 100 },
        DisplayMethod::Watch => match c.watch_hand {
            LeftRight::Left => Positioning::FollowHand { hand: 0, lerp: 1000 },
            LeftRight::Right => Positioning::FollowHand { hand: 1, lerp: 1000 },
        },
        DisplayMethod::Hide => Positioning::Static,
    }
}

/// Spawn point of a toast under a display method: a fixed offset in front
/// of the head when centered; the configured watch position, nudged onto
/// the wrist and mirrored for the right hand, when watch-docked.
pub open spec fn toast_point_spec(c: GeneralConfig, method: DisplayMethod) -> Vec3Fx {
    match method {
        DisplayMethod::Center => Vec3Fx { x: 0, y: -200i64, z: -500i64 },
        DisplayMethod::Watch => match c.watch_hand {
            LeftRight::Left => Vec3Fx {
                x: (c.watch_pos.x - 5) as i64,
                y: (c.watch_pos.y - 50) as i64,
                z: (c.watch_pos.z + 20) as i64,
            },
            LeftRight::Right => Vec3Fx {
                x: (-(c.watch_pos.x - 5)) as i64,
                y: (c.watch_pos.y - 50) as i64,
                z: (c.watch_pos.z + 20) as i64,
            },
        },
        DisplayMethod::Hide => Vec3Fx { x: 0, y: 0, z: 0 },
    }
}

/// Spawn rotation of a toast: identity when centered; the configured
/// watch rotation, flipped by half turns about its X and Z axes for the
/// right hand, when watch-docked.
pub open spec fn toast_rotation_spec(c: GeneralConfig, method: DisplayMethod) -> QuatFx {
    match method {
        DisplayMethod::Center => quat_identity_spec(),
        DisplayMethod::Watch => match c.watch_hand {
            LeftRight::Left => c.watch_rot,
            LeftRight::Right => half_turn_xz_spec(c.watch_rot),
        },
        DisplayMethod::Hide => quat_identity_spec(),
    }
}

/// Canvas size of a toast in milli-pixels: the widest text line plus the
/// horizontal padding; a body adds a title bar, a bare title only a small
/// margin.
pub open spec fn toast_size_spec(t: Toast, m: ToastMetrics) -> (int, int) {
    let base = if t.body@.len() == 0 {
        (m.title_w as int, m.title_h as int + 20_000)
    } else {
        (
            if m.title_w >= m.body_w {
                m.title_w as int
            } else {
                m.body_w as int
            },
            m.body_h as int + 50_000,
        )
    };
    (base.0 + 2 * TOAST_PADDING_X as int, base.1)
}

/// Spawn scale of a toast in milli-meters: its canvas width at the fixed
/// pixels-per-meter density.
pub open spec fn toast_scale_spec(t: Toast, m: ToastMetrics) -> int {
    trunc_div(toast_size_spec(t, m).0, PIXELS_PER_METER as int)
}

/// The title actually shown: a placeholder replaces an empty title.
pub open spec fn toast_title_view(t: Toast) -> Seq<char> {
    if t.title@.len() == 0 {
        "Notification"@
    } else {
        t.title@
    }
}

/// Everything the renderer needs to build a toast overlay: the resolved
/// texts, canvas size and spawn pose.
#[derive(Debug)]
pub struct ToastPlan {
    pub title: String,
    pub body: String,
    pub opacity: i64,
    pub width: i64,
    pub height: i64,
    pub spawn_scale: i64,
    pub spawn_point: Vec3Fx,
    pub spawn_rotation: QuatFx,
    pub positioning: Positioning,
}

/// Decides whether and how a toast is displayed: `None` exactly when the
/// toast's topic is configured hidden; otherwise the spawn pose, canvas
/// size and texts, as functions of the configuration and measured text
/// extents.
pub fn plan_toast(toast: &Toast, session: &AppSession, metrics: &ToastMetrics) -> (r: Option<
    ToastPlan,
>)
    requires
        metrics_ok(*metrics),
        config_bounded(session.config),
    ensures
        ({
            let method = topic_lookup(session.toast_topics@, toast.topic);
            match r {
                None => method == DisplayMethod::Hide,
                Some(p) => {
                    &&& method != DisplayMethod::Hide
                    &&& p.title@ == toast_title_view(*toast)
                    &&& p.body == toast.body
                    &&& p.opacity == toast.opacity
                    &&& p.width == toast_size_spec(*toast, *metrics).0
                    &&& p.height == toast_size_spec(*toast, *metrics).1
                    &&& p.spawn_scale == toast_scale_spec(*toast, *metrics)
                    &&& p.positioning == toast_positioning_spec(session.config, method)
                    &&& p.spawn_point == toast_point_spec(session.config, method)
                    &&& p.spawn_rotation == toast_rotation_spec(session.config, method)
                    &&& 0 <= p.spawn_scale <= 0x10_0000
                    &&& vec_in_bounds(p.spawn_point, FX_COORD_LIMIT as int)
                    &&& -4 * FX_ONE as int <= p.spawn_rotation.x <= 4 * FX_ONE as int
                    &&& -4 * FX_ONE as int <= p.spawn_rotation.y <= 4 * FX_ONE as int
                    &&& -4 * FX_ONE as int <= p.spawn_rotation.z <= 4 * FX_ONE as int
                    &&& -4 * FX_ONE as int <= p.spawn_rotation.w <= 4 * FX_ONE as int
                },
            }
        }),
{
    let method = session.topic_method(toast.topic);
    let chosen: Option<(Vec3Fx, QuatFx, Positioning)> = match method {
        DisplayMethod::Hide => None,
        DisplayMethod::Center => Some(
            (
                Vec3Fx { x: 0, y: -200, z: -500 },
                quat_identity(),
                Positioning::FollowHead { lerp: 100 },
            ),
        ),
        DisplayMethod::Watch => {
            let base = session.config.watch_pos;
            let pos = Vec3Fx { x: base.x - 5, y: base.y - 50, z: base.z + 20 };
            match session.config.watch_hand {
                LeftRight::Left => Some(
                    (pos, session.config.watch_rot, Positioning::FollowHand { hand: 0, lerp: 1000 }),
                ),
                LeftRight::Right => Some(
                    (
                        Vec3Fx { x: -pos.x, y: pos.y, z: pos.z },
                        rotate_half_turn_xz(session.config.watch_rot),
                        Positioning::FollowHand { hand: 1, lerp: 1000 },
                    ),
                ),
            }
        },
    };
    match chosen {
        None => None,
        Some((spawn_point, spawn_rotation, positioning)) => {
            let (w, h) = if toast.body.as_str().is_empty() {
                (metrics.title_w, metrics.title_h + 20_000)
            } else {
                let wide = if metrics.title_w >= metrics.body_w {
                    metrics.title_w
                } else {
                    metrics.body_w
                };
                (wide, metrics.body_h + 50_000)
            };
            let width = w + 2 * TOAST_PADDING_X;
            let title = if toast.title.as_str().is_empty() {
                "Notification".to_owned()
            } else {
                toast.title.clone()
            };
            Some(
                ToastPlan {
                    title,
                    body: toast.body.clone(),
                    opacity: toast.opacity,
                    width,
                    height: h,
                    spawn_scale: scale_div(width, PIXELS_PER_METER),
                    spawn_point,
                    spawn_rotation,
                    positioning,
                },
            )
        },
    }
}

impl Toast {
    /// Enqueues the two-phase submission at the given instant: an eager
    /// drop of any existing toast by name, then the creation of this one,
    /// both eligible at `instant`.  Returns whether the notification sound
    /// should be played.
    pub fn submit_at(self, app: &mut AppState, instant: u64) -> (play_sound: bool)
        requires
            old(app).tasks.wf(),
            old(app).tasks.spec_next_serial() + 1 < u64::MAX,
            instant + self.timeout <= u64::MAX,
        ensures
            final(app).tasks.wf(),
            final(app).tasks.spec_next_serial() == old(app).tasks.spec_next_serial() + 2,
            final(app).session == old(app).session,
            final(app).input_hmd == old(app).input_hmd,
            final(app).input_hand_left == old(app).input_hand_left,
            final(app).input_hand_right == old(app).input_hand_right,
            final(app).anchor == old(app).anchor,
            final(app).screens == old(app).screens,
            final(app).next_id == old(app).next_id,
            play_sound == (self.sound && old(app).session.config.notifications_sound_enabled),
            ({
                let q0 = old(app).tasks@;
                let q2 = final(app).tasks@;
                let p = split_point(q0, instant);
                &&& q2.len() == q0.len() + 2
                &&& forall|j: int| 0 <= j < p ==> q2[j] == q0[j]
                &&& forall|j: int| p <= j < q0.len() ==> q2[j + 2] == q0[j]
                &&& q2[p].not_before == instant
                &&& q2[p].serial == old(app).tasks.spec_next_serial()
                &&& q2[p].epoch == old(app).tasks.spec_epoch()
                &&& match q2[p].kind {
                    TaskType::DropOverlay(sel) => sel@ == SelectorView::Name(toast_name_spec()),
                    _ => false,
                }
                &&& q2[p + 1].not_before == instant
                &&& q2[p + 1].serial == old(app).tasks.spec_next_serial() + 1
                &&& q2[p + 1].epoch == old(app).tasks.spec_epoch()
                &&& match q2[p + 1].kind {
                    TaskType::CreateOverlay(sel, f) => {
                        &&& sel@ == SelectorView::Name(toast_name_spec())
                        &&& f.toast == self
                        &&& f.destroy_at == instant + self.timeout
                    },
                    _ => false,
                }
            }),
    {
        let destroy_at = instant + self.timeout;
        let play_sound = self.sound && app.session.config.notifications_sound_enabled;
        let drop_sel = OverlaySelector::Name(toast_name().to_owned());
        let create_sel = OverlaySelector::Name(toast_name().to_owned());
        let ghost q0 = app.tasks@;
        let ghost p = split_point(q0, instant);
        proof {
            crate::task::lemma_split_point(q0, instant);
        }
        app.tasks.enqueue_at(TaskType::DropOverlay(drop_sel), instant);
        let ghost q1 = app.tasks@;
        proof {
            crate::task::lemma_split_point(q1, instant);
            let sp1 = split_point(q1, instant);
            if sp1 <= p {
                assert(q1[p] == q1[p]);
                assert(q1[p].not_before == instant);
                assert(q1[p].not_before > instant);
            }
            if sp1 > p + 1 {
                assert(q1[p + 1] == q0[p]);
                assert(q0[p].not_before > instant);
                assert(q1[p + 1].not_before <= instant);
            }
            assert(sp1 == p + 1);
        }
        app.tasks.enqueue_at(
            TaskType::CreateOverlay(create_sel, ToastFactory { toast: self, destroy_at }),
            instant,
        );
        play_sound
    }

    /// Submits the toast at the current instant.
    pub fn submit(self, app: &mut AppState, now: u64) -> (play_sound: bool)
        requires
            old(app).tasks.wf(),
            old(app).tasks.spec_next_serial() + 1 < u64::MAX,
            now + self.timeout <= u64::MAX,
        ensures
            final(app).tasks.wf(),
            final(app).tasks.spec_next_serial() == old(app).tasks.spec_next_serial() + 2,
            final(app).session == old(app).session,
            final(app).next_id == old(app).next_id,
            play_sound == (self.sound && old(app).session.config.notifications_sound_enabled),
            ({
                let q0 = old(app).tasks@;
                let q2 = final(app).tasks@;
                let p = split_point(q0, now);
                &&& q2.len() == q0.len() + 2
                &&& forall|j: int| 0 <= j < p ==> q2[j] == q0[j]
                &&& forall|j: int| p <= j < q0.len() ==> q2[j + 2] == q0[j]
                &&& q2[p].not_before == now
                &&& match q2[p].kind {
                    TaskType::DropOverlay(sel) => sel@ == SelectorView::Name(toast_name_spec()),
                    _ => false,
                }
                &&& q2[p + 1].not_before == now
                &&& match q2[p + 1].kind {
                    TaskType::CreateOverlay(sel, f) => {
                        &&& sel@ == SelectorView::Name(toast_name_spec())
                        &&& f.toast == self
                        &&& f.destroy_at == now + self.timeout
                    },
                    _ => false,
                }
            }),
    {
        self.submit_at(app, now)
    }
}

/// Executes one drained task against the registry.
///
/// A drop task removes the entity its selector resolves to, if any.  A
/// create task is skipped when an entity already answers the selector, so
/// overlapping creations are idempotent; otherwise the toast is planned,
/// and if its topic is not hidden, a fresh identity is allocated, the
/// entity is inserted visible, and a drop of exactly that identity is
/// scheduled at the factory's destroy instant.  The prebuilt backend is
/// returned whenever no entity consumed it.
#[verifier::rlimit(30)]
pub fn run_toast_task<B>(
    container: &mut OverlayContainer<B>,
    app: &mut AppState,
    task: Task<ToastFactory>,
    metrics: &ToastMetrics,
    backend: B,
) -> (r: (Option<B>, Option<OverlayID>))
    requires
        old(app).tasks.wf(),
        old(app).tasks.spec_next_serial() < u64::MAX,
        old(app).next_id < usize::MAX,
        metrics_ok(*metrics),
        config_bounded(old(app).session.config),
        ids_below(old(container)@, old(app).next_id),
    ensures
        ids_below(final(container)@, final(app).next_id),
        final(app).session == old(app).session,
        final(app).input_hmd == old(app).input_hmd,
        final(app).input_hand_left == old(app).input_hand_left,
        final(app).input_hand_right == old(app).input_hand_right,
        final(app).anchor == old(app).anchor,
        final(app).screens == old(app).screens,
        match task.kind {
            TaskType::DropOverlay(sel) => {
                &&& final(container)@ == remove_stale_spec(old(container)@, sel@, task.epoch)
                &&& final(app).tasks == old(app).tasks
                &&& final(app).next_id == old(app).next_id
                &&& r.0 == Some(backend)
                &&& r.1 is None
            },
            TaskType::CreateOverlay(sel, f) => {
                let method = topic_lookup(old(app).session.toast_topics@, f.toast.topic);
                if has_match(old(container)@, sel@) || method == DisplayMethod::Hide {
                    &&& final(container)@ == old(container)@
                    &&& final(app).tasks == old(app).tasks
                    &&& final(app).next_id == old(app).next_id
                    &&& r.0 == Some(backend)
                    &&& r.1 is None
                } else {
                    let id = OverlayID(old(app).next_id);
                    let cfg = old(app).session.config;
                    &&& r.0 is None
                    &&& r.1 == Some(id)
                    &&& final(app).next_id == old(app).next_id + 1
                    &&& final(container)@.len() == old(container)@.len() + 1
                    &&& final(container)@ == old(container)@.push(final(container)@.last())
                    &&& ({
                        let d = final(container)@.last();
                        &&& d.backend == backend
                        &&& d.state.id == id
                        &&& d.state.birth_epoch == old(app).tasks.spec_epoch()
                        &&& d.state.name@ == toast_name_spec()
                        &&& d.state.want_visible
                        &&& d.state.dirty
                        &&& !d.state.show_hide
                        &&& !d.state.interactable
                        &&& !d.state.grabbable
                        &&& d.state.recenter
                        &&& d.state.z_order == Z_ORDER_TOAST
                        &&& d.state.positioning == toast_positioning_spec(cfg, method)
                        &&& d.state.spawn_point == toast_point_spec(cfg, method)
                        &&& d.state.spawn_rotation == toast_rotation_spec(cfg, method)
                        &&& d.state.spawn_scale == toast_scale_spec(f.toast, *metrics)
                        &&& state_bounded(d.state)
                    })
                    &&& final(app).tasks.wf()
                    &&& final(app).tasks.spec_next_serial() == old(app).tasks.spec_next_serial()
                        + 1
                    &&& ({
                        let q0 = old(app).tasks@;
                        let q1 = final(app).tasks@;
                        let p = split_point(q0, f.destroy_at);
                        &&& q1.len() == q0.len() + 1
                        &&& forall|j: int| 0 <= j < p ==> q1[j] == q0[j]
                        &&& forall|j: int| p <= j < q0.len() ==> q1[j + 1] == q0[j]
                        &&& q1[p].not_before == f.destroy_at
                        &&& q1[p].serial == old(app).tasks.spec_next_serial()
                        &&& match q1[p].kind {
                            TaskType::DropOverlay(s) => s@ == SelectorView::Id(id),
                            _ => false,
                        }
                    })
                }
            },
        },
{
    let epoch = task.epoch;
    match task.kind {
        TaskType::DropOverlay(sel) => {
            let _removed = container.remove_stale_by_selector(&sel, epoch);
            proof {
                let s0 = old(container)@;
                let sv = sel@;
                crate::registry::lemma_first_stale_match(s0, sv, epoch);
                if has_stale_match(s0, sv, epoch) {
                    let fm = crate::registry::first_stale_match(s0, sv, epoch);
                    assert forall|i: int|
                        0 <= i < container@.len() implies (#[trigger] container@[i].state.id).0
                        < app.next_id by {
                        if i < fm {
                            assert(container@[i] == s0[i]);
                        } else {
                            assert(container@[i] == s0[i + 1]);
                        }
                    }
                }
            }
            (Some(backend), None)
        },
        TaskType::CreateOverlay(sel, factory) => {
            if container.contains(&sel) {
                (Some(backend), None)
            } else {
                match plan_toast(&factory.toast, &app.session, metrics) {
                    None => (Some(backend), None),
                    Some(plan) => {
                        let id = app.alloc_id();
                        let mut st = OverlayState::default();
                        st.id = id;
                        st.birth_epoch = app.tasks.epoch();
                        st.name = toast_name().to_owned();
                        st.want_visible = true;
                        st.dirty = true;
                        st.z_order = Z_ORDER_TOAST;
                        st.positioning = plan.positioning;
                        st.spawn_scale = plan.spawn_scale;
                        st.spawn_point = plan.spawn_point;
                        st.spawn_rotation = plan.spawn_rotation;
                        proof {
                            if has_match(old(container)@, SelectorView::Id(id)) {
                                let i = choose|i: int|
                                    0 <= i < old(container)@.len() && sel_matches(
                                        old(container)@[i],
                                        SelectorView::Id(id),
                                    );
                                assert(old(container)@[i].state.id.0 < old(app).next_id);
                            }
                        }
                        container.add(OverlayData::new(st, backend));
                        proof {
                            crate::task::lemma_split_point(app.tasks@, factory.destroy_at);
                        }
                        app.tasks.enqueue_at(
                            TaskType::DropOverlay(OverlaySelector::Id(id)),
                            factory.destroy_at,
                        );
                        (None, Some(id))
                    },
                }
            }
        },
    }
}

/// Idempotent creation: when nothing answers a selector, the first create
/// task runs its factory and leaves exactly one matching entity, and a
/// second create task for the same selector finds that entity and is
/// skipped, leaving the registry unchanged.
pub proof fn lemma_create_idempotent<B>(
    s: Seq<OverlayData<B>>,
    sel: SelectorView,
    d: OverlayData<B>,
)
    requires
        count_matches(s, sel) == 0,
        sel_matches(d, sel),
        !has_match(s, SelectorView::Id(d.state.id)),
    ensures
        !has_match(s, sel),
        has_match(insert_spec(s, d), sel),
        count_matches(insert_spec(s, d), sel) == 1,
{
    lemma_count_matches_zero(s, sel);
    assert(insert_spec(s, d) == s.push(d));
    lemma_count_matches_push(s, sel, d);
    assert(s.push(d)[s.len() as int] == d);
}

/// No race-kill: a drop-by-identity task whose identity answers to no live
/// entity removes nothing, at any epoch.  Identities are handed out
/// strictly increasing and never reused, so a timeout scheduled for an
/// overlay that was already replaced can never destroy its newer
/// replacement.
pub proof fn lemma_drop_by_id_spares_newer<B>(s: Seq<OverlayData<B>>, a: OverlayID, epoch: u64)
    requires
        forall|i: int| 0 <= i < s.len() ==> (#[trigger] s[i].state.id) != a,
    ensures
        remove_stale_spec(s, SelectorView::Id(a), epoch) == s,
{
    if has_stale_match(s, SelectorView::Id(a), epoch) {
        let i = choose|i: int|
            0 <= i < s.len() && stale_matches(s[i], SelectorView::Id(a), epoch);
        assert(s[i].state.id == a);
    }
}

/// An eager drop-by-name spares every entity created in its own frame or
/// later: its selector only matches entities created strictly before the
/// request, so it clears stale instances without racing a same-frame
/// creation.
pub proof fn lemma_same_frame_drop_spares<B>(s: Seq<OverlayData<B>>, n: Seq<char>, epoch: u64)
    requires
        forall|i: int| 0 <= i < s.len() ==> (#[trigger] s[i].state.birth_epoch) >= epoch,
    ensures
        remove_stale_spec(s, SelectorView::Name(n), epoch) == s,
{
    if has_stale_match(s, SelectorView::Name(n), epoch) {
        let i = choose|i: int|
            0 <= i < s.len() && stale_matches(s[i], SelectorView::Name(n), epoch);
        assert(s[i].state.birth_epoch >= epoch);
    }
}

/// A private helper of the producers: submits a plain error toast.
fn msg_err(app: &mut AppState, message: &str, now: u64)
    requires
        old(app).tasks.wf(),
        old(app).tasks.spec_next_serial() + 1 < u64::MAX,
        now + 3000 <= u64::MAX,
    ensures
        final(app).tasks.wf(),
        final(app).tasks@.len() == old(app).tasks@.len() + 2,
        final(app).session == old(app).session,
        final(app).next_id == old(app).next_id,
        ({
            let q2 = final(app).tasks@;
            let p = split_point(old(app).tasks@, now);
            &&& q2[p].not_before == now
            &&& match q2[p].kind {
                TaskType::DropOverlay(sel) => sel@ == SelectorView::Name(toast_name_spec()),
                _ => false,
            }
            &&& q2[p + 1].not_before == now
            &&& match q2[p + 1].kind {
                TaskType::CreateOverlay(sel, f) => {
                    &&& sel@ == SelectorView::Name(toast_name_spec())
                    &&& f.toast.title@ == "Error"@
                    &&& f.toast.body@ == message@
                    &&& f.toast.timeout == 3000
                    &&& f.toast.topic == ToastTopic::System
                    &&& f.destroy_at == now + 3000
                },
                _ => false,
            }
        }),
{
    let toast = Toast::new(ToastTopic::System, "Error".to_owned(), message.to_owned());
    let toast = toast.with_timeout(3000);
    toast.submit_at(app, now);
}

/// Submits an error message as a system toast with the default timeout;
/// the caller is expected to log the message through its own channel.
pub fn error_toast_str(app: &mut AppState, message: &str, now: u64)
    requires
        old(app).tasks.wf(),
        old(app).tasks.spec_next_serial() + 1 < u64::MAX,
        now + 3000 <= u64::MAX,
    ensures
        final(app).tasks.wf(),
        final(app).tasks@.len() == old(app).tasks@.len() + 2,
        final(app).session == old(app).session,
        final(app).next_id == old(app).next_id,
        ({
            let q2 = final(app).tasks@;
            let p = split_point(old(app).tasks@, now);
            &&& q2[p].not_before == now
            &&& match q2[p].kind {
                TaskType::DropOverlay(sel) => sel@ == SelectorView::Name(toast_name_spec()),
                _ => false,
            }
            &&& q2[p + 1].not_before == now
            &&& match q2[p + 1].kind {
                TaskType::CreateOverlay(sel, f) => {
                    &&& sel@ == SelectorView::Name(toast_name_spec())
                    &&& f.toast.title@ == "Error"@
                    &&& f.toast.body@ == message@
                    &&& f.toast.timeout == 3000
                    &&& f.toast.topic == ToastTopic::System
                    &&& f.destroy_at == now + 3000
                },
                _ => false,
            }
        }),
{
    msg_err(app, message, now);
}

} // verus!
