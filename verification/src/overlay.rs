//! Overlay entities: per-overlay state, positioning policy and the pairing
//! of state with a rendering backend.

use crate::geometry::{
    add_t, affine_identity_spec, affine_in_bounds, mat_vec_t, pose_from_parts, pose_t,
    quat_identity_spec, vec_in_bounds, vec_ints, affine_mul, AffineFx, QuatFx, Vec3Fx,
    FX_COORD_LIMIT, FX_ONE,
};
use crate::state::AppState;
use vstd::prelude::*;

verus! {

/// Render order of ordinary overlays.
pub const Z_ORDER_DEFAULT: u32 = 0;

/// Render order of the anchor panel.
pub const Z_ORDER_ANCHOR: u32 = 60;

/// Render order of toast notifications.
pub const Z_ORDER_TOAST: u32 = 70;

/// Render order of pointer line overlays.
pub const Z_ORDER_LINES: u32 = 80;

/// Display name of the always-present watch panel, the one surface the
/// user regains after any global hide/show cycle.
pub open spec fn watch_name_spec() -> Seq<char> {
    "watch"@
}

pub fn watch_name() -> (r: &'static str)
    ensures
        r@ == watch_name_spec(),
{
    "watch"
}

/// Display name of the virtual keyboard overlay.
pub open spec fn keyboard_name_spec() -> Seq<char> {
    "keyboard"@
}

pub fn keyboard_name() -> (r: &'static str)
    ensures
        r@ == keyboard_name_spec(),
{
    "keyboard"
}

/// A stable, process-unique overlay handle; identity is the only thing a
/// long-lived external reference may safely hold.
#[derive(Clone, Copy, Debug, PartialEq, Eq, Structural)]
pub struct OverlayID(pub usize);

/// How an overlay's transform is derived each frame.
#[derive(Clone, Copy, Debug, PartialEq, Eq, Structural)]
pub enum Positioning {
    /// The transform stays fixed at its spawn pose.
    Static,
    /// The transform chases the head pose with smoothing factor `lerp`,
    /// in fixed-point thousandths of the full step.
    FollowHead { lerp: i64 },
    /// The transform chases a tracked hand pose.
    FollowHand { hand: usize, lerp: i64 },
}

/// Mutable per-overlay record: identity, display name, visibility and
/// interaction flags, render order, positioning policy and spawn pose.
///
/// `want_visible` is advisory for rendering and distinct from `show_hide`,
/// which is membership in the global show/hide toggle group: an overlay can
/// be individually hidden while still being a member of the toggled group.
#[derive(Clone, Debug)]
pub struct OverlayState {
    pub id: OverlayID,
    /// The frame epoch the entity was created in; a deferred drop task
    /// only removes entities born strictly before its own enqueue epoch.
    pub birth_epoch: u64,
    pub name: String,
    pub want_visible: bool,
    pub interactable: bool,
    pub grabbable: bool,
    pub show_hide: bool,
    pub dirty: bool,
    pub recenter: bool,
    pub z_order: u32,
    pub positioning: Positioning,
    pub spawn_scale: i64,
    pub spawn_point: Vec3Fx,
    pub spawn_rotation: QuatFx,
    pub transform: AffineFx,
}

/// Machine limits under which the spawn pose of a state can be rebuilt
/// without overflow.
pub open spec fn state_bounded(s: OverlayState) -> bool {
    &&& -4 * FX_ONE as int <= s.spawn_rotation.x <= 4 * FX_ONE as int
    &&& -4 * FX_ONE as int <= s.spawn_rotation.y <= 4 * FX_ONE as int
    &&& -4 * FX_ONE as int <= s.spawn_rotation.z <= 4 * FX_ONE as int
    &&& -4 * FX_ONE as int <= s.spawn_rotation.w <= 4 * FX_ONE as int
    &&& 0 <= s.spawn_scale <= 0x10_0000
    &&& vec_in_bounds(s.spawn_point, FX_COORD_LIMIT as int)
}

/// The pose an overlay re-centers against: its anchor for static overlays,
/// the head for head-followers and the tracked hand for hand-followers.
pub open spec fn reset_base(s: OverlayState, app: AppState) -> AffineFx {
    match s.positioning {
        Positioning::Static => app.anchor,
        Positioning::FollowHead { .. } => app.input_hmd,
        Positioning::FollowHand { hand, .. } => if hand == 0 {
            app.input_hand_left
        } else {
            app.input_hand_right
        },
    }
}

impl Default for OverlayState {
    /// A blank overlay: invisible, non-interactive, at the identity pose
    /// with unit scale.
    fn default() -> (s: Self)
        ensures
            s.id == OverlayID(0),
            s.birth_epoch == 0,
            s.name@ == Seq::<char>::empty(),
            !s.want_visible,
            !s.interactable,
            !s.grabbable,
            !s.show_hide,
            !s.dirty,
            s.recenter,
            s.z_order == Z_ORDER_DEFAULT,
            s.positioning == Positioning::Static,
            s.spawn_scale == FX_ONE,
            s.spawn_point == (Vec3Fx { x: 0, y: 0, z: 0 }),
            s.spawn_rotation == quat_identity_spec(),
            s.transform == affine_identity_spec(),
    {
        OverlayState {
            id: OverlayID(0),
            birth_epoch: 0,
            name: String::new(),
            want_visible: false,
            interactable: false,
            grabbable: false,
            show_hide: false,
            dirty: false,
            recenter: true,
            z_order: Z_ORDER_DEFAULT,
            positioning: Positioning::Static,
            spawn_scale: FX_ONE,
            spawn_point: Vec3Fx { x: 0, y: 0, z: 0 },
            spawn_rotation: QuatFx { x: 0, y: 0, z: 0, w: FX_ONE },
            transform: AffineFx {
                x_axis: Vec3Fx { x: FX_ONE, y: 0, z: 0 },
                y_axis: Vec3Fx { x: 0, y: FX_ONE, z: 0 },
                z_axis: Vec3Fx { x: 0, y: 0, z: FX_ONE },
                translation: Vec3Fx { x: 0, y: 0, z: 0 },
            },
        }
    }
}

impl OverlayState {
    /// Snaps the smoothed transform directly to the current target pose,
    /// bypassing any smoothing for one frame; a hard reset also forces the
    /// overlay visible.  Used after the global show/hide toggle so a
    /// re-shown panel does not visibly slide back into place.
    pub fn reset(&mut self, app: &AppState, hard: bool)
        requires
            state_bounded(*old(self)),
            affine_in_bounds(app.anchor, FX_COORD_LIMIT as int),
            affine_in_bounds(app.input_hmd, FX_COORD_LIMIT as int),
            affine_in_bounds(app.input_hand_left, FX_COORD_LIMIT as int),
            affine_in_bounds(app.input_hand_right, FX_COORD_LIMIT as int),
        ensures
            final(self).id == old(self).id,
            final(self).birth_epoch == old(self).birth_epoch,
            final(self).name == old(self).name,
            final(self).want_visible == (hard || old(self).want_visible),
            final(self).interactable == old(self).interactable,
            final(self).grabbable == old(self).grabbable,
            final(self).show_hide == old(self).show_hide,
            final(self).dirty,
            final(self).recenter == old(self).recenter,
            final(self).z_order == old(self).z_order,
            final(self).positioning == old(self).positioning,
            final(self).spawn_scale == old(self).spawn_scale,
            final(self).spawn_point == old(self).spawn_point,
            final(self).spawn_rotation == old(self).spawn_rotation,
            ({
                let base = reset_base(*old(self), *app);
                let pose = pose_t(
                    old(self).spawn_rotation,
                    old(self).spawn_scale as int,
                    old(self).spawn_point,
                );
                &&& vec_ints(final(self).transform.x_axis) == mat_vec_t(base, pose.0)
                &&& vec_ints(final(self).transform.y_axis) == mat_vec_t(base, pose.1)
                &&& vec_ints(final(self).transform.z_axis) == mat_vec_t(base, pose.2)
                &&& vec_ints(final(self).transform.translation) == add_t(
                    mat_vec_t(base, pose.3),
                    vec_ints(base.translation),
                )
            }),
    {
        let base = match self.positioning {
            Positioning::Static => app.anchor,
            Positioning::FollowHead { .. } => app.input_hmd,
            Positioning::FollowHand { hand, .. } => if hand == 0 {
                app.input_hand_left
            } else {
                app.input_hand_right
            },
        };
        let pose = pose_from_parts(self.spawn_rotation, self.spawn_scale, self.spawn_point);
        self.transform = affine_mul(base, pose);
        self.dirty = true;
        if hard {
            self.want_visible = true;
        }
    }
}

/// An overlay entity: its state paired with the rendering backend that it
/// exclusively owns; the backend is released exactly when the entity is
/// removed from the registry.
#[derive(Debug)]
pub struct OverlayData<B> {
    pub state: OverlayState,
    pub backend: B,
}

impl<B> OverlayData<B> {
    pub fn new(state: OverlayState, backend: B) -> (r: Self)
        ensures
            r.state == state,
            r.backend == backend,
    {
        OverlayData { state, backend }
    }
}

} // verus!
