//! The anchor panel: a fixed, non-interactive surface half a meter in
//! front of the anchor pose, used as the spatial reference for the other
//! overlays.

use crate::geometry::Vec3Fx;
use crate::overlay::{OverlayData, OverlayID, OverlayState, Positioning, Z_ORDER_ANCHOR};
use crate::state::AppState;
use vstd::prelude::*;

verus! {

/// Display name of the anchor panel.
pub open spec fn anchor_name_spec() -> Seq<char> {
    "anchor"@
}

pub fn anchor_name() -> (r: &'static str)
    ensures
        r@ == anchor_name_spec(),
{
    "anchor"
}

/// Builds the anchor entity around a prepared backend: statically
/// positioned half a meter ahead, initially hidden and inert, at the
/// configured panel width.
pub fn create_anchor<B>(app: &mut AppState, width: i64, backend: B) -> (r: OverlayData<B>)
    requires
        old(app).next_id < usize::MAX,
    ensures
        r.state.id == OverlayID(old(app).next_id),
        r.state.name@ == anchor_name_spec(),
        !r.state.want_visible,
        !r.state.interactable,
        !r.state.grabbable,
        !r.state.show_hide,
        r.state.z_order == Z_ORDER_ANCHOR,
        r.state.spawn_scale == width,
        r.state.spawn_point == (Vec3Fx { x: 0, y: 0, z: -500i64 }),
        r.state.positioning == Positioning::Static,
        r.backend == backend,
        final(app).next_id == old(app).next_id + 1,
        final(app).session == old(app).session,
        final(app).tasks == old(app).tasks,
        final(app).screens == old(app).screens,
        final(app).anchor == old(app).anchor,
        final(app).input_hmd == old(app).input_hmd,
        final(app).input_hand_left == old(app).input_hand_left,
        final(app).input_hand_right == old(app).input_hand_right,
{
    let id = app.alloc_id();
    let mut st = OverlayState::default();
    st.id = id;
    st.name = anchor_name().to_owned();
    st.z_order = Z_ORDER_ANCHOR;
    st.spawn_scale = width;
    st.spawn_point = Vec3Fx { x: 0, y: 0, z: -500 };
    OverlayData::new(st, backend)
}

} // verus!
