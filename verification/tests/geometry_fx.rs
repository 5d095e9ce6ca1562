//! Fixed-point geometry: the upright snap boundary, integer lengths and
//! line poses.

use wlx_overlay::geometry::{isqrt_u64, rescale, snap_upright, vec_len, world_up, AffineFx, Vec3Fx};
use wlx_overlay::lines::{format_line_name, line_overlay_state, line_transform};
use wlx_overlay::overlay::OverlayID;

fn frame(x: Vec3Fx, y: Vec3Fx, z: Vec3Fx, tr: Vec3Fx) -> AffineFx {
    AffineFx { x_axis: x, y_axis: y, z_axis: z, translation: tr }
}

#[test]
fn snap_triggers_just_below_the_threshold() {
    // lateral axis with a 0.19 dot product against world up
    let t = frame(
        Vec3Fx { x: 1000, y: 190, z: 0 },
        Vec3Fx { x: 0, y: 1000, z: 0 },
        Vec3Fx { x: 0, y: 0, z: 1000 },
        Vec3Fx { x: 1, y: 2, z: 3 },
    );
    let r = snap_upright(t, world_up());
    // the frame is rebuilt orthonormal at the lateral scale, which is the
    // integer length of (1000, 190, 0)
    assert_eq!(r.x_axis, Vec3Fx { x: 1017, y: 0, z: 0 });
    assert_eq!(r.y_axis, Vec3Fx { x: 0, y: 1017, z: 0 });
    assert_eq!(r.z_axis, Vec3Fx { x: 0, y: 0, z: 1017 });
    assert_eq!(r.translation, Vec3Fx { x: 1, y: 2, z: 3 });
}

#[test]
fn snap_passes_through_just_above_the_threshold() {
    // lateral axis with a 0.21 dot product against world up
    let t = frame(
        Vec3Fx { x: 1000, y: 210, z: 0 },
        Vec3Fx { x: 0, y: 1000, z: 0 },
        Vec3Fx { x: 0, y: 0, z: 1000 },
        Vec3Fx { x: 1, y: 2, z: 3 },
    );
    let r = snap_upright(t, world_up());
    assert_eq!(r, t);
}

#[test]
fn snap_keeps_the_up_axis_on_world_up() {
    // a head rolled a little: the rebuilt frame's up axis has no lateral
    // or forward component
    let t = frame(
        Vec3Fx { x: 990, y: 100, z: 0 },
        Vec3Fx { x: -100, y: 990, z: 0 },
        Vec3Fx { x: 0, y: 0, z: 1000 },
        Vec3Fx { x: 0, y: 0, z: 0 },
    );
    let r = snap_upright(t, world_up());
    assert_eq!(r.y_axis.x, 0);
    assert!(r.y_axis.y > 0);
    assert_eq!(r.y_axis.z, 0);
}

#[test]
fn integer_length_is_exact_on_integer_triangles() {
    assert_eq!(vec_len(Vec3Fx { x: 300, y: 400, z: 0 }), 500);
    assert_eq!(vec_len(Vec3Fx { x: 0, y: 0, z: 0 }), 0);
    assert_eq!(isqrt_u64(1_036_100), 1017);
    assert_eq!(isqrt_u64(0), 0);
    assert_eq!(isqrt_u64(u64::MAX), 0xFFFF_FFFF);
}

#[test]
fn rescale_reaches_the_target_length_on_axes() {
    let r = rescale(Vec3Fx { x: 0, y: 0, z: 4000 }, 1000);
    assert_eq!(r, Vec3Fx { x: 0, y: 0, z: 1000 });
    let zero = rescale(Vec3Fx { x: 0, y: 0, z: 0 }, 1000);
    assert_eq!(zero, Vec3Fx { x: 0, y: 0, z: 0 });
}

#[test]
fn line_names_carry_the_pool_number() {
    assert_eq!(format_line_name(0), "wlx-line0");
    assert_eq!(format_line_name(7), "wlx-line7");
    assert_eq!(format_line_name(42), "wlx-line42");
    assert_eq!(format_line_name(305), "wlx-line305");
}

#[test]
fn line_state_joins_the_group_dirty_and_hidden() {
    let st = line_overlay_state(7);
    assert_eq!(st.id, OverlayID(7));
    assert_eq!(st.name, "wlx-line7");
    assert!(st.show_hide);
    assert!(st.dirty);
    assert!(!st.want_visible);
}

#[test]
fn line_pose_centers_and_stretches_the_segment() {
    let from = frame(
        Vec3Fx { x: 1000, y: 0, z: 0 },
        Vec3Fx { x: 0, y: 1000, z: 0 },
        Vec3Fx { x: 0, y: 0, z: 1000 },
        Vec3Fx { x: 0, y: 0, z: 0 },
    );
    let hmd = frame(
        Vec3Fx { x: 1000, y: 0, z: 0 },
        Vec3Fx { x: 0, y: 1000, z: 0 },
        Vec3Fx { x: 0, y: 0, z: 1000 },
        Vec3Fx { x: 0, y: 0, z: 0 },
    );
    let r = line_transform(from, 2000, &hmd);
    // midpoint one meter down the local forward axis
    assert_eq!(r.translation, Vec3Fx { x: 0, y: 0, z: -1000 });
    // the long axis carries half the segment length at the quad's width
    assert_eq!(r.y_axis, Vec3Fx { x: 0, y: 0, z: -1_000_000 });
    // all four facings tie; the first one wins
    assert_eq!(r.x_axis, Vec3Fx { x: 1000, y: 0, z: 0 });
    assert_eq!(r.z_axis, Vec3Fx { x: 0, y: 1000, z: 0 });
}

#[test]
fn line_pose_faces_the_headset() {
    let from = frame(
        Vec3Fx { x: 1000, y: 0, z: 0 },
        Vec3Fx { x: 0, y: 1000, z: 0 },
        Vec3Fx { x: 0, y: 0, z: 1000 },
        Vec3Fx { x: 0, y: 0, z: 0 },
    );
    let hmd = frame(
        Vec3Fx { x: 1000, y: 0, z: 0 },
        Vec3Fx { x: 0, y: 1000, z: 0 },
        Vec3Fx { x: 0, y: 0, z: 1000 },
        Vec3Fx { x: 5000, y: 0, z: -1000 },
    );
    let r = line_transform(from, 2000, &hmd);
    // the lateral facing wins, so the quad spins a quarter turn
    assert_eq!(r.x_axis, Vec3Fx { x: 0, y: -1000, z: 0 });
    assert_eq!(r.z_axis, Vec3Fx { x: 1000, y: 0, z: 0 });
}
