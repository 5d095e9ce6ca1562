//! Pointer line overlays: naming, per-line overlay state and the exact
//! pose a line segment takes between a start transform and the headset.
//!
//! A line is drawn as a thin quad: it is shifted to the segment's
//! midpoint, laid along the local forward axis, stretched to the segment
//! length, and finally spun about its long axis so that of the four
//! cardinal facings the one most directly facing the headset is shown.

use crate::geometry::{
    dot_full, dot_raw, lemma_mul_bounds, scale_div, trunc_div, vec_in_bounds, vec_ints, AffineFx,
    Vec3Fx, FX_COORD_LIMIT, FX_ONE,
};
use crate::overlay::{OverlayData, OverlayID, OverlayState, Z_ORDER_LINES};
use vstd::prelude::*;

verus! {

pub open spec fn digit_char(d: nat) -> char {
    if d == 0 {
        '0'
    } else if d == 1 {
        '1'
    } else if d == 2 {
        '2'
    } else if d == 3 {
        '3'
    } else if d == 4 {
        '4'
    } else if d == 5 {
        '5'
    } else if d == 6 {
        '6'
    } else if d == 7 {
        '7'
    } else if d == 8 {
        '8'
    } else {
        '9'
    }
}

/// The decimal digits of a number, most significant first.
pub open spec fn dec_digits(n: nat) -> Seq<char>
    decreases n,
{
    if n < 10 {
        seq![digit_char(n)]
    } else {
        dec_digits(n / 10) + seq![digit_char(n % 10)]
    }
}

fn digit_str(d: u64) -> (r: &'static str)
    requires
        d < 10,
    ensures
        r@ == seq![digit_char(d as nat)],
{
    proof {
        reveal_strlit("0");
        reveal_strlit("1");
        reveal_strlit("2");
        reveal_strlit("3");
        reveal_strlit("4");
        reveal_strlit("5");
        reveal_strlit("6");
        reveal_strlit("7");
        reveal_strlit("8");
        reveal_strlit("9");
    }
    if d == 0 {
        proof {
            assert("0"@ =~= seq![digit_char(0)]);
        }
        "0"
    } else if d == 1 {
        proof {
            assert("1"@ =~= seq![digit_char(1)]);
        }
        "1"
    } else if d == 2 {
        proof {
            assert("2"@ =~= seq![digit_char(2)]);
        }
        "2"
    } else if d == 3 {
        proof {
            assert("3"@ =~= seq![digit_char(3)]);
        }
        "3"
    } else if d == 4 {
        proof {
            assert("4"@ =~= seq![digit_char(4)]);
        }
        "4"
    } else if d == 5 {
        proof {
            assert("5"@ =~= seq![digit_char(5)]);
        }
        "5"
    } else if d == 6 {
        proof {
            assert("6"@ =~= seq![digit_char(6)]);
        }
        "6"
    } else if d == 7 {
        proof {
            assert("7"@ =~= seq![digit_char(7)]);
        }
        "7"
    } else if d == 8 {
        proof {
            assert("8"@ =~= seq![digit_char(8)]);
        }
        "8"
    } else {
        proof {
            assert("9"@ =~= seq![digit_char(9)]);
        }
        "9"
    }
}

/// Appends the decimal digits of `n` to a string.
fn push_dec(n: u64, out: &mut String)
    ensures
        final(out)@ == old(out)@ + dec_digits(n as nat),
    decreases n,
{
    let ghost mid = out@;
    if n >= 10 {
        push_dec(n / 10, out);
    }
    let d = digit_str(n % 10);
    out.append(d);
    proof {
        if n < 10 {
            assert(n % 10 == n);
            assert(out@ =~= old(out)@ + dec_digits(n as nat));
        } else {
            assert(out@ =~= old(out)@ + dec_digits(n as nat));
        }
    }
}

/// The display name of the line with the given pool number.
pub open spec fn line_name_spec(id: nat) -> Seq<char> {
    "wlx-line"@ + dec_digits(id)
}

pub fn format_line_name(id: usize) -> (s: String)
    ensures
        s@ == line_name_spec(id as nat),
{
    let mut s: String = "wlx-line".to_owned();
    push_dec(id as u64, &mut s);
    s
}

/// The overlay state a freshly allocated line starts with: named after its
/// pool number, a member of the show/hide group, hidden until first drawn,
/// marked dirty so its texture is uploaded, on the line render layer.
pub fn line_overlay_state(id: usize) -> (st: OverlayState)
    ensures
        st.id == OverlayID(id),
        st.name@ == line_name_spec(id as nat),
        st.show_hide,
        !st.want_visible,
        st.dirty,
        st.z_order == Z_ORDER_LINES,
{
    let mut st = OverlayState::default();
    st.id = OverlayID(id);
    st.name = format_line_name(id);
    st.show_hide = true;
    st.dirty = true;
    st.z_order = Z_ORDER_LINES;
    st
}

pub open spec fn neg_t(v: (int, int, int)) -> (int, int, int) {
    (-v.0, -v.1, -v.2)
}

pub open spec fn sub_t(a: (int, int, int), b: (int, int, int)) -> (int, int, int) {
    (a.0 - b.0, a.1 - b.1, a.2 - b.2)
}

/// The line pose before facing selection: shifted along local forward to
/// the segment midpoint, turned a quarter turn about the local lateral
/// axis so the quad's long axis lies along the segment, and stretched to
/// the segment length.  The quarter turn is exact in fixed point, so the
/// basis is a plain column shuffle of the input.
pub open spec fn line_mid_t(from: AffineFx, len: int) -> (
    (int, int, int),
    (int, int, int),
    (int, int, int),
    (int, int, int),
) {
    let z = vec_ints(from.z_axis);
    let tr = vec_ints(from.translation);
    (
        vec_ints(from.x_axis),
        (trunc_div(-z.0 * len, 2), trunc_div(-z.1 * len, 2), trunc_div(-z.2 * len, 2)),
        vec_ints(from.y_axis),
        (
            tr.0 + trunc_div(-z.0 * len, 2 * FX_ONE as int),
            tr.1 + trunc_div(-z.1 * len, 2 * FX_ONE as int),
            tr.2 + trunc_div(-z.2 * len, 2 * FX_ONE as int),
        ),
    )
}

/// The dot product of the vector toward the headset with one of the four
/// cardinal facings of the line quad: forward, lateral and their
/// opposites.
pub open spec fn side_dot(
    m: ((int, int, int), (int, int, int), (int, int, int), (int, int, int)),
    d: (int, int, int),
    i: int,
) -> int {
    if i == 0 {
        d.0 * m.2.0 + d.1 * m.2.1 + d.2 * m.2.2
    } else if i == 1 {
        d.0 * m.0.0 + d.1 * m.0.1 + d.2 * m.0.2
    } else if i == 2 {
        -(d.0 * m.2.0 + d.1 * m.2.1 + d.2 * m.2.2)
    } else {
        -(d.0 * m.0.0 + d.1 * m.0.1 + d.2 * m.0.2)
    }
}

/// The first facing with the greatest dot product toward the headset.
pub open spec fn best_side(
    m: ((int, int, int), (int, int, int), (int, int, int), (int, int, int)),
    d: (int, int, int),
) -> int {
    let d0 = side_dot(m, d, 0);
    let d1 = side_dot(m, d, 1);
    let d2 = side_dot(m, d, 2);
    let d3 = side_dot(m, d, 3);
    if d0 >= d1 && d0 >= d2 && d0 >= d3 {
        0
    } else if d1 >= d2 && d1 >= d3 {
        1
    } else if d2 >= d3 {
        2
    } else {
        3
    }
}

/// The mid pose spun about its long axis by the chosen number of quarter
/// turns; every turn is exact in fixed point, a column shuffle with
/// negations.
pub open spec fn faced_t(
    m: ((int, int, int), (int, int, int), (int, int, int), (int, int, int)),
    b: int,
) -> ((int, int, int), (int, int, int), (int, int, int), (int, int, int)) {
    if b == 0 {
        m
    } else if b == 1 {
        (neg_t(m.2), m.1, m.0, m.3)
    } else if b == 2 {
        (neg_t(m.0), m.1, neg_t(m.2), m.3)
    } else {
        (m.2, m.1, neg_t(m.0), m.3)
    }
}

/// Poses a line quad of the given length from a start transform: the quad
/// is centered on the segment, laid along it, and turned toward the
/// headset so that the facing with the greatest dot product toward the
/// head position is shown; among equally good facings the first in the
/// cardinal order wins.
pub fn line_transform(from: AffineFx, len: i64, hmd: &AffineFx) -> (r: AffineFx)
    requires
        vec_in_bounds(from.x_axis, 16 * FX_ONE as int),
        vec_in_bounds(from.y_axis, 16 * FX_ONE as int),
        vec_in_bounds(from.z_axis, 16 * FX_ONE as int),
        vec_in_bounds(from.translation, 0x1000_0000),
        vec_in_bounds(hmd.translation, 0x1000_0000),
        0 <= len <= 0x100_0000,
    ensures
        ({
            let m = line_mid_t(from, len as int);
            let d = sub_t(vec_ints(hmd.translation), m.3);
            let b = best_side(m, d);
            &&& vec_ints(r.x_axis) == faced_t(m, b).0
            &&& vec_ints(r.y_axis) == faced_t(m, b).1
            &&& vec_ints(r.z_axis) == faced_t(m, b).2
            &&& vec_ints(r.translation) == faced_t(m, b).3
            &&& forall|i: int| 0 <= i < 4 ==> side_dot(m, d, b) >= side_dot(m, d, i)
            &&& forall|i: int| 0 <= i < b ==> side_dot(m, d, b) > side_dot(m, d, i)
        }),
{
    proof {
        lemma_mul_bounds(-from.z_axis.x as int, len as int, 16 * FX_ONE as int, 0x100_0000);
        lemma_mul_bounds(-from.z_axis.y as int, len as int, 16 * FX_ONE as int, 0x100_0000);
        lemma_mul_bounds(-from.z_axis.z as int, len as int, 16 * FX_ONE as int, 0x100_0000);
    }
    let half_y = Vec3Fx {
        x: scale_div(-from.z_axis.x * len, 2),
        y: scale_div(-from.z_axis.y * len, 2),
        z: scale_div(-from.z_axis.z * len, 2),
    };
    let mid_tr = Vec3Fx {
        x: from.translation.x + scale_div(-from.z_axis.x * len, 2 * FX_ONE),
        y: from.translation.y + scale_div(-from.z_axis.y * len, 2 * FX_ONE),
        z: from.translation.z + scale_div(-from.z_axis.z * len, 2 * FX_ONE),
    };
    let x_col = from.x_axis;
    let z_col = from.y_axis;
    let to_hmd = Vec3Fx {
        x: hmd.translation.x - mid_tr.x,
        y: hmd.translation.y - mid_tr.y,
        z: hmd.translation.z - mid_tr.z,
    };
    let d0 = dot_raw(to_hmd, z_col);
    let d1 = dot_raw(to_hmd, x_col);
    let d2 = -d0;
    let d3 = -d1;
    let mut best: usize = 0;
    let mut best_dot = d0;
    if d1 > best_dot {
        best = 1;
        best_dot = d1;
    }
    if d2 > best_dot {
        best = 2;
        best_dot = d2;
    }
    if d3 > best_dot {
        best = 3;
        best_dot = d3;
    }
    let (rx, rz) = if best == 0 {
        (x_col, z_col)
    } else if best == 1 {
        (Vec3Fx { x: -z_col.x, y: -z_col.y, z: -z_col.z }, x_col)
    } else if best == 2 {
        (
            Vec3Fx { x: -x_col.x, y: -x_col.y, z: -x_col.z },
            Vec3Fx { x: -z_col.x, y: -z_col.y, z: -z_col.z },
        )
    } else {
        (z_col, Vec3Fx { x: -x_col.x, y: -x_col.y, z: -x_col.z })
    };
    AffineFx { x_axis: rx, y_axis: half_y, z_axis: rz, translation: mid_tr }
}

} // verus!
