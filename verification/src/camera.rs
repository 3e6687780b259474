//! The per-frame transform state: the accumulated model rotation, the fixed
//! back-translated view, and the projection recomputed from the viewport
//! every frame. All matrix entries are single-precision bit patterns; the
//! floating-point evaluation itself is the host's (it owns the float
//! hardware), so each frame this component decides exactly what the host must
//! evaluate — rotation rates, elapsed-time operands, projection parameters —
//! and then applies the results it hands back.
use crate::input::InputState;
use crate::mesh::{F_ONE, F_ZERO};
use vstd::prelude::*;

verus! {

/// A 4x4 single-precision matrix held as raw bit patterns, in column-major
/// order as GPU uniform uploads expect.
#[derive(Clone, Copy, PartialEq, Eq, Debug)]
pub struct Mat4 {
    pub m: [u32; 16],
}

/// Bit pattern of minus six: the fixed backward translation of the view.
pub const VIEW_BACK_BITS: u32 = 0xC0C00000;

/// Bit pattern of one thousandth: radians of rotation per held key per
/// millisecond of elapsed time.
pub const RATE_SCALE_BITS: u32 = 0x3A83126F;

/// Bit pattern of eighty: the vertical field of view in degrees.
pub const FOVY_DEG_BITS: u32 = 0x42A00000;

/// Bit pattern of one: the near clip plane distance.
pub const NEAR_BITS: u32 = F_ONE;

/// Bit pattern of one hundred: the far clip plane distance.
pub const FAR_BITS: u32 = 0x42C80000;

/// The identity matrix, the model transform before any input arrives.
pub open spec fn spec_identity() -> Mat4 {
    Mat4 {
        m: [
            F_ONE,
            F_ZERO,
            F_ZERO,
            F_ZERO,
            F_ZERO,
            F_ONE,
            F_ZERO,
            F_ZERO,
            F_ZERO,
            F_ZERO,
            F_ONE,
            F_ZERO,
            F_ZERO,
            F_ZERO,
            F_ZERO,
            F_ONE,
        ],
    }
}

/// The fixed view matrix: identity with a translation of minus six along the
/// view axis in the last column.
pub open spec fn spec_view_matrix() -> Mat4 {
    Mat4 {
        m: [
            F_ONE,
            F_ZERO,
            F_ZERO,
            F_ZERO,
            F_ZERO,
            F_ONE,
            F_ZERO,
            F_ZERO,
            F_ZERO,
            F_ZERO,
            F_ONE,
            F_ZERO,
            F_ZERO,
            F_ZERO,
            VIEW_BACK_BITS,
            F_ONE,
        ],
    }
}

/// The pitch angular rate from the opposing vertical key pair: up counts
/// plus one, down counts minus one, both or neither cancel to zero.
pub open spec fn spec_pitch_rate(k: InputState) -> int {
    (if k.up {
        1int
    } else {
        0int
    }) - (if k.down {
        1int
    } else {
        0int
    })
}

/// The yaw angular rate from the opposing horizontal key pair.
pub open spec fn spec_yaw_rate(k: InputState) -> int {
    (if k.right {
        1int
    } else {
        0int
    }) - (if k.left {
        1int
    } else {
        0int
    })
}

/// Whether this frame rotates at all: some angular rate is nonzero. A zero
/// angular velocity composes an identity delta, so the model matrix must not
/// move; skipping the product guarantees it bit for bit.
pub open spec fn rotation_needed(k: InputState) -> bool {
    spec_pitch_rate(k) != 0 || spec_yaw_rate(k) != 0
}

pub fn pitch_rate(k: &InputState) -> (r: i32)
    ensures
        r as int == spec_pitch_rate(*k),
{
    (if k.up {
        1i32
    } else {
        0i32
    }) - (if k.down {
        1i32
    } else {
        0i32
    })
}

pub fn yaw_rate(k: &InputState) -> (r: i32)
    ensures
        r as int == spec_yaw_rate(*k),
{
    (if k.right {
        1i32
    } else {
        0i32
    }) - (if k.left {
        1i32
    } else {
        0i32
    })
}

/// Everything the host must evaluate to rotate the model this frame: the
/// elapsed-time operands (double-precision bit patterns of the new and the
/// previous timestamp), the fixed per-millisecond rate scale, the two integer
/// rates, and the matrix the delta multiplies onto. Each Euler angle is
/// (new minus old) times the scale times its rate, composed in x-then-y
/// order with zero roll, and the delta right-multiplies the model.
#[derive(Clone, Copy, PartialEq, Eq, Debug)]
pub struct RotationRequest {
    pub model: Mat4,
    pub t_new: u64,
    pub t_old: u64,
    pub rate_scale: u32,
    pub pitch_rate: i32,
    pub yaw_rate: i32,
}

/// Everything the host must evaluate to project this frame: the fixed
/// vertical field of view, near and far planes, and the viewport extent whose
/// quotient is the aspect ratio, with the degenerate zero height already
/// replaced so the quotient is one.
#[derive(Clone, Copy, PartialEq, Eq, Debug)]
pub struct ProjectionRequest {
    pub fovy_deg: u32,
    pub width: u32,
    pub height: u32,
    pub near: u32,
    pub far: u32,
}

/// One frame's worth of host arithmetic: an optional rotation (absent exactly
/// when both rates cancel to zero) and the projection, recomputed every
/// frame.
#[derive(Clone, Copy, PartialEq, Eq, Debug)]
pub struct FrameMath {
    pub rotation: Option<RotationRequest>,
    pub projection: ProjectionRequest,
}

/// What the host evaluated: the rotated model matrix (ignored when no
/// rotation was requested) and the projection matrix.
#[derive(Clone, Copy, PartialEq, Eq, Debug)]
pub struct MathResult {
    pub rotated_model: Mat4,
    pub projection: Mat4,
}

/// The projection request is a function of the viewport alone; a zero height
/// falls back to a one-by-one extent, whose aspect ratio is the constant one.
pub open spec fn spec_projection_request(width: u32, height: u32) -> ProjectionRequest {
    ProjectionRequest {
        fovy_deg: FOVY_DEG_BITS,
        width: if height == 0 {
            1u32
        } else {
            width
        },
        height: if height == 0 {
            1u32
        } else {
            height
        },
        near: NEAR_BITS,
        far: FAR_BITS,
    }
}

/// The full request a frame puts to the host, as a function of the camera
/// state, the timestamp, the keys and the viewport.
pub open spec fn spec_math_request(
    c: CameraTransformState,
    time: u64,
    keys: InputState,
    width: u32,
    height: u32,
) -> FrameMath {
    FrameMath {
        rotation: if rotation_needed(keys) {
            Some(
                RotationRequest {
                    model: c.model,
                    t_new: time,
                    t_old: c.time_old,
                    rate_scale: RATE_SCALE_BITS,
                    pitch_rate: spec_pitch_rate(keys) as i32,
                    yaw_rate: spec_yaw_rate(keys) as i32,
                },
            )
        } else {
            None
        },
        projection: spec_projection_request(width, height),
    }
}

/// The transform state: the previous frame's timestamp (double-precision bit
/// pattern, seeded at zero), the accumulated model rotation, the fixed view,
/// and the last projection. The model matrix is never reset or normalized;
/// accumulated drift is documented, not corrected.
pub struct CameraTransformState {
    pub time_old: u64,
    pub model: Mat4,
    pub view: Mat4,
    pub proj: Mat4,
}

impl CameraTransformState {
    pub fn new() -> (c: CameraTransformState)
        ensures
            c.time_old == 0,
            c.model == spec_identity(),
            c.view == spec_view_matrix(),
            c.proj == spec_identity(),
    {
        let identity = Mat4 {
            m: [
                F_ONE,
                F_ZERO,
                F_ZERO,
                F_ZERO,
                F_ZERO,
                F_ONE,
                F_ZERO,
                F_ZERO,
                F_ZERO,
                F_ZERO,
                F_ONE,
                F_ZERO,
                F_ZERO,
                F_ZERO,
                F_ZERO,
                F_ONE,
            ],
        };
        let view = Mat4 {
            m: [
                F_ONE,
                F_ZERO,
                F_ZERO,
                F_ZERO,
                F_ZERO,
                F_ONE,
                F_ZERO,
                F_ZERO,
                F_ZERO,
                F_ZERO,
                F_ONE,
                F_ZERO,
                F_ZERO,
                F_ZERO,
                VIEW_BACK_BITS,
                F_ONE,
            ],
        };
        CameraTransformState { time_old: 0, model: identity, view, proj: identity }
    }

    /// What the host must evaluate for the frame at `time`.
    pub fn math_request(&self, time: u64, keys: &InputState, width: u32, height: u32) -> (r:
        FrameMath)
        ensures
            r == spec_math_request(*self, time, *keys, width, height),
    {
        let px = pitch_rate(keys);
        let yw = yaw_rate(keys);
        let rotation = if px != 0 || yw != 0 {
            Some(
                RotationRequest {
                    model: self.model,
                    t_new: time,
                    t_old: self.time_old,
                    rate_scale: RATE_SCALE_BITS,
                    pitch_rate: px,
                    yaw_rate: yw,
                },
            )
        } else {
            None
        };
        let h1 = if height == 0 {
            1u32
        } else {
            height
        };
        let w1 = if height == 0 {
            1u32
        } else {
            width
        };
        let projection = ProjectionRequest {
            fovy_deg: FOVY_DEG_BITS,
            width: w1,
            height: h1,
            near: NEAR_BITS,
            far: FAR_BITS,
        };
        FrameMath { rotation, projection }
    }

    /// Applies what the host evaluated for the frame at `time`: the model
    /// advances to the rotated matrix exactly when some rate was nonzero and
    /// stays put bit for bit otherwise; the projection is replaced; the view
    /// never changes; and `time` becomes the previous timestamp.
    pub fn apply(&mut self, time: u64, keys: &InputState, math: &MathResult)
        ensures
            final(self).view == old(self).view,
            final(self).time_old == time,
            final(self).proj == math.projection,
            rotation_needed(*keys) ==> final(self).model == math.rotated_model,
            !rotation_needed(*keys) ==> final(self).model == old(self).model,
    {
        let px = pitch_rate(keys);
        let yw = yaw_rate(keys);
        if px != 0 || yw != 0 {
            self.model = math.rotated_model;
        }
        self.proj = math.projection;
        self.time_old = time;
    }
}

// --- laws ------------------------------------------------------------------------
/// Law: holding the up key alone requests a pure pitch rotation — pitch rate
/// one, yaw rate zero — so the host's delta angle is elapsed time times the
/// rate scale, with zero yaw and roll.
pub proof fn lemma_up_alone_pitches(k: InputState)
    requires
        k.up,
        !k.down,
        !k.left,
        !k.right,
    ensures
        spec_pitch_rate(k) == 1,
        spec_yaw_rate(k) == 0,
        rotation_needed(k),
{
}

/// Law: opposing keys cancel. Whenever the vertical pair agree and the
/// horizontal pair agree — both held or both released — the angular velocity
/// is zero and no rotation is requested, so the model matrix stays put.
pub proof fn lemma_opposing_keys_cancel(k: InputState)
    requires
        k.up == k.down,
        k.left == k.right,
    ensures
        spec_pitch_rate(k) == 0,
        spec_yaw_rate(k) == 0,
        !rotation_needed(k),
{
}

/// Law: the projection request depends on the viewport alone — two frames
/// with equal extents put bit-identical projection requests to the host,
/// whatever the camera state, the clock or the keys say.
pub proof fn lemma_projection_request_deterministic(
    c1: CameraTransformState,
    c2: CameraTransformState,
    t1: u64,
    t2: u64,
    k1: InputState,
    k2: InputState,
    width: u32,
    height: u32,
)
    ensures
        spec_math_request(c1, t1, k1, width, height).projection == spec_math_request(
            c2,
            t2,
            k2,
            width,
            height,
        ).projection,
{
}

/// Law: a zero-height viewport never reaches the host's division — the
/// request falls back to a one-by-one extent, whose aspect ratio is one.
pub proof fn lemma_degenerate_viewport_guarded(width: u32)
    ensures
        spec_projection_request(width, 0).width == 1,
        spec_projection_request(width, 0).height == 1,
        spec_projection_request(width, 0) == spec_projection_request(1, 1),
{
}

} // verus!
