//! The view transform: the matrix that moves the world in front of a
//! camera sitting at `from` looking toward `to`.
//!
//! An orthonormal-ish basis is built from the gaze direction and the up
//! hint, laid into an orientation matrix, and composed with a translation
//! that carries `from` to the origin.

use crate::matrices::{matmul_m, translation_m, Matrix4};
use crate::scalar::{neg_v, Scalar};
use crate::tuples::{cross_t, normalize_total_t, sub_t, Tuple};
use vstd::prelude::*;

verus! {

/// The orientation part of the view transform: rows are the left, true-up
/// and backward vectors.
pub open spec fn orientation_m(left: Tuple, true_up: Tuple, forward: Tuple) -> Matrix4 {
    crate::matrices::mat4(
        left.x.v as int,
        left.y.v as int,
        left.z.v as int,
        0,
        true_up.x.v as int,
        true_up.y.v as int,
        true_up.z.v as int,
        0,
        neg_v(forward.x.v as int),
        neg_v(forward.y.v as int),
        neg_v(forward.z.v as int),
        0,
        0,
        0,
        0,
        crate::scalar::SCALE as int,
    )
}

/// The full view transform: orientation from the normalized gaze, left and
/// recomputed up vectors, composed with the translation of `from` to the
/// origin.
pub open spec fn view_transform_spec(from: Tuple, to: Tuple, up: Tuple) -> Matrix4 {
    let forward = normalize_total_t(sub_t(to, from));
    let left = cross_t(forward, normalize_total_t(up));
    let true_up = cross_t(left, forward);
    matmul_m(
        orientation_m(left, true_up, forward),
        translation_m(
            neg_v(from.x.v as int),
            neg_v(from.y.v as int),
            neg_v(from.z.v as int),
        ),
    )
}

/// The matrix that positions the scene for a camera at `from`, looking at
/// `to`, with `up` suggesting which way is up.
pub fn view_transform(from: Tuple, to: Tuple, up: Tuple) -> (r: Matrix4)
    ensures
        r == view_transform_spec(from, to, up),
{
    let forward = to.minus(from).normalize();
    let left = forward.cross(up.normalize());
    let true_up = left.cross(forward);
    let zero = Scalar { v: 0 };
    let one = Scalar { v: crate::scalar::SCALE };
    let orientation = Matrix4::from_rows(
        [
            [left.x, left.y, left.z, zero],
            [true_up.x, true_up.y, true_up.z, zero],
            [forward.x.negated(), forward.y.negated(), forward.z.negated(), zero],
            [zero, zero, zero, one],
        ],
    );
    orientation.matmul(
        Matrix4::translation(from.x.negated(), from.y.negated(), from.z.negated()),
    )
}

} // verus!
