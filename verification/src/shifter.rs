//! The per-document shifter: from a distance and the unit vector of the
//! effective heading to a fully translated document.

use crate::errors::PathError;
use crate::geometry::{lemma_scale_mul_negated, scale_mul_spec, translation_deltas, SCALE};
use crate::path::{
    lemma_move_round_trip, move_path, path_can_move, path_moved, point_can_move,
    waypoint_can_move, Path, Point,
};
use vstd::prelude::*;

verus! {

/// Whether this point can take the translation without leaving the
/// representable range.
fn point_can_move_exec(p: &Point, dx: i64, dy: i64) -> (r: bool)
    ensures
        r == point_can_move(*p, dx as int, dy as int),
{
    p.x.checked_add(dx).is_some() && p.y.checked_add(dy).is_some()
}

/// Whether every coordinate of the document can take the translation.
pub fn can_move_exec(path: &Path, dx: i64, dy: i64) -> (r: bool)
    ensures
        r == path_can_move(*path, dx as int, dy as int),
{
    let n = path.waypoints.len();
    let mut i: usize = 0;
    while i < n
        invariant
            i <= n,
            n == path.waypoints@.len(),
            forall|k: int|
                0 <= k < i ==> waypoint_can_move(#[trigger] path.waypoints@[k], dx as int, dy as int),
        decreases n - i,
    {
        let w = &path.waypoints[i];
        if !point_can_move_exec(&w.anchor, dx, dy) {
            return false;
        }
        match &w.prev_control {
            Some(p) => {
                if !point_can_move_exec(p, dx, dy) {
                    return false;
                }
            },
            None => {},
        }
        match &w.next_control {
            Some(p) => {
                if !point_can_move_exec(p, dx, dy) {
                    return false;
                }
            },
            None => {},
        }
        i += 1;
    }
    true
}

/// Shifts one document: computes the Cartesian deltas of `distance` along
/// the unit vector (`cos_eff`, `sin_eff`) of the effective heading, then
/// translates every waypoint by them, leaving the terminal state and every
/// unmodeled field untouched. Fails only when a translated coordinate would
/// leave the representable fixed-point range.
pub fn shift_path(path: Path, distance: i64, cos_eff: i64, sin_eff: i64) -> (r: Result<
    Path,
    PathError,
>)
    requires
        i64::MIN < distance,
        -SCALE <= cos_eff <= SCALE,
        -SCALE <= sin_eff <= SCALE,
    ensures
        ({
            let dx = scale_mul_spec(distance as int, cos_eff as int);
            let dy = scale_mul_spec(distance as int, sin_eff as int);
            match r {
                Ok(p) => path_can_move(path, dx, dy) && path_moved(path, p, dx, dy),
                Err(e) => e == PathError::CoordinateOverflow && !path_can_move(path, dx, dy),
            }
        }),
{
    let (dx, dy) = translation_deltas(distance, cos_eff, sin_eff);
    if !can_move_exec(&path, dx, dy) {
        return Err(PathError::CoordinateOverflow);
    }
    Ok(move_path(dx, dy, path))
}

/// Shift-then-inverse-shift: the translation of distance `-d` is exactly
/// the inverse of the translation of distance `d` along the same heading
/// components, so a document shifted by `d` and then by `-d` has every
/// waypoint restored exactly, with the terminal state and the unmodeled
/// fields untouched throughout.
pub proof fn lemma_shift_then_inverse_shift(
    a: Path,
    b: Path,
    c: Path,
    d: int,
    cos_eff: int,
    sin_eff: int,
)
    requires
        path_moved(a, b, scale_mul_spec(d, cos_eff), scale_mul_spec(d, sin_eff)),
        path_moved(b, c, scale_mul_spec(-d, cos_eff), scale_mul_spec(-d, sin_eff)),
    ensures
        c.waypoints@.len() == a.waypoints@.len(),
        forall|i: int| 0 <= i < a.waypoints@.len() ==> c.waypoints@[i] == #[trigger] a.waypoints@[i],
        c.goal_end_state == a.goal_end_state,
        c.extra == a.extra,
{
    lemma_scale_mul_negated(d, cos_eff);
    lemma_scale_mul_negated(d, sin_eff);
    lemma_move_round_trip(a, b, c, scale_mul_spec(d, cos_eff), scale_mul_spec(d, sin_eff));
}

} // verus!
