//! The document model: an ordered sequence of waypoints, a terminal state,
//! and an open-ended bag of unmodeled top-level fields that must survive a
//! read-modify-write cycle unchanged.
//!
//! Coordinates, velocities and headings are `i64` fixed-point nanounits
//! (see `crate::geometry::SCALE`).

use crate::errors::PathError;
use crate::text::str_eq;
use vstd::prelude::*;

verus! {

/// A planar point in fixed-point nanounits.
#[verifier::ext_equal]
#[derive(Clone, Copy, Debug, PartialEq)]
pub struct Point {
    pub x: i64,
    pub y: i64,
}

/// The terminal state of a path: `rotation` is the heading in nanodegrees
/// that the translation direction is derived from; `velocity` passes
/// through untouched.
#[verifier::ext_equal]
#[derive(Clone, Copy, Debug, PartialEq)]
pub struct State {
    pub velocity: i64,
    pub rotation: i64,
}

/// One waypoint: a mandatory anchor and up to two optional control points
/// (absent means a straight segment at that end). `is_locked` and
/// `linked_name` are opaque pass-through fields.
#[verifier::ext_equal]
#[derive(Debug, PartialEq)]
pub struct Waypoint {
    pub anchor: Point,
    pub prev_control: Option<Point>,
    pub next_control: Option<Point>,
    pub is_locked: bool,
    pub linked_name: Option<String>,
}

/// A whole path document. `extra` holds every top-level field the model
/// does not understand, keyed by its document name, to be written back
/// verbatim; it never holds the modeled keys.
#[verifier::ext_equal]
#[derive(Debug, PartialEq)]
pub struct Path {
    pub waypoints: Vec<Waypoint>,
    pub goal_end_state: State,
    pub extra: Vec<(String, serde_json::Value)>,
}

/// No unmodeled key may shadow a modeled field name.
pub open spec fn extra_keys_ok(extra: Seq<(String, serde_json::Value)>) -> bool {
    forall|k: int|
        0 <= k < extra.len() ==> (#[trigger] extra[k]).0@ != "waypoints"@ && extra[k].0@
            != "goalEndState"@
}

impl Path {
    /// The document invariant: the unmodeled bag shadows no modeled field.
    pub open spec fn wf(self) -> bool {
        extra_keys_ok(self.extra@)
    }

    /// Assembles a document, rejecting an unmodeled bag that holds a
    /// modeled key.
    pub fn new(
        waypoints: Vec<Waypoint>,
        goal_end_state: State,
        extra: Vec<(String, serde_json::Value)>,
    ) -> (r: Result<Path, PathError>)
        ensures
            match r {
                Ok(p) => p.waypoints == waypoints && p.goal_end_state == goal_end_state && p.extra
                    == extra && p.wf(),
                Err(e) => e == PathError::MalformedDocument && !extra_keys_ok(extra@),
            },
    {
        let n = extra.len();
        let mut k: usize = 0;
        while k < n
            invariant
                k <= n,
                n == extra@.len(),
                forall|j: int|
                    0 <= j < k ==> (#[trigger] extra@[j]).0@ != "waypoints"@ && extra@[j].0@
                        != "goalEndState"@,
            decreases n - k,
        {
            let key = &extra[k].0;
            if str_eq(key.as_str(), "waypoints") || str_eq(key.as_str(), "goalEndState") {
                return Err(PathError::MalformedDocument);
            }
            k += 1;
        }
        Ok(Path { waypoints, goal_end_state, extra })
    }
}

/// Whether a point can take the translation without leaving the
/// representable range.
pub open spec fn point_can_move(p: Point, dx: int, dy: int) -> bool {
    &&& i64::MIN <= p.x + dx <= i64::MAX
    &&& i64::MIN <= p.y + dy <= i64::MAX
}

/// Whether every coordinate of a waypoint can take the translation.
pub open spec fn waypoint_can_move(w: Waypoint, dx: int, dy: int) -> bool {
    &&& point_can_move(w.anchor, dx, dy)
    &&& w.prev_control is Some ==> point_can_move(w.prev_control->0, dx, dy)
    &&& w.next_control is Some ==> point_can_move(w.next_control->0, dx, dy)
}

/// Whether every coordinate of the document can take the translation.
pub open spec fn path_can_move(p: Path, dx: int, dy: int) -> bool {
    forall|i: int|
        0 <= i < p.waypoints@.len() ==> waypoint_can_move(#[trigger] p.waypoints@[i], dx, dy)
}

/// `b` is `a` translated by (dx, dy).
pub open spec fn point_moved(a: Point, b: Point, dx: int, dy: int) -> bool {
    &&& b.x == a.x + dx
    &&& b.y == a.y + dy
}

/// `b` is `a` with the anchor and each present control point translated by
/// (dx, dy), everything else equal. A control point is present in `b`
/// exactly when it was present in `a`.
pub open spec fn waypoint_moved(a: Waypoint, b: Waypoint, dx: int, dy: int) -> bool {
    &&& point_moved(a.anchor, b.anchor, dx, dy)
    &&& (a.prev_control is Some <==> b.prev_control is Some)
    &&& a.prev_control is Some ==> point_moved(a.prev_control->0, b.prev_control->0, dx, dy)
    &&& (a.next_control is Some <==> b.next_control is Some)
    &&& a.next_control is Some ==> point_moved(a.next_control->0, b.next_control->0, dx, dy)
    &&& b.is_locked == a.is_locked
    &&& b.linked_name == a.linked_name
}

/// `b` is `a` with every waypoint translated by (dx, dy), in order, and the
/// terminal state and the unmodeled fields untouched.
pub open spec fn path_moved(a: Path, b: Path, dx: int, dy: int) -> bool {
    &&& b.waypoints@.len() == a.waypoints@.len()
    &&& forall|i: int|
        0 <= i < a.waypoints@.len() ==> waypoint_moved(
            a.waypoints@[i],
            #[trigger] b.waypoints@[i],
            dx,
            dy,
        )
    &&& b.goal_end_state == a.goal_end_state
    &&& b.extra == a.extra
}

/// Translates every waypoint of the document by (delta_x, delta_y): the
/// anchor always, each control point when present. The waypoint order, the
/// pass-through fields, the terminal state and the unmodeled fields are
/// kept as they were.
pub fn move_path(delta_x: i64, delta_y: i64, path: Path) -> (r: Path)
    requires
        path_can_move(path, delta_x as int, delta_y as int),
    ensures
        path_moved(path, r, delta_x as int, delta_y as int),
{
    let n = path.waypoints.len();
    let mut moved: Vec<Waypoint> = Vec::new();
    let mut i: usize = 0;
    while i < n
        invariant
            i <= n,
            n == path.waypoints@.len(),
            path_can_move(path, delta_x as int, delta_y as int),
            moved@.len() == i,
            forall|k: int|
                0 <= k < i ==> waypoint_moved(
                    path.waypoints@[k],
                    #[trigger] moved@[k],
                    delta_x as int,
                    delta_y as int,
                ),
        decreases n - i,
    {
        let w = &path.waypoints[i];
        proof {
            assert(waypoint_can_move(path.waypoints@[i as int], delta_x as int, delta_y as int));
        }
        let prev_control: Option<Point> = match &w.prev_control {
            Some(p) => Some(Point { x: p.x + delta_x, y: p.y + delta_y }),
            None => None,
        };
        let next_control: Option<Point> = match &w.next_control {
            Some(p) => Some(Point { x: p.x + delta_x, y: p.y + delta_y }),
            None => None,
        };
        let linked_name: Option<String> = match &w.linked_name {
            Some(s) => Some(s.clone()),
            None => None,
        };
        moved.push(
            Waypoint {
                anchor: Point { x: w.anchor.x + delta_x, y: w.anchor.y + delta_y },
                prev_control,
                next_control,
                is_locked: w.is_locked,
                linked_name,
            },
        );
        i += 1;
    }
    Path { waypoints: moved, goal_end_state: path.goal_end_state, extra: path.extra }
}

/// Translating by (dx, dy) and then by (-dx, -dy) restores every waypoint
/// exactly, and the terminal state and the unmodeled fields were never
/// touched.
pub proof fn lemma_move_round_trip(a: Path, b: Path, c: Path, dx: int, dy: int)
    requires
        path_moved(a, b, dx, dy),
        path_moved(b, c, -dx, -dy),
    ensures
        c.waypoints@.len() == a.waypoints@.len(),
        forall|i: int| 0 <= i < a.waypoints@.len() ==> c.waypoints@[i] == #[trigger] a.waypoints@[i],
        c.goal_end_state == a.goal_end_state,
        c.extra == a.extra,
{
    assert forall|i: int|
        0 <= i < a.waypoints@.len() implies c.waypoints@[i] == #[trigger] a.waypoints@[i] by {
        let wa = a.waypoints@[i];
        let wb = b.waypoints@[i];
        let wc = c.waypoints@[i];
        assert(waypoint_moved(wa, wb, dx, dy));
        assert(waypoint_moved(wb, wc, -dx, -dy));
        assert(wc.anchor =~= wa.anchor);
        if wa.prev_control is Some {
            assert(wc.prev_control->0 =~= wa.prev_control->0);
        }
        if wa.next_control is Some {
            assert(wc.next_control->0 =~= wa.next_control->0);
        }
        assert(wc =~= wa);
    }
}

} // verus!
