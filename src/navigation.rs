//! The navigation mesh as the enemies see it: whether it can answer path
//! queries, and the path drawn for a travelling enemy.
use crate::behavior::EnemyBehavior;
use crate::geometry::Point2;
use vstd::prelude::*;

verus! {

/// Where the navigation mesh stands; only a built mesh answers queries.
#[derive(Clone, Copy, Debug, PartialEq, Eq, Structural)]
pub enum NavMeshStatus {
    Building,
    Built,
    Failed,
}

/// The navigation mesh's status, which gates its path queries.
#[derive(Clone, Copy, Debug, PartialEq, Eq, Structural)]
pub struct NavmeshQuery {
    pub status: NavMeshStatus,
}

impl NavmeshQuery {
    pub fn new(status: NavMeshStatus) -> (r: NavmeshQuery)
        ensures
            r.status == status,
    {
        NavmeshQuery { status }
    }

    /// The mesh may be asked for a path.
    pub fn permits_queries(&self) -> (r: bool)
        ensures
            r == (self.status is Built),
    {
        matches!(self.status, NavMeshStatus::Built)
    }

    /// The path that the mesh `computed`, kept only when the mesh is built:
    /// a mesh still building, or failed, offers none.
    pub fn path_from_tranform(&self, computed: Option<Vec<Point2>>) -> (r: Option<Vec<Point2>>)
        ensures
            self.status is Built ==> r == computed,
            !(self.status is Built) ==> r is None,
    {
        if self.permits_queries() {
            computed
        } else {
            None
        }
    }
}

/// The line drawn for a travelling enemy: from its position through the
/// waypoints it has yet to reach.
pub open spec fn debug_line(position: Point2, path: Seq<Point2>, index: int) -> Seq<Point2> {
    seq![position] + if index < path.len() {
        path.skip(index)
    } else {
        Seq::<Point2>::empty()
    }
}

/// What is drawn for a travelling enemy: a line and a marked point.
#[derive(Debug)]
pub struct GotoSketch {
    pub points: Vec<Point2>,
    pub marker: Point2,
}

/// The line drawn for a travelling enemy that has a path, and the point
/// marked on it: entry `index + 1` of the line, or the destination when the
/// line is shorter.
pub fn debug_goto(behavior: &EnemyBehavior, position: Point2) -> (r: Option<GotoSketch>)
    ensures
        match *behavior {
            EnemyBehavior::Goto(destination, Some(path), index) => {
                let line = debug_line(position, path@, index as int);
                &&& r is Some
                &&& r->0.points@ == line
                &&& r->0.marker == if index + 1 < line.len() {
                    line[index + 1]
                } else {
                    destination
                }
            },
            _ => r is None,
        },
{
    match behavior {
        EnemyBehavior::Goto(destination, Some(path), index) => {
            let mut points: Vec<Point2> = vec![position];
            if *index < path.len() {
                let mut k: usize = *index;
                assert(points@ =~= seq![position] + path@.subrange(*index as int, k as int));
                while k < path.len()
                    invariant
                        *index <= k <= path@.len(),
                        points@ == seq![position] + path@.subrange(*index as int, k as int),
                    decreases path@.len() - k,
                {
                    points.push(path[k]);
                    k = k + 1;
                    assert(points@ =~= seq![position] + path@.subrange(*index as int, k as int));
                }
                assert(path@.subrange(*index as int, path@.len() as int) =~= path@.skip(*index as int));
            }
            assert(points@ =~= debug_line(position, path@, *index as int));
            let marker = if *index < usize::MAX && *index + 1 < points.len() {
                points[*index + 1]
            } else {
                *destination
            };
            Some(GotoSketch { points, marker })
        },
        _ => None,
    }
}

} // verus!
