use vstd::prelude::*;

verus! {

/// What happened to a path at one intersection test.
#[derive(Clone, Copy, Debug, PartialEq, Eq)]
pub enum SurfaceEvent {
    /// The ray left the scene: it takes the sky's color.
    Miss,
    /// The ray hit a surface that absorbed it.
    Absorbed,
    /// The ray hit a surface and goes on along the scattered ray.
    Scattered,
}

/// What the path tracer does next.
#[derive(Clone, Copy, Debug, PartialEq, Eq)]
pub enum PathStep {
    /// Intersect the current ray with the scene. A path starts as
    /// `Trace { bounces_left: max_bounces }`: `bounces_left` is the number of
    /// scatters the path may still make, so a miss reaches the sky after up
    /// to `max_bounces` scatters.
    Trace { bounces_left: u32 },
    /// The path ends in the sky: its color is the attenuation times the sky.
    Sky,
    /// The path carries no light.
    Black,
}

/// The step that follows `step` when its intersection test gives `event`;
/// a path that has ended stays ended.
pub open spec fn step_spec(step: PathStep, event: SurfaceEvent) -> PathStep {
    match step {
        PathStep::Trace { bounces_left } => match event {
            SurfaceEvent::Miss => PathStep::Sky,
            SurfaceEvent::Absorbed => PathStep::Black,
            SurfaceEvent::Scattered => if bounces_left == 0 {
                PathStep::Black
            } else {
                PathStep::Trace { bounces_left: (bounces_left - 1) as u32 }
            },
        },
        _ => step,
    }
}

/// Where a path with a budget of `max_bounces` scatters stands after the
/// intersection tests gave `events`, in order.
pub open spec fn run_path(max_bounces: u32, events: Seq<SurfaceEvent>) -> PathStep
    decreases events.len(),
{
    if events.len() == 0 {
        PathStep::Trace { bounces_left: max_bounces }
    } else {
        step_spec(run_path(max_bounces, events.drop_last()), events.last())
    }
}

/// `k` scatters in a row.
pub open spec fn scatters(k: nat) -> Seq<SurfaceEvent> {
    Seq::new(k, |i: int| SurfaceEvent::Scattered)
}

/// A path may scatter `max_bounces` times: after `k` scatters it still
/// traces with `max_bounces − k` left while `k ≤ max_bounces`, and is black
/// beyond that. So a ray that misses after at most `max_bounces` scatters
/// takes the sky's color, and one that scatters more is black.
pub proof fn lemma_budget_of_scatters(max_bounces: u32, k: nat)
    ensures
        run_path(max_bounces, scatters(k)) == if k <= max_bounces {
            PathStep::Trace { bounces_left: (max_bounces - k) as u32 }
        } else {
            PathStep::Black
        },
        run_path(max_bounces, scatters(k).push(SurfaceEvent::Miss)) == if k <= max_bounces {
            PathStep::Sky
        } else {
            PathStep::Black
        },
    decreases k,
{
    if k > 0 {
        lemma_budget_of_scatters(max_bounces, (k - 1) as nat);
        assert(scatters(k).drop_last() =~= scatters((k - 1) as nat));
    }
    assert(scatters(k).push(SurfaceEvent::Miss).drop_last() =~= scatters(k));
}

/// The step after an intersection test made with `bounces_left` scatters
/// still allowed: a miss ends in the sky, an absorption in black, and a
/// scatter goes on with one scatter fewer, or ends in black when none was
/// left.
pub fn next_step(bounces_left: u32, event: SurfaceEvent) -> (r: PathStep)
    ensures
        r == step_spec(PathStep::Trace { bounces_left }, event),
        event == SurfaceEvent::Miss ==> r == PathStep::Sky,
        event == SurfaceEvent::Absorbed ==> r == PathStep::Black,
        event == SurfaceEvent::Scattered && bounces_left == 0 ==> r == PathStep::Black,
        event == SurfaceEvent::Scattered && bounces_left > 0 ==> r == (PathStep::Trace {
            bounces_left: (bounces_left - 1) as u32,
        }),
{
    match event {
        SurfaceEvent::Miss => PathStep::Sky,
        SurfaceEvent::Absorbed => PathStep::Black,
        SurfaceEvent::Scattered => {
            if bounces_left == 0 {
                PathStep::Black
            } else {
                PathStep::Trace { bounces_left: bounces_left - 1 }
            }
        },
    }
}

} // verus!
