use tile_tracer::{next_step, PathStep, SurfaceEvent};

#[test]
fn miss_ends_in_sky() {
    assert_eq!(next_step(5, SurfaceEvent::Miss), PathStep::Sky);
    assert_eq!(next_step(0, SurfaceEvent::Miss), PathStep::Sky);
}

#[test]
fn absorption_is_black() {
    assert_eq!(next_step(5, SurfaceEvent::Absorbed), PathStep::Black);
    assert_eq!(next_step(0, SurfaceEvent::Absorbed), PathStep::Black);
}

#[test]
fn scatter_spends_one_bounce() {
    assert_eq!(next_step(5, SurfaceEvent::Scattered), PathStep::Trace { bounces_left: 4 });
    assert_eq!(next_step(1, SurfaceEvent::Scattered), PathStep::Trace { bounces_left: 0 });
    assert_eq!(next_step(0, SurfaceEvent::Scattered), PathStep::Black);
}

#[test]
fn single_bounce_path_reaches_sky_after_one_scatter() {
    let mut step = PathStep::Trace { bounces_left: 1 };
    let mut tests = 0;
    let events = [SurfaceEvent::Scattered, SurfaceEvent::Miss];
    while let PathStep::Trace { bounces_left } = step {
        step = next_step(bounces_left, events[tests]);
        tests += 1;
    }
    assert_eq!(tests, 2);
    assert_eq!(step, PathStep::Sky);
}

#[test]
fn second_scatter_over_budget_is_black() {
    let mut step = PathStep::Trace { bounces_left: 1 };
    let mut tests = 0;
    while let PathStep::Trace { bounces_left } = step {
        step = next_step(bounces_left, SurfaceEvent::Scattered);
        tests += 1;
    }
    assert_eq!(tests, 2);
    assert_eq!(step, PathStep::Black);
}
