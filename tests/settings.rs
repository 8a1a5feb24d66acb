use tile_tracer::{RenderSettings, SettingsError};

fn valid() -> RenderSettings {
    let mut s = RenderSettings::new(Some(4));
    s.viewport_resize(320, 200);
    s
}

#[test]
fn defaults() {
    let s = RenderSettings::new(Some(12));
    assert_eq!(s.samples_per_pixel, 250);
    assert_eq!(s.max_ray_bounces, 32);
    assert_eq!(s.render_tile_size, 128);
    assert_eq!(s.render_threads, 12);
    assert_eq!((s.width, s.height), (0, 0));
}

#[test]
fn unknown_parallelism_uses_eight_threads() {
    assert_eq!(RenderSettings::new(None).render_threads, 8);
}

#[test]
fn resize_keeps_other_knobs() {
    let s = valid();
    assert_eq!((s.width, s.height), (320, 200));
    assert_eq!(s.samples_per_pixel, 250);
    assert_eq!(s.render_threads, 4);
}

#[test]
fn zero_samples_are_rejected() {
    let mut s = valid();
    s.samples_per_pixel = 0;
    assert_eq!(s.validate(), Err(SettingsError::NoSamples));
    assert_eq!(s.prepare().err(), Some(SettingsError::NoSamples));
}

#[test]
fn zero_bounces_are_rejected() {
    let mut s = valid();
    s.max_ray_bounces = 0;
    assert_eq!(s.validate(), Err(SettingsError::NoBounces));
}

#[test]
fn zero_threads_are_rejected() {
    let mut s = valid();
    s.render_threads = 0;
    assert_eq!(s.validate(), Err(SettingsError::NoThreads));
}

#[test]
fn zero_tile_size_is_rejected() {
    let mut s = valid();
    s.render_tile_size = 0;
    assert_eq!(s.validate(), Err(SettingsError::ZeroTileSize));
}

#[test]
fn huge_image_is_rejected() {
    let mut s = valid();
    s.viewport_resize(u32::MAX, u32::MAX);
    assert_eq!(s.validate(), Err(SettingsError::ImageTooLarge));
}

#[test]
fn first_problem_is_reported() {
    let mut s = valid();
    s.samples_per_pixel = 0;
    s.render_tile_size = 0;
    assert_eq!(s.validate(), Err(SettingsError::NoSamples));
}

#[test]
fn prepare_builds_grid_cursor_and_black_frame() {
    let s = valid();
    assert_eq!(s.validate(), Ok(()));
    let mut job = s.prepare().unwrap();
    assert_eq!(job.grid.columns, 3);
    assert_eq!(job.grid.rows, 2);
    assert_eq!(job.cursor.total(), 6);
    assert_eq!(job.cursor.claim(), Some(0));
    assert_eq!(job.frame.width(), 320);
    assert_eq!(job.frame.height(), 200);
    assert_eq!(job.frame.pixel(319, 199), (0, 0, 0));
}
