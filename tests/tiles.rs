use tile_tracer::{Tile, TileGrid};

#[test]
fn zero_tile_size_is_refused() {
    assert!(TileGrid::new(64, 64, 0).is_none());
}

#[test]
fn grid_dimensions_round_up() {
    let g = TileGrid::new(1280, 720, 128).unwrap();
    assert_eq!(g.columns, 10);
    assert_eq!(g.rows, 6);
    assert_eq!(g.total_tiles(), 60);
}

#[test]
fn exact_division_adds_no_tile() {
    let g = TileGrid::new(256, 128, 128).unwrap();
    assert_eq!(g.columns, 2);
    assert_eq!(g.rows, 1);
    assert_eq!(g.total_tiles(), 2);
}

#[test]
fn empty_image_has_no_tiles() {
    let g = TileGrid::new(0, 720, 128).unwrap();
    assert_eq!(g.total_tiles(), 0);
}

#[test]
fn first_and_last_tiles() {
    let g = TileGrid::new(1280, 720, 128).unwrap();
    assert_eq!(g.tile(0), Tile { x0: 0, y0: 0, x1: 128, y1: 128 });
    assert_eq!(g.tile(11), Tile { x0: 128, y0: 128, x1: 256, y1: 256 });
    assert_eq!(g.tile(59), Tile { x0: 1152, y0: 640, x1: 1280, y1: 720 });
    assert_eq!(g.tile(59).pixel_count(), 128 * 80);
}

#[test]
fn tiles_clip_at_huge_width() {
    let g = TileGrid::new(u32::MAX, 1, 1 << 31).unwrap();
    assert_eq!(g.columns, 2);
    assert_eq!(g.tile(1), Tile { x0: 1 << 31, y0: 0, x1: u32::MAX, y1: 1 });
}

#[test]
fn tiles_cover_each_pixel_once() {
    for &(w, h, s) in &[(5u32, 3u32, 2u32), (7, 7, 3), (4, 9, 4), (1, 1, 5), (10, 6, 1)] {
        let g = TileGrid::new(w, h, s).unwrap();
        let mut count = vec![0u32; (w * h) as usize];
        for i in 0..g.total_tiles() {
            let t = g.tile(i);
            assert!(t.x1 <= w && t.y1 <= h);
            for y in t.y0..t.y1 {
                for x in t.x0..t.x1 {
                    count[(y * w + x) as usize] += 1;
                }
            }
        }
        assert!(count.iter().all(|&c| c == 1), "{}x{} by {}", w, h, s);
    }
}

#[test]
fn plane_rows_run_bottom_up() {
    let g = TileGrid::new(4, 3, 2).unwrap();
    assert_eq!(g.plane_row(0), 2);
    assert_eq!(g.plane_row(2), 0);
}
