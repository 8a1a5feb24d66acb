use tile_tracer::{FrameBuffer, Tile};

#[test]
fn blank_frame_is_black() {
    let f = FrameBuffer::blank(4, 3).unwrap();
    assert_eq!(f.width(), 4);
    assert_eq!(f.height(), 3);
    for y in 0..3 {
        for x in 0..4 {
            assert_eq!(f.pixel(x, y), (0, 0, 0));
        }
    }
}

#[test]
fn oversized_frame_is_refused() {
    assert!(FrameBuffer::blank(u32::MAX, u32::MAX).is_none());
}

#[test]
fn empty_frame_is_allowed() {
    let f = FrameBuffer::blank(0, 0).unwrap();
    assert_eq!(f.width(), 0);
    assert_eq!(f.height(), 0);
}

#[test]
fn write_tile_fills_row_major() {
    let mut f = FrameBuffer::blank(4, 3).unwrap();
    let tile = Tile { x0: 1, y0: 1, x1: 3, y1: 3 };
    let colors = vec![(1, 2, 3), (4, 5, 6), (7, 8, 9), (10, 11, 12)];
    f.write_tile(tile, &colors);
    assert_eq!(f.pixel(1, 1), (1, 2, 3));
    assert_eq!(f.pixel(2, 1), (4, 5, 6));
    assert_eq!(f.pixel(1, 2), (7, 8, 9));
    assert_eq!(f.pixel(2, 2), (10, 11, 12));
    assert_eq!(f.pixel(0, 0), (0, 0, 0));
    assert_eq!(f.pixel(3, 2), (0, 0, 0));
    assert_eq!(f.pixel(0, 1), (0, 0, 0));
}

#[test]
fn raw_bytes_are_row_major_rgb() {
    let mut f = FrameBuffer::blank(3, 2).unwrap();
    f.write_tile(Tile { x0: 1, y0: 1, x1: 3, y1: 2 }, &vec![(1, 2, 3), (4, 5, 6)]);
    let raw = f.into_raw();
    assert_eq!(raw.len(), 18);
    assert_eq!(&raw[12..18], &[1, 2, 3, 4, 5, 6]);
    assert!(raw[..12].iter().all(|&b| b == 0));
    let img = image::RgbImage::from_raw(3, 2, raw).unwrap();
    assert_eq!(img.get_pixel(2, 1).0, [4, 5, 6]);
}
