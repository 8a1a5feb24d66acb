use tile_tracer::TileCursor;

#[test]
fn claims_each_tile_once_in_order() {
    let mut c = TileCursor::new(3);
    assert_eq!(c.claim(), Some(0));
    assert_eq!(c.claim(), Some(1));
    assert_eq!(c.claim(), Some(2));
    assert_eq!(c.claim(), None);
    assert_eq!(c.claim(), None);
    assert_eq!(c.claimed(), 3);
    assert_eq!(c.total(), 3);
}

#[test]
fn empty_cursor_claims_nothing() {
    let mut c = TileCursor::new(0);
    assert_eq!(c.claim(), None);
    assert_eq!(c.claimed(), 0);
}
