use chaoskit::frame::{Extent, Tally};

#[test]
fn upper_edge_is_outside() {
    let e = Extent::new(4, 3);
    let width = 4.0f64;
    assert!(!e.does_fit(width.floor() as i64, 0));
    assert!(e.does_fit(0.0f64.floor() as i64, 0));
    assert!(e.does_fit(3.999f64.floor() as i64, 2));
    assert!(!e.does_fit(0, 3));
    assert!(!e.does_fit((-0.5f64).floor() as i64, 0));
    assert!(!e.does_fit(i64::MIN, i64::MAX));
}

#[test]
fn pixels_are_row_major() {
    let e = Extent::new(4, 3);
    assert_eq!(e.to_pixel(0, 0), 0);
    assert_eq!(e.to_pixel(3, 0), 3);
    assert_eq!(e.to_pixel(1, 2), 9);
    assert_eq!(e.pixel_count(), Some(12));
    assert_eq!(Extent::new(usize::MAX, 2).pixel_count(), None);
}

#[test]
fn tally_conserves_hits() {
    let mut t = Tally::new(Extent::new(4, 4));
    let cells = [
        Some((0i64, 0i64)),
        Some((3, 3)),
        Some((4, 0)),
        None,
        Some((0, 0)),
        Some((-1, 2)),
        Some((2, 1)),
    ];
    let mut fitting = 0;
    for c in cells.iter() {
        if t.record(*c).is_some() {
            fitting += 1;
        }
    }
    assert_eq!(fitting, 4);
    assert_eq!(t.fit_count(), 4);
    assert_eq!(t.total_count(), 7);
    let sum: u64 = (0..16).map(|i| t.hits(i)).sum();
    assert_eq!(sum, 4);
    assert_eq!(t.hits(0), 2);
    assert_eq!(t.hits(15), 1);
    assert_eq!(t.hits(6), 1);
    assert_eq!(t.extent(), Extent::new(4, 4));
}

#[test]
fn record_returns_pixel() {
    let mut t = Tally::new(Extent::new(4, 4));
    assert_eq!(t.record(Some((1, 2))), Some(9));
    assert_eq!(t.record(Some((1, 4))), None);
    assert_eq!(t.record(None), None);
}
