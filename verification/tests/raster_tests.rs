use softraster::raster::scan_box;

fn pixels(min_x: i32, min_y: i32, max_x: i32, max_y: i32) -> Vec<(i32, i32)> {
    scan_box(min_x, min_y, max_x, max_y, |x, y| Some((x, y)))
        .iter()
        .map(|s| (s.x, s.y))
        .collect()
}

#[test]
fn scan_goes_row_by_row() {
    assert_eq!(pixels(1, 2, 3, 3), vec![(1, 2), (2, 2), (3, 2), (1, 3), (2, 3), (3, 3)]);
    assert_eq!(pixels(-1, -1, 0, 0), vec![(-1, -1), (0, -1), (-1, 0), (0, 0)]);
}

#[test]
fn scan_of_one_pixel() {
    assert_eq!(pixels(5, 7, 5, 7), vec![(5, 7)]);
}

#[test]
fn scan_of_an_empty_box() {
    assert!(pixels(3, 0, 2, 5).is_empty());
    assert!(pixels(0, 1, 5, 0).is_empty());
}

#[test]
fn scan_keeps_what_is_covered() {
    let samples = scan_box(0, 0, 3, 3, |x, y| if x + y <= 3 && x >= y { Some(10 * x + y) } else { None });
    let found: Vec<(i32, i32, i32)> = samples.iter().map(|s| (s.x, s.y, s.value)).collect();
    assert_eq!(found, vec![(0, 0, 0), (1, 0, 10), (2, 0, 20), (3, 0, 30), (1, 1, 11), (2, 1, 21)]);
}

#[test]
fn scan_with_nothing_covered() {
    let samples = scan_box(-4, -4, 4, 4, |_, _| None::<u8>);
    assert!(samples.is_empty());
}

#[test]
fn scan_at_the_ends_of_the_range() {
    assert_eq!(
        pixels(i32::MAX - 1, i32::MAX, i32::MAX, i32::MAX),
        vec![(i32::MAX - 1, i32::MAX), (i32::MAX, i32::MAX)]
    );
    assert_eq!(
        pixels(i32::MIN, i32::MIN, i32::MIN, i32::MIN + 1),
        vec![(i32::MIN, i32::MIN), (i32::MIN, i32::MIN + 1)]
    );
}
