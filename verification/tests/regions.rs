use screentime_pro::regions::{label_regions, region_box, RegionBox};

fn mask(bits: &[u8]) -> Vec<bool> {
    bits.iter().map(|&b| b == 1).collect()
}

#[test]
fn empty_grid_has_no_regions() {
    let (labels, count) = label_regions(&Vec::new(), 0, 0);
    assert!(labels.is_empty());
    assert_eq!(count, 0);
}

#[test]
fn unmarked_grid_has_no_regions() {
    let (labels, count) = label_regions(&mask(&[0, 0, 0, 0]), 2, 2);
    assert_eq!(labels, vec![0, 0, 0, 0]);
    assert_eq!(count, 0);
}

#[test]
fn diagonal_pixels_form_one_region() {
    let (labels, count) = label_regions(&mask(&[1, 0, 0, 0, 1, 0, 0, 0, 1]), 3, 3);
    assert_eq!(labels, vec![1, 0, 0, 0, 1, 0, 0, 0, 1]);
    assert_eq!(count, 1);
}

#[test]
fn anti_diagonal_touch_joins() {
    let (labels, count) = label_regions(&mask(&[0, 1, 1, 0]), 2, 2);
    assert_eq!(labels, vec![0, 1, 1, 0]);
    assert_eq!(count, 1);
}

#[test]
fn row_end_does_not_touch_next_row_start() {
    let (labels, count) = label_regions(&mask(&[0, 0, 1, 1, 0, 0]), 3, 2);
    assert_eq!(labels, vec![0, 0, 1, 2, 0, 0]);
    assert_eq!(count, 2);
}

#[test]
fn regions_are_numbered_in_scan_order() {
    let (labels, count) = label_regions(&mask(&[1, 0, 0, 1, 0, 0, 0, 0, 0, 1, 1, 0]), 4, 3);
    assert_eq!(labels, vec![1, 0, 0, 2, 0, 0, 0, 0, 0, 3, 3, 0]);
    assert_eq!(count, 3);
}

#[test]
fn u_shape_is_one_region_found_from_its_first_pixel() {
    let (labels, count) = label_regions(&mask(&[1, 0, 1, 1, 1, 1]), 3, 2);
    assert_eq!(labels, vec![1, 0, 1, 1, 1, 1]);
    assert_eq!(count, 1);
}

#[test]
fn box_of_a_region_spans_its_pixels() {
    let (labels, _) = label_regions(&mask(&[1, 0, 0, 1, 0, 0, 0, 0, 0, 1, 1, 0]), 4, 3);
    assert_eq!(
        region_box(&labels, 4, 3),
        Some(RegionBox { x0: 1, y0: 2, x1: 2, y1: 2, pixels: 2 })
    );
    assert_eq!(
        region_box(&labels, 4, 2),
        Some(RegionBox { x0: 3, y0: 0, x1: 3, y1: 0, pixels: 1 })
    );
}

#[test]
fn box_of_a_diagonal_region() {
    let (labels, _) = label_regions(&mask(&[1, 0, 0, 0, 1, 0, 0, 0, 1]), 3, 3);
    assert_eq!(
        region_box(&labels, 3, 1),
        Some(RegionBox { x0: 0, y0: 0, x1: 2, y1: 2, pixels: 3 })
    );
}

#[test]
fn no_box_for_an_absent_label() {
    let (labels, count) = label_regions(&mask(&[1, 0, 0, 1]), 2, 2);
    assert_eq!(count, 1);
    assert_eq!(region_box(&labels, 2, 2), None);
}
