use xeneon_core::grid::{
    column_positions, find_free_position, is_free, size_l, size_m, size_s, size_sq, size_ssx, size_sx,
    snap_to_layout, Rect, Size, GAP, PAGE_H, PAGE_W,
};

#[test]
fn size_presets_tile_the_screen_exactly() {
    assert_eq!(3 * size_s().w + 4 * GAP, 2560);
    assert_eq!(size_l().h, 720 - 2 * GAP);
    assert_eq!(2 * size_m().h + GAP, size_l().h);
    assert_eq!(2 * size_sq().w + GAP, size_m().w);
    assert_eq!(size_sq().h, size_m().h);
    assert_eq!(2 * size_sx().w + GAP, size_s().w);
    assert_eq!(size_sx().h, size_s().h);
    assert_eq!(2 * size_ssx().w + GAP, size_sx().w);
    assert_eq!(size_ssx().h, size_sx().h);
    assert_eq!(6 * size_s().h + 5 * GAP, size_l().h - 2);
}

#[test]
fn column_positions_tiles_three_full_width_columns() {
    assert_eq!(column_positions(PAGE_W, size_s().w), vec![0, 832 + GAP, 2 * (832 + GAP)]);
}

#[test]
fn column_positions_always_has_at_least_the_origin() {
    assert_eq!(column_positions(100, 9999), vec![0]);
}

#[test]
fn snap_to_layout_clamps_and_snaps_to_nearest_column() {
    let (x, y) = snap_to_layout(&[], size_s(), 900, 0, PAGE_W, PAGE_H);
    assert_eq!(x, 832 + GAP);
    assert_eq!(y, 0);
}

#[test]
fn snap_to_layout_offers_a_shelf_below_an_overlapping_neighbour() {
    let neighbour = Rect::new(0, 0, size_s().w, size_s().h);
    let (x, y) = snap_to_layout(&[neighbour], size_s(), 0, size_s().h + 5, PAGE_W, PAGE_H);
    assert_eq!(x, 0);
    assert_eq!(y, size_s().h + GAP);
}

#[test]
fn find_free_position_returns_first_gap_top_to_bottom_left_to_right() {
    let occupied = [Rect::new(0, 0, size_m().w, size_m().h)];
    let pos = find_free_position(&occupied, size_m(), PAGE_W, PAGE_H);
    assert_eq!(pos, Some((size_m().w + GAP, 0)));
}

#[test]
fn find_free_position_none_when_page_is_full() {
    let occupied: Vec<Rect> = column_positions(PAGE_W, size_l().w)
        .into_iter()
        .map(|x| Rect::new(x, 0, size_l().w, size_l().h))
        .collect();
    assert_eq!(find_free_position(&occupied, size_l(), PAGE_W, PAGE_H), None);
}

#[test]
fn is_free_detects_overlap() {
    let others = [Rect::new(0, 0, size_s().w, size_s().h)];
    assert!(!is_free(&others, Rect::new(10, 10, size_s().w, size_s().h)));
    assert!(is_free(&others, Rect::new(size_s().w + GAP, 0, size_s().w, size_s().h)));
}

// Further cases.

#[test]
fn page_constants_match_the_presets() {
    assert_eq!(PAGE_W, 2528);
    assert_eq!(PAGE_H, 688);
    assert_eq!(Size::new(3, 4), Size { w: 3, h: 4 });
}

#[test]
fn overlap_is_symmetric_and_touching_edges_do_not_overlap() {
    let a = Rect::new(0, 0, 10, 10);
    let b = Rect::new(5, 5, 10, 10);
    assert!(a.overlaps(&b));
    assert!(b.overlaps(&a));
    let c = Rect::new(10, 0, 10, 10);
    assert!(!a.overlaps(&c));
    assert!(!c.overlaps(&a));
    let d = Rect::new(0, 10, 10, 10);
    assert!(!a.overlaps(&d));
}

#[test]
fn narrow_widgets_scan_at_half_column_pitch() {
    let occupied = [Rect::new(0, 0, size_sq().w, size_sq().h)];
    assert_eq!(find_free_position(&occupied, size_sq(), PAGE_W, PAGE_H), Some((size_sq().w + GAP, 0)));
}

#[test]
fn free_position_goes_below_when_the_row_is_full() {
    let occupied: Vec<Rect> = column_positions(PAGE_W, size_s().w)
        .into_iter()
        .map(|x| Rect::new(x, 0, size_s().w, size_s().h))
        .collect();
    assert_eq!(find_free_position(&occupied, size_s(), PAGE_W, PAGE_H), Some((0, size_s().h + GAP)));
}

#[test]
fn snap_clamps_negative_and_far_positions() {
    assert_eq!(snap_to_layout(&[], size_s(), -500, -500, PAGE_W, PAGE_H), (0, 0));
    let (x, y) = snap_to_layout(&[], size_s(), 99999, 99999, PAGE_W, PAGE_H);
    assert_eq!(x, 2 * (832 + GAP));
    // Self-tiling shelves for S: 0, 117, ..., 585; max y is 587.
    assert_eq!(y, 5 * (101 + GAP));
}

#[test]
fn snap_tie_goes_to_the_earlier_candidate() {
    // Exactly halfway between column 0 and column 1 (848 / 2 = 424).
    let (x, _) = snap_to_layout(&[], size_s(), 424, 0, PAGE_W, PAGE_H);
    assert_eq!(x, 0);
}

#[test]
fn an_empty_page_leaves_any_spot_free() {
    assert!(is_free(&[], Rect::new(i32::MAX, i32::MAX, 10, 10)));
    assert!(is_free(&[], Rect::new(0, 0, 832, 101)));
}

#[test]
fn a_distant_rectangle_only_needs_its_first_edge_checked() {
    // The test stops at the first comparison that fails: the candidate's
    // far right edge is never added.
    let others = [Rect::new(0, 0, 100, 100)];
    assert!(is_free(&others, Rect::new(500, 0, i32::MAX, 10)));
    assert!(!is_free(&others, Rect::new(50, 50, 100, 100)));
    assert!(Rect::new(0, 0, 100, 100).overlaps(&Rect::new(99, 99, 10, 10)));
    assert!(!Rect::new(0, 0, 100, 100).overlaps(&Rect::new(100, 0, 10, 10)));
}

#[test]
fn snapping_a_snapped_position_leaves_it_in_place() {
    let others = [Rect::new(0, 0, 832, 101)];
    for &(rx, ry) in &[(900, 0), (10, 140), (3000, 3000), (-50, -50), (1700, 400)] {
        let (x, y) = snap_to_layout(&others, size_s(), rx, ry, PAGE_W, PAGE_H);
        assert_eq!(snap_to_layout(&others, size_s(), x, y, PAGE_W, PAGE_H), (x, y));
    }
}

#[test]
fn every_self_tiling_shelf_is_offered() {
    // Shelves for a small widget on a large page: 0, 117, 234, ..., 585.
    let step = size_s().h + GAP;
    let max_y = PAGE_H - size_s().h;
    let mut k = 0;
    while k * step <= max_y {
        let (_, y) = snap_to_layout(&[], size_s(), 0, k * step, PAGE_W, PAGE_H);
        assert_eq!(y, k * step);
        k += 1;
    }
    assert_eq!(k, 6);
}
