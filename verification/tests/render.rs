use aooff::popup::render::{
    draw_h_line, draw_highlight, draw_rect, draw_results_box, draw_search_box, draw_v_line,
    new_frame, results_title, visible_range, BG_COLOR, HIGHLIGHT_COLOR, LIST_BORDER_COLOR,
    SEARCH_BORDER_COLOR,
};

#[test]
fn h_line_is_clipped_at_right_edge() {
    let mut p = vec![0u32; 20];
    draw_h_line(&mut p, 5, 3, 1, 10, 7);
    let expected: Vec<u32> = (0..20).map(|k| if k == 8 || k == 9 { 7 } else { 0 }).collect();
    assert_eq!(p, expected);
}

#[test]
fn h_line_outside_buffer_is_skipped() {
    let mut p = vec![0u32; 6];
    draw_h_line(&mut p, 4, 1, 1, 3, 9);
    assert_eq!(p, vec![0, 0, 0, 0, 0, 9]);
    let mut q = vec![0u32; 6];
    draw_h_line(&mut q, 4, 4, 0, 3, 9);
    assert_eq!(q, vec![0u32; 6]);
}

#[test]
fn v_line_sets_one_column() {
    let mut p = vec![0u32; 12];
    draw_v_line(&mut p, 4, 2, 1, 5, 1);
    let expected: Vec<u32> = (0..12).map(|k| if k == 6 || k == 10 { 1 } else { 0 }).collect();
    assert_eq!(p, expected);
}

#[test]
fn rect_draws_border_only() {
    let mut p = vec![0u32; 25];
    draw_rect(&mut p, 5, 1, 1, 3, 3, 2);
    let border = [6, 7, 8, 11, 13, 16, 17, 18];
    for k in 0..25 {
        assert_eq!(p[k], if border.contains(&k) { 2 } else { 0 }, "pixel {}", k);
    }
}

#[test]
fn frame_starts_with_background() {
    let f = new_frame(3, 2);
    assert_eq!(f, vec![BG_COLOR; 6]);
}

#[test]
fn search_box_border_and_title_gap() {
    let width = 100u32;
    let mut p = new_frame(width, 60);
    draw_search_box(&mut p, width);
    assert_eq!(p[0], SEARCH_BORDER_COLOR);
    assert_eq!(p[14], SEARCH_BORDER_COLOR);
    assert_eq!(p[15], BG_COLOR);
    assert_eq!(p[79], BG_COLOR);
    assert_eq!(p[80], SEARCH_BORDER_COLOR);
    assert_eq!(p[39 * 100 + 50], SEARCH_BORDER_COLOR);
    assert_eq!(p[20 * 100], SEARCH_BORDER_COLOR);
    assert_eq!(p[20 * 100 + 99], SEARCH_BORDER_COLOR);
    assert_eq!(p[20 * 100 + 50], BG_COLOR);
    assert_eq!(p[40 * 100], BG_COLOR);
}

#[test]
fn results_box_spans_to_bottom() {
    let (width, height) = (200u32, 80u32);
    let mut p = new_frame(width, height);
    draw_results_box(&mut p, width, height);
    assert_eq!(p[50 * 200 + 5], LIST_BORDER_COLOR);
    assert_eq!(p[50 * 200 + 15], BG_COLOR);
    assert_eq!(p[50 * 200 + 154], BG_COLOR);
    assert_eq!(p[50 * 200 + 155], LIST_BORDER_COLOR);
    assert_eq!(p[79 * 200 + 100], LIST_BORDER_COLOR);
    assert_eq!(p[60 * 200], LIST_BORDER_COLOR);
    assert_eq!(p[60 * 200 + 199], LIST_BORDER_COLOR);
    assert_eq!(p[60 * 200 + 100], BG_COLOR);
    assert_eq!(p[49 * 200 + 100], BG_COLOR);
}

#[test]
fn highlight_stops_before_last_row() {
    let (width, height) = (4u32, 10u32);
    let mut p = vec![0u32; 40];
    draw_highlight(&mut p, width, height, 7);
    for k in 0..40usize {
        let row = k / 4;
        let col = k % 4;
        let lit = (row == 7 || row == 8) && (col == 1 || col == 2);
        assert_eq!(p[k], if lit { HIGHLIGHT_COLOR } else { 0 }, "pixel {}", k);
    }
}

#[test]
fn visible_range_scrolls_with_selection() {
    assert_eq!(visible_range(0, 3), (0, 3));
    assert_eq!(visible_range(9, 30), (0, 10));
    assert_eq!(visible_range(10, 30), (1, 11));
    assert_eq!(visible_range(25, 26), (16, 26));
}

#[test]
fn results_title_counts() {
    assert_eq!(results_title(3, 120), " Results (3/120) ");
    assert_eq!(results_title(0, 0), " Results (0/0) ");
    assert_eq!(results_title(1005, 10), " Results (1005/10) ");
}
