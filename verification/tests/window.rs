use lll::window::{view_geometry, PanelGeometry, TAB_WIDTH};

#[test]
fn the_columns_share_the_width_by_the_ratio() {
    let g = view_geometry(24, 80, (1, 3, 4));
    assert_eq!(g.tab_win, PanelGeometry { rows: 1, cols: 10, coords: (0, 70) });
    assert_eq!(g.top_win, PanelGeometry { rows: 1, cols: 70, coords: (0, 0) });
    assert_eq!(g.left_win, PanelGeometry { rows: 22, cols: 9, coords: (1, 0) });
    assert_eq!(g.mid_win, PanelGeometry { rows: 22, cols: 29, coords: (1, 10) });
    assert_eq!(g.right_win, PanelGeometry { rows: 22, cols: 39, coords: (1, 40) });
    assert_eq!(g.bot_win, PanelGeometry { rows: 1, cols: 80, coords: (23, 0) });
    assert_eq!(TAB_WIDTH, 10);
}

#[test]
fn the_right_column_takes_what_is_left() {
    // 100 columns among 3 + 3 + 1 parts: a part is 14 columns wide
    let g = view_geometry(40, 100, (3, 3, 1));
    assert_eq!(g.left_win, PanelGeometry { rows: 38, cols: 41, coords: (1, 0) });
    assert_eq!(g.mid_win, PanelGeometry { rows: 38, cols: 41, coords: (1, 42) });
    assert_eq!(g.right_win, PanelGeometry { rows: 38, cols: 15, coords: (1, 84) });
}

#[test]
fn the_smallest_screen_and_a_column_without_share() {
    let g = view_geometry(2, 10, (0, 1, 0));
    assert_eq!(g.tab_win, PanelGeometry { rows: 1, cols: 10, coords: (0, 0) });
    assert_eq!(g.top_win, PanelGeometry { rows: 1, cols: 0, coords: (0, 0) });
    assert_eq!(g.left_win, PanelGeometry { rows: 0, cols: -1, coords: (1, 0) });
    assert_eq!(g.mid_win, PanelGeometry { rows: 0, cols: 9, coords: (1, 0) });
    assert_eq!(g.right_win, PanelGeometry { rows: 0, cols: -1, coords: (1, 10) });
    assert_eq!(g.bot_win, PanelGeometry { rows: 1, cols: 10, coords: (1, 0) });
    let g = view_geometry(i32::MAX, i32::MAX, (i32::MAX as usize, 0, 0));
    assert_eq!(g.left_win.cols, i32::MAX - 1);
    assert_eq!(g.right_win.coords, (1, i32::MAX as usize));
}
