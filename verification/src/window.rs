use vstd::prelude::*;

verus! {

/// Where a panel stands on the screen and how large it is.
#[derive(Clone, Copy, Debug, PartialEq, Eq)]
pub struct PanelGeometry {
    pub rows: i32,
    pub cols: i32,
    /// The row and the column of the upper left corner.
    pub coords: (usize, usize),
}

/// Where the panels of the screen stand: the line of the path and the
/// tab strip at the top, three columns below them, the status line at the
/// bottom.
#[derive(Clone, Copy, Debug, PartialEq, Eq)]
pub struct ViewGeometry {
    pub top_win: PanelGeometry,
    pub tab_win: PanelGeometry,
    pub left_win: PanelGeometry,
    pub mid_win: PanelGeometry,
    pub right_win: PanelGeometry,
    pub bot_win: PanelGeometry,
}

/// The width of the tab strip.
pub const TAB_WIDTH: i32 = 10;

/// The width of one part of the screen when it is divided among columns
/// that share it as `win_ratio` says.
pub open spec fn column_unit(term_cols: int, win_ratio: (usize, usize, usize)) -> int {
    term_cols / (win_ratio.0 + win_ratio.1 + win_ratio.2)
}

/// Whether a screen of this size can be laid out: it has room for the
/// tab strip and for the two lines around the columns, and the ratio
/// gives the columns a share.
pub open spec fn can_lay_out(term_rows: int, term_cols: int, win_ratio: (usize, usize, usize))
    -> bool {
    &&& 2 <= term_rows
    &&& TAB_WIDTH <= term_cols
    &&& 0 < win_ratio.0 + win_ratio.1 + win_ratio.2 <= i32::MAX
}

/// The layout of a screen of `term_rows` rows and `term_cols` columns.
/// The columns share the width as `win_ratio` says, each one column short
/// of its share to leave a gap; the right column takes what is left.
pub open spec fn laid_out(term_rows: int, term_cols: int, win_ratio: (usize, usize, usize))
    -> ViewGeometry {
    let unit = column_unit(term_cols, win_ratio);
    ViewGeometry {
        tab_win: PanelGeometry {
            rows: 1,
            cols: TAB_WIDTH,
            coords: (0, (term_cols - TAB_WIDTH) as usize),
        },
        top_win: PanelGeometry { rows: 1, cols: (term_cols - TAB_WIDTH) as i32, coords: (0, 0) },
        left_win: PanelGeometry {
            rows: (term_rows - 2) as i32,
            cols: (unit * win_ratio.0 - 1) as i32,
            coords: (1, 0),
        },
        mid_win: PanelGeometry {
            rows: (term_rows - 2) as i32,
            cols: (unit * win_ratio.1 - 1) as i32,
            coords: (1, (unit * win_ratio.0) as usize),
        },
        right_win: PanelGeometry {
            rows: (term_rows - 2) as i32,
            cols: (term_cols - unit * (win_ratio.0 + win_ratio.1) - 1) as i32,
            coords: (1, (unit * (win_ratio.0 + win_ratio.1)) as usize),
        },
        bot_win: PanelGeometry {
            rows: 1,
            cols: term_cols as i32,
            coords: ((term_rows - 1) as usize, 0),
        },
    }
}

/// A share of the width is no wider than the screen.
proof fn lemma_share(term_cols: int, sum: int, part: int)
    requires
        0 <= term_cols,
        0 < sum,
        0 <= part <= sum,
    ensures
        0 <= (term_cols / sum) * part <= term_cols,
{
    vstd::arithmetic::div_mod::lemma_fundamental_div_mod(term_cols, sum);
    vstd::arithmetic::div_mod::lemma_mod_bound(term_cols, sum);
    vstd::arithmetic::div_mod::lemma_div_pos_is_pos(term_cols, sum);
    let unit = term_cols / sum;
    assert(unit * part <= unit * sum) by (nonlinear_arith)
        requires
            0 <= unit,
            part <= sum,
    ;
    assert(0 <= unit * part) by (nonlinear_arith)
        requires
            0 <= unit,
            0 <= part,
    ;
    assert(unit * sum == sum * unit) by (nonlinear_arith);
}

/// Lays out a screen of `term_rows` rows and `term_cols` columns.
pub fn view_geometry(term_rows: i32, term_cols: i32, win_ratio: (usize, usize, usize)) -> (r:
    ViewGeometry)
    requires
        can_lay_out(term_rows as int, term_cols as int, win_ratio),
    ensures
        r == laid_out(term_rows as int, term_cols as int, win_ratio),
{
    let sum_ratio: usize = win_ratio.0 + win_ratio.1 + win_ratio.2;
    let term_divide: i32 = term_cols / (sum_ratio as i32);
    let first: i32 = win_ratio.0 as i32;
    let second: i32 = win_ratio.1 as i32;
    proof {
        lemma_share(term_cols as int, sum_ratio as int, win_ratio.0 as int);
        lemma_share(term_cols as int, sum_ratio as int, win_ratio.1 as int);
        lemma_share(term_cols as int, sum_ratio as int, win_ratio.0 + win_ratio.1);
    }
    let left_cols: i32 = term_divide * first;
    let mid_cols: i32 = term_divide * second;
    let right_at: i32 = term_divide * (first + second);
    ViewGeometry {
        tab_win: PanelGeometry {
            rows: 1,
            cols: TAB_WIDTH,
            coords: (0, (term_cols - TAB_WIDTH) as usize),
        },
        top_win: PanelGeometry { rows: 1, cols: term_cols - TAB_WIDTH, coords: (0, 0) },
        left_win: PanelGeometry { rows: term_rows - 2, cols: left_cols - 1, coords: (1, 0) },
        mid_win: PanelGeometry {
            rows: term_rows - 2,
            cols: mid_cols - 1,
            coords: (1, left_cols as usize),
        },
        right_win: PanelGeometry {
            rows: term_rows - 2,
            cols: term_cols - right_at - 1,
            coords: (1, right_at as usize),
        },
        bot_win: PanelGeometry { rows: 1, cols: term_cols, coords: ((term_rows - 1) as usize, 0) },
    }
}

} // verus!
