//! Pixel work of the popup's frame: lines, rectangles, boxes and the
//! window of rows that the list shows. Text is drawn elsewhere.
use vstd::prelude::*;

use crate::text::{decimal, push_decimal};

verus! {

/// Background (Catppuccin Macchiato Base).
pub const BG_COLOR: u32 = 0xFF24273A;
/// Border of the search box.
pub const SEARCH_BORDER_COLOR: u32 = 0xFF8BD5CA;
/// Border of the results box.
pub const LIST_BORDER_COLOR: u32 = 0xFF5B6078;
/// Background of the selected row.
pub const HIGHLIGHT_COLOR: u32 = 0xFF363A4F;
/// Height of the search box.
pub const SEARCH_HEIGHT: u32 = 40;
/// Top of the results box.
pub const LIST_Y: u32 = 50;
/// Height of one row of the list.
pub const ROW_HEIGHT: u32 = 25;
/// How many rows the list shows at most.
pub const VISIBLE_ROWS: usize = 10;

pub open spec fn min_int(a: int, b: int) -> int {
    if a < b { a } else { b }
}

/// The first index past a horizontal line of `len` pixels from column `x` of
/// row `y`, cut at the right edge.
pub open spec fn h_line_end(width: u32, x: u32, y: u32, len: u32) -> int {
    y * width + min_int(x + len, width as int)
}

/// Whether pixel `k` lies on that line.
pub open spec fn on_h_line(k: int, width: u32, x: u32, y: u32, len: u32) -> bool {
    y * width + x <= k < h_line_end(width, x, y, len)
}

/// The arithmetic of `draw_h_line` stays within `u32`.
pub open spec fn h_line_fits(width: u32, x: u32, y: u32, len: u32) -> bool {
    &&& x + len <= u32::MAX
    &&& (x < min_int(x + len, width as int) ==> h_line_end(width, x, y, len) <= u32::MAX + 1)
}

/// `p` with the pixels of the horizontal line that lie inside `p` set to `color`.
pub open spec fn h_line_spec(p: Seq<u32>, width: u32, x: u32, y: u32, len: u32, color: u32) -> Seq<
    u32,
> {
    Seq::new(p.len(), |k: int| if on_h_line(k, width, x, y, len) { color } else { p[k] })
}

/// Sets the pixels of row `y` from column `x` on, `len` of them, cut at the
/// right edge, to `color`; pixels past the end of the buffer are skipped.
pub fn draw_h_line(pixels: &mut [u32], width: u32, x: u32, y: u32, len: u32, color: u32)
    requires
        h_line_fits(width, x, y, len),
    ensures
        final(pixels)@ == h_line_spec(old(pixels)@, width, x, y, len, color),
{
    let ghost p0 = pixels@;
    let end: u32 = if x + len < width { x + len } else { width };
    let mut i: u32 = x;
    while i < end
        invariant
            x <= i,
            i <= x || i <= end,
            end == min_int(x + len, width as int),
            h_line_fits(width, x, y, len),
            pixels@.len() == p0.len(),
            forall|k: int|
                0 <= k < p0.len() ==> #[trigger] pixels@[k] == if y * width + x <= k < y * width + i {
                    color
                } else {
                    p0[k]
                },
        decreases end - i,
    {
        let idx = (y * width + i) as usize;
        if idx < pixels.len() {
            pixels[idx] = color;
        }
        i = i + 1;
    }
    assert(pixels@ =~= h_line_spec(p0, width, x, y, len, color));
}

/// The pixel of column `x` in row `i`.
pub open spec fn column_index(i: int, width: u32, x: u32) -> int {
    i * width + x
}

/// Whether pixel `k` is the pixel of column `x` in one of the rows `from..to`.
pub open spec fn on_column(k: int, width: u32, x: u32, from: int, to: int) -> bool {
    exists|i: int| from <= i < to && k == #[trigger] column_index(i, width, x)
}

/// The arithmetic of `draw_v_line` stays within `u32`.
pub open spec fn v_line_fits(width: u32, x: u32, y: u32, len: u32) -> bool {
    &&& y + len <= u32::MAX
    &&& (len > 0 ==> (y + len - 1) * width + x <= u32::MAX)
}

/// `p` with the pixels of the vertical line that lie inside `p` set to `color`.
pub open spec fn v_line_spec(p: Seq<u32>, width: u32, x: u32, y: u32, len: u32, color: u32) -> Seq<
    u32,
> {
    Seq::new(
        p.len(),
        |k: int| if on_column(k, width, x, y as int, y + len) { color } else { p[k] },
    )
}

proof fn lemma_column_extend(k: int, width: u32, x: u32, from: int, to: int)
    requires
        from <= to,
    ensures
        on_column(k, width, x, from, to + 1) <==> (on_column(k, width, x, from, to) || k
            == column_index(to, width, x)),
{
    if on_column(k, width, x, from, to + 1) {
        let i = choose|i: int| from <= i < to + 1 && k == #[trigger] column_index(i, width, x);
        if i < to {
            assert(on_column(k, width, x, from, to));
        }
    }
    if on_column(k, width, x, from, to) {
        let i = choose|i: int| from <= i < to && k == #[trigger] column_index(i, width, x);
        assert(from <= i < to + 1);
    }
    if k == column_index(to, width, x) {
        assert(from <= to < to + 1);
    }
}

/// Sets the pixels of column `x` in the rows `y..y + len` to `color`;
/// pixels past the end of the buffer are skipped.
pub fn draw_v_line(pixels: &mut [u32], width: u32, x: u32, y: u32, len: u32, color: u32)
    requires
        v_line_fits(width, x, y, len),
    ensures
        final(pixels)@ == v_line_spec(old(pixels)@, width, x, y, len, color),
{
    let ghost p0 = pixels@;
    let end: u32 = y + len;
    let mut i: u32 = y;
    while i < end
        invariant
            y <= i <= end,
            end == y + len,
            v_line_fits(width, x, y, len),
            pixels@.len() == p0.len(),
            forall|k: int|
                0 <= k < p0.len() ==> #[trigger] pixels@[k] == if on_column(
                    k,
                    width,
                    x,
                    y as int,
                    i as int,
                ) {
                    color
                } else {
                    p0[k]
                },
        decreases end - i,
    {
        assert(i * width <= (y + len - 1) * width) by (nonlinear_arith)
            requires
                i <= y + len - 1,
        ;
        let idx = (i * width + x) as usize;
        let ghost before = pixels@;
        if idx < pixels.len() {
            pixels[idx] = color;
        }
        assert forall|k: int| 0 <= k < p0.len() implies #[trigger] pixels@[k] == if on_column(
            k,
            width,
            x,
            y as int,
            i + 1,
        ) {
            color
        } else {
            p0[k]
        } by {
            lemma_column_extend(k, width, x, y as int, i as int);
            if k != idx {
                assert(pixels@[k] == before[k]);
            }
        }
        i = i + 1;
    }
    assert(pixels@ =~= v_line_spec(p0, width, x, y, len, color));
}

/// Whether pixel `k` lies on the border of the rectangle of `w` by `h`
/// pixels whose top-left corner is column `x` of row `y`.
pub open spec fn on_rect_border(k: int, width: u32, x: u32, y: u32, w: u32, h: u32) -> bool {
    ||| on_h_line(k, width, x, y, w)
    ||| on_h_line(k, width, x, (y + h - 1) as u32, w)
    ||| on_column(k, width, x, y as int, y + h)
    ||| on_column(k, width, (x + w - 1) as u32, y as int, y + h)
}

/// The arithmetic of `draw_rect` stays within `u32`.
pub open spec fn rect_fits(width: u32, x: u32, y: u32, w: u32, h: u32) -> bool {
    &&& 1 <= x + w <= u32::MAX
    &&& 1 <= y + h <= u32::MAX
    &&& h_line_fits(width, x, y, w)
    &&& h_line_fits(width, x, (y + h - 1) as u32, w)
    &&& v_line_fits(width, x, y, h)
    &&& v_line_fits(width, (x + w - 1) as u32, y, h)
}

/// `p` with the border of the rectangle set to `color`.
pub open spec fn rect_spec(p: Seq<u32>, width: u32, x: u32, y: u32, w: u32, h: u32, color: u32) -> Seq<
    u32,
> {
    Seq::new(
        p.len(),
        |k: int| if on_rect_border(k, width, x, y, w, h) { color } else { p[k] },
    )
}

/// Draws the border of a rectangle: its top and bottom rows and its left
/// and right columns.
pub fn draw_rect(pixels: &mut [u32], width: u32, x: u32, y: u32, w: u32, h: u32, color: u32)
    requires
        rect_fits(width, x, y, w, h),
    ensures
        final(pixels)@ == rect_spec(old(pixels)@, width, x, y, w, h, color),
{
    let ghost p0 = pixels@;
    draw_h_line(pixels, width, x, y, w, color);
    draw_h_line(pixels, width, x, y + h - 1, w, color);
    draw_v_line(pixels, width, x, y, h, color);
    draw_v_line(pixels, width, x + w - 1, y, h, color);
    assert(pixels@ =~= rect_spec(p0, width, x, y, w, h, color));
}

/// A frame of `width` by `height` pixels, all of the background color.
pub fn new_frame(width: u32, height: u32) -> (res: Vec<u32>)
    requires
        width * height <= u32::MAX,
    ensures
        res@ == Seq::new((width * height) as nat, |k: int| BG_COLOR),
{
    let n = (width * height) as usize;
    let res = vec![BG_COLOR; n];
    assert(res@ =~= Seq::new((width * height) as nat, |k: int| BG_COLOR));
    res
}

/// `p` after `draw_search_box`: the border of the search box, with the part
/// of its top row where the title goes erased.
pub open spec fn search_box_spec(p: Seq<u32>, width: u32) -> Seq<u32> {
    h_line_spec(
        rect_spec(p, width, 0, 0, width, SEARCH_HEIGHT, SEARCH_BORDER_COLOR),
        width,
        15,
        0,
        65,
        BG_COLOR,
    )
}

/// Draws the border of the search box across the top of the frame and
/// clears the place of its title.
pub fn draw_search_box(pixels: &mut [u32], width: u32)
    requires
        width >= 1,
        SEARCH_HEIGHT * width <= u32::MAX + 1,
    ensures
        final(pixels)@ == search_box_spec(old(pixels)@, width),
{
    assert(h_line_fits(width, 0, 0, width));
    assert(h_line_fits(width, 0, 39, width));
    assert(v_line_fits(width, 0, 0, SEARCH_HEIGHT));
    assert(v_line_fits(width, (width - 1) as u32, 0, SEARCH_HEIGHT));
    draw_rect(pixels, width, 0, 0, width, SEARCH_HEIGHT, SEARCH_BORDER_COLOR);
    draw_h_line(pixels, width, 15, 0, 65, BG_COLOR);
}

/// `p` after `draw_results_box`: the border of the results box, from row
/// `LIST_Y` to the bottom of the frame, with the place of its title erased.
pub open spec fn results_box_spec(p: Seq<u32>, width: u32, height: u32) -> Seq<u32> {
    h_line_spec(
        rect_spec(p, width, 0, LIST_Y, width, (height - LIST_Y) as u32, LIST_BORDER_COLOR),
        width,
        15,
        LIST_Y,
        140,
        BG_COLOR,
    )
}

/// Draws the border of the results box below the search box and clears the
/// place of its title.
pub fn draw_results_box(pixels: &mut [u32], width: u32, height: u32)
    requires
        width >= 1,
        height >= LIST_Y,
        height * width <= u32::MAX + 1,
        (LIST_Y + 1) * width <= u32::MAX + 1,
    ensures
        final(pixels)@ == results_box_spec(old(pixels)@, width, height),
{
    let list_h = height - LIST_Y;
    assert((height - 1) * width + width == height * width) by (nonlinear_arith);
    assert(LIST_Y * width + width == (LIST_Y + 1) * width) by (nonlinear_arith);
    assert(h_line_fits(width, 0, LIST_Y, width));
    assert(h_line_fits(width, 0, (height - 1) as u32, width));
    assert(v_line_fits(width, 0, LIST_Y, list_h));
    assert(v_line_fits(width, (width - 1) as u32, LIST_Y, list_h));
    assert(h_line_fits(width, 15, LIST_Y, 140));
    draw_rect(pixels, width, 0, LIST_Y, width, list_h, LIST_BORDER_COLOR);
    draw_h_line(pixels, width, 15, LIST_Y, 140, BG_COLOR);
}

/// The first pixel of row `row`.
pub open spec fn row_base(row: int, width: u32) -> int {
    row * width
}

/// Whether pixel `k` lies inside the border columns of one of the rows `from..to`.
pub open spec fn on_highlight(k: int, width: u32, from: int, to: int) -> bool {
    exists|r: int|
        from <= r < to && #[trigger] row_base(r, width) + 1 <= k < row_base(r, width) + width - 1
}

/// The rows that `draw_highlight` colors: `ROW_HEIGHT` rows from `y`, but
/// none from the last row of the frame on.
pub open spec fn highlight_end(y: u32, height: u32) -> int {
    min_int(y + ROW_HEIGHT, height - 1)
}

/// `p` after `draw_highlight`.
pub open spec fn highlight_spec(p: Seq<u32>, width: u32, height: u32, y: u32) -> Seq<u32> {
    Seq::new(
        p.len(),
        |k: int|
            if on_highlight(k, width, y as int, highlight_end(y, height)) {
                HIGHLIGHT_COLOR
            } else {
                p[k]
            },
    )
}

proof fn lemma_highlight_extend(k: int, width: u32, from: int, to: int)
    requires
        from <= to,
    ensures
        on_highlight(k, width, from, to + 1) <==> (on_highlight(k, width, from, to) || (
        row_base(to, width) + 1 <= k < row_base(to, width) + width - 1)),
{
    if on_highlight(k, width, from, to + 1) {
        let r = choose|r: int|
            from <= r < to + 1 && #[trigger] row_base(r, width) + 1 <= k < row_base(r, width) + width
                - 1;
        if r < to {
            assert(on_highlight(k, width, from, to));
        }
    }
    if on_highlight(k, width, from, to) {
        let r = choose|r: int|
            from <= r < to && #[trigger] row_base(r, width) + 1 <= k < row_base(r, width) + width
                - 1;
        assert(from <= r < to + 1);
    }
    if row_base(to, width) + 1 <= k < row_base(to, width) + width - 1 {
        assert(from <= to < to + 1);
    }
}

/// Colors the background of a selected row of the list: `ROW_HEIGHT` rows
/// of pixels from row `y`, inside the border columns, stopping before the
/// frame's last row.
pub fn draw_highlight(pixels: &mut [u32], width: u32, height: u32, y: u32)
    requires
        width >= 2,
        height >= 1,
        y + ROW_HEIGHT <= u32::MAX,
        height * width <= u32::MAX + 1,
    ensures
        final(pixels)@ == highlight_spec(old(pixels)@, width, height, y),
{
    let ghost p0 = pixels@;
    let stop: u32 = if y + ROW_HEIGHT < height - 1 { y + ROW_HEIGHT } else { height - 1 };
    let mut hy: u32 = y;
    while hy < stop
        invariant
            y <= hy,
            hy == y || hy <= stop,
            stop == highlight_end(y, height),
            width >= 2,
            height * width <= u32::MAX + 1,
            pixels@.len() == p0.len(),
            forall|k: int|
                0 <= k < p0.len() ==> #[trigger] pixels@[k] == if on_highlight(
                    k,
                    width,
                    y as int,
                    hy as int,
                ) {
                    HIGHLIGHT_COLOR
                } else {
                    p0[k]
                },
        decreases stop - hy,
    {
        assert(hy * width + width <= height * width) by (nonlinear_arith)
            requires
                hy + 1 <= height,
        ;
        let ghost before = pixels@;
        draw_h_line(pixels, width, 1, hy, width - 2, HIGHLIGHT_COLOR);
        assert forall|k: int| 0 <= k < p0.len() implies #[trigger] pixels@[k] == if on_highlight(
            k,
            width,
            y as int,
            hy + 1,
        ) {
            HIGHLIGHT_COLOR
        } else {
            p0[k]
        } by {
            lemma_highlight_extend(k, width, y as int, hy as int);
            assert(pixels@[k] == if on_h_line(k, width, 1, hy, (width - 2) as u32) {
                HIGHLIGHT_COLOR
            } else {
                before[k]
            });
        }
        hy = hy + 1;
    }
    assert(pixels@ =~= highlight_spec(p0, width, height, y));
}

/// The first row of the list that is shown when row `selected` is selected:
/// the list scrolls so that the selection stays among the last shown rows.
pub open spec fn first_visible(selected: int) -> int {
    if selected >= VISIBLE_ROWS { selected - (VISIBLE_ROWS - 1) } else { 0 }
}

/// The rows `start..end` of a list of `len` rows that are shown when row
/// `selected` is selected.
pub fn visible_range(selected: usize, len: usize) -> (res: (usize, usize))
    requires
        selected < usize::MAX,
    ensures
        res.0 == first_visible(selected as int),
        res.1 == min_int(res.0 + VISIBLE_ROWS, len as int),
{
    let start: usize = if selected >= VISIBLE_ROWS { selected - (VISIBLE_ROWS - 1) } else { 0 };
    let end: usize = if start + VISIBLE_ROWS < len { start + VISIBLE_ROWS } else { len };
    (start, end)
}

/// The title of the results box: how many suggestions are shown out of all.
pub open spec fn results_title_spec(shown: nat, total: nat) -> Seq<char> {
    " Results ("@ + decimal(shown) + "/"@ + decimal(total) + ") "@
}

/// The title of the results box, such as ` Results (3/120) `.
pub fn results_title(shown: usize, total: usize) -> (res: String)
    ensures
        res@ == results_title_spec(shown as nat, total as nat),
{
    let mut s = String::from_str(" Results (");
    push_decimal(&mut s, shown);
    s.append("/");
    push_decimal(&mut s, total);
    s.append(") ");
    s
}

} // verus!
