//! Properties of the popup that hold across its operations.
use vstd::prelude::*;

use super::ranking::lemma_ranking_unique;
use super::{accepts_text, is_filtered, key_step, launch_spec, skim_score, pick, match_scores, ActionView, ItemView, KeyView, PopupView};
use super::render::{
    first_visible, h_line_spec, highlight_spec, min_int, row_base, HIGHLIGHT_COLOR, ROW_HEIGHT, VISIBLE_ROWS,
};
use crate::text::is_control_spec;

verus! {

/// For a given list of suggestions and query there is one shown list.
pub proof fn lemma_filtered_unique(
    items: Seq<ItemView>,
    query: Seq<char>,
    a: Seq<ItemView>,
    b: Seq<ItemView>,
)
    requires
        is_filtered(items, query, a),
        is_filtered(items, query, b),
    ensures
        a == b,
{
    if query.len() != 0 {
        let ra = choose|r: Seq<usize>| super::ranking::is_ranking(match_scores(items, query), r) && a == pick(items, r);
        let rb = choose|r: Seq<usize>| super::ranking::is_ranking(match_scores(items, query), r) && b == pick(items, r);
        lemma_ranking_unique(match_scores(items, query), ra, rb);
    }
}

/// Every shown suggestion is one of the popup's suggestions.
pub proof fn lemma_filtered_from_items(items: Seq<ItemView>, query: Seq<char>, shown: Seq<ItemView>)
    requires
        is_filtered(items, query, shown),
    ensures
        forall|k: int| 0 <= k < shown.len() ==> items.contains(#[trigger] shown[k]),
{
    if query.len() != 0 {
        let r = choose|r: Seq<usize>| super::ranking::is_ranking(match_scores(items, query), r) && shown == pick(items, r);
        assert forall|k: int| 0 <= k < shown.len() implies items.contains(#[trigger] shown[k]) by {
            assert(r[k] < items.len());
            assert(shown[k] == items[r[k] as int]);
        }
    } else {
        assert forall|k: int| 0 <= k < shown.len() implies items.contains(#[trigger] shown[k]) by {
            assert(shown[k] == items[k]);
        }
    }
}

/// Every key keeps the popup consistent: the shown list is the one its
/// query calls for and the selection stays on the first row or in the list.
pub proof fn lemma_key_step_keeps_consistent(
    old: PopupView,
    pressed: bool,
    key: KeyView,
    new: PopupView,
    action: ActionView,
)
    requires
        old.consistent(),
        key_step(old, pressed, key, new, action),
    ensures
        new.consistent(),
{
}

/// Typing one character and then erasing it gives back the query and the
/// shown list, with the first row selected.
pub proof fn lemma_type_then_erase(
    s0: PopupView,
    c: Seq<char>,
    s1: PopupView,
    a1: ActionView,
    s2: PopupView,
    a2: ActionView,
)
    requires
        s0.consistent(),
        c.len() == 1,
        !is_control_spec(c[0]),
        key_step(s0, true, KeyView::Character(c), s1, a1),
        key_step(s1, true, KeyView::Backspace, s2, a2),
    ensures
        s2.query == s0.query,
        s2.all_items == s0.all_items,
        s2.filtered == s0.filtered,
        s2.selected == 0,
{
    assert((s0.query + c).drop_last() =~= s0.query);
    lemma_filtered_unique(s0.all_items, s0.query, s0.filtered, s2.filtered);
}

/// Moving the selection down and back up returns to the same state, when
/// there was a row below.
pub proof fn lemma_down_then_up(
    s0: PopupView,
    s1: PopupView,
    a1: ActionView,
    s2: PopupView,
    a2: ActionView,
)
    requires
        s0.selected + 1 < s0.filtered.len(),
        key_step(s0, true, KeyView::ArrowDown, s1, a1),
        key_step(s1, true, KeyView::ArrowUp, s2, a2),
    ensures
        s2 == s0,
{
    assert(s1.selected == s0.selected + 1);
    assert(s2.selected == s0.selected);
    assert(s2 =~= s0);
}

/// The selected row is always among the shown rows, and at most
/// `VISIBLE_ROWS` rows are shown.
pub proof fn lemma_selected_row_visible(selected: int, len: int)
    requires
        0 <= selected < len,
    ensures
        first_visible(selected) <= selected < min_int(first_visible(selected) + VISIBLE_ROWS, len),
        min_int(first_visible(selected) + VISIBLE_ROWS, len) - first_visible(selected) <= VISIBLE_ROWS,
{
}

/// Typing a character that is not a control character (anything above
/// U+009F, or U+0020..=U+007E) appends it to the query, refilters the list
/// for the new query and selects the first row.
pub proof fn lemma_typing_printable(old: PopupView, c: char, new: PopupView, action: ActionView)
    requires
        (c as u32) > 0x9f || (0x20 <= (c as u32) && (c as u32) < 0x7f),
        key_step(old, true, KeyView::Character(seq![c]), new, action),
    ensures
        new.query == old.query.push(c),
        new.all_items == old.all_items,
        is_filtered(new.all_items, new.query, new.filtered),
        new.selected == 0,
        action == ActionView::Refresh,
{
    assert(seq![c][0] == c);
    assert(accepts_text(seq![c]));
    assert(old.query + seq![c] =~= old.query.push(c));
}

/// Typing a control character (U+0000..=U+001F or U+007F..=U+009F) changes
/// nothing.
pub proof fn lemma_typing_control(old: PopupView, c: char, new: PopupView, action: ActionView)
    requires
        (c as u32) <= 0x1f || (0x7f <= (c as u32) && (c as u32) <= 0x9f),
        key_step(old, true, KeyView::Character(seq![c]), new, action),
    ensures
        new == old,
        action == ActionView::Refresh,
{
    assert(seq![c][0] == c);
}

/// The pixel of column `col` in row `row`.
pub open spec fn pixel_at(row: int, col: int, width: u32) -> int {
    row * width + col
}

/// The highlight of a selected row spans at most `ROW_HEIGHT` pixel rows
/// from row `y`: no pixel above row `y` or at or below row `y + ROW_HEIGHT`
/// changes; and when those rows end above the frame's last row, every
/// pixel inside the border columns of each of them is colored.
pub proof fn lemma_highlight_rows(p: Seq<u32>, width: u32, height: u32, y: u32)
    requires
        width >= 2,
        height >= 1,
    ensures
        forall|k: int|
            0 <= k < p.len() && (k < y * width || k >= (y + ROW_HEIGHT) * width) ==> #[trigger] highlight_spec(
                p,
                width,
                height,
                y,
            )[k] == p[k],
        y + ROW_HEIGHT < height - 1 ==> forall|r: int, col: int|
            y <= r < y + ROW_HEIGHT && 1 <= col < width - 1 && 0 <= #[trigger] pixel_at(r, col, width)
                < p.len() ==> highlight_spec(p, width, height, y)[pixel_at(r, col, width)]
                == HIGHLIGHT_COLOR,
{
    let h = highlight_spec(p, width, height, y);
    assert forall|k: int|
        0 <= k < p.len() && (k < y * width || k >= (y + ROW_HEIGHT) * width) implies #[trigger] h[k]
        == p[k] by {
        if super::render::on_highlight(k, width, y as int, super::render::highlight_end(y, height)) {
            let r = choose|r: int|
                y <= r < super::render::highlight_end(y, height) && #[trigger] row_base(r, width) + 1
                    <= k < row_base(r, width) + width - 1;
            assert(y * width <= r * width && r * width + width <= (y + ROW_HEIGHT) * width)
                by (nonlinear_arith)
                requires
                    y <= r < y + ROW_HEIGHT,
                    width >= 2,
            ;
            assert(false);
        }
    }
    if y + ROW_HEIGHT < height - 1 {
        assert forall|r: int, col: int|
            y <= r < y + ROW_HEIGHT && 1 <= col < width - 1 && 0 <= #[trigger] pixel_at(r, col, width)
                < p.len() implies h[pixel_at(r, col, width)] == HIGHLIGHT_COLOR by {
            let k = pixel_at(r, col, width);
            assert(row_base(r, width) + 1 <= k < row_base(r, width) + width - 1);
            assert(super::render::on_highlight(
                k,
                width,
                y as int,
                super::render::highlight_end(y, height),
            ));
        }
    }
}

/// With an empty query every suggestion is shown, in list order.
pub proof fn lemma_empty_query_shows_all(items: Seq<ItemView>, shown: Seq<ItemView>)
    requires
        is_filtered(items, Seq::empty(), shown),
    ensures
        shown == items,
{
}

/// With a query, the shown suggestions are exactly those whose name the
/// query matches: each shown one matches, each matching one is shown, and
/// they come best score first.
pub proof fn lemma_filter_shows_matches(items: Seq<ItemView>, query: Seq<char>, shown: Seq<ItemView>)
    requires
        query.len() > 0,
        is_filtered(items, query, shown),
    ensures
        forall|k: int| 0 <= k < shown.len() ==> (#[trigger] skim_score(shown[k].name(), query)) is Some,
        forall|a: int, b: int|
            0 <= a < b < shown.len() ==> (#[trigger] skim_score(shown[a].name(), query)).unwrap()
                >= (#[trigger] skim_score(shown[b].name(), query)).unwrap(),
        forall|i: int|
            0 <= i < items.len() && (#[trigger] skim_score(items[i].name(), query)) is Some
                ==> shown.contains(items[i]),
{
    let scores = match_scores(items, query);
    let r = choose|r: Seq<usize>| super::ranking::is_ranking(scores, r) && shown == pick(items, r);
    assert forall|k: int| 0 <= k < shown.len() implies (#[trigger] skim_score(shown[k].name(), query)) is Some by {
        assert(r[k] < items.len());
        assert(shown[k] == items[r[k] as int]);
        assert(scores[r[k] as int] is Some);
    }
    assert forall|a: int, b: int| 0 <= a < b < shown.len() implies (#[trigger] skim_score(
        shown[a].name(),
        query,
    )).unwrap() >= (#[trigger] skim_score(shown[b].name(), query)).unwrap() by {
        assert(shown[a] == items[r[a] as int]);
        assert(shown[b] == items[r[b] as int]);
        assert(super::ranking::ranked_before(scores, r[a] as int, r[b] as int));
    }
    assert forall|i: int|
        0 <= i < items.len() && (#[trigger] skim_score(items[i].name(), query)) is Some implies shown.contains(
        items[i],
    ) by {
        assert(scores[i] is Some);
        assert(r.contains(i as usize));
        let k = choose|k: int| 0 <= k < r.len() && r[k] == i as usize;
        assert(shown[k] == items[i]);
    }
}

/// Enter closes the popup and leaves its state alone; it starts the
/// selected suggestion when the selection is a row of the list, and nothing
/// otherwise.
pub proof fn lemma_enter_launches_selected(old: PopupView, new: PopupView, action: ActionView)
    requires
        key_step(old, true, KeyView::Enter, new, action),
    ensures
        new == old,
        old.selected < old.filtered.len() ==> action == ActionView::Close(
            Some(launch_spec(old.filtered[old.selected as int])),
        ),
        old.selected >= old.filtered.len() ==> action == ActionView::Close(None),
{
}

/// The arrows move the selection by one row, stay inside the list, and
/// change nothing else.
pub proof fn lemma_arrows_move_one_row(
    old: PopupView,
    up: PopupView,
    a1: ActionView,
    down: PopupView,
    a2: ActionView,
)
    requires
        key_step(old, true, KeyView::ArrowUp, up, a1),
        key_step(old, true, KeyView::ArrowDown, down, a2),
    ensures
        up.query == old.query && up.all_items == old.all_items && up.filtered == old.filtered,
        down.query == old.query && down.all_items == old.all_items && down.filtered == old.filtered,
        old.selected > 0 ==> up.selected + 1 == old.selected,
        old.selected == 0 ==> up.selected == 0,
        old.selected + 1 < old.filtered.len() ==> down.selected == old.selected + 1,
        old.selected + 1 >= old.filtered.len() ==> down.selected == old.selected,
        a1 == ActionView::Refresh && a2 == ActionView::Refresh,
{
}

/// A horizontal line changes only pixels of its own row: every pixel of
/// row `y` from column `x` up to `x + len`, cut at the right edge, takes
/// the color, and no other pixel changes.
pub proof fn lemma_h_line_in_row(p: Seq<u32>, width: u32, x: u32, y: u32, len: u32, color: u32)
    ensures
        forall|k: int|
            0 <= k < p.len() && (k < y * width || k >= (y + 1) * width) ==> #[trigger] h_line_spec(
                p,
                width,
                x,
                y,
                len,
                color,
            )[k] == p[k],
        forall|col: int|
            0 <= col < width && 0 <= #[trigger] pixel_at(y as int, col, width) < p.len() ==> h_line_spec(
                p,
                width,
                x,
                y,
                len,
                color,
            )[pixel_at(y as int, col, width)] == if x <= col < x + len {
                color
            } else {
                p[pixel_at(y as int, col, width)]
            },
{
    assert((y + 1) * width == y * width + width) by (nonlinear_arith);
}

} // verus!
