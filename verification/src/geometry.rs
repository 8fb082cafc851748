//! Cell geometry of the session view: where tmux's panes are drawn, the
//! separators between them, and the frames around them.

use vstd::prelude::*;

use crate::model::Pane;

verus! {

/// The largest cell coordinate.
pub open spec fn cell_max() -> int {
    u16::MAX as int
}

/// `a + b`, saturated at the largest cell coordinate.
pub open spec fn sat_add(a: int, b: int) -> int {
    if a + b > cell_max() {
        cell_max()
    } else {
        a + b
    }
}

/// `a - b`, saturated at 0.
pub open spec fn sat_sub(a: int, b: int) -> int {
    if a - b < 0 {
        0
    } else {
        a - b
    }
}

pub open spec fn min(a: int, b: int) -> int {
    if a <= b {
        a
    } else {
        b
    }
}

pub open spec fn max(a: int, b: int) -> int {
    if a >= b {
        a
    } else {
        b
    }
}

/// A rectangle of terminal cells.
#[derive(Debug, Clone, Copy, PartialEq, Eq, Structural)]
pub struct Rect {
    pub x: u16,
    pub y: u16,
    pub width: u16,
    pub height: u16,
}

/// A rectangle whose right and bottom edges stay within the cell range, as
/// every rectangle that `Rect::new` or the terminal gives.
pub open spec fn rect_fits(r: Rect) -> bool {
    r.x + r.width <= cell_max() && r.y + r.height <= cell_max()
}

impl Rect {
    /// A rectangle at `(x, y)`, its size cut so that it fits in the cell
    /// range.
    pub fn new(x: u16, y: u16, width: u16, height: u16) -> (r: Rect)
        ensures
            r.x == x,
            r.y == y,
            r.width == min(width as int, cell_max() - x),
            r.height == min(height as int, cell_max() - y),
            rect_fits(r),
    {
        let max_width = u16::MAX - x;
        let max_height = u16::MAX - y;
        let width = if width > max_width {
            max_width
        } else {
            width
        };
        let height = if height > max_height {
            max_height
        } else {
            height
        };
        Rect { x, y, width, height }
    }
}

/// The cell `(column, row)` lies in `area`; the far edges saturate.
pub open spec fn rect_has(area: Rect, column: int, row: int) -> bool {
    &&& area.x <= column < sat_add(area.x as int, area.width as int)
    &&& area.y <= row < sat_add(area.y as int, area.height as int)
}

/// Whether the cell `(column, row)` lies in `area`.
pub fn rect_contains(area: Rect, column: u16, row: u16) -> (b: bool)
    ensures
        b == rect_has(area, column as int, row as int),
{
    column >= area.x && column < area.x.saturating_add(area.width) && row >= area.y && row
        < area.y.saturating_add(area.height)
}

/// The cell `(x, y)` lies in one of `panes`.
pub open spec fn in_any(panes: Seq<Rect>, x: int, y: int) -> bool {
    exists|i: int| 0 <= i < panes.len() && rect_has(#[trigger] panes[i], x, y)
}

/// Whether the cell `(x, y)` lies in one of `panes`.
pub fn point_in_any_pane(x: u16, y: u16, panes: &[Rect]) -> (b: bool)
    ensures
        b == in_any(panes@, x as int, y as int),
{
    let mut i: usize = 0;
    while i < panes.len()
        invariant
            i <= panes.len(),
            forall|j: int| 0 <= j < i ==> !rect_has(#[trigger] panes@[j], x as int, y as int),
        decreases panes.len() - i,
    {
        if rect_contains(panes[i], x, y) {
            return true;
        }
        i = i + 1;
    }
    false
}

/// The line drawn in a gap cell between panes.
#[derive(Debug, Clone, Copy, PartialEq, Eq, Structural)]
pub enum Glyph {
    /// A crossing `┼`.
    Cross,
    /// A vertical line `│`.
    Vertical,
    /// A horizontal line `─`.
    Horizontal,
}

/// What separates the panes at the cell `(x, y)`: nothing inside a pane; a
/// vertical line between panes to the left and right, a horizontal line
/// between panes above and below, a crossing where both meet or where panes
/// touch the cell's four corners.
pub open spec fn separator_at(panes: Seq<Rect>, x: int, y: int) -> Option<Glyph> {
    let left = x > 0 && in_any(panes, x - 1, y);
    let right = in_any(panes, sat_add(x, 1), y);
    let up = y > 0 && in_any(panes, x, y - 1);
    let down = in_any(panes, x, sat_add(y, 1));
    let up_left = x > 0 && y > 0 && in_any(panes, x - 1, y - 1);
    let up_right = y > 0 && in_any(panes, sat_add(x, 1), y - 1);
    let down_left = x > 0 && in_any(panes, x - 1, sat_add(y, 1));
    let down_right = in_any(panes, sat_add(x, 1), sat_add(y, 1));
    let vertical = left && right;
    let horizontal = up && down;
    if in_any(panes, x, y) {
        None
    } else if vertical && horizontal {
        Some(Glyph::Cross)
    } else if vertical {
        Some(Glyph::Vertical)
    } else if horizontal {
        Some(Glyph::Horizontal)
    } else if up_left && up_right && down_left && down_right {
        Some(Glyph::Cross)
    } else {
        None
    }
}

/// The separator glyph at the cell `(x, y)`.
pub fn separator_glyph_at(x: u16, y: u16, panes: &[Rect]) -> (g: Option<Glyph>)
    ensures
        g == separator_at(panes@, x as int, y as int),
{
    if point_in_any_pane(x, y, panes) {
        return None;
    }
    let left = x > 0 && point_in_any_pane(x - 1, y, panes);
    let right = point_in_any_pane(x.saturating_add(1), y, panes);
    let up = y > 0 && point_in_any_pane(x, y - 1, panes);
    let down = point_in_any_pane(x, y.saturating_add(1), panes);
    let up_left = x > 0 && y > 0 && point_in_any_pane(x - 1, y - 1, panes);
    let up_right = y > 0 && point_in_any_pane(x.saturating_add(1), y - 1, panes);
    let down_left = x > 0 && point_in_any_pane(x - 1, y.saturating_add(1), panes);
    let down_right = point_in_any_pane(x.saturating_add(1), y.saturating_add(1), panes);
    let vertical = left && right;
    let horizontal = up && down;
    if vertical && horizontal {
        Some(Glyph::Cross)
    } else if vertical {
        Some(Glyph::Vertical)
    } else if horizontal {
        Some(Glyph::Horizontal)
    } else if up_left && up_right && down_left && down_right {
        Some(Glyph::Cross)
    } else {
        None
    }
}

/// The symbol of a separator glyph.
pub open spec fn glyph_text(g: Glyph) -> Seq<char> {
    match g {
        Glyph::Cross => "┼"@,
        Glyph::Vertical => "│"@,
        Glyph::Horizontal => "─"@,
    }
}

impl Glyph {
    /// The symbol drawn for this glyph.
    pub fn symbol(&self) -> (s: &'static str)
        ensures
            s@ == glyph_text(*self),
    {
        match self {
            Glyph::Cross => "┼",
            Glyph::Vertical => "│",
            Glyph::Horizontal => "─",
        }
    }
}

/// The separator symbol at the cell `(x, y)`, if any.
pub fn separator_symbol_at(x: u16, y: u16, panes: &[Rect]) -> (s: Option<&'static str>)
    ensures
        match separator_at(panes@, x as int, y as int) {
            Some(g) => s is Some && s->0@ == glyph_text(g),
            None => s is None,
        },
{
    match separator_glyph_at(x, y, panes) {
        Some(g) => Some(g.symbol()),
        None => None,
    }
}

/// The column just right of `r`, saturated.
pub open spec fn right_edge(r: Rect) -> int {
    sat_add(r.x as int, r.width as int)
}

/// The row just below `r`, saturated.
pub open spec fn bottom_edge(r: Rect) -> int {
    sat_add(r.y as int, r.height as int)
}

/// The largest right edge of `rects` (0 for none).
pub open spec fn max_right(rects: Seq<Rect>) -> int
    decreases rects.len(),
{
    if rects.len() == 0 {
        0
    } else {
        max(max_right(rects.drop_last()), right_edge(rects.last()))
    }
}

/// The largest bottom edge of `rects` (0 for none).
pub open spec fn max_bottom(rects: Seq<Rect>) -> int
    decreases rects.len(),
{
    if rects.len() == 0 {
        0
    } else {
        max(max_bottom(rects.drop_last()), bottom_edge(rects.last()))
    }
}

proof fn lemma_max_edges_in_range(rects: Seq<Rect>)
    ensures
        0 <= max_right(rects) <= cell_max(),
        0 <= max_bottom(rects) <= cell_max(),
    decreases rects.len(),
{
    if rects.len() > 0 {
        lemma_max_edges_in_range(rects.drop_last());
    }
}

/// The extent of a layout: the largest right and bottom edges of its
/// panes, or nothing for no panes.
pub fn layout_bounds(panes: &[Rect]) -> (r: Option<(u16, u16)>)
    ensures
        match r {
            None => panes@.len() == 0,
            Some((w, h)) => panes@.len() > 0 && w == max_right(panes@) && h == max_bottom(
                panes@,
            ),
        },
{
    if panes.len() == 0 {
        return None;
    }
    let mut w: u16 = 0;
    let mut h: u16 = 0;
    let mut i: usize = 0;
    assert(panes@.take(0) =~= Seq::<Rect>::empty());
    while i < panes.len()
        invariant
            i <= panes.len(),
            w == max_right(panes@.take(i as int)),
            h == max_bottom(panes@.take(i as int)),
        decreases panes.len() - i,
    {
        let r = panes[i];
        assert(panes@.take(i + 1).drop_last() =~= panes@.take(i as int));
        let right = r.x.saturating_add(r.width);
        let bottom = r.y.saturating_add(r.height);
        if right > w {
            w = right;
        }
        if bottom > h {
            h = bottom;
        }
        i = i + 1;
    }
    assert(panes@.take(panes@.len() as int) =~= panes@);
    Some((w, h))
}

/// Some cell of column `x`, above row `rows`, holds a vertical line or a
/// crossing.
pub open spec fn is_separator_column(panes: Seq<Rect>, x: int, rows: int) -> bool {
    exists|y: int|
        0 <= y < rows && {
            let g = #[trigger] separator_at(panes, x, y);
            g == Some(Glyph::Vertical) || g == Some(Glyph::Cross)
        }
}

/// Some cell of row `y`, left of column `columns`, holds a horizontal line
/// or a crossing.
pub open spec fn is_separator_row(panes: Seq<Rect>, y: int, columns: int) -> bool {
    exists|x: int|
        0 <= x < columns && {
            let g = #[trigger] separator_at(panes, x, y);
            g == Some(Glyph::Horizontal) || g == Some(Glyph::Cross)
        }
}

/// The separator columns left of `n`, in increasing order.
pub open spec fn columns_below(panes: Seq<Rect>, n: int, rows: int) -> Seq<u16>
    decreases n,
{
    if n <= 0 {
        Seq::<u16>::empty()
    } else if is_separator_column(panes, n - 1, rows) {
        columns_below(panes, n - 1, rows).push((n - 1) as u16)
    } else {
        columns_below(panes, n - 1, rows)
    }
}

/// The separator rows above `n`, in increasing order.
pub open spec fn rows_below(panes: Seq<Rect>, n: int, columns: int) -> Seq<u16>
    decreases n,
{
    if n <= 0 {
        Seq::<u16>::empty()
    } else if is_separator_row(panes, n - 1, columns) {
        rows_below(panes, n - 1, columns).push((n - 1) as u16)
    } else {
        rows_below(panes, n - 1, columns)
    }
}

proof fn lemma_columns_below_len(panes: Seq<Rect>, n: int, rows: int)
    requires
        n >= 0,
    ensures
        columns_below(panes, n, rows).len() <= n,
    decreases n,
{
    if n > 0 {
        lemma_columns_below_len(panes, n - 1, rows);
    }
}

proof fn lemma_rows_below_len(panes: Seq<Rect>, n: int, columns: int)
    requires
        n >= 0,
    ensures
        rows_below(panes, n, columns).len() <= n,
    decreases n,
{
    if n > 0 {
        lemma_rows_below_len(panes, n - 1, columns);
    }
}

/// The columns of a layout that hold a vertical separator, left to right.
pub open spec fn separator_columns_of(panes: Seq<Rect>) -> Seq<u16> {
    if panes.len() == 0 {
        Seq::<u16>::empty()
    } else {
        columns_below(panes, max_right(panes), max_bottom(panes))
    }
}

/// The rows of a layout that hold a horizontal separator, top to bottom.
pub open spec fn separator_rows_of(panes: Seq<Rect>) -> Seq<u16> {
    if panes.len() == 0 {
        Seq::<u16>::empty()
    } else {
        rows_below(panes, max_bottom(panes), max_right(panes))
    }
}

/// The columns that hold a vertical separator.
pub fn separator_columns(panes: &[Rect]) -> (columns: Vec<u16>)
    ensures
        columns@ == separator_columns_of(panes@),
        columns@.len() <= u16::MAX,
{
    let (max_x, max_y) = match layout_bounds(panes) {
        Some(b) => b,
        None => {
            return Vec::new();
        },
    };
    let mut columns: Vec<u16> = Vec::new();
    let mut x: u16 = 0;
    while x < max_x
        invariant
            x <= max_x,
            panes@.len() > 0,
            max_x == max_right(panes@),
            max_y == max_bottom(panes@),
            columns@ == columns_below(panes@, x as int, max_y as int),
        decreases max_x - x,
    {
        let mut found = false;
        let mut y: u16 = 0;
        while y < max_y
            invariant
                y <= max_y,
                !found ==> forall|k: int|
                    0 <= k < y ==> {
                        let g = #[trigger] separator_at(panes@, x as int, k);
                        g != Some(Glyph::Vertical) && g != Some(Glyph::Cross)
                    },
                found ==> is_separator_column(panes@, x as int, max_y as int),
            ensures
                found == is_separator_column(panes@, x as int, max_y as int),
            decreases max_y - y,
        {
            let g = separator_glyph_at(x, y, panes);
            if g == Some(Glyph::Vertical) || g == Some(Glyph::Cross) {
                found = true;
                break;
            }
            y = y + 1;
        }
        if found {
            columns.push(x);
        }
        x = x + 1;
    }
    proof {
        lemma_columns_below_len(panes@, max_x as int, max_y as int);
    }
    columns
}

/// The rows that hold a horizontal separator.
pub fn separator_rows(panes: &[Rect]) -> (rows: Vec<u16>)
    ensures
        rows@ == separator_rows_of(panes@),
        rows@.len() <= u16::MAX,
{
    let (max_x, max_y) = match layout_bounds(panes) {
        Some(b) => b,
        None => {
            return Vec::new();
        },
    };
    let mut rows: Vec<u16> = Vec::new();
    let mut y: u16 = 0;
    while y < max_y
        invariant
            y <= max_y,
            panes@.len() > 0,
            max_x == max_right(panes@),
            max_y == max_bottom(panes@),
            rows@ == rows_below(panes@, y as int, max_x as int),
        decreases max_y - y,
    {
        let mut found = false;
        let mut x: u16 = 0;
        while x < max_x
            invariant
                x <= max_x,
                !found ==> forall|k: int|
                    0 <= k < x ==> {
                        let g = #[trigger] separator_at(panes@, k, y as int);
                        g != Some(Glyph::Horizontal) && g != Some(Glyph::Cross)
                    },
                found ==> is_separator_row(panes@, y as int, max_x as int),
            ensures
                found == is_separator_row(panes@, y as int, max_x as int),
            decreases max_x - x,
        {
            let g = separator_glyph_at(x, y, panes);
            if g == Some(Glyph::Horizontal) || g == Some(Glyph::Cross) {
                found = true;
                break;
            }
            x = x + 1;
        }
        if found {
            rows.push(y);
        }
        y = y + 1;
    }
    proof {
        lemma_rows_below_len(panes@, max_y as int, max_x as int);
    }
    rows
}

/// How many of the leading values of `s` are below `v`.
pub open spec fn count_leading_below(s: Seq<u16>, v: int) -> nat
    decreases s.len(),
{
    if s.len() == 0 || s[0] >= v {
        0
    } else {
        1 + count_leading_below(s.drop_first(), v)
    }
}

/// How many values of `s` lie in `[start, end)`.
pub open spec fn count_in(s: Seq<u16>, start: int, end: int) -> nat
    decreases s.len(),
{
    if s.len() == 0 {
        0
    } else {
        count_in(s.drop_last(), start, end) + if start <= s.last() < end {
            1nat
        } else {
            0nat
        }
    }
}

/// A count as a cell count: saturated at the largest cell coordinate.
pub open spec fn cells(n: nat) -> int {
    min(n as int, cell_max())
}

/// How many values lie before the first one that is not below `value`
/// (for sorted values: how many are below `value`).
pub fn count_before(value: u16, sorted_values: &[u16]) -> (n: u16)
    ensures
        n == cells(count_leading_below(sorted_values@, value as int)),
{
    let mut i: usize = 0;
    assert(sorted_values@.skip(0) =~= sorted_values@);
    while i < sorted_values.len() && sorted_values[i] < value
        invariant
            i <= sorted_values.len(),
            count_leading_below(sorted_values@, value as int) == i + count_leading_below(
                sorted_values@.skip(i as int),
                value as int,
            ),
        decreases sorted_values.len() - i,
    {
        assert(sorted_values@.skip(i as int).drop_first() =~= sorted_values@.skip(i + 1));
        i = i + 1;
    }
    if i > u16::MAX as usize {
        u16::MAX
    } else {
        i as u16
    }
}

/// How many values lie in `[start, end)`.
pub fn count_inside(start: u16, end: u16, sorted_values: &[u16]) -> (n: u16)
    ensures
        n == cells(count_in(sorted_values@, start as int, end as int)),
{
    let mut count: usize = 0;
    let mut i: usize = 0;
    assert(sorted_values@.take(0) =~= Seq::<u16>::empty());
    while i < sorted_values.len()
        invariant
            i <= sorted_values.len(),
            count == count_in(sorted_values@.take(i as int), start as int, end as int),
            count <= i,
        decreases sorted_values.len() - i,
    {
        assert(sorted_values@.take(i + 1).drop_last() =~= sorted_values@.take(i as int));
        if sorted_values[i] >= start && sorted_values[i] < end {
            count = count + 1;
        }
        i = i + 1;
    }
    assert(sorted_values@.take(sorted_values@.len() as int) =~= sorted_values@);
    if count > u16::MAX as usize {
        u16::MAX
    } else {
        count as u16
    }
}

/// A pane coordinate as a cell coordinate, saturated.
pub open spec fn clamp_cell(n: usize) -> u16 {
    if n > u16::MAX {
        u16::MAX
    } else {
        n as u16
    }
}

fn clamp_to_cell(n: usize) -> (c: u16)
    ensures
        c == clamp_cell(n),
{
    if n > u16::MAX as usize {
        u16::MAX
    } else {
        n as u16
    }
}

/// A pane's rectangle in tmux's coordinates.
pub open spec fn pane_rect(p: Pane) -> Rect {
    Rect {
        x: clamp_cell(p.left),
        y: clamp_cell(p.top),
        width: clamp_cell(p.width),
        height: clamp_cell(p.height),
    }
}

/// The rectangles of all panes.
pub open spec fn pane_rects(panes: Seq<Pane>) -> Seq<Rect> {
    panes.map_values(|p: Pane| pane_rect(p))
}

/// The panes' rectangles in tmux's coordinates.
pub fn tmux_pane_rects(panes: &[Pane]) -> (rects: Vec<Rect>)
    ensures
        rects@ == pane_rects(panes@),
{
    let mut rects: Vec<Rect> = Vec::new();
    let mut i: usize = 0;
    while i < panes.len()
        invariant
            i <= panes.len(),
            rects@ == pane_rects(panes@.take(i as int)),
        decreases panes.len() - i,
    {
        let p = &panes[i];
        rects.push(
            Rect {
                x: clamp_to_cell(p.left),
                y: clamp_to_cell(p.top),
                width: clamp_to_cell(p.width),
                height: clamp_to_cell(p.height),
            },
        );
        assert(pane_rects(panes@.take(i + 1)) =~= pane_rects(panes@.take(i as int)).push(
            pane_rect(panes@[i as int]),
        ));
        i = i + 1;
    }
    assert(panes@.take(panes@.len() as int) =~= panes@);
    rects
}

/// The window size to ask tmux for so that the panes, their frames and the
/// gaps between them fill `body`: two cells of frame each way, one cell
/// less per separator column and row, and at least one cell.
pub open spec fn content_size(body: Rect, panes: Seq<Pane>) -> (int, int) {
    let rects = pane_rects(panes);
    (
        max(sat_sub(sat_sub(body.width as int, 2), separator_columns_of(rects).len() as int), 1),
        max(sat_sub(sat_sub(body.height as int, 2), separator_rows_of(rects).len() as int), 1),
    )
}

/// The tmux window size for a session view whose body is `body`.
pub fn tmux_content_size_for_body(body: Rect, panes: &[Pane]) -> (size: (u16, u16))
    ensures
        size.0 == content_size(body, panes@).0,
        size.1 == content_size(body, panes@).1,
{
    let rects = tmux_pane_rects(panes);
    let columns = separator_columns(rects.as_slice());
    let rows = separator_rows(rects.as_slice());
    let width = body.width.saturating_sub(2).saturating_sub(columns.len() as u16);
    let height = body.height.saturating_sub(2).saturating_sub(rows.len() as u16);
    let width = if width < 1 {
        1
    } else {
        width
    };
    let height = if height < 1 {
        1
    } else {
        height
    };
    (width, height)
}

/// Where a pane's content is drawn inside `body`: inside a one-cell frame,
/// its tmux position shifted right by one cell per separator column to its
/// left and down by one per separator row above it, widened by the
/// separators it spans, kept inside the frame and at least one cell in
/// size; `body` itself when there is no room inside a frame.
pub open spec fn pane_area_of(body: Rect, pane: Pane, panes: Seq<Pane>) -> Rect {
    let available_width = sat_sub(body.width as int, 2);
    let available_height = sat_sub(body.height as int, 2);
    if available_width == 0 || available_height == 0 {
        body
    } else {
        let rects = pane_rects(panes);
        let columns = separator_columns_of(rects);
        let rows = separator_rows_of(rects);
        let r = pane_rect(pane);
        let relative_x = min(
            sat_add(r.x as int, cells(count_leading_below(columns, r.x as int))),
            available_width - 1,
        );
        let relative_y = min(
            sat_add(r.y as int, cells(count_leading_below(rows, r.y as int))),
            available_height - 1,
        );
        let display_width = sat_add(
            r.width as int,
            cells(count_in(columns, r.x as int, sat_add(r.x as int, r.width as int))),
        );
        let display_height = sat_add(
            r.height as int,
            cells(count_in(rows, r.y as int, sat_add(r.y as int, r.height as int))),
        );
        Rect {
            x: (body.x + 1 + relative_x) as u16,
            y: (body.y + 1 + relative_y) as u16,
            width: max(min(display_width, sat_sub(available_width, relative_x)), 1) as u16,
            height: max(min(display_height, sat_sub(available_height, relative_y)), 1) as u16,
        }
    }
}

/// Where `pane` is drawn in `body`.
pub fn pane_area(body: Rect, pane: &Pane, panes: &[Pane]) -> (area: Rect)
    requires
        rect_fits(body),
    ensures
        area == pane_area_of(body, *pane, panes@),
        body.x <= area.x,
        area.x + area.width <= body.x + body.width,
        body.y <= area.y,
        area.y + area.height <= body.y + body.height,
{
    let available_width = body.width.saturating_sub(2);
    let available_height = body.height.saturating_sub(2);
    if available_width == 0 || available_height == 0 {
        return body;
    }
    let pane_rects = tmux_pane_rects(panes);
    let columns = separator_columns(pane_rects.as_slice());
    let rows = separator_rows(pane_rects.as_slice());
    let pane_left = clamp_to_cell(pane.left);
    let pane_top = clamp_to_cell(pane.top);
    let pane_width = clamp_to_cell(pane.width);
    let pane_height = clamp_to_cell(pane.height);
    let shifted_x = pane_left.saturating_add(count_before(pane_left, columns.as_slice()));
    let relative_x = if shifted_x < available_width - 1 {
        shifted_x
    } else {
        available_width - 1
    };
    let shifted_y = pane_top.saturating_add(count_before(pane_top, rows.as_slice()));
    let relative_y = if shifted_y < available_height - 1 {
        shifted_y
    } else {
        available_height - 1
    };
    let max_width = available_width.saturating_sub(relative_x);
    let max_height = available_height.saturating_sub(relative_y);
    let display_width = pane_width.saturating_add(
        count_inside(pane_left, pane_left.saturating_add(pane_width), columns.as_slice()),
    );
    let display_height = pane_height.saturating_add(
        count_inside(pane_top, pane_top.saturating_add(pane_height), rows.as_slice()),
    );
    let width = if display_width < max_width {
        display_width
    } else {
        max_width
    };
    let width = if width < 1 {
        1
    } else {
        width
    };
    let height = if display_height < max_height {
        display_height
    } else {
        max_height
    };
    let height = if height < 1 {
        1
    } else {
        height
    };
    Rect { x: body.x + 1 + relative_x, y: body.y + 1 + relative_y, width, height }
}

/// The frame around a pane's content: one cell wider on each side, cut to
/// `body`; `body` itself when it has no cells.
pub open spec fn panel_area_of(body: Rect, content: Rect) -> Rect {
    if body.width == 0 || body.height == 0 {
        body
    } else {
        let x = max(sat_sub(content.x as int, 1), body.x as int);
        let y = max(sat_sub(content.y as int, 1), body.y as int);
        let right = min(
            sat_add(sat_add(content.x as int, content.width as int), 1),
            sat_add(body.x as int, body.width as int),
        );
        let bottom = min(
            sat_add(sat_add(content.y as int, content.height as int), 1),
            sat_add(body.y as int, body.height as int),
        );
        Rect {
            x: x as u16,
            y: y as u16,
            width: sat_sub(right, x) as u16,
            height: sat_sub(bottom, y) as u16,
        }
    }
}

/// The frame drawn around the content area `content`.
pub fn pane_panel_area(body: Rect, content: Rect) -> (panel: Rect)
    ensures
        panel == panel_area_of(body, content),
{
    if body.width == 0 || body.height == 0 {
        return body;
    }
    let x0 = content.x.saturating_sub(1);
    let x = if x0 > body.x {
        x0
    } else {
        body.x
    };
    let y0 = content.y.saturating_sub(1);
    let y = if y0 > body.y {
        y0
    } else {
        body.y
    };
    let right0 = content.x.saturating_add(content.width).saturating_add(1);
    let body_right = body.x.saturating_add(body.width);
    let right = if right0 < body_right {
        right0
    } else {
        body_right
    };
    let bottom0 = content.y.saturating_add(content.height).saturating_add(1);
    let body_bottom = body.y.saturating_add(body.height);
    let bottom = if bottom0 < body_bottom {
        bottom0
    } else {
        body_bottom
    };
    Rect { x, y, width: right.saturating_sub(x), height: bottom.saturating_sub(y) }
}

/// The piece of a frame drawn in one cell.
#[derive(Debug, Clone, Copy, PartialEq, Eq, Structural)]
pub enum Border {
    TopLeft,
    TopRight,
    BottomLeft,
    BottomRight,
    Horizontal,
    Vertical,
}

/// The frame piece of `panel` at `(x, y)`: rounded corners, horizontal
/// lines on the top and bottom rows, vertical lines on the side columns;
/// nothing inside, outside, or for a panel too small to frame.
pub open spec fn border_at(x: int, y: int, panel: Rect) -> Option<Border> {
    let left = panel.x as int;
    let right = panel.x + panel.width - 1;
    let top = panel.y as int;
    let bottom = panel.y + panel.height - 1;
    if panel.width < 2 || panel.height < 2 {
        None
    } else if x == left && y == top {
        Some(Border::TopLeft)
    } else if x == right && y == top {
        Some(Border::TopRight)
    } else if x == left && y == bottom {
        Some(Border::BottomLeft)
    } else if x == right && y == bottom {
        Some(Border::BottomRight)
    } else if y == top || y == bottom {
        Some(Border::Horizontal)
    } else if x == left || x == right {
        Some(Border::Vertical)
    } else {
        None
    }
}

/// The symbol of a frame piece.
pub open spec fn border_text(b: Border) -> Seq<char> {
    match b {
        Border::TopLeft => "╭"@,
        Border::TopRight => "╮"@,
        Border::BottomLeft => "╰"@,
        Border::BottomRight => "╯"@,
        Border::Horizontal => "─"@,
        Border::Vertical => "│"@,
    }
}

impl Border {
    /// The symbol drawn for this frame piece.
    pub fn symbol(&self) -> (s: &'static str)
        ensures
            s@ == border_text(*self),
    {
        match self {
            Border::TopLeft => "╭",
            Border::TopRight => "╮",
            Border::BottomLeft => "╰",
            Border::BottomRight => "╯",
            Border::Horizontal => "─",
            Border::Vertical => "│",
        }
    }
}

/// The frame piece at `(x, y)`.
pub fn panel_border_at(x: u16, y: u16, panel: Rect) -> (b: Option<Border>)
    requires
        panel.width >= 2 && panel.height >= 2 ==> rect_fits(panel),
    ensures
        b == border_at(x as int, y as int, panel),
{
    if panel.width < 2 || panel.height < 2 {
        return None;
    }
    let left = panel.x;
    let right = panel.x + panel.width - 1;
    let top = panel.y;
    let bottom = panel.y + panel.height - 1;
    if x == left && y == top {
        Some(Border::TopLeft)
    } else if x == right && y == top {
        Some(Border::TopRight)
    } else if x == left && y == bottom {
        Some(Border::BottomLeft)
    } else if x == right && y == bottom {
        Some(Border::BottomRight)
    } else if y == top || y == bottom {
        Some(Border::Horizontal)
    } else if x == left || x == right {
        Some(Border::Vertical)
    } else {
        None
    }
}

/// The frame symbol at `(x, y)`, if any.
pub fn panel_border_symbol_at(x: u16, y: u16, panel: Rect) -> (s: Option<&'static str>)
    requires
        panel.width >= 2 && panel.height >= 2 ==> rect_fits(panel),
    ensures
        match border_at(x as int, y as int, panel) {
            Some(b) => s is Some && s->0@ == border_text(b),
            None => s is None,
        },
{
    match panel_border_at(x, y, panel) {
        Some(b) => Some(b.symbol()),
        None => None,
    }
}

/// When the body has room for frames, every pane is drawn strictly inside
/// the body, and its frame is its content area grown by one cell on each
/// side.
pub proof fn lemma_pane_frame_wraps_content(body: Rect, pane: Pane, panes: Seq<Pane>)
    requires
        rect_fits(body),
        body.width > 2,
        body.height > 2,
    ensures
        ({
            let c = pane_area_of(body, pane, panes);
            &&& body.x < c.x
            &&& c.x + c.width < body.x + body.width
            &&& body.y < c.y
            &&& c.y + c.height < body.y + body.height
            &&& panel_area_of(body, c) == Rect {
                x: (c.x - 1) as u16,
                y: (c.y - 1) as u16,
                width: (c.width + 2) as u16,
                height: (c.height + 2) as u16,
            }
        }),
{
}


/// A frame is drawn with rounded corners `╭` `╮` `╰` `╯` at the top left,
/// top right, bottom left and bottom right cells of the panel, `─` along
/// the rest of its top and bottom rows, `│` along the rest of its side
/// columns, and nothing inside it.
pub proof fn lemma_panel_frame_symbols(panel: Rect, x: int, y: int)
    requires
        panel.width >= 2,
        panel.height >= 2,
    ensures
        ({
            let l = panel.x as int;
            let r = panel.x + panel.width - 1;
            let t = panel.y as int;
            let b = panel.y + panel.height - 1;
            let shows = |s: Seq<char>| border_at(x, y, panel) matches Some(p) && border_text(p) == s;
            &&& x == l && y == t ==> shows("╭"@)
            &&& x == r && y == t ==> shows("╮"@)
            &&& x == l && y == b ==> shows("╰"@)
            &&& x == r && y == b ==> shows("╯"@)
            &&& l < x < r && (y == t || y == b) ==> shows("─"@)
            &&& t < y < b && (x == l || x == r) ==> shows("│"@)
            &&& l < x < r && t < y < b ==> border_at(x, y, panel) is None
        }),
{
}

/// Between panes the gap cells show `│` where panes lie to the left and
/// right only, `─` where they lie above and below only, and `┼` where they
/// lie on all four sides; a cell inside a pane shows no separator.
pub proof fn lemma_separator_symbols(panes: Seq<Rect>, x: int, y: int)
    requires
        0 <= x < cell_max(),
        0 <= y < cell_max(),
    ensures
        ({
            let left = x > 0 && in_any(panes, x - 1, y);
            let right = in_any(panes, x + 1, y);
            let up = y > 0 && in_any(panes, x, y - 1);
            let down = in_any(panes, x, y + 1);
            let shows = |s: Seq<char>| separator_at(panes, x, y) matches Some(g) && glyph_text(g) == s;
            &&& in_any(panes, x, y) ==> separator_at(panes, x, y) is None
            &&& !in_any(panes, x, y) && left && right && !(up && down) ==> shows("│"@)
            &&& !in_any(panes, x, y) && up && down && !(left && right) ==> shows("─"@)
            &&& !in_any(panes, x, y) && left && right && up && down ==> shows("┼"@)
        }),
{
}

} // verus!
