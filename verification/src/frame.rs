//! Frames of terminal cells: placing an instance's content beside the sidebar,
//! and carrying over what the sidebar's renderer does not keep.

use vstd::arithmetic::div_mod::lemma_fundamental_div_mod_converse;
use vstd::prelude::*;
use vstd::string::*;

use crate::graphics::shift_graphics_coordinates;
use crate::text::same_text;

verus! {

/// One cell of a frame.
#[derive(Debug)]
pub struct CellData {
    pub symbol: String,
    pub fg: u32,
    pub bg: u32,
    pub modifier: u16,
    pub skip: bool,
    pub hyperlink: Option<u32>,
}

/// The mathematical model of a cell.
pub struct CellView {
    pub symbol: Seq<char>,
    pub fg: u32,
    pub bg: u32,
    pub modifier: u16,
    pub skip: bool,
    pub hyperlink: Option<u32>,
}

impl View for CellData {
    type V = CellView;

    open spec fn view(&self) -> CellView {
        CellView {
            symbol: self.symbol@,
            fg: self.fg,
            bg: self.bg,
            modifier: self.modifier,
            skip: self.skip,
            hyperlink: self.hyperlink,
        }
    }
}

impl Clone for CellData {
    fn clone(&self) -> (r: Self)
        ensures
            r == *self,
    {
        CellData {
            symbol: self.symbol.clone(),
            fg: self.fg,
            bg: self.bg,
            modifier: self.modifier,
            skip: self.skip,
            hyperlink: self.hyperlink,
        }
    }
}

/// Where a frame shows the cursor, and how.
#[derive(Debug, Clone, Copy, PartialEq, Eq, Structural)]
pub struct CursorState {
    pub x: u16,
    pub y: u16,
    pub visible: bool,
    pub shape: u8,
}

/// A full frame: `width` by `height` cells in rows, the cursor, the table of
/// hyperlinks that cells refer to, and a stream of terminal graphics.
#[derive(Debug)]
pub struct FrameData {
    pub cells: Vec<CellData>,
    pub width: u16,
    pub height: u16,
    pub cursor: Option<CursorState>,
    pub hyperlinks: Vec<String>,
    pub graphics: Vec<u8>,
}

/// The mathematical model of a frame.
pub struct FrameView {
    pub cells: Seq<CellView>,
    pub width: u16,
    pub height: u16,
    pub cursor: Option<CursorState>,
    pub hyperlinks: Seq<Seq<char>>,
    pub graphics: Seq<u8>,
}

/// The models of a sequence of cells.
pub open spec fn cell_views(cells: Seq<CellData>) -> Seq<CellView> {
    cells.map_values(|c: CellData| c@)
}

/// The texts of a sequence of strings.
pub open spec fn texts(s: Seq<String>) -> Seq<Seq<char>> {
    s.map_values(|t: String| t@)
}

impl View for FrameData {
    type V = FrameView;

    open spec fn view(&self) -> FrameView {
        FrameView {
            cells: cell_views(self.cells@),
            width: self.width,
            height: self.height,
            cursor: self.cursor,
            hyperlinks: texts(self.hyperlinks@),
            graphics: self.graphics@,
        }
    }
}

/// A rectangle of cells.
#[derive(Debug, Clone, Copy, PartialEq, Eq, Structural)]
pub struct Rect {
    pub x: u16,
    pub y: u16,
    pub width: u16,
    pub height: u16,
}

/// A blank cell.
pub open spec fn blank_cell() -> CellView {
    CellView {
        symbol: " "@,
        fg: 0,
        bg: 0,
        modifier: 0,
        skip: false,
        hyperlink: None,
    }
}

pub open spec fn min_u16(a: u16, b: u16) -> u16 {
    if a <= b {
        a
    } else {
        b
    }
}

/// `a + b`, held at the largest coordinate.
pub open spec fn saturated(a: int, b: int) -> int {
    if a + b <= 0xffff {
        a + b
    } else {
        0xffff
    }
}

/// The index of the host cell on which a content cell is placed.
pub open spec fn placed_at(width: u16, rect: Rect, row: int, column: int) -> int {
    saturated(rect.y as int, row) * width + saturated(rect.x as int, column)
}

/// `cells` after the first `columns` cells of one row of content are placed.
pub open spec fn with_placed_row(
    cells: Seq<CellView>,
    width: u16,
    content: FrameView,
    rect: Rect,
    row: int,
    columns: nat,
) -> Seq<CellView>
    decreases columns,
{
    if columns == 0 {
        cells
    } else {
        let column = columns - 1;
        with_placed_row(cells, width, content, rect, row, column as nat).update(
            placed_at(width, rect, row, column),
            content.cells[row * content.width + column],
        )
    }
}

/// `cells` after the first `rows` rows of content are placed, `columns` cells
/// of each.
pub open spec fn with_placed_rows(
    cells: Seq<CellView>,
    width: u16,
    content: FrameView,
    rect: Rect,
    rows: nat,
    columns: nat,
) -> Seq<CellView>
    decreases rows,
{
    if rows == 0 {
        cells
    } else {
        with_placed_row(
            with_placed_rows(cells, width, content, rect, (rows - 1) as nat, columns),
            width,
            content,
            rect,
            rows - 1,
            columns,
        )
    }
}

/// Every content cell that is placed exists, and its place lies in the host
/// frame.
pub open spec fn placement_in_bounds(
    content: FrameView,
    width: u16,
    height: u16,
    rect: Rect,
) -> bool {
    forall|row: int, column: int|
        0 <= row < min_u16(rect.height, content.height) && 0 <= column < min_u16(
            rect.width,
            content.width,
        ) ==> {
            &&& #[trigger] placed_at(width, rect, row, column) < width * height
            &&& row * content.width + column < content.cells.len()
        }
}

/// The cursor of a content frame on the host screen.
pub open spec fn placed_cursor(cursor: Option<CursorState>, rect: Rect) -> Option<CursorState> {
    match cursor {
        Some(c) => Some(
            CursorState {
                x: saturated(c.x as int, rect.x as int) as u16,
                y: saturated(c.y as int, rect.y as int) as u16,
                ..c
            },
        ),
        None => None,
    }
}

/// A blank host frame with the content placed in `rect`.
pub open spec fn composed_frame(
    content: Option<FrameView>,
    width: u16,
    height: u16,
    rect: Rect,
) -> FrameView {
    let blank = Seq::new((width * height) as nat, |i: int| blank_cell());
    match content {
        None => FrameView {
            cells: blank,
            width,
            height,
            cursor: None,
            hyperlinks: Seq::empty(),
            graphics: Seq::empty(),
        },
        Some(content) => FrameView {
            cells: with_placed_rows(
                blank,
                width,
                content,
                rect,
                min_u16(rect.height, content.height) as nat,
                min_u16(rect.width, content.width) as nat,
            ),
            width,
            height,
            cursor: placed_cursor(content.cursor, rect),
            hyperlinks: content.hyperlinks,
            graphics: crate::graphics::shifted_graphics(
                content.graphics,
                rect.x as nat,
                rect.y as nat,
            ),
        },
    }
}

proof fn lemma_placed_at_nonnegative(width: u16, rect: Rect, row: int, column: int)
    requires
        0 <= row,
        0 <= column,
    ensures
        0 <= placed_at(width, rect, row, column),
{
    let host_row = saturated(rect.y as int, row);
    assert(0 <= host_row * width) by (nonlinear_arith)
        requires
            0 <= host_row,
            0 <= width,
    ;
}

proof fn lemma_placed_row_len(
    cells: Seq<CellView>,
    width: u16,
    content: FrameView,
    rect: Rect,
    row: int,
    columns: nat,
)
    requires
        0 <= row,
        forall|c: int|
            0 <= c < columns ==> #[trigger] placed_at(width, rect, row, c) < cells.len(),
    ensures
        with_placed_row(cells, width, content, rect, row, columns).len() == cells.len(),
    decreases columns,
{
    if columns > 0 {
        lemma_placed_row_len(cells, width, content, rect, row, (columns - 1) as nat);
        lemma_placed_at_nonnegative(width, rect, row, columns - 1);
    }
}

proof fn lemma_placed_rows_len(
    cells: Seq<CellView>,
    width: u16,
    content: FrameView,
    rect: Rect,
    rows: nat,
    columns: nat,
)
    requires
        forall|r: int, c: int|
            0 <= r < rows && 0 <= c < columns ==> #[trigger] placed_at(width, rect, r, c)
                < cells.len(),
    ensures
        with_placed_rows(cells, width, content, rect, rows, columns).len() == cells.len(),
    decreases rows,
{
    if rows > 0 {
        lemma_placed_rows_len(cells, width, content, rect, (rows - 1) as nat, columns);
        lemma_placed_row_len(
            with_placed_rows(cells, width, content, rect, (rows - 1) as nat, columns),
            width,
            content,
            rect,
            rows - 1,
            columns,
        );
    }
}

/// The frame of the whole screen: the content of the active instance, where
/// there is one, placed in `content_rect` of an otherwise blank screen.
pub fn compose_frame(
    content: Option<&FrameData>,
    width: u16,
    height: u16,
    content_rect: Rect,
) -> (frame: FrameData)
    requires
        content matches Some(c) ==> placement_in_bounds(c@, width, height, content_rect),
    ensures
        frame@ == composed_frame(
            match content {
                Some(c) => Some(c@),
                None => None,
            },
            width,
            height,
            content_rect,
        ),
{
    let blank = CellData {
        symbol: " ".to_string(),
        fg: 0,
        bg: 0,
        modifier: 0,
        skip: false,
        hyperlink: None,
    };
    assert(width as int * height as int <= 0xffff * 0xffff) by (nonlinear_arith)
        requires
            0 <= width <= 0xffff,
            0 <= height <= 0xffff,
    ;
    let mut cells: Vec<CellData> = vec![blank; width as usize * height as usize];
    let ghost start = Seq::new((width * height) as nat, |i: int| blank_cell());
    assert(cell_views(cells@) =~= start);
    let mut cursor: Option<CursorState> = None;
    let mut hyperlinks: Vec<String> = Vec::new();
    let mut graphics: Vec<u8> = Vec::new();
    assert(texts(hyperlinks@) =~= Seq::empty());
    if let Some(content) = content {
        let rows: u16 = if content_rect.height <= content.height {
            content_rect.height
        } else {
            content.height
        };
        let columns: u16 = if content_rect.width <= content.width {
            content_rect.width
        } else {
            content.width
        };
        let mut row: u16 = 0;
        while row < rows
            invariant
                row <= rows,
                rows == min_u16(content_rect.height, content.height),
                columns == min_u16(content_rect.width, content.width),
                placement_in_bounds(content@, width, height, content_rect),
                start.len() == width * height,
                cell_views(cells@) == with_placed_rows(
                    start,
                    width,
                    content@,
                    content_rect,
                    row as nat,
                    columns as nat,
                ),
            decreases rows - row,
        {
            let ghost row_start = cell_views(cells@);
            proof {
                lemma_placed_rows_len(
                    start,
                    width,
                    content@,
                    content_rect,
                    row as nat,
                    columns as nat,
                );
            }
            let mut column: u16 = 0;
            while column < columns
                invariant
                    row < rows,
                    column <= columns,
                    rows == min_u16(content_rect.height, content.height),
                    columns == min_u16(content_rect.width, content.width),
                    placement_in_bounds(content@, width, height, content_rect),
                    row_start.len() == width * height,
                    cell_views(cells@) == with_placed_row(
                        row_start,
                        width,
                        content@,
                        content_rect,
                        row as int,
                        column as nat,
                    ),
                decreases columns - column,
            {
                let ghost before = cell_views(cells@);
                proof {
                    lemma_placed_row_len(
                        row_start,
                        width,
                        content@,
                        content_rect,
                        row as int,
                        column as nat,
                    );
                    let target = placed_at(width, content_rect, row as int, column as int);
                    assert(target < width * height);
                }
                let host_row: u16 = content_rect.y.saturating_add(row);
                let host_column: u16 = content_rect.x.saturating_add(column);
                assert(0 <= host_row as int * width as int <= 0xffff * 0xffff) by (nonlinear_arith)
                    requires
                        0 <= width <= 0xffff,
                        0 <= host_row <= 0xffff,
                ;
                assert(0 <= row as int * content.width as int <= 0xffff * 0xffff) by (nonlinear_arith)
                    requires
                        0 <= content.width <= 0xffff,
                        0 <= row <= 0xffff,
                ;
                let target: usize = host_row as usize * width as usize + host_column as usize;
                let source: usize = row as usize * content.width as usize + column as usize;
                cells[target] = content.cells[source].clone();
                column += 1;
                assert(cell_views(cells@) =~= before.update(
                    target as int,
                    content@.cells[source as int],
                ));
            }
            row += 1;
        }
        cursor = match content.cursor {
            Some(c) => Some(
                CursorState {
                    x: c.x.saturating_add(content_rect.x),
                    y: c.y.saturating_add(content_rect.y),
                    visible: c.visible,
                    shape: c.shape,
                },
            ),
            None => None,
        };
        hyperlinks = content.hyperlinks.clone();
        assert(texts(hyperlinks@) =~= texts(content.hyperlinks@));
        graphics = shift_graphics_coordinates(
            content.graphics.as_slice(),
            content_rect.x,
            content_rect.y,
        );
    }
    FrameData { cells, width, height, cursor, hyperlinks, graphics }
}

/// Whether two cells look the same but for their hyperlink.
pub open spec fn looks_alike(a: CellView, b: CellView) -> bool {
    &&& a.symbol == b.symbol
    &&& a.fg == b.fg
    &&& a.bg == b.bg
    &&& a.modifier == b.modifier
}

/// A rendered cell, with the hyperlink of the cell it was drawn over where it
/// still looks the same.
pub open spec fn relinked_cell(rendered: CellView, original: CellView) -> CellView {
    if looks_alike(rendered, original) {
        CellView { hyperlink: original.hyperlink, ..rendered }
    } else {
        rendered
    }
}

/// The rendered cells, each relinked to the cell of the base frame at the same
/// place, as far as the base frame goes.
pub open spec fn relinked_cells(rendered: Seq<CellView>, base: Seq<CellView>) -> Seq<CellView> {
    Seq::new(
        rendered.len(),
        |i: int|
            if i < base.len() {
                relinked_cell(rendered[i], base[i])
            } else {
                rendered[i]
            },
    )
}

/// The frame of the cells that were drawn over `base`, with what else `base`
/// holds. The cursor is that of `base` where it is the content's.
pub open spec fn finished_frame(
    rendered: Seq<CellView>,
    base: FrameView,
    cursor_in_content: bool,
) -> FrameView {
    FrameView {
        cells: relinked_cells(rendered, base.cells),
        cursor: if cursor_in_content {
            base.cursor
        } else {
            None
        },
        ..base
    }
}

/// The frame that goes to the screen: the cells that the shell's renderer drew
/// over `base`, with the hyperlinks and graphics of `base`, and its cursor
/// where the shell leaves the cursor to the content.
pub fn finish_frame(
    rendered: Vec<CellData>,
    base: FrameData,
    cursor_in_content: bool,
) -> (frame: FrameData)
    ensures
        frame@ == finished_frame(cell_views(rendered@), base@, cursor_in_content),
{
    let mut cells: Vec<CellData> = rendered;
    let ghost drawn = cell_views(cells@);
    let mut i: usize = 0;
    while i < cells.len() && i < base.cells.len()
        invariant
            i <= cells@.len(),
            i <= base.cells@.len(),
            cells@.len() == drawn.len(),
            forall|k: int|
                0 <= k < i ==> (#[trigger] cells@[k])@ == relinked_cell(drawn[k], base@.cells[k]),
            forall|k: int| i <= k < cells@.len() ==> (#[trigger] cells@[k])@ == drawn[k],
        decreases cells@.len() - i,
    {
        let original = &base.cells[i];
        if same_text(cells[i].symbol.as_str(), original.symbol.as_str()) && cells[i].fg
            == original.fg && cells[i].bg == original.bg && cells[i].modifier == original.modifier {
            cells[i].hyperlink = original.hyperlink;
        }
        i += 1;
    }
    let cursor: Option<CursorState> = if cursor_in_content {
        base.cursor
    } else {
        None
    };
    assert(cell_views(cells@) =~= relinked_cells(drawn, base@.cells));
    FrameData {
        cells,
        width: base.width,
        height: base.height,
        cursor,
        hyperlinks: base.hyperlinks,
        graphics: base.graphics,
    }
}

/// The content rectangle lies on the screen, and the content frame has all its
/// cells.
pub open spec fn fits(content: FrameView, width: u16, height: u16, rect: Rect) -> bool {
    &&& rect.x + rect.width <= width
    &&& rect.y + rect.height <= height
    &&& content.cells.len() >= content.width * content.height
}

proof fn lemma_cell_index(width: int, row: int, column: int, other_row: int, other_column: int)
    requires
        0 <= column < width,
        0 <= other_column < width,
        row * width + column == other_row * width + other_column,
    ensures
        row == other_row,
        column == other_column,
{
    let index = row * width + column;
    lemma_fundamental_div_mod_converse(index, width, row, column);
    lemma_fundamental_div_mod_converse(index, width, other_row, other_column);
}

proof fn lemma_cell_index_bound(width: int, height: int, row: int, column: int)
    requires
        0 <= row < height,
        0 <= column < width,
    ensures
        0 <= row * width + column < width * height,
{
    assert(0 <= row * width) by (nonlinear_arith)
        requires
            0 <= row,
            0 <= width,
    ;
    assert(row * width + width <= width * height) by (nonlinear_arith)
        requires
            row + 1 <= height,
            0 <= width,
    ;
}

/// Content that fits the screen can be placed on it.
pub proof fn law_fitting_content_is_in_bounds(
    content: FrameView,
    width: u16,
    height: u16,
    rect: Rect,
)
    requires
        fits(content, width, height, rect),
    ensures
        placement_in_bounds(content, width, height, rect),
{
    assert forall|row: int, column: int|
        0 <= row < min_u16(rect.height, content.height) && 0 <= column < min_u16(
            rect.width,
            content.width,
        ) implies {
        &&& #[trigger] placed_at(width, rect, row, column) < width * height
        &&& row * content.width + column < content.cells.len()
    } by {
        lemma_cell_index_bound(width as int, height as int, rect.y + row, rect.x + column);
        lemma_cell_index_bound(content.width as int, content.height as int, row, column);
    }
}

proof fn lemma_placed_row_cell(
    cells: Seq<CellView>,
    width: u16,
    height: u16,
    content: FrameView,
    rect: Rect,
    placed_row: int,
    columns: nat,
    row: int,
    column: int,
)
    requires
        fits(content, width, height, rect),
        cells.len() == width * height,
        0 <= placed_row < min_u16(rect.height, content.height),
        columns <= min_u16(rect.width, content.width),
        0 <= row < height,
        0 <= column < width,
    ensures
        with_placed_row(cells, width, content, rect, placed_row, columns).len() == cells.len(),
        with_placed_row(cells, width, content, rect, placed_row, columns)[row * width + column] == (
        if row == rect.y + placed_row && rect.x <= column < rect.x + columns {
            content.cells[placed_row * content.width + (column - rect.x)]
        } else {
            cells[row * width + column]
        }),
    decreases columns,
{
    lemma_cell_index_bound(width as int, height as int, row, column);
    if columns > 0 {
        lemma_placed_row_cell(
            cells,
            width,
            height,
            content,
            rect,
            placed_row,
            (columns - 1) as nat,
            row,
            column,
        );
        let last_row = rect.y + placed_row;
        let last_column = rect.x + columns - 1;
        lemma_cell_index_bound(width as int, height as int, last_row, last_column);
        if row * width + column == last_row * width + last_column {
            lemma_cell_index(width as int, row, column, last_row, last_column);
        }
    }
}

proof fn lemma_placed_rows_cell(
    cells: Seq<CellView>,
    width: u16,
    height: u16,
    content: FrameView,
    rect: Rect,
    rows: nat,
    columns: nat,
    row: int,
    column: int,
)
    requires
        fits(content, width, height, rect),
        cells.len() == width * height,
        rows <= min_u16(rect.height, content.height),
        columns <= min_u16(rect.width, content.width),
        0 <= row < height,
        0 <= column < width,
    ensures
        with_placed_rows(cells, width, content, rect, rows, columns).len() == cells.len(),
        with_placed_rows(cells, width, content, rect, rows, columns)[row * width + column] == (
        if rect.y <= row < rect.y + rows && rect.x <= column < rect.x + columns {
            content.cells[(row - rect.y) * content.width + (column - rect.x)]
        } else {
            cells[row * width + column]
        }),
    decreases rows,
{
    if rows > 0 {
        lemma_placed_rows_cell(
            cells,
            width,
            height,
            content,
            rect,
            (rows - 1) as nat,
            columns,
            row,
            column,
        );
        let above = with_placed_rows(cells, width, content, rect, (rows - 1) as nat, columns);
        lemma_placed_row_cell(
            above,
            width,
            height,
            content,
            rect,
            rows - 1,
            columns,
            row,
            column,
        );
    }
}

/// On a screen that the content fits, each cell inside the part of the content
/// rectangle that the content covers is the content's cell there, and every
/// other cell is blank.
pub proof fn law_compose_places_content(
    content: FrameView,
    width: u16,
    height: u16,
    rect: Rect,
    row: int,
    column: int,
)
    requires
        fits(content, width, height, rect),
        0 <= row < height,
        0 <= column < width,
    ensures
        ({
            let cells = composed_frame(Some(content), width, height, rect).cells;
            &&& cells.len() == width * height
            &&& cells[row * width + column] == (if rect.y <= row < rect.y + min_u16(
                rect.height,
                content.height,
            ) && rect.x <= column < rect.x + min_u16(rect.width, content.width) {
                content.cells[(row - rect.y) * content.width + (column - rect.x)]
            } else {
                blank_cell()
            })
        }),
{
    lemma_cell_index_bound(width as int, height as int, row, column);
    let blank = Seq::new((width * height) as nat, |i: int| blank_cell());
    lemma_placed_rows_cell(
        blank,
        width,
        height,
        content,
        rect,
        min_u16(rect.height, content.height) as nat,
        min_u16(rect.width, content.width) as nat,
        row,
        column,
    );
}

/// A base frame that the shell's renderer leaves as it is goes to the screen
/// unchanged, hyperlinks and graphics included, whatever hyperlinks the
/// rendered cells carried.
pub proof fn law_unchanged_cells_keep_their_links(rendered: Seq<CellView>, base: Seq<CellView>)
    requires
        rendered.len() == base.len(),
        forall|i: int|
            0 <= i < base.len() ==> #[trigger] looks_alike(rendered[i], base[i]) && rendered[i].skip
                == base[i].skip,
    ensures
        relinked_cells(rendered, base) == base,
{
    assert forall|i: int| 0 <= i < base.len() implies relinked_cells(rendered, base)[i]
        == base[i] by {
        assert(looks_alike(rendered[i], base[i]));
    }
    assert(relinked_cells(rendered, base) =~= base);
}

/// Each cell of the content that its rectangle has room for lies on the screen as
/// far to the right and down as the rectangle does.
pub proof fn law_content_cells_are_moved_by_the_rectangle(
    content: FrameView,
    width: u16,
    height: u16,
    rect: Rect,
    row: int,
    column: int,
)
    requires
        rect.x + rect.width <= width,
        rect.y + rect.height <= height,
        content.cells.len() >= content.width * content.height,
        0 <= row < rect.height,
        0 <= column < rect.width,
        row < content.height,
        column < content.width,
    ensures
        composed_frame(Some(content), width, height, rect).cells[(rect.y + row) * width + (rect.x
            + column)] == content.cells[row * content.width + column],
{
    law_compose_places_content(content, width, height, rect, rect.y + row, rect.x + column);
}

/// The screen has all its cells, and those that the rectangle of the content does
/// not hold, or that there is no content for, are spaces without colours, style
/// or link.
pub proof fn law_cells_without_content_are_blank(
    content: Option<FrameView>,
    width: u16,
    height: u16,
    rect: Rect,
    row: int,
    column: int,
)
    requires
        rect.x + rect.width <= width,
        rect.y + rect.height <= height,
        content matches Some(frame) ==> frame.cells.len() >= frame.width * frame.height,
        0 <= row < height,
        0 <= column < width,
        content matches Some(frame) ==> row < rect.y || column < rect.x || row >= rect.y
            + rect.height || column >= rect.x + rect.width || row >= rect.y + frame.height || column
            >= rect.x + frame.width,
    ensures
        ({
            let frame = composed_frame(content, width, height, rect);
            let cell = frame.cells[row * width + column];
            &&& frame.cells.len() == width * height
            &&& frame.width == width
            &&& frame.height == height
            &&& cell.symbol == " "@
            &&& cell.fg == 0
            &&& cell.bg == 0
            &&& cell.modifier == 0
            &&& !cell.skip
            &&& cell.hyperlink is None
        }),
{
    match content {
        Some(frame) => {
            law_compose_places_content(frame, width, height, rect, row, column);
        },
        None => {
            lemma_cell_index_bound(width as int, height as int, row, column);
        },
    }
}

/// A cursor on a cell of the content lies, on a screen that the content fits, on
/// the very cell of the screen that holds that cell.
pub proof fn law_cursor_stays_on_its_cell(
    content: FrameView,
    width: u16,
    height: u16,
    rect: Rect,
    cursor: CursorState,
)
    requires
        rect.x + rect.width <= width,
        rect.y + rect.height <= height,
        content.cells.len() >= content.width * content.height,
        content.cursor == Some(cursor),
        cursor.y < rect.height,
        cursor.x < rect.width,
        cursor.y < content.height,
        cursor.x < content.width,
    ensures
        ({
            let frame = composed_frame(Some(content), width, height, rect);
            &&& frame.cursor matches Some(placed) && {
                &&& placed.x == rect.x + cursor.x
                &&& placed.y == rect.y + cursor.y
                &&& placed.visible == cursor.visible
                &&& placed.shape == cursor.shape
                &&& frame.cells[placed.y * width + placed.x] == content.cells[cursor.y
                    * content.width + cursor.x]
            }
        }),
{
    law_content_cells_are_moved_by_the_rectangle(
        content,
        width,
        height,
        rect,
        cursor.y as int,
        cursor.x as int,
    );
}

/// A cursor is moved as far as the rectangle lies from the corner of the screen,
/// and no further than the last place there can be. It keeps its look, and there
/// is one just where the content has one.
pub proof fn law_cursor_is_moved_by_the_rectangle(
    content: FrameView,
    width: u16,
    height: u16,
    rect: Rect,
)
    ensures
        ({
            let placed = composed_frame(Some(content), width, height, rect).cursor;
            &&& placed is Some <==> content.cursor is Some
            &&& content.cursor matches Some(cursor) ==> {
                &&& placed->0.x == if cursor.x + rect.x <= 0xffff {
                    cursor.x + rect.x
                } else {
                    0xffff
                }
                &&& placed->0.y == if cursor.y + rect.y <= 0xffff {
                    cursor.y + rect.y
                } else {
                    0xffff
                }
                &&& placed->0.visible == cursor.visible
                &&& placed->0.shape == cursor.shape
            }
        }),
        composed_frame(None, width, height, rect).cursor is None,
{
}

/// The links of a screen are those of its content, so that what a cell refers to
/// is what it referred to in the content.
pub proof fn law_links_are_those_of_the_content(
    content: FrameView,
    width: u16,
    height: u16,
    rect: Rect,
)
    ensures
        composed_frame(Some(content), width, height, rect).hyperlinks == content.hyperlinks,
        composed_frame(None, width, height, rect).hyperlinks.len() == 0,
        composed_frame(None, width, height, rect).graphics.len() == 0,
{
}

/// An image of the content is placed as far to the right as the rectangle lies to
/// the right, and as far down as it lies down.
pub proof fn law_images_are_moved_by_the_rectangle(
    content: FrameView,
    width: u16,
    height: u16,
    rect: Rect,
    row: nat,
    column: nat,
    image: Seq<u8>,
)
    requires
        content.graphics == crate::graphics::command_bytes(row, column) + image,
        !image.contains(0x1b),
        row + rect.y <= 0xffff,
        column + rect.x <= 0xffff,
    ensures
        composed_frame(Some(content), width, height, rect).graphics
            == crate::graphics::command_bytes(row + rect.y as nat, column + rect.x as nat) + image,
{
    let down = rect.y as nat;
    let right = rect.x as nat;
    crate::graphics::law_shift_moves_command(row, column, image, right, down);
    crate::graphics::law_shift_keeps_plain_bytes(image, right, down);
}

/// Nothing that the shell drew is lost when a frame is finished: each cell keeps
/// its symbol, its colours and its style. It has the link of what it was drawn
/// over where it looks the same, and else its own.
pub proof fn law_finished_frame_shows_what_was_drawn(
    rendered: Seq<CellView>,
    base: FrameView,
    cursor_in_content: bool,
    i: int,
)
    requires
        0 <= i < rendered.len(),
        rendered.len() <= base.cells.len(),
    ensures
        ({
            let frame = finished_frame(rendered, base, cursor_in_content);
            let cell = frame.cells[i];
            let drawn = rendered[i];
            let under = base.cells[i];
            let looks_the_same = drawn.symbol == under.symbol && drawn.fg == under.fg && drawn.bg
                == under.bg && drawn.modifier == under.modifier;
            &&& frame.cells.len() == rendered.len()
            &&& cell.symbol == drawn.symbol
            &&& cell.fg == drawn.fg
            &&& cell.bg == drawn.bg
            &&& cell.modifier == drawn.modifier
            &&& cell.skip == drawn.skip
            &&& looks_the_same ==> cell.hyperlink == under.hyperlink
            &&& !looks_the_same ==> cell.hyperlink == drawn.hyperlink
        }),
{
}

/// A finished frame has the size, the links and the graphics of the frame below,
/// and its cursor where that is the content's; else it has none.
pub proof fn law_finished_frame_keeps_the_base(
    rendered: Seq<CellView>,
    base: FrameView,
    cursor_in_content: bool,
)
    ensures
        ({
            let frame = finished_frame(rendered, base, cursor_in_content);
            &&& frame.width == base.width
            &&& frame.height == base.height
            &&& frame.hyperlinks == base.hyperlinks
            &&& frame.graphics == base.graphics
            &&& cursor_in_content ==> frame.cursor == base.cursor
            &&& !cursor_in_content ==> frame.cursor is None
        }),
{
}

} // verus!
