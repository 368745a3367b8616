//! Styled text tokens and the canvas they are drawn on.

use crate::text::chars_of;
use vstd::prelude::*;

verus! {

/// A zero-based grid cell.
#[derive(Clone, Copy, Debug, PartialEq, Eq, Structural)]
pub struct TokenPosition {
    pub row: usize,
    pub col: usize,
}

/// The visual attribute of a token; it applies to every character of the token.
#[derive(Clone, Copy, Debug, PartialEq, Eq, Structural)]
pub enum TokenStyle {
    Plain,
    Underlined,
    Reverse,
}

/// The mathematical value of a [`Token`]: its characters and its style.
pub ghost struct TokenView {
    pub text: Seq<char>,
    pub style: TokenStyle,
}

/// A unit of styled text. A token has no position of its own: the position is
/// given when the token is drawn.
#[derive(Debug)]
pub struct Token {
    text: Vec<char>,
    style: TokenStyle,
}

impl View for Token {
    type V = TokenView;

    closed spec fn view(&self) -> TokenView {
        TokenView { text: self.text@, style: self.style }
    }
}

impl Token {
    /// A token of plain style.
    pub fn new(text: &str) -> (token: Token)
        ensures
            token@ == (TokenView { text: text@, style: TokenStyle::Plain }),
    {
        Token::with_style(text, TokenStyle::Plain)
    }

    /// A token of the given style.
    pub fn with_style(text: &str, style: TokenStyle) -> (token: Token)
        ensures
            token@ == (TokenView { text: text@, style }),
    {
        Token { text: chars_of(text), style }
    }

    /// The style of the token.
    pub fn style(&self) -> (style: TokenStyle)
        ensures
            style == self@.style,
    {
        self.style
    }

    /// The number of characters of the token.
    pub fn len(&self) -> (len: usize)
        ensures
            len == self@.text.len(),
    {
        self.text.len()
    }

    /// The character at `index` of the token, or `None` where the token has
    /// no such character.
    pub fn char_at(&self, index: usize) -> (ch: Option<char>)
        ensures
            ch == (if index < self@.text.len() {
                Some(self@.text[index as int])
            } else {
                None
            }),
    {
        if index < self.text.len() {
            Some(self.text[index])
        } else {
            None
        }
    }
}

/// The number of rows and columns of a drawing area.
#[derive(Clone, Copy, Debug, PartialEq, Eq, Structural)]
pub struct FrameSize {
    pub rows: usize,
    pub cols: usize,
}

impl FrameSize {
    /// Whether the area holds no cell at all.
    pub open spec fn spec_is_empty(self) -> bool {
        self.rows == 0 || self.cols == 0
    }

    /// Whether the area holds no cell at all: it has no row or no column.
    #[verifier::when_used_as_spec(spec_is_empty)]
    pub fn is_empty(self) -> (empty: bool)
        ensures
            empty == self.spec_is_empty(),
    {
        self.rows == 0 || self.cols == 0
    }
}

/// One written cell of the grid: a character and the style it is shown in.
#[derive(Clone, Copy, Debug, PartialEq, Eq, Structural)]
pub struct Cell {
    pub ch: char,
    pub style: TokenStyle,
}

/// `n` as a `usize`, or the largest `usize` where `n` does not fit.
pub open spec fn saturate(n: int) -> usize {
    if n > usize::MAX {
        usize::MAX
    } else if n < 0 {
        0
    } else {
        n as usize
    }
}

/// Whether a text of `len` characters that starts at (`row`, `col`) puts one
/// of its characters on the cell `at` of a grid of the given size. Characters
/// that would fall on a row or a column outside the grid cover nothing.
pub open spec fn covers(size: FrameSize, row: int, col: int, len: int, at: (int, int)) -> bool {
    &&& at.0 == row
    &&& 0 <= row < size.rows
    &&& 0 <= col <= at.1 < col + len
    &&& at.1 < size.cols
}

/// The cell that the character at `index` of `token` is written as.
pub open spec fn token_cell(token: TokenView, index: int) -> Cell
    recommends
        0 <= index < token.text.len(),
{
    Cell { ch: token.text[index], style: token.style }
}

/// The written cells after `token` is laid out from (`row`, `col`) to the
/// right, one character per column: the cells it covers hold its characters
/// in its style, all others are as before.
pub open spec fn write_text(
    cells: Map<(int, int), Cell>,
    size: FrameSize,
    row: int,
    col: int,
    token: TokenView,
) -> Map<(int, int), Cell> {
    Map::new(
        |at: (int, int)| cells.dom().contains(at) || covers(size, row, col, token.text.len() as int, at),
        |at: (int, int)|
            if covers(size, row, col, token.text.len() as int, at) {
                token_cell(token, at.1 - col)
            } else {
                cells[at]
            },
    )
}

/// Whether every written cell lies inside a grid of the given size.
pub open spec fn cells_within(cells: Map<(int, int), Cell>, size: FrameSize) -> bool {
    forall|at: (int, int)| #[trigger]
        cells.dom().contains(at) ==> 0 <= at.0 < size.rows && 0 <= at.1 < size.cols
}

/// The mathematical value of a [`Canvas`].
pub ghost struct CanvasView {
    /// The vertical scroll offset that the finished frame carries.
    pub origin_row: usize,
    pub size: FrameSize,
    pub cursor: TokenPosition,
    /// The cells written so far, by (row, column).
    pub cells: Map<(int, int), Cell>,
}

impl CanvasView {
    /// No written cell lies outside the drawing area.
    pub open spec fn wf(self) -> bool {
        cells_within(self.cells, self.size)
    }

    /// A canvas on which nothing was drawn yet.
    pub open spec fn blank(origin_row: usize, size: FrameSize) -> CanvasView {
        CanvasView { origin_row, size, cursor: TokenPosition { row: 0, col: 0 }, cells: Map::empty() }
    }

    /// `token` written at `position`; the cursor stays where it is.
    pub open spec fn draw_at(self, position: TokenPosition, token: TokenView) -> CanvasView {
        CanvasView {
            cells: write_text(self.cells, self.size, position.row as int, position.col as int, token),
            ..self
        }
    }

    /// `token` written at the cursor, which then moves right by the number of
    /// characters of the token.
    pub open spec fn draw(self, token: TokenView) -> CanvasView {
        CanvasView {
            cells: write_text(
                self.cells,
                self.size,
                self.cursor.row as int,
                self.cursor.col as int,
                token,
            ),
            cursor: TokenPosition {
                row: self.cursor.row,
                col: saturate(self.cursor.col + token.text.len()),
            },
            ..self
        }
    }

    /// The cursor moved to the first column of the next row.
    pub open spec fn newline(self) -> CanvasView {
        CanvasView {
            cursor: TokenPosition { row: saturate(self.cursor.row + 1), col: 0 },
            ..self
        }
    }

    /// `token` written at the cursor, followed by a newline.
    pub open spec fn drawln(self, token: TokenView) -> CanvasView {
        self.draw(token).newline()
    }

    /// The frame that the canvas is sealed into.
    pub open spec fn frame(self) -> FrameView {
        FrameView { origin_row: self.origin_row, size: self.size, cells: self.cells }
    }
}

/// The mathematical value of a [`Frame`].
pub ghost struct FrameView {
    pub origin_row: usize,
    pub size: FrameSize,
    /// The written cells, by (row, column).
    pub cells: Map<(int, int), Cell>,
}

impl FrameView {
    /// No written cell lies outside the frame.
    pub open spec fn wf(self) -> bool {
        cells_within(self.cells, self.size)
    }
}

/// Whether the stored grid has exactly the rows and columns of `size`.
spec fn grid_fits(grid: Vec<Vec<Option<Cell>>>, size: FrameSize) -> bool {
    &&& grid.len() == size.rows
    &&& forall|r: int| 0 <= r < grid.len() ==> (#[trigger] grid[r]).len() == size.cols
}

/// The written cells of a stored grid.
spec fn grid_cells(grid: Vec<Vec<Option<Cell>>>) -> Map<(int, int), Cell> {
    Map::new(
        |at: (int, int)|
            0 <= at.0 < grid.len() && 0 <= at.1 < grid[at.0].len() && grid[at.0][at.1] is Some,
        |at: (int, int)| grid[at.0][at.1]->0,
    )
}

/// Writes the characters of `token` into the stored grid from (`row`, `col`)
/// to the right, as far as the grid reaches.
fn write_cells(
    grid: &mut Vec<Vec<Option<Cell>>>,
    size: FrameSize,
    row: usize,
    col: usize,
    token: &Token,
)
    requires
        grid_fits(*old(grid), size),
    ensures
        grid_fits(*final(grid), size),
        grid_cells(*final(grid)) == write_text(
            grid_cells(*old(grid)),
            size,
            row as int,
            col as int,
            token@,
        ),
        cells_within(grid_cells(*final(grid)), size),
    no_unwind
{
    let len = token.text.len();
    if row < size.rows && col < size.cols {
        let room = size.cols - col;
        let count = if len < room { len } else { room };
        let mut i: usize = 0;
        while i < count
            invariant
                i <= count,
                count <= len,
                count <= size.cols - col,
                len == token.text.len(),
                row < size.rows,
                col < size.cols,
                grid_fits(*grid, size),
                grid_fits(*old(grid), size),
                forall|r: int, c: int|
                    0 <= r < size.rows && 0 <= c < size.cols ==> (#[trigger] grid[r][c]) == (if r
                        == row && col <= c < col + i {
                        Some(token_cell(token@, c - col))
                    } else {
                        old(grid)[r][c]
                    }),
            decreases count - i,
        {
            let ghost before = *grid;
            grid[row][col + i] = Some(Cell { ch: token.text[i], style: token.style });
            assert forall|r: int| 0 <= r < grid.len() implies (#[trigger] grid[r]).len()
                == size.cols by {
                assert(before[r].len() == size.cols);
            }
            i += 1;
        }
    }
    assert(grid_cells(*grid) =~= write_text(
        grid_cells(*old(grid)),
        size,
        row as int,
        col as int,
        token@,
    ));
}

/// The accumulator of one render pass: it takes draw requests, keeps a cursor
/// and drops whatever falls outside its drawing area.
#[derive(Debug)]
pub struct Canvas {
    origin_row: usize,
    size: FrameSize,
    cursor: TokenPosition,
    cells: Vec<Vec<Option<Cell>>>,
}

impl View for Canvas {
    type V = CanvasView;

    closed spec fn view(&self) -> CanvasView {
        CanvasView {
            origin_row: self.origin_row,
            size: self.size,
            cursor: self.cursor,
            cells: grid_cells(self.cells),
        }
    }
}

impl Canvas {
    #[verifier::type_invariant]
    spec fn grid_matches_size(self) -> bool {
        grid_fits(self.cells, self.size)
    }

    /// A blank canvas of the given size, with the cursor in its first cell.
    pub fn new(origin_row: usize, size: FrameSize) -> (canvas: Canvas)
        ensures
            canvas@ == CanvasView::blank(origin_row, size),
            canvas@.wf(),
    {
        let mut cells: Vec<Vec<Option<Cell>>> = Vec::new();
        let mut r: usize = 0;
        while r < size.rows
            invariant
                r <= size.rows,
                cells.len() == r,
                forall|i: int| 0 <= i < r ==> (#[trigger] cells[i]).len() == size.cols,
                forall|i: int, j: int|
                    0 <= i < r && 0 <= j < size.cols ==> (#[trigger] cells[i][j]) is None,
            decreases size.rows - r,
        {
            let mut row: Vec<Option<Cell>> = Vec::new();
            let mut c: usize = 0;
            while c < size.cols
                invariant
                    c <= size.cols,
                    row.len() == c,
                    forall|j: int| 0 <= j < c ==> (#[trigger] row[j]) is None,
                decreases size.cols - c,
            {
                row.push(None);
                c += 1;
            }
            cells.push(row);
            r += 1;
        }
        let canvas = Canvas { origin_row, size, cursor: TokenPosition { row: 0, col: 0 }, cells };
        assert(canvas@.cells =~= Map::empty());
        canvas
    }

    /// The cursor: where the next `draw` starts.
    pub fn cursor(&self) -> (position: TokenPosition)
        ensures
            position == self@.cursor,
    {
        self.cursor
    }

    /// The rows and columns of the drawing area.
    pub fn frame_size(&self) -> (size: FrameSize)
        ensures
            size == self@.size,
    {
        self.size
    }

    /// Writes the characters of `token` from (`row`, `col`) to the right and
    /// leaves everything but the cells untouched.
    fn put_text(&mut self, row: usize, col: usize, token: &Token)
        ensures
            final(self)@ == (CanvasView {
                cells: write_text(old(self)@.cells, old(self)@.size, row as int, col as int, token@),
                ..old(self)@
            }),
            final(self)@.wf(),
    {
        proof {
            use_type_invariant(&*self);
        }
        write_cells(&mut self.cells, self.size, row, col, token);
    }

    /// Writes `token` at `position`, one character per column, without
    /// moving the cursor. Characters that fall outside the drawing area are
    /// dropped. A later write to a cell replaces an earlier one.
    pub fn draw_at(&mut self, position: TokenPosition, token: Token)
        ensures
            final(self)@ == old(self)@.draw_at(position, token@),
            final(self)@.cursor == old(self)@.cursor,
            final(self)@.wf(),
    {
        self.put_text(position.row, position.col, &token);
    }

    /// Writes `token` at the cursor, one character per column, and moves the
    /// cursor right by the number of characters of the token (up to the
    /// largest `usize`). Characters that fall outside the drawing area are
    /// dropped; the cursor still moves past them. No line is wrapped.
    pub fn draw(&mut self, token: Token)
        ensures
            final(self)@ == old(self)@.draw(token@),
            final(self)@.wf(),
    {
        let row = self.cursor.row;
        let col = self.cursor.col;
        self.put_text(row, col, &token);
        proof {
            use_type_invariant(&*self);
        }
        self.cursor = TokenPosition { row, col: col.saturating_add(token.text.len()) };
    }

    /// Moves the cursor to the first column of the next row (the row number
    /// stops at the largest `usize`). No cell is cleared.
    pub fn newline(&mut self)
        ensures
            final(self)@ == old(self)@.newline(),
            final(self)@.wf(),
    {
        proof {
            use_type_invariant(&*self);
        }
        self.cursor = TokenPosition { row: self.cursor.row.saturating_add(1), col: 0 };
    }

    /// Writes `token` at the cursor and then starts a new line.
    pub fn drawln(&mut self, token: Token)
        ensures
            final(self)@ == old(self)@.drawln(token@),
            final(self)@ == old(self)@.draw(token@).newline(),
            final(self)@.wf(),
    {
        self.draw(token);
        self.newline();
    }

    /// Seals the canvas into the frame it has accumulated. Every written cell
    /// of the frame lies inside its size.
    pub fn into_frame(self) -> (frame: Frame)
        ensures
            frame@ == self@.frame(),
            frame@.wf(),
    {
        proof {
            use_type_invariant(&self);
        }
        Frame { origin_row: self.origin_row, size: self.size, cells: self.cells }
    }
}

/// The finished grid of styled characters, with the vertical scroll offset it
/// was drawn for. A frame is only read.
#[derive(Debug)]
pub struct Frame {
    origin_row: usize,
    size: FrameSize,
    cells: Vec<Vec<Option<Cell>>>,
}

impl View for Frame {
    type V = FrameView;

    closed spec fn view(&self) -> FrameView {
        FrameView { origin_row: self.origin_row, size: self.size, cells: grid_cells(self.cells) }
    }
}

impl Frame {
    #[verifier::type_invariant]
    spec fn grid_matches_size(self) -> bool {
        grid_fits(self.cells, self.size)
    }

    /// The vertical scroll offset.
    pub fn origin_row(&self) -> (origin_row: usize)
        ensures
            origin_row == self@.origin_row,
    {
        self.origin_row
    }

    /// The rows and columns of the frame.
    pub fn size(&self) -> (size: FrameSize)
        ensures
            size == self@.size,
    {
        self.size
    }

    /// The cell at (`row`, `col`), or `None` where nothing was written or the
    /// place lies outside the frame.
    pub fn cell(&self, row: usize, col: usize) -> (cell: Option<Cell>)
        ensures
            cell == (if self@.cells.dom().contains((row as int, col as int)) {
                Some(self@.cells[(row as int, col as int)])
            } else {
                None
            }),
            cell is Some ==> row < self@.size.rows && col < self@.size.cols,
    {
        proof {
            use_type_invariant(self);
        }
        if row < self.size.rows && col < self.size.cols {
            self.cells[row][col]
        } else {
            None
        }
    }
}

/// One draw request, as a mathematical value.
pub ghost enum DrawOp {
    Draw(TokenView),
    Drawln(TokenView),
    Newline,
    DrawAt(TokenPosition, TokenView),
}

impl CanvasView {
    /// The canvas after one draw request.
    pub open spec fn apply(self, op: DrawOp) -> CanvasView {
        match op {
            DrawOp::Draw(token) => self.draw(token),
            DrawOp::Drawln(token) => self.drawln(token),
            DrawOp::Newline => self.newline(),
            DrawOp::DrawAt(position, token) => self.draw_at(position, token),
        }
    }

    /// The canvas after the first `upto` of the draw requests `ops`, in
    /// their order.
    pub open spec fn apply_upto(self, ops: Seq<DrawOp>, upto: int) -> CanvasView
        decreases upto,
    {
        if upto <= 0 {
            self
        } else {
            self.apply_upto(ops, upto - 1).apply(ops[upto - 1])
        }
    }

    /// The canvas after all the draw requests `ops`, in their order.
    pub open spec fn apply_all(self, ops: Seq<DrawOp>) -> CanvasView {
        self.apply_upto(ops, ops.len() as int)
    }
}

/// A draw request leaves every written cell inside the drawing area, and
/// changes neither the size nor the scroll offset of the canvas.
pub proof fn law_draw_stays_within(canvas: CanvasView, op: DrawOp)
    requires
        canvas.wf(),
    ensures
        canvas.apply(op).wf(),
        canvas.apply(op).size == canvas.size,
        canvas.apply(op).origin_row == canvas.origin_row,
{
}

/// Whatever is drawn on a blank canvas, and however far it overruns the
/// drawing area, every written cell of the frame that comes out lies inside
/// the rows and columns of the frame.
pub proof fn law_frame_cells_within(origin_row: usize, size: FrameSize, ops: Seq<DrawOp>)
    ensures
        CanvasView::blank(origin_row, size).apply_all(ops).frame().wf(),
        CanvasView::blank(origin_row, size).apply_all(ops).frame().size == size,
{
    lemma_apply_upto_within(CanvasView::blank(origin_row, size), ops, ops.len() as int);
}

proof fn lemma_apply_upto_within(canvas: CanvasView, ops: Seq<DrawOp>, upto: int)
    requires
        canvas.wf(),
    ensures
        canvas.apply_upto(ops, upto).wf(),
        canvas.apply_upto(ops, upto).size == canvas.size,
    decreases upto,
{
    if upto > 0 {
        lemma_apply_upto_within(canvas, ops, upto - 1);
        law_draw_stays_within(canvas.apply_upto(ops, upto - 1), ops[upto - 1]);
    }
}

/// Drawing a token with a newline is drawing the token and then starting a
/// new line, whatever the token and wherever the cursor stands.
pub proof fn law_drawln_is_draw_then_newline(canvas: CanvasView, token: TokenView)
    ensures
        canvas.drawln(token) == canvas.draw(token).newline(),
{
}

/// Drawing at a position never moves the cursor.
pub proof fn law_draw_at_keeps_cursor(canvas: CanvasView, position: TokenPosition, token: TokenView)
    ensures
        canvas.draw_at(position, token).cursor == canvas.cursor,
{
}

/// Overlaying a part of a token that was just drawn, at the place where
/// that part stands, changes no character: the same cells are written, each
/// holds the character it held, and only the cells that the overlay covers
/// change their style, to the style of the overlay.
pub proof fn law_overlay_keeps_characters(
    canvas: CanvasView,
    token: TokenView,
    offset: nat,
    count: nat,
    style: TokenStyle,
)
    requires
        offset + count <= token.text.len(),
    ensures
        ({
            let base = canvas.draw(token);
            let position = TokenPosition {
                row: canvas.cursor.row,
                col: saturate(canvas.cursor.col + offset),
            };
            let part = TokenView {
                text: token.text.subrange(offset as int, (offset + count) as int),
                style,
            };
            let over = base.draw_at(position, part);
            &&& over.cells.dom() == base.cells.dom()
            &&& over.cursor == base.cursor
            &&& forall|at: (int, int)| #[trigger]
                base.cells.dom().contains(at) ==> over.cells[at].ch == base.cells[at].ch
            &&& forall|at: (int, int)| #[trigger]
                base.cells.dom().contains(at) ==> over.cells[at].style == (if covers(
                    canvas.size,
                    canvas.cursor.row as int,
                    canvas.cursor.col + offset,
                    count as int,
                    at,
                ) {
                    style
                } else {
                    base.cells[at].style
                })
        }),
{
    let base = canvas.draw(token);
    let position = TokenPosition {
        row: canvas.cursor.row,
        col: saturate(canvas.cursor.col + offset),
    };
    let part = TokenView { text: token.text.subrange(offset as int, (offset + count) as int), style };
    let over = base.draw_at(position, part);
    assert(over.cells.dom() =~= base.cells.dom());
}

} // verus!
