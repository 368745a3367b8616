use grepview::canvas::{Canvas, Cell, Frame, FrameSize, Token, TokenPosition, TokenStyle};

fn size(rows: usize, cols: usize) -> FrameSize {
    FrameSize { rows, cols }
}

fn at(row: usize, col: usize) -> TokenPosition {
    TokenPosition { row, col }
}

fn plain(ch: char) -> Option<Cell> {
    Some(Cell { ch, style: TokenStyle::Plain })
}

fn row_text(frame: &Frame, row: usize) -> String {
    let mut text = String::new();
    for col in 0..frame.size().cols {
        match frame.cell(row, col) {
            Some(cell) => text.push(cell.ch),
            None => text.push('.'),
        }
    }
    text
}

fn written(frame: &Frame) -> usize {
    let mut count = 0;
    for row in 0..frame.size().rows {
        for col in 0..frame.size().cols {
            if frame.cell(row, col).is_some() {
                count += 1;
            }
        }
    }
    count
}

#[test]
fn token_keeps_text_and_style() {
    let token = Token::new("ab");
    assert_eq!(token.style(), TokenStyle::Plain);
    assert_eq!(token.len(), 2);
    assert_eq!(token.char_at(0), Some('a'));
    assert_eq!(token.char_at(1), Some('b'));
    assert_eq!(token.char_at(2), None);
    let token = Token::with_style("x", TokenStyle::Underlined);
    assert_eq!(token.style(), TokenStyle::Underlined);
    assert_eq!(token.char_at(0), Some('x'));
}

#[test]
fn token_counts_characters_not_bytes() {
    let token = Token::new("héllo");
    assert_eq!(token.len(), 5);
    assert_eq!(token.char_at(1), Some('é'));
}

#[test]
fn frame_size_is_empty_without_rows_or_columns() {
    assert!(size(0, 5).is_empty());
    assert!(size(5, 0).is_empty());
    assert!(size(0, 0).is_empty());
    assert!(!size(1, 1).is_empty());
}

#[test]
fn new_canvas_is_blank() {
    let canvas = Canvas::new(7, size(2, 3));
    assert_eq!(canvas.cursor(), at(0, 0));
    assert_eq!(canvas.frame_size(), size(2, 3));
    let frame = canvas.into_frame();
    assert_eq!(frame.origin_row(), 7);
    assert_eq!(frame.size(), size(2, 3));
    assert_eq!(written(&frame), 0);
}

#[test]
fn draw_writes_at_cursor_and_advances() {
    let mut canvas = Canvas::new(0, size(2, 10));
    canvas.draw(Token::new("ab"));
    assert_eq!(canvas.cursor(), at(0, 2));
    canvas.draw(Token::with_style("cd", TokenStyle::Underlined));
    assert_eq!(canvas.cursor(), at(0, 4));
    let frame = canvas.into_frame();
    assert_eq!(frame.cell(0, 0), plain('a'));
    assert_eq!(frame.cell(0, 1), plain('b'));
    assert_eq!(frame.cell(0, 2), Some(Cell { ch: 'c', style: TokenStyle::Underlined }));
    assert_eq!(frame.cell(0, 3), Some(Cell { ch: 'd', style: TokenStyle::Underlined }));
    assert_eq!(frame.cell(0, 4), None);
    assert_eq!(row_text(&frame, 0), "abcd......");
    assert_eq!(row_text(&frame, 1), "..........");
}

#[test]
fn draw_advances_by_characters() {
    let mut canvas = Canvas::new(0, size(1, 10));
    canvas.draw(Token::new("日本語"));
    assert_eq!(canvas.cursor(), at(0, 3));
    let frame = canvas.into_frame();
    assert_eq!(frame.cell(0, 2), plain('語'));
    assert_eq!(frame.cell(0, 3), None);
}

#[test]
fn draw_does_not_wrap() {
    let mut canvas = Canvas::new(0, size(2, 3));
    canvas.draw(Token::new("abcdef"));
    assert_eq!(canvas.cursor(), at(0, 6));
    let frame = canvas.into_frame();
    assert_eq!(row_text(&frame, 0), "abc");
    assert_eq!(row_text(&frame, 1), "...");
}

#[test]
fn newline_moves_to_next_row_without_clearing() {
    let mut canvas = Canvas::new(0, size(2, 4));
    canvas.draw(Token::new("ab"));
    canvas.newline();
    assert_eq!(canvas.cursor(), at(1, 0));
    canvas.draw(Token::new("c"));
    let frame = canvas.into_frame();
    assert_eq!(row_text(&frame, 0), "ab..");
    assert_eq!(row_text(&frame, 1), "c...");
}

#[test]
fn drawln_equals_draw_then_newline() {
    let mut one = Canvas::new(0, size(3, 5));
    let mut two = Canvas::new(0, size(3, 5));
    one.draw(Token::new("xy"));
    two.draw(Token::new("xy"));
    one.drawln(Token::with_style("hello!", TokenStyle::Reverse));
    two.draw(Token::with_style("hello!", TokenStyle::Reverse));
    two.newline();
    assert_eq!(one.cursor(), two.cursor());
    assert_eq!(one.cursor(), at(1, 0));
    let one = one.into_frame();
    let two = two.into_frame();
    for row in 0..3 {
        for col in 0..5 {
            assert_eq!(one.cell(row, col), two.cell(row, col));
        }
    }
    assert_eq!(one.cell(0, 2), Some(Cell { ch: 'h', style: TokenStyle::Reverse }));
}

#[test]
fn draw_at_keeps_cursor() {
    let mut canvas = Canvas::new(0, size(3, 5));
    canvas.draw(Token::new("ab"));
    let before = canvas.cursor();
    canvas.draw_at(at(2, 1), Token::new("zz"));
    assert_eq!(canvas.cursor(), before);
    canvas.draw_at(at(9, 9), Token::new("zz"));
    assert_eq!(canvas.cursor(), before);
    let frame = canvas.into_frame();
    assert_eq!(row_text(&frame, 2), ".zz..");
}

#[test]
fn later_write_wins() {
    let mut canvas = Canvas::new(0, size(1, 5));
    canvas.draw(Token::new("abcde"));
    canvas.draw_at(at(0, 1), Token::with_style("XY", TokenStyle::Reverse));
    let frame = canvas.into_frame();
    assert_eq!(row_text(&frame, 0), "aXYde");
    assert_eq!(frame.cell(0, 1), Some(Cell { ch: 'X', style: TokenStyle::Reverse }));
    assert_eq!(frame.cell(0, 3), plain('d'));
}

#[test]
fn overlay_changes_only_style() {
    let mut canvas = Canvas::new(0, size(2, 12));
    canvas.draw(Token::new("> "));
    let base = canvas.cursor();
    canvas.draw(Token::new("hello world"));
    canvas.draw_at(at(base.row, base.col + 6), Token::with_style("wor", TokenStyle::Reverse));
    let frame = canvas.into_frame();
    assert_eq!(row_text(&frame, 0), "> hello worl");
    for col in 0..12 {
        let cell = frame.cell(0, col).unwrap();
        let expected = if (8..11).contains(&col) { TokenStyle::Reverse } else { TokenStyle::Plain };
        assert_eq!(cell.style, expected, "column {}", col);
    }
}

#[test]
fn writes_outside_are_dropped() {
    let mut canvas = Canvas::new(0, size(2, 3));
    canvas.draw_at(at(0, 2), Token::new("abc"));
    canvas.draw_at(at(1, 3), Token::new("x"));
    canvas.draw_at(at(2, 0), Token::new("x"));
    canvas.draw_at(at(usize::MAX, usize::MAX), Token::new("x"));
    canvas.draw_at(at(1, usize::MAX), Token::new("xyz"));
    let frame = canvas.into_frame();
    assert_eq!(written(&frame), 1);
    assert_eq!(frame.cell(0, 2), plain('a'));
    assert_eq!(frame.cell(0, 3), None);
    assert_eq!(frame.cell(2, 0), None);
    assert_eq!(frame.cell(usize::MAX, usize::MAX), None);
}

#[test]
fn drawing_below_the_last_row_is_dropped() {
    let mut canvas = Canvas::new(0, size(1, 4));
    canvas.drawln(Token::new("ab"));
    canvas.drawln(Token::new("cd"));
    canvas.draw(Token::new("ef"));
    assert_eq!(canvas.cursor(), at(2, 2));
    let frame = canvas.into_frame();
    assert_eq!(written(&frame), 2);
    assert_eq!(row_text(&frame, 0), "ab..");
}

#[test]
fn newline_counts_rows_below_the_area() {
    let mut canvas = Canvas::new(0, size(1, 1));
    canvas.draw_at(at(0, 0), Token::new("a"));
    for _ in 0..3 {
        canvas.newline();
    }
    assert_eq!(canvas.cursor(), at(3, 0));
    let frame = canvas.into_frame();
    assert_eq!(written(&frame), 1);
}

#[test]
fn empty_canvas_takes_draws() {
    let mut canvas = Canvas::new(0, size(0, 0));
    canvas.drawln(Token::new("abc"));
    canvas.draw_at(at(0, 0), Token::new("abc"));
    assert_eq!(canvas.cursor(), at(1, 0));
    let frame = canvas.into_frame();
    assert_eq!(frame.size(), size(0, 0));
    assert_eq!(frame.cell(0, 0), None);
}

#[test]
fn empty_token_draws_nothing() {
    let mut canvas = Canvas::new(0, size(1, 2));
    canvas.draw(Token::new(""));
    assert_eq!(canvas.cursor(), at(0, 0));
    assert_eq!(written(&canvas.into_frame()), 0);
}
