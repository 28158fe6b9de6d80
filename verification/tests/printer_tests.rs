use halfblocks::printer::{
    flush_buffer, is_buffer_full, print_buffer, render, to_ops, ColorCell, Glyph, Rgb, Status,
    TermOp,
};

#[test]
fn test_buffer_full() {
    let buffer = vec![ColorCell::new(), ColorCell::new()];
    let width = 2;
    assert!(is_buffer_full(&buffer, width));
}

#[test]
fn test_print_buffer() {
    let mut buffer = vec![ColorCell::new(), ColorCell::new()];
    print_buffer(&mut buffer);
    assert!(buffer.len() == 0);
}

#[test]
fn test_status_eq() {
    let s1 = Status::TopRow;
    let s2 = Status::BottomRow;
    assert!(s1 != s2);
}

#[test]
fn test_buffer_not_full_when_short() {
    let buffer = vec![ColorCell::new()];
    assert!(!is_buffer_full(&buffer, 2));
    let empty: Vec<ColorCell> = Vec::new();
    assert!(!is_buffer_full(&empty, 1));
    assert!(is_buffer_full(&empty, 0));
}

#[test]
fn test_even_height_renders_half_as_many_lines() {
    // 3 wide, 4 tall: two full row-pair lines of 3 lower-half-block cells
    let width = 3u32;
    let height = 4u32;
    let mut pixels = Vec::new();
    for i in 0..(width * height) as u8 {
        pixels.push(Rgb { r: i, g: i, b: i });
    }
    let lines = render(&pixels, width, height);
    assert_eq!(lines.len(), 2);
    for line in &lines {
        assert_eq!(line.glyph, Glyph::LowerHalfBlock);
        assert_eq!(line.cells.len(), 3);
    }
    // line 0 pairs rows 0 and 1; its middle cell holds pixels 1 and 4
    assert_eq!(lines[0].cells[1].bg, Some(Rgb { r: 1, g: 1, b: 1 }));
    assert_eq!(lines[0].cells[1].fg, Some(Rgb { r: 4, g: 4, b: 4 }));
    // line 1 pairs rows 2 and 3; its last cell holds pixels 8 and 11
    assert_eq!(lines[1].cells[2].bg, Some(Rgb { r: 8, g: 8, b: 8 }));
    assert_eq!(lines[1].cells[2].fg, Some(Rgb { r: 11, g: 11, b: 11 }));
}

#[test]
fn test_odd_height_ends_with_flushed_line() {
    // 2 wide, 3 tall: one full pair line, then one flushed upper-half line
    let width = 2u32;
    let height = 3u32;
    let mut pixels = Vec::new();
    for i in 0..(width * height) as u8 {
        pixels.push(Rgb { r: i, g: 0, b: 0 });
    }
    let lines = render(&pixels, width, height);
    assert_eq!(lines.len(), 2);
    assert_eq!(lines[0].glyph, Glyph::LowerHalfBlock);
    assert_eq!(lines[0].cells.len(), 2);
    assert_eq!(lines[1].glyph, Glyph::UpperHalfBlock);
    assert_eq!(lines[1].cells.len(), 2);
    // the flushed line carries row 2 (pixels 4 and 5) as foregrounds only
    assert_eq!(lines[1].cells[0].bg, None);
    assert_eq!(lines[1].cells[0].fg, Some(Rgb { r: 4, g: 0, b: 0 }));
    assert_eq!(lines[1].cells[1].bg, None);
    assert_eq!(lines[1].cells[1].fg, Some(Rgb { r: 5, g: 0, b: 0 }));
}

#[test]
fn test_zero_width_renders_nothing() {
    let pixels: Vec<Rgb> = Vec::new();
    let lines = render(&pixels, 0, 7);
    assert_eq!(lines.len(), 0);
}

#[test]
fn test_zero_height_renders_nothing() {
    let pixels: Vec<Rgb> = Vec::new();
    let lines = render(&pixels, 5, 0);
    assert_eq!(lines.len(), 0);
}

#[test]
fn test_round_trip_color_fidelity() {
    // one pixel wide, two rows: top red becomes the background, bottom
    // green the foreground, behind a single lower-half-block glyph
    let pixels = vec![Rgb { r: 255, g: 0, b: 0 }, Rgb { r: 0, g: 255, b: 0 }];
    let lines = render(&pixels, 1, 2);
    assert_eq!(lines.len(), 1);
    assert_eq!(lines[0].glyph, Glyph::LowerHalfBlock);
    assert_eq!(lines[0].cells.len(), 1);
    assert_eq!(lines[0].cells[0].bg, Some(Rgb { r: 255, g: 0, b: 0 }));
    assert_eq!(lines[0].cells[0].fg, Some(Rgb { r: 0, g: 255, b: 0 }));
}

#[test]
fn test_flush_path_single_row() {
    // one pixel wide, one row: one upper-half-block glyph whose foreground
    // is the pixel's color
    let pixels = vec![Rgb { r: 10, g: 20, b: 30 }];
    let lines = render(&pixels, 1, 1);
    assert_eq!(lines.len(), 1);
    assert_eq!(lines[0].glyph, Glyph::UpperHalfBlock);
    assert_eq!(lines[0].cells.len(), 1);
    assert_eq!(lines[0].cells[0].bg, None);
    assert_eq!(lines[0].cells[0].fg, Some(Rgb { r: 10, g: 20, b: 30 }));
}

#[test]
fn test_final_op_resets_colors() {
    let pixels = vec![Rgb { r: 10, g: 20, b: 30 }];
    let lines = render(&pixels, 1, 1);
    let ops = to_ops(&lines);
    let last = ops.last().expect("stream never empty");
    assert_eq!(*last, TermOp::SetColor(ColorCell { bg: None, fg: None }));
    // the reset comes even when there is nothing to draw
    let no_lines = render(&Vec::new(), 0, 0);
    let ops = to_ops(&no_lines);
    assert_eq!(ops.len(), 1);
    assert_eq!(ops[0], TermOp::SetColor(ColorCell { bg: None, fg: None }));
}

#[test]
fn test_ops_stream_shape() {
    // one line of one cell: set color, glyph, per-line reset, newline,
    // then the final reset
    let pixels = vec![Rgb { r: 1, g: 2, b: 3 }, Rgb { r: 4, g: 5, b: 6 }];
    let lines = render(&pixels, 1, 2);
    let ops = to_ops(&lines);
    let cell = ColorCell {
        bg: Some(Rgb { r: 1, g: 2, b: 3 }),
        fg: Some(Rgb { r: 4, g: 5, b: 6 }),
    };
    let reset = ColorCell { bg: None, fg: None };
    assert_eq!(
        ops,
        vec![
            TermOp::SetColor(cell),
            TermOp::PutGlyph(Glyph::LowerHalfBlock),
            TermOp::SetColor(reset),
            TermOp::Newline,
            TermOp::SetColor(reset),
        ]
    );
}

#[test]
fn test_flush_buffer_moves_background_to_foreground() {
    let mut cell = ColorCell::new();
    cell.set_bg(Some(Rgb { r: 7, g: 8, b: 9 }));
    let mut buffer = vec![cell];
    let line = flush_buffer(&mut buffer);
    assert_eq!(buffer.len(), 0);
    assert_eq!(line.glyph, Glyph::UpperHalfBlock);
    assert_eq!(line.cells.len(), 1);
    assert_eq!(line.cells[0].bg, None);
    assert_eq!(line.cells[0].fg, Some(Rgb { r: 7, g: 8, b: 9 }));
}

#[test]
fn test_glyph_chars() {
    assert_eq!(Glyph::UpperHalfBlock.to_char(), '\u{2580}');
    assert_eq!(Glyph::LowerHalfBlock.to_char(), '\u{2584}');
}
