use firefly_main::commands::{CASET, COLMOD, DISON, MADCTL, PASET, RAMWR, RAMWRC, SLPOUT, SWRESET};
use firefly_main::display::{
    bounds, column_span, contiguous_budget, fill_color, init_commands, page_span, scale_area,
    screen_size, solid_repeats, Point, Rectangle, Size, Span,
};

fn rect(x: i32, y: i32, w: u32, h: u32) -> Rectangle {
    Rectangle { top_left: Point { x, y }, size: Size { width: w, height: h } }
}

#[test]
fn command_codes() {
    assert_eq!(
        [SWRESET, SLPOUT, DISON, CASET, PASET, RAMWR, MADCTL, COLMOD, RAMWRC],
        [0x01, 0x11, 0x29, 0x2a, 0x2b, 0x2c, 0x36, 0x3a, 0x3c]
    );
}

#[test]
fn screen_is_half_the_panel() {
    assert_eq!(screen_size(), Size { width: 240, height: 160 });
}

#[test]
fn scale_doubles_everything() {
    assert_eq!(scale_area(&rect(3, -4, 10, 7)), rect(6, -8, 20, 14));
}

#[test]
fn column_span_inside_panel_is_unchanged() {
    assert_eq!(column_span(10, 20), Span { start: 10, end: 20 });
}

#[test]
fn column_span_is_clamped_to_panel() {
    assert_eq!(column_span(-5, 1000), Span { start: 0, end: 479 });
    assert_eq!(column_span(600, 700), Span { start: 479, end: 479 });
}

#[test]
fn span_end_before_start_becomes_one_line() {
    assert_eq!(column_span(100, 50), Span { start: 100, end: 100 });
    assert_eq!(page_span(7, 6), Span { start: 7, end: 7 });
}

#[test]
fn page_span_is_clamped_to_panel() {
    assert_eq!(page_span(-1, 400), Span { start: 0, end: 319 });
}

#[test]
fn span_params_are_big_endian() {
    assert_eq!(Span { start: 0x0102, end: 0x01df }.params(), [0x01, 0x02, 0x01, 0xdf]);
    assert_eq!(column_span(0, 479).params(), [0, 0, 1, 0xdf]);
}

#[test]
fn span_len_counts_both_ends() {
    assert_eq!(Span { start: 3, end: 3 }.len(), 1);
    assert_eq!(Span { start: 0, end: 479 }.len(), 480);
}

#[test]
fn bounds_of_area_inside_panel() {
    let (x, y, size) = bounds(&rect(20, 10, 100, 50));
    assert_eq!(x, Span { start: 20, end: 119 });
    assert_eq!(y, Span { start: 10, end: 59 });
    assert_eq!(size, Size { width: 100, height: 50 });
}

#[test]
fn bounds_of_area_crossing_edge_are_cut() {
    let (x, y, size) = bounds(&rect(470, -5, 20, 10));
    assert_eq!(x, Span { start: 470, end: 479 });
    assert_eq!(y, Span { start: 0, end: 4 });
    assert_eq!(size, Size { width: 10, height: 5 });
}

#[test]
fn bounds_of_empty_area_is_one_pixel() {
    let (_, _, size) = bounds(&rect(5, 5, 0, 0));
    assert_eq!(size, Size { width: 1, height: 1 });
}

#[test]
fn fill_color_repeats_the_two_bytes() {
    let mut bytes = vec![0u8; 8];
    fill_color(&mut bytes, [0xab, 0xcd]);
    assert_eq!(bytes, vec![0xab, 0xcd, 0xab, 0xcd, 0xab, 0xcd, 0xab, 0xcd]);
}

#[test]
fn fill_color_of_empty_buffer() {
    let mut bytes: Vec<u8> = Vec::new();
    fill_color(&mut bytes, [1, 2]);
    assert!(bytes.is_empty());
}

#[test]
fn solid_repeats_counts_whole_buffers_after_the_first() {
    // 480x320 window, 1920-byte buffers: 153600 / 960 = 160 buffers.
    assert_eq!(solid_repeats(&Size { width: 480, height: 320 }, 1920), 159);
    // Less than two whole buffers: only the first write.
    assert_eq!(solid_repeats(&Size { width: 20, height: 60 }, 1920), 0);
    assert_eq!(solid_repeats(&Size { width: 1, height: 1 }, 1920), 0);
    // A remainder is not sent.
    assert_eq!(solid_repeats(&Size { width: 960, height: 3 }, 1920), 2);
    assert_eq!(solid_repeats(&Size { width: 961, height: 3 }, 1920), 2);
}

#[test]
fn contiguous_budget_is_half_the_window() {
    assert_eq!(contiguous_budget(&Size { width: 20, height: 14 }), 140);
    assert_eq!(contiguous_budget(&Size { width: 3, height: 3 }), 4);
}

#[test]
fn init_sequence() {
    let cmds = init_commands();
    let got: Vec<(u8, Vec<u8>)> = cmds.into_iter().map(|c| (c.cmd, c.params)).collect();
    assert_eq!(
        got,
        vec![
            (SWRESET, vec![]),
            (SLPOUT, vec![]),
            (COLMOD, vec![0x55]),
            (MADCTL, vec![0xe0]),
            (DISON, vec![]),
        ]
    );
}
