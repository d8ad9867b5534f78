use firefly_main::color::{dump_color, Rgb565};
use firefly_main::commands::{RAMWR, RAMWRC};
use firefly_main::stream::RowPacker;

/// Runs a streamed fill the way the display does: colours taken up to the
/// budget, each written twice, a buffer sent whenever a row is complete, the
/// rest sent at the end.
fn run(width: u32, budget: usize, colors: &[Rgb565]) -> Vec<(u16, Vec<u8>)> {
    let mut packer = RowPacker::new(width, budget);
    let len = packer.bytes_len();
    let mut sent = Vec::new();
    let mut buf = vec![0xeeu8; len];
    let mut it = colors.iter();
    while packer.wants_color() {
        let Some(c) = it.next() else { break };
        packer.begin_color(c);
        while packer.owes_pixel() {
            if packer.is_full() {
                let cmd = packer.seal(&mut buf);
                sent.push((cmd, buf.clone()));
                buf = vec![0xeeu8; len];
            }
            packer.push_pixel(&mut buf);
        }
    }
    let (cmd, n) = packer.finish();
    sent.push((cmd, buf[..n].to_vec()));
    sent
}

fn grey(v: u8) -> Rgb565 {
    Rgb565::new(v, v, v)
}

fn px(v: u8) -> Vec<u8> {
    dump_color(&grey(v)).to_vec()
}

fn cat(parts: &[Vec<u8>]) -> Vec<u8> {
    parts.concat()
}

#[test]
fn buffer_is_two_panel_rows() {
    assert_eq!(RowPacker::new(4, 10).bytes_len(), 16);
}

#[test]
fn empty_stream_sends_one_empty_write() {
    assert_eq!(run(4, 10, &[]), vec![(RAMWR as u16, vec![])]);
}

#[test]
fn partial_row_is_sent_once_at_the_end() {
    assert_eq!(
        run(4, 10, &[grey(1)]),
        vec![(RAMWR as u16, cat(&[px(1), px(1)]))]
    );
}

#[test]
fn each_colour_is_written_twice_side_by_side() {
    let sent = run(8, 10, &[grey(1), grey(2)]);
    assert_eq!(sent, vec![(RAMWR as u16, cat(&[px(1), px(1), px(2), px(2)]))]);
}

#[test]
fn rows_are_doubled_and_the_last_is_sent_once() {
    // width 4 panel pixels: a row is two colours, each doubled.
    let sent = run(4, 10, &[grey(1), grey(2), grey(3), grey(4), grey(5)]);
    let row1 = cat(&[px(1), px(1), px(2), px(2)]);
    let row2 = cat(&[px(3), px(3), px(4), px(4)]);
    assert_eq!(
        sent,
        vec![
            (RAMWR as u16, cat(&[row1.clone(), row1])),
            (RAMWRC as u16, cat(&[row2.clone(), row2])),
            (RAMWRC as u16, cat(&[px(5), px(5)])),
        ]
    );
}

#[test]
fn complete_last_row_is_still_sent_once() {
    let sent = run(4, 10, &[grey(1), grey(2)]);
    assert_eq!(sent, vec![(RAMWR as u16, cat(&[px(1), px(1), px(2), px(2)]))]);
}

#[test]
fn odd_width_splits_a_colour_across_rows() {
    // width 3: a row is three panel pixels.
    let sent = run(3, 10, &[grey(1), grey(2)]);
    let row = cat(&[px(1), px(1), px(2)]);
    assert_eq!(
        sent,
        vec![(RAMWR as u16, cat(&[row.clone(), row])), (RAMWRC as u16, px(2))]
    );
}

#[test]
fn colours_beyond_the_budget_are_not_taken() {
    let sent = run(8, 2, &[grey(1), grey(2), grey(3)]);
    assert_eq!(sent, vec![(RAMWR as u16, cat(&[px(1), px(1), px(2), px(2)]))]);
}

#[test]
fn zero_budget_takes_nothing() {
    let p = RowPacker::new(4, 0);
    assert!(!p.wants_color());
}

#[test]
fn owed_copies_and_full_row() {
    let mut p = RowPacker::new(1, 5);
    let mut buf = vec![0u8; p.bytes_len()];
    assert!(p.wants_color());
    assert!(!p.owes_pixel());
    p.begin_color(&Rgb565::new(0, 0, 0));
    assert!(!p.wants_color());
    assert!(p.owes_pixel());
    assert!(!p.is_full());
    p.push_pixel(&mut buf);
    assert!(p.is_full());
    assert!(p.owes_pixel());
    assert_eq!(p.seal(&mut buf), RAMWR as u16);
    assert_eq!(buf, vec![0xff, 0xff, 0xff, 0xff]);
    assert!(!p.is_full());
    p.push_pixel(&mut buf);
    assert!(!p.owes_pixel());
    assert!(p.wants_color());
    assert_eq!(p.finish(), (RAMWRC as u16, 2));
}

#[test]
fn full_width_window_needs_the_whole_dma_buffer() {
    // Two rows of 480 panel pixels, two bytes each: the 480 * 4 byte buffers.
    assert_eq!(RowPacker::new(480, 0).bytes_len(), 480 * 4);
}

#[test]
fn zero_width_packer_still_sends_its_buffer() {
    let p = RowPacker::new(0, 0);
    assert_eq!(p.bytes_len(), 0);
    assert!(p.is_full());
    assert_eq!(p.finish(), (RAMWR as u16, 0));
}
