use starquake::display::{attr_offset_for, cell_offset, Display, HEIGHT, LEN, WIDTH};
use starquake::printer::{Printer, Font};

#[test]
fn cells_are_laid_out_in_thirds() {
    assert_eq!(cell_offset(0, 0), 0);
    assert_eq!(cell_offset(1, 0), 32);
    assert_eq!(cell_offset(8, 3), 2048 + 3);
    assert_eq!(cell_offset(23, 31), 4096 + 7 * 32 + 31);
    assert_eq!(cell_offset(7, 40), 8, "a column past the edge wraps round the third");
    assert_eq!(attr_offset_for(cell_offset(23, 31)), 6144 + 2 * 256 + 7 * 32 + 31);
}

#[test]
fn a_cell_is_eight_lines_apart() {
    let mut d = Display::default();
    let a = d.put_cell(1, 2, &[1, 2, 3, 4, 5, 6, 7, 8]);
    assert_eq!(a, 6144 + 32 + 2);
    for line in 0..8 {
        assert_eq!(d.mem[34 + line * 256], line as u8 + 1);
    }
    assert_eq!(d.mem.iter().filter(|&&b| b != 0).count(), 8);
}

#[test]
fn clearing_the_room_keeps_the_panel() {
    let mut d = Display::default();
    d.mem = [0xAA; LEN];
    d.clear_room_area();
    assert_eq!(d.mem[0], 0xAA, "the panel's first line");
    assert_eq!(d.mem[5 * 32 + 7], 0xAA, "row 5");
    assert_eq!(d.mem[6 * 32], 0, "row 6");
    assert_eq!(d.mem[2048], 0, "the second third");
    assert_eq!(d.attr(5, 0), 0xAA);
    assert_eq!(d.attr(6, 0), 0x47);
    assert_eq!(d.attr(23, 31), 0x47);
    assert_eq!(d.mem[6912], 0xAA, "the guard row");
}

#[test]
fn a_lit_pixel_takes_the_ink() {
    let mut d = Display::default();
    d.mem[0] = 0x80;
    d.mem[6144] = 0x47 | 0x80; // bright white ink on black, flashing
    let mut out = vec![0u32; WIDTH * HEIGHT];
    d.render(false, &mut out);
    assert_eq!(out[0], 0xFFFFFF);
    assert_eq!(out[1], 0x000000);
    d.render(true, &mut out);
    assert_eq!(out[0], 0x000000, "flashing swaps ink and paper");
    assert_eq!(out[1], 0xFFFFFF);
}

#[test]
fn printing_places_glyphs_and_colours() {
    let mut font: Font = [[0; 8]; 96];
    font[(b'A' - 0x20) as usize] = [0xFF; 8];
    let mut d = Display::default();
    let mut p = Printer::at(0, 0, 0x38, 0, 0);
    // AT 2,31, INK 2, 'A', then 'A' again, which wraps to the next line.
    p.print(&mut d, &font, &[], &[0x16, 2, 31, 0x10, 2, b'A', b'A']);
    assert_eq!(d.mem[2 * 32 + 31], 0xFF);
    assert_eq!(d.attr(2, 31), 0x3A);
    assert_eq!(d.mem[3 * 32], 0xFF, "wrapped");
    assert_eq!((p.row, p.col), (3, 1));
    // INVERSE 1 and a block graphic: top right quarter.
    p.print(&mut d, &font, &[], &[0x14, 1, 0x81]);
    assert_eq!(d.mem[3 * 32 + 1], 0xF0);
    assert_eq!(d.mem[3 * 32 + 1 + 4 * 256], 0xFF);
    // Backspace steps back a place.
    p.print(&mut d, &font, &[], &[0x08]);
    assert_eq!((p.row, p.col), (3, 1));
}
