use hxd::hexdump::HexdumpLineWriter;
use hxd::options::{HexdOptions, HexdOptionsBuilder, IndexOffset, Spacing};
use hxd::reader::ByteSliceReader;
use hxd::render::{
    hex_visual_width, read_row_byte_aligned, spacing_count, trunc_ceil_usize, write_elision,
    write_hex_digits, write_row, write_row_ascii, write_row_bytes, write_row_index,
};
use hxd::row::RowBuffer;

fn row(bytes: &[u8], row_index: usize, elt_index: usize) -> RowBuffer {
    RowBuffer { buffer: bytes.to_vec(), length: bytes.len(), row_index, elt_index }
}

fn index(options: &HexdOptions, hint: Option<usize>, row_index: usize) -> String {
    let mut buf = Vec::new();
    write_row_index(&mut buf, options, hint, row_index);
    String::from_utf8(buf).unwrap()
}

#[test]
fn hex_widths() {
    assert_eq!(hex_visual_width(0), 0);
    assert_eq!(hex_visual_width(1), 1);
    assert_eq!(hex_visual_width(0xF), 1);
    assert_eq!(hex_visual_width(0x10), 2);
    assert_eq!(hex_visual_width(0xFFFF_FFFF), 8);
    assert_eq!(hex_visual_width(0x1_0000_0000), 9);
    assert_eq!(hex_visual_width(u128::MAX), 32);
}

#[test]
fn trunc_ceil() {
    assert_eq!(trunc_ceil_usize(0, 2), 0);
    assert_eq!(trunc_ceil_usize(1, 2), 0);
    assert_eq!(trunc_ceil_usize(2, 2), 4);
    assert_eq!(trunc_ceil_usize(3, 2), 4);
    assert_eq!(trunc_ceil_usize(4, 2), 6);
    assert_eq!(trunc_ceil_usize(7, 3), 9);
}

#[test]
fn hex_digits_are_the_lowest_ones() {
    let mut buf = vec![b'>'];
    write_hex_digits(&mut buf, 0xABCDEF, 4, true);
    assert_eq!(buf, b">CDEF");
    let mut buf = Vec::new();
    write_hex_digits(&mut buf, 0xABC, 8, false);
    assert_eq!(buf, b"00000abc");
    let mut buf = Vec::new();
    write_hex_digits(&mut buf, 0xABC, 0, false);
    assert_eq!(buf, b"");
}

#[test]
fn index_is_four_bytes_wide_at_least() {
    let o = HexdOptions::default();
    assert_eq!(index(&o, Some(16), 0), "00000000: ");
    assert_eq!(index(&o, Some(16), 0x10), "00000010: ");
    assert_eq!(index(&o, None, 0x10), "00000010: ");
    assert_eq!(index(&o, Some(0xFFFF_FFFF), 0xFFFF_FFFF), "FFFFFFFF: ");
    assert_eq!(index(&o, None, 0xFF_FFFF), "00FFFFFF: ");
    assert_eq!(index(&o, None, 0xFFFF_FFFF), "0000FFFFFFFF: ");
    assert_eq!(index(&o.uppercase(false), None, 0xAB), "000000ab: ");
}

#[test]
fn index_widens_with_the_hint() {
    let o = HexdOptions::default();
    assert_eq!(index(&o, Some(0xFFFF_FFFF), 0x10), "00000010: ");
    assert_eq!(index(&o, Some(0x1_0000_0000), 0x10), "0000000010: ");
    assert_eq!(index(&o, Some(0x100_0000_0000), 0x10), "000000000010: ");
    assert_eq!(index(&o.relative_offset(0xFF_0000_0000), Some(16), 0x10), "FF00000010: ");
    assert_eq!(index(&o.absolute_offset(0xFF_0000_0000), Some(16), 0x10), "FF00000010: ");
}

#[test]
fn index_without_a_hint_widens_with_the_index() {
    let o = HexdOptions::default();
    assert_eq!(index(&o, None, 0x1_0000_0000), "000100000000: ");
    assert_eq!(index(&o, None, 0x1000_0000_0000), "0000100000000000: ");
    assert_eq!(index(&o, None, 0x12_3456_789A_BCDE), "00123456789ABCDE: ");
}

#[test]
fn index_is_eight_bytes_wide_at_most() {
    let o = HexdOptions::default().relative_offset(usize::MAX);
    assert_eq!(index(&o, None, 0), "FFFFFFFFFFFFFFFF: ");
    assert_eq!(index(&o, Some(usize::MAX), 1), "0000000000000000: ");
    assert_eq!(index(&HexdOptions::default(), None, usize::MAX), "FFFFFFFFFFFFFFFF: ");
}

#[test]
fn index_cuts_what_the_hint_leaves_no_room_for() {
    let o = HexdOptions::default();
    assert_eq!(index(&o, Some(16), 0x12_3456_789A), "3456789A: ");
}

#[test]
fn index_modes() {
    let mut o = HexdOptions::default();
    o.print_range.skip = 0x20;
    assert_eq!(index(&o.offset(IndexOffset::Relative(5)), Some(64), 0x30), "00000035: ");
    assert_eq!(index(&o.offset(IndexOffset::Absolute(5)), Some(64), 0x30), "00000015: ");
    assert_eq!(index(&o.offset(IndexOffset::Absolute(5)), Some(64), 0x10), "00000005: ");
    assert_eq!(index(&o.show_index(false), Some(64), 0x30), "");
}

#[test]
fn columns_of_rows() {
    let o = HexdOptions::default().ungrouped(4, Spacing::Normal);
    let full = row(&[1, 2, 3, 4], 8, 8);
    let short = row(&[1, 2], 8, 8);
    let shifted = row(&[1, 2], 8, 10);
    let cols = |r: &RowBuffer, o: &HexdOptions| -> Vec<Option<u8>> {
        (0..4).map(|i| read_row_byte_aligned(r, o, i)).collect()
    };
    assert_eq!(cols(&full, &o), vec![Some(1), Some(2), Some(3), Some(4)]);
    assert_eq!(cols(&short, &o), vec![Some(1), Some(2), None, None]);
    assert_eq!(cols(&shifted, &o), vec![None, None, Some(1), Some(2)]);
    assert_eq!(cols(&shifted, &o.aligned(false)), vec![Some(1), Some(2), None, None]);
    assert_eq!(read_row_byte_aligned(&full, &o, 4), None);
}

#[test]
fn fields_of_rows() {
    let o = HexdOptions::default().ungrouped(4, Spacing::Normal);
    let shifted = row(&[0x41, 0x00], 8, 10);
    let mut buf = Vec::new();
    write_row_bytes(&mut buf, &shifted, &o);
    assert_eq!(buf, b"      41 00 ");
    let mut buf = Vec::new();
    write_row_bytes(&mut buf, &shifted, &o.show_ascii(false));
    assert_eq!(buf, b"      41 00");
    let mut buf = Vec::new();
    write_row_bytes(&mut buf, &shifted, &o.ungrouped(4, Spacing::NoSpace));
    assert_eq!(buf, b"    4100 ");
    let mut buf = Vec::new();
    write_row_ascii(&mut buf, &shifted, &o);
    assert_eq!(buf, b"|  A.|");
    let mut buf = Vec::new();
    write_row_ascii(&mut buf, &shifted, &o.show_ascii(false));
    assert_eq!(buf, b"");
    let mut buf = Vec::new();
    write_row(&mut buf, &shifted, &o, Some(12), 8);
    assert_eq!(buf, b"00000008:       41 00 |  A.|\n");
    let mut buf = Vec::new();
    write_elision(&mut buf);
    assert_eq!(buf, b"*");
    assert_eq!(spacing_count(Spacing::NoSpace), 0);
    assert_eq!(spacing_count(Spacing::Normal), 1);
    assert_eq!(spacing_count(Spacing::Wide), 2);
    assert_eq!(spacing_count(Spacing::UltraWide), 4);
}

#[test]
fn line_writer_steps() {
    let data = [0u8; 4];
    let o = HexdOptions::default().ungrouped(4, Spacing::NoSpace);
    let mut lw = HexdumpLineWriter::new(ByteSliceReader::new(&data), String::new(), o);
    lw.flush_line().unwrap();
    assert_eq!(lw.writer, "");
    lw.emit_elision().unwrap();
    assert_eq!(lw.writer, "*\n");
    lw.emit_row(&row(&[1, 2, 3, 4], 4, 4), 4).unwrap();
    assert_eq!(lw.writer, "*\n00000004: 01020304 |....|\n");
    lw.str_buffer.extend_from_slice(b"tail\n");
    lw.flush_line().unwrap();
    assert_eq!(lw.writer, "*\n00000004: 01020304 |....|\ntail\n");
    assert!(lw.str_buffer.is_empty());
}
