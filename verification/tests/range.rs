use hxd::options::{HexdOptions, HexdOptionsBuilder, HexdRange, IndexOffset, RangeBound};
use hxd::reader::ByteSliceReader;
use hxd::Hexd;

fn text(lines: &[&str]) -> String {
    lines.concat()
}

fn dump(input: &[u8], options: HexdOptions) -> String {
    Hexd::new_with_options(ByteSliceReader::new(input), options).dump_to::<String>().unwrap()
}

fn from(start: usize) -> (RangeBound, RangeBound) {
    (RangeBound::Included(start), RangeBound::Unbounded)
}

#[test]
fn simple_range_start_oneline() {
    let (s, e) = from(3);
    assert_eq!(
        dump(&[0u8; 16], HexdOptions::default().range(s, e)),
        "00000000:        00 0000 0000 0000 0000 0000 0000 |   .............|\n"
    );
}

#[test]
fn simple_range_start() {
    let (s, e) = from(3);
    assert_eq!(
        dump(&[0u8; 32], HexdOptions::default().range(s, e)),
        text(&[
            "00000000:        00 0000 0000 0000 0000 0000 0000 |   .............|\n",
            "00000010: 0000 0000 0000 0000 0000 0000 0000 0000 |................|\n",
        ])
    );
}

#[test]
fn simple_range_end() {
    assert_eq!(
        dump(
            &[0u8; 32],
            HexdOptions::default().range(RangeBound::Unbounded, RangeBound::Excluded(29))
        ),
        text(&[
            "00000000: 0000 0000 0000 0000 0000 0000 0000 0000 |................|\n",
            "00000010: 0000 0000 0000 0000 0000 0000 00        |.............   |\n",
        ])
    );
}

#[test]
fn simple_range_end_oneline() {
    assert_eq!(
        dump(
            &[0u8; 32],
            HexdOptions::default().range(RangeBound::Unbounded, RangeBound::Excluded(13))
        ),
        "00000000: 0000 0000 0000 0000 0000 0000 00        |.............   |\n"
    );
}

#[test]
fn simple_range_start_and_end() {
    assert_eq!(
        dump(
            &[0u8; 32],
            HexdOptions::default()
                .aligned(true)
                .range(RangeBound::Included(3), RangeBound::Excluded(29))
        ),
        text(&[
            "00000000:        00 0000 0000 0000 0000 0000 0000 |   .............|\n",
            "00000010: 0000 0000 0000 0000 0000 0000 00        |.............   |\n",
        ])
    );
}

#[test]
fn simple_range_start_and_end_oneline() {
    assert_eq!(
        dump(
            &[0u8; 32],
            HexdOptions::default()
                .aligned(true)
                .range(RangeBound::Included(3), RangeBound::Excluded(13))
        ),
        "00000000:        00 0000 0000 0000 0000 00        |   ..........   |\n"
    );
}

#[test]
fn inclusive_end_and_exclusive_start() {
    assert_eq!(
        dump(
            &[0u8; 32],
            HexdOptions::default()
                .aligned(true)
                .range(RangeBound::Excluded(2), RangeBound::Included(12))
        ),
        "00000000:        00 0000 0000 0000 0000 00        |   ..........   |\n"
    );
}

#[test]
fn overrange() {
    let (s, e) = from(16);
    assert_eq!(dump(&[0u8; 16], HexdOptions::default().aligned(true).range(s, e)), "");
}

#[test]
fn range_past_the_end_gives_nothing() {
    let (s, e) = from(100);
    assert_eq!(dump(&[0u8; 16], HexdOptions::default().range(s, e)), "");
}

#[test]
fn empty_window_gives_nothing() {
    assert_eq!(
        dump(
            &[0u8; 16],
            HexdOptions::default().range(RangeBound::Included(4), RangeBound::Excluded(4))
        ),
        ""
    );
}

#[test]
fn empty_input_gives_nothing() {
    assert_eq!(dump(&[], HexdOptions::default()), "");
}

#[test]
fn partial_overrange() {
    assert_eq!(
        dump(
            &[0u8; 32],
            HexdOptions::default()
                .aligned(true)
                .range(RangeBound::Included(19), RangeBound::Excluded(48))
        ),
        "00000010:        00 0000 0000 0000 0000 0000 0000 |   .............|\n"
    );
}

#[test]
fn unaligned_simple() {
    let (s, e) = from(3);
    assert_eq!(
        dump(&[0u8; 32], HexdOptions::default().aligned(false).range(s, e)),
        text(&[
            "00000003: 0000 0000 0000 0000 0000 0000 0000 0000 |................|\n",
            "00000013: 0000 0000 0000 0000 0000 0000 00        |.............   |\n",
        ])
    );
}

#[test]
fn unaligned_simple_oneline() {
    let (s, e) = from(3);
    assert_eq!(
        dump(&[0u8; 16], HexdOptions::default().aligned(false).range(s, e)),
        "00000003: 0000 0000 0000 0000 0000 0000 00        |.............   |\n"
    );
}

#[test]
fn aligned_and_unaligned_from_seven() {
    let v = vec![0u8; 32];
    let (s, e) = from(7);
    assert_eq!(
        dump(&v, HexdOptions::default().range(s, e).aligned(true)),
        text(&[
            "00000000:                  00 0000 0000 0000 0000 |       .........|\n",
            "00000010: 0000 0000 0000 0000 0000 0000 0000 0000 |................|\n"
        ])
    );
    assert_eq!(
        dump(&v, HexdOptions::default().range(s, e).aligned(false)),
        text(&[
            "00000007: 0000 0000 0000 0000 0000 0000 0000 0000 |................|\n",
            "00000017: 0000 0000 0000 0000 00                  |.........       |\n"
        ])
    );
}

#[test]
fn window_in_the_middle_of_a_long_stream() {
    assert_eq!(
        dump(
            &[0u8; 256],
            HexdOptions::default().range(RangeBound::Included(0x47), RangeBound::Excluded(0xb3))
        ),
        text(&[
            "00000040:                  00 0000 0000 0000 0000 |       .........|\n",
            "00000050: 0000 0000 0000 0000 0000 0000 0000 0000 |................|\n",
            "*\n",
            "000000A0: 0000 0000 0000 0000 0000 0000 0000 0000 |................|\n",
            "000000B0: 0000 00                                 |...             |\n",
        ])
    );
}

#[test]
fn simple_absolute_offset_and_range() {
    let (s, e) = from(3);
    assert_eq!(
        dump(&[0u8; 16], HexdOptions::default().aligned(false).absolute_offset(0).range(s, e)),
        "00000000: 0000 0000 0000 0000 0000 0000 00        |.............   |\n"
    );
}

#[test]
fn absolute_offset_counts_from_its_origin() {
    assert_eq!(
        dump(&[0u8; 64], HexdOptions::default().absolute_offset(0x201B)),
        text(&[
            "0000201B: 0000 0000 0000 0000 0000 0000 0000 0000 |................|\n",
            "*\n",
            "0000204B: 0000 0000 0000 0000 0000 0000 0000 0000 |................|\n",
        ])
    );
}

#[test]
fn simple_relative_offset() {
    assert_eq!(
        dump(&[0u8; 32], HexdOptions::default().aligned(false).relative_offset(0x1B0)),
        text(&[
            "000001B0: 0000 0000 0000 0000 0000 0000 0000 0000 |................|\n",
            "000001C0: 0000 0000 0000 0000 0000 0000 0000 0000 |................|\n",
        ])
    );
}

#[test]
fn offset_sets_the_index_mode() {
    assert_eq!(
        dump(&[0u8; 16], HexdOptions::default().offset(IndexOffset::Relative(0x10))),
        "00000010: 0000 0000 0000 0000 0000 0000 0000 0000 |................|\n"
    );
}

#[test]
fn simple_relative_offset_and_start_range() {
    let (s, e) = from(19);
    assert_eq!(
        dump(&[0u8; 48], HexdOptions::default().aligned(true).range(s, e).relative_offset(0x1B0)),
        text(&[
            "000001C0:        00 0000 0000 0000 0000 0000 0000 |   .............|\n",
            "000001D0: 0000 0000 0000 0000 0000 0000 0000 0000 |................|\n",
        ])
    );
}

#[test]
fn simple_relative_offset_and_start_end_range_no_autoskip() {
    let (s, e) = from(19);
    assert_eq!(
        dump(
            &[0u8; 64],
            HexdOptions::default().aligned(true).range(s, e).autoskip(false).relative_offset(0x1B0)
        ),
        text(&[
            "000001C0:        00 0000 0000 0000 0000 0000 0000 |   .............|\n",
            "000001D0: 0000 0000 0000 0000 0000 0000 0000 0000 |................|\n",
            "000001E0: 0000 0000 0000 0000 0000 0000 0000 0000 |................|\n",
        ])
    );
}

#[test]
fn simple_relative_offset_and_start_range_false_autoskip() {
    let (s, e) = from(19);
    assert_eq!(
        dump(
            &[0u8; 64],
            HexdOptions::default().aligned(true).range(s, e).autoskip(true).relative_offset(0x1B0)
        ),
        text(&[
            "000001C0:        00 0000 0000 0000 0000 0000 0000 |   .............|\n",
            "000001D0: 0000 0000 0000 0000 0000 0000 0000 0000 |................|\n",
            "000001E0: 0000 0000 0000 0000 0000 0000 0000 0000 |................|\n",
        ])
    );
}

#[test]
fn simple_relative_offset_and_start_range_autoskip() {
    let (s, e) = from(19);
    assert_eq!(
        dump(
            &[0u8; 80],
            HexdOptions::default().aligned(true).range(s, e).autoskip(true).relative_offset(0x1B0)
        ),
        text(&[
            "000001C0:        00 0000 0000 0000 0000 0000 0000 |   .............|\n",
            "000001D0: 0000 0000 0000 0000 0000 0000 0000 0000 |................|\n",
            "*\n",
            "000001F0: 0000 0000 0000 0000 0000 0000 0000 0000 |................|\n",
        ])
    );
}

#[test]
fn large_relative_offset_keeps_eight_digits() {
    assert_eq!(
        dump(
            &[0u8; 256],
            HexdOptions::default()
                .range(RangeBound::Included(0x47), RangeBound::Excluded(0xb3))
                .relative_offset(0xfff0000)
        ),
        text(&[
            "0FFF0040:                  00 0000 0000 0000 0000 |       .........|\n",
            "0FFF0050: 0000 0000 0000 0000 0000 0000 0000 0000 |................|\n",
            "*\n",
            "0FFF00A0: 0000 0000 0000 0000 0000 0000 0000 0000 |................|\n",
            "0FFF00B0: 0000 00                                 |...             |\n",
        ])
    );
}

#[test]
fn index_grows_past_four_bytes_with_the_offset() {
    assert_eq!(
        dump(&[0u8; 16], HexdOptions::default().relative_offset(0xF_FFFF_FFF0)),
        "0FFFFFFFF0: 0000 0000 0000 0000 0000 0000 0000 0000 |................|\n"
    );
}

#[test]
fn range_new_and_length() {
    let r = HexdRange::new(RangeBound::Included(3), RangeBound::Excluded(10));
    assert_eq!((r.skip, r.limit), (3, Some(10)));
    assert_eq!(r.length(), Some(7));
    let r = HexdRange::new(RangeBound::Excluded(3), RangeBound::Included(10));
    assert_eq!((r.skip, r.limit), (4, Some(11)));
    assert_eq!(r.length(), Some(7));
    let r = HexdRange::new(RangeBound::Unbounded, RangeBound::Unbounded);
    assert_eq!((r.skip, r.limit), (0, None));
    assert_eq!(r.length(), None);
    let f = HexdRange::full();
    assert_eq!((f.skip, f.limit), (0, None));
    assert_eq!(f.length(), None);
}
