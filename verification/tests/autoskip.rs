use hxd::options::{GroupSize, HexdOptions, HexdOptionsBuilder, RangeBound, Spacing};
use hxd::reader::ByteSliceReader;
use hxd::Hexd;

fn text(lines: &[&str]) -> String {
    lines.concat()
}

fn bytes(ranges: &[(u8, usize)]) -> Vec<u8> {
    let mut v = Vec::new();
    for (b, n) in ranges {
        v.extend(std::iter::repeat(*b).take(*n));
    }
    v
}

fn dump(input: &[u8], options: HexdOptions) -> String {
    Hexd::new_with_options(ByteSliceReader::new(input), options).dump_to::<String>().unwrap()
}

fn autoskip_test_options() -> HexdOptions {
    HexdOptions::default().grouped((GroupSize::Short, Spacing::NoSpace), (2, Spacing::Normal))
}

#[test]
fn one_line_is_not_autoskipped() {
    assert_eq!(dump(&bytes(&[(0, 4)]), autoskip_test_options()), "00000000: 0000 0000 |....|\n");
}

#[test]
fn two_equal_lines_are_not_autoskipped() {
    assert_eq!(
        dump(&bytes(&[(0, 8)]), autoskip_test_options()),
        text(&["00000000: 0000 0000 |....|\n", "00000004: 0000 0000 |....|\n",])
    );
}

#[test]
fn three_equal_lines_are_autoskipped() {
    assert_eq!(
        dump(&bytes(&[(0, 12)]), autoskip_test_options()),
        text(&["00000000: 0000 0000 |....|\n", "*\n", "00000008: 0000 0000 |....|\n",])
    );
}

#[test]
fn four_equal_lines_are_autoskipped() {
    assert_eq!(
        dump(&bytes(&[(0, 16)]), autoskip_test_options()),
        text(&["00000000: 0000 0000 |....|\n", "*\n", "0000000C: 0000 0000 |....|\n",])
    );
}

#[test]
fn partial_ending_line_is_not_included_in_autoskip() {
    assert_eq!(
        dump(&bytes(&[(0, 17)]), autoskip_test_options()),
        text(&[
            "00000000: 0000 0000 |....|\n",
            "*\n",
            "0000000C: 0000 0000 |....|\n",
            "00000010: 00        |.   |\n",
        ])
    );
}

#[test]
fn partial_beginning_line_is_not_included_in_autoskip() {
    assert_eq!(
        dump(
            &bytes(&[(0, 16)]),
            autoskip_test_options().range(RangeBound::Included(3), RangeBound::Unbounded)
        ),
        text(&[
            "00000000:        00 |   .|\n",
            "00000004: 0000 0000 |....|\n",
            "*\n",
            "0000000C: 0000 0000 |....|\n",
        ])
    );
}

#[test]
fn two_aligned_autoskips_are_handled() {
    assert_eq!(
        dump(&bytes(&[(0, 16), (2, 16)]), autoskip_test_options()),
        text(&[
            "00000000: 0000 0000 |....|\n",
            "*\n",
            "0000000C: 0000 0000 |....|\n",
            "00000010: 0202 0202 |....|\n",
            "*\n",
            "0000001C: 0202 0202 |....|\n",
        ])
    );
}

#[test]
fn one_aligned_autoskip_and_one_false_autoskip_are_handled() {
    assert_eq!(
        dump(&bytes(&[(0, 16), (2, 8), (3, 4)]), autoskip_test_options()),
        text(&[
            "00000000: 0000 0000 |....|\n",
            "*\n",
            "0000000C: 0000 0000 |....|\n",
            "00000010: 0202 0202 |....|\n",
            "00000014: 0202 0202 |....|\n",
            "00000018: 0303 0303 |....|\n",
        ])
    );
}

#[test]
fn two_unaligned_autoskips_are_handled() {
    assert_eq!(
        dump(&bytes(&[(0, 17), (2, 15)]), autoskip_test_options()),
        text(&[
            "00000000: 0000 0000 |....|\n",
            "*\n",
            "0000000C: 0000 0000 |....|\n",
            "00000010: 0002 0202 |....|\n",
            "00000014: 0202 0202 |....|\n",
            "*\n",
            "0000001C: 0202 0202 |....|\n",
        ])
    );
}

#[test]
fn autoskip_off_shows_every_row() {
    assert_eq!(
        dump(&bytes(&[(5, 64)]), HexdOptions::default().autoskip(false)),
        text(&[
            "00000000: 0505 0505 0505 0505 0505 0505 0505 0505 |................|\n",
            "00000010: 0505 0505 0505 0505 0505 0505 0505 0505 |................|\n",
            "00000020: 0505 0505 0505 0505 0505 0505 0505 0505 |................|\n",
            "00000030: 0505 0505 0505 0505 0505 0505 0505 0505 |................|\n",
        ])
    );
}

#[test]
fn autoskip_on_collapses_default_rows() {
    assert_eq!(
        dump(&bytes(&[(5, 64)]), HexdOptions::default().autoskip(true)),
        text(&[
            "00000000: 0505 0505 0505 0505 0505 0505 0505 0505 |................|\n",
            "*\n",
            "00000030: 0505 0505 0505 0505 0505 0505 0505 0505 |................|\n",
        ])
    );
}

#[test]
fn repeated_rows_that_are_not_uniform_are_all_shown() {
    let mut input = Vec::new();
    for _ in 0..4 {
        input.extend_from_slice(&[0u8, 1, 2, 3]);
    }
    assert_eq!(
        dump(&input, HexdOptions::default().ungrouped(4, Spacing::NoSpace)),
        text(&[
            "00000000: 00010203 |....|\n",
            "00000004: 00010203 |....|\n",
            "00000008: 00010203 |....|\n",
            "0000000C: 00010203 |....|\n",
        ])
    );
}

#[test]
fn rows_of_repeating_groups_are_collapsed() {
    let mut input = Vec::new();
    for _ in 0..8 {
        input.extend_from_slice(&[0xABu8, 0xCD]);
    }
    assert_eq!(
        dump(&input, autoskip_test_options()),
        text(&[
            "00000000: ABCD ABCD |....|\n",
            "*\n",
            "0000000C: ABCD ABCD |....|\n",
        ])
    );
}

#[test]
fn rows_of_differing_groups_are_not_collapsed() {
    let mut input = Vec::new();
    for _ in 0..3 {
        input.extend_from_slice(&[0xABu8, 0xCD, 0xAB, 0xCE]);
    }
    assert_eq!(
        dump(&input, autoskip_test_options()),
        text(&[
            "00000000: ABCD ABCE |....|\n",
            "00000004: ABCD ABCE |....|\n",
            "00000008: ABCD ABCE |....|\n",
        ])
    );
}

#[test]
fn sixteen_zero_bytes_in_rows_of_four_collapse_to_first_star_last() {
    assert_eq!(
        dump(&[0u8; 16], HexdOptions::default().ungrouped(4, Spacing::NoSpace).autoskip(true)),
        text(&["00000000: 00000000 |....|\n", "*\n", "0000000C: 00000000 |....|\n",])
    );
}

#[test]
fn two_differing_rows_are_both_shown() {
    assert_eq!(
        dump(
            &[0x00, 0x00, 0x00, 0x00, 0x0F, 0x0F, 0x0F, 0x0F],
            HexdOptions::default().ungrouped(4, Spacing::NoSpace)
        ),
        text(&["00000000: 00000000 |....|\n", "00000004: 0F0F0F0F |....|\n",])
    );
}

#[test]
fn skip_three_of_sixteen_zero_bytes_gives_one_shifted_row() {
    assert_eq!(
        dump(
            &[0u8; 16],
            HexdOptions::default()
                .ungrouped(16, Spacing::NoSpace)
                .aligned(true)
                .range(RangeBound::Included(3), RangeBound::Unbounded)
        ),
        "00000000:       00000000000000000000000000 |   .............|\n"
    );
}
