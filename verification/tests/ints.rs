use hxd::endian::{byte_of, bytes_16, bytes_2, bytes_4, bytes_8, EndianBytes};
use hxd::grouped::{GroupedReader, GroupedSliceByteReader, GroupedSliceReader};
use hxd::hexd::{grouped_hexd, grouping_for};
use hxd::options::{Endianness, GroupSize, Grouping, Spacing};
use hxd::reader::ReadBytes;
use hxd::AsHexdGrouped;

fn text(lines: &[&str]) -> String {
    lines.concat()
}

#[test]
fn positive_i16_be_as() {
    let input = vec![0x72f0i16; 32];
    assert_eq!(
        input.as_hexd(Endianness::BigEndian).dump_to::<String>().unwrap(),
        text(&[
            "00000000: 72F0 72F0 72F0 72F0 72F0 72F0 72F0 72F0 |r.r.r.r.r.r.r.r.|\n",
            "*\n",
            "00000030: 72F0 72F0 72F0 72F0 72F0 72F0 72F0 72F0 |r.r.r.r.r.r.r.r.|\n",
        ])
    );
}

#[test]
fn negative_i16_be_as() {
    let input = vec![-0x79c2i16; 32];
    assert_eq!(
        input.as_hexd(Endianness::BigEndian).dump_to::<String>().unwrap(),
        text(&[
            "00000000: 863E 863E 863E 863E 863E 863E 863E 863E |.>.>.>.>.>.>.>.>|\n",
            "*\n",
            "00000030: 863E 863E 863E 863E 863E 863E 863E 863E |.>.>.>.>.>.>.>.>|\n",
        ])
    );
}

#[test]
fn u16_be_as() {
    let input = vec![0xd2f0u16; 32];
    assert_eq!(
        input.as_hexd(Endianness::BigEndian).dump_to::<String>().unwrap(),
        text(&[
            "00000000: D2F0 D2F0 D2F0 D2F0 D2F0 D2F0 D2F0 D2F0 |................|\n",
            "*\n",
            "00000030: D2F0 D2F0 D2F0 D2F0 D2F0 D2F0 D2F0 D2F0 |................|\n",
        ])
    );
}

#[test]
fn u16_le_as() {
    let input = vec![0xd2f0u16; 32];
    assert_eq!(
        input.as_hexd_le().dump_to::<String>().unwrap(),
        text(&[
            "00000000: F0D2 F0D2 F0D2 F0D2 F0D2 F0D2 F0D2 F0D2 |................|\n",
            "*\n",
            "00000030: F0D2 F0D2 F0D2 F0D2 F0D2 F0D2 F0D2 F0D2 |................|\n",
        ])
    );
}

#[test]
fn positive_i32_be_as() {
    let input = vec![0x72f072f0i32; 32];
    assert_eq!(
        input.as_hexd(Endianness::BigEndian).dump_to::<String>().unwrap(),
        text(&[
            "00000000: 72F072F0 72F072F0 72F072F0 72F072F0 |r.r.r.r.r.r.r.r.|\n",
            "*\n",
            "00000070: 72F072F0 72F072F0 72F072F0 72F072F0 |r.r.r.r.r.r.r.r.|\n",
        ])
    );
}

#[test]
fn negative_i32_be_as() {
    let input = vec![-0x79c279c2i32; 32];
    assert_eq!(
        input.as_hexd(Endianness::BigEndian).dump_to::<String>().unwrap(),
        text(&[
            "00000000: 863D863E 863D863E 863D863E 863D863E |.=.>.=.>.=.>.=.>|\n",
            "*\n",
            "00000070: 863D863E 863D863E 863D863E 863D863E |.=.>.=.>.=.>.=.>|\n",
        ])
    );
}

#[test]
fn u32_be_as() {
    let input = vec![0xd2f0d2f0u32; 32];
    assert_eq!(
        input.hexd_be().dump_to::<String>().unwrap(),
        text(&[
            "00000000: D2F0D2F0 D2F0D2F0 D2F0D2F0 D2F0D2F0 |................|\n",
            "*\n",
            "00000070: D2F0D2F0 D2F0D2F0 D2F0D2F0 D2F0D2F0 |................|\n",
        ])
    );
}

#[test]
fn u32_le_and_be_differ() {
    let input = vec![0x01020304u32; 4];
    assert_eq!(
        input.hexd(Endianness::BigEndian).dump_to::<String>().unwrap(),
        "00000000: 01020304 01020304 01020304 01020304 |................|\n"
    );
    assert_eq!(
        input.hexd_le().dump_to::<String>().unwrap(),
        "00000000: 04030201 04030201 04030201 04030201 |................|\n"
    );
    assert_eq!(
        input.as_hexd_be().dump_to::<String>().unwrap(),
        "00000000: 01020304 01020304 01020304 01020304 |................|\n"
    );
}

#[test]
fn positive_i64_be_as() {
    let input = vec![0x72f072f072f072f0i64; 32];
    assert_eq!(
        input.as_hexd(Endianness::BigEndian).dump_to::<String>().unwrap(),
        text(&[
            "00000000: 72F072F072F072F0 72F072F072F072F0 |r.r.r.r.r.r.r.r.|\n",
            "*\n",
            "000000F0: 72F072F072F072F0 72F072F072F072F0 |r.r.r.r.r.r.r.r.|\n",
        ])
    );
}

#[test]
fn negative_i64_be_as() {
    let input = vec![-0x79c279c279c279c2i64; 32];
    assert_eq!(
        input.as_hexd(Endianness::BigEndian).dump_to::<String>().unwrap(),
        text(&[
            "00000000: 863D863D863D863E 863D863D863D863E |.=.=.=.>.=.=.=.>|\n",
            "*\n",
            "000000F0: 863D863D863D863E 863D863D863D863E |.=.=.=.>.=.=.=.>|\n",
        ])
    );
}

#[test]
fn u64_be_as() {
    let input = vec![0xd2f0d2f0d2f0d2f0u64; 32];
    assert_eq!(
        input.as_hexd(Endianness::BigEndian).dump_to::<String>().unwrap(),
        text(&[
            "00000000: D2F0D2F0D2F0D2F0 D2F0D2F0D2F0D2F0 |................|\n",
            "*\n",
            "000000F0: D2F0D2F0D2F0D2F0 D2F0D2F0D2F0D2F0 |................|\n",
        ])
    );
}

#[test]
fn positive_i128_be_as() {
    let input = vec![0x72f072f072f072f072f072f072f072f0i128; 16];
    assert_eq!(
        input.as_hexd(Endianness::BigEndian).dump_to::<String>().unwrap(),
        text(&[
            "00000000: 72 F0 72 F0 72 F0 72 F0 72 F0 72 F0 72 F0 72 F0 |r.r.r.r.r.r.r.r.|\n",
            "*\n",
            "000000F0: 72 F0 72 F0 72 F0 72 F0 72 F0 72 F0 72 F0 72 F0 |r.r.r.r.r.r.r.r.|\n",
        ])
    );
}

#[test]
fn negative_i128_be_as() {
    let input = vec![-0x79c279c279c279c279c279c279c279c2i128; 16];
    assert_eq!(
        input.as_hexd(Endianness::BigEndian).dump_to::<String>().unwrap(),
        text(&[
            "00000000: 86 3D 86 3D 86 3D 86 3D 86 3D 86 3D 86 3D 86 3E |.=.=.=.=.=.=.=.>|\n",
            "*\n",
            "000000F0: 86 3D 86 3D 86 3D 86 3D 86 3D 86 3D 86 3D 86 3E |.=.=.=.=.=.=.=.>|\n",
        ])
    );
}

#[test]
fn u128_be_as() {
    let input = vec![0xd2f0d2f0d2f0d2f0d2f0d2f0d2f0d2f0u128; 16];
    assert_eq!(
        input.as_hexd(Endianness::BigEndian).dump_to::<String>().unwrap(),
        text(&[
            "00000000: D2 F0 D2 F0 D2 F0 D2 F0 D2 F0 D2 F0 D2 F0 D2 F0 |................|\n",
            "*\n",
            "000000F0: D2 F0 D2 F0 D2 F0 D2 F0 D2 F0 D2 F0 D2 F0 D2 F0 |................|\n",
        ])
    );
}

#[test]
fn slices_of_integers_dump_like_vectors() {
    let input = [0x0102u16, 0x0304];
    assert_eq!(
        input[..].as_hexd(Endianness::BigEndian).dump_to::<String>().unwrap(),
        "00000000: 0102 0304                               |....            |\n"
    );
    assert_eq!(
        grouped_hexd(&input[..], Endianness::LittleEndian).dump_to::<String>().unwrap(),
        "00000000: 0201 0403                               |....            |\n"
    );
}

#[test]
fn to_bytes_matches_the_standard_library() {
    let be = Endianness::BigEndian;
    let le = Endianness::LittleEndian;
    assert_eq!(0xABu8.to_bytes(be), [0xAB]);
    assert_eq!((-2i8).to_bytes(le), [0xFE]);
    for x in [0u16, 1, 0x1234, 0xFFFF, 0x8000] {
        assert_eq!(x.to_bytes(be), x.to_be_bytes());
        assert_eq!(x.to_bytes(le), x.to_le_bytes());
        assert_eq!(bytes_2(x, be), x.to_be_bytes());
    }
    for x in [0i16, -1, i16::MIN, i16::MAX, -0x79c2] {
        assert_eq!(x.to_bytes(be), x.to_be_bytes());
        assert_eq!(x.to_bytes(le), x.to_le_bytes());
    }
    for x in [0u32, 1, 0x12345678, u32::MAX] {
        assert_eq!(x.to_bytes(be), x.to_be_bytes());
        assert_eq!(x.to_bytes(le), x.to_le_bytes());
        assert_eq!(bytes_4(x, le), x.to_le_bytes());
    }
    for x in [0i32, -1, i32::MIN, i32::MAX, -0x79c279c2] {
        assert_eq!(x.to_bytes(be), x.to_be_bytes());
        assert_eq!(x.to_bytes(le), x.to_le_bytes());
    }
    for x in [0u64, 1, 0x0123456789ABCDEF, u64::MAX] {
        assert_eq!(x.to_bytes(be), x.to_be_bytes());
        assert_eq!(x.to_bytes(le), x.to_le_bytes());
        assert_eq!(bytes_8(x, be), x.to_be_bytes());
    }
    for x in [0i64, -1, i64::MIN, i64::MAX] {
        assert_eq!(x.to_bytes(be), x.to_be_bytes());
        assert_eq!(x.to_bytes(le), x.to_le_bytes());
    }
    for x in [0u128, 1, 0x0123456789ABCDEF_FEDCBA9876543210, u128::MAX] {
        assert_eq!(x.to_bytes(be), x.to_be_bytes());
        assert_eq!(x.to_bytes(le), x.to_le_bytes());
        assert_eq!(bytes_16(x, le), x.to_le_bytes());
    }
    for x in [0i128, -1, i128::MIN, i128::MAX] {
        assert_eq!(x.to_bytes(be), x.to_be_bytes());
        assert_eq!(x.to_bytes(le), x.to_le_bytes());
    }
    assert_eq!(byte_of(0x0A0B0C, 0), 0x0C);
    assert_eq!(byte_of(0x0A0B0C, 1), 0x0B);
    assert_eq!(byte_of(0x0A0B0C, 2), 0x0A);
    assert_eq!(byte_of(0x0A0B0C, 3), 0);
}

#[test]
fn grouped_byte_reader_reads_and_skips() {
    let input = [0x0102u16, 0x0304, 0x0506, 0x0708];
    let mut r = GroupedSliceByteReader::new(&input[..], Endianness::BigEndian);
    assert_eq!(r.total_byte_hint(), Some(8));
    assert_eq!(r.next_byte(), Some(1));
    assert_eq!(r.next_bytes(2), vec![2, 3]);
    assert_eq!(r.advance_indices_by(2), 2);
    assert_eq!(r.next_n(2).unwrap(), vec![6, 7]);
    assert_eq!(r.skip_n(5).unwrap(), 1);
    assert_eq!(r.next_byte(), None);
    assert_eq!(r.next_bytes(4), Vec::<u8>::new());
    assert_eq!(r.skip_n(1).unwrap(), 0);
    assert_eq!(r.total_byte_hint(), Some(8));
}

#[test]
fn grouped_byte_reader_skips_whole_integers() {
    let input = [0x01020304u32, 0x05060708, 0x090A0B0C];
    let mut r = GroupedSliceByteReader::new(&input[..], Endianness::LittleEndian);
    assert_eq!(r.skip_n(4).unwrap(), 4);
    assert_eq!(r.next_n(3).unwrap(), vec![8, 7, 6]);
    assert_eq!(r.skip_n(1).unwrap(), 1);
    assert_eq!(r.next_n(16).unwrap(), vec![0x0C, 0x0B, 0x0A, 0x09]);
    let mut r = GroupedSliceByteReader::new(&input[..], Endianness::BigEndian);
    assert_eq!(r.skip_n(8).unwrap(), 8);
    assert_eq!(r.next_n(1).unwrap(), vec![9]);
    let mut r = GroupedSliceByteReader::new(&input[..], Endianness::BigEndian);
    assert_eq!(r.skip_n(12).unwrap(), 12);
    assert_eq!(r.next_byte(), None);
    let mut r = GroupedSliceByteReader::new(&input[..], Endianness::BigEndian);
    assert_eq!(r.skip_n(usize::MAX).unwrap(), 12);
}

#[test]
fn grouped_reader_reads_integers() {
    let input = [0x0102u16, 0x0304];
    let mut r = GroupedSliceReader::new(&input[..]);
    assert_eq!(r.size(), 2);
    assert_eq!(r.next(Endianness::BigEndian), Some([1, 2]));
    assert_eq!(r.read_next(Endianness::LittleEndian), Some([4, 3]));
    assert_eq!(r.next(Endianness::BigEndian), None);
    assert_eq!(r.read_next(Endianness::BigEndian), None);
}

#[test]
fn layouts_for_integer_sizes() {
    assert_eq!(
        grouping_for(2),
        Grouping::Grouped {
            group_size: GroupSize::Short,
            byte_spacing: Spacing::NoSpace,
            num_groups: 8,
            group_spacing: Spacing::Normal
        }
    );
    assert_eq!(
        grouping_for(4),
        Grouping::Grouped {
            group_size: GroupSize::Int,
            byte_spacing: Spacing::NoSpace,
            num_groups: 4,
            group_spacing: Spacing::Normal
        }
    );
    assert_eq!(
        grouping_for(8),
        Grouping::Grouped {
            group_size: GroupSize::Long,
            byte_spacing: Spacing::NoSpace,
            num_groups: 2,
            group_spacing: Spacing::Normal
        }
    );
    assert_eq!(
        grouping_for(16),
        Grouping::Grouped {
            group_size: GroupSize::ULong,
            byte_spacing: Spacing::Normal,
            num_groups: 1,
            group_spacing: Spacing::Normal
        }
    );
    assert_eq!(grouping_for(3), Grouping::default());
}

#[test]
fn signed_bytes_dump_as_their_bytes() {
    let input = vec![-1i8, 0, 1, -128];
    assert_eq!(
        hxd::AsHexd::as_hexd(&input).dump_to::<String>().unwrap(),
        "00000000: FF00 0180                               |....            |\n"
    );
    assert_eq!(
        hxd::hexd::signed_hexd(&input[..2]).dump_to::<String>().unwrap(),
        "00000000: FF00                                    |..              |\n"
    );
}
