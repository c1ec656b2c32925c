//! The entry point: a source paired with the options of its dump.
use vstd::prelude::*;
use crate::hexdump::{spec_dump_lines, spec_dumped, HexdumpLineWriter};
use crate::endian::EndianBytes;
use crate::grouped::{spec_flat, GroupedSliceByteReader};
use crate::options::{Endianness, GroupSize, Grouping, HexdOptions, HexdOptionsBuilder, Spacing};
use crate::reader::{ByteSliceReader, ReadBytes};
use crate::writer::WriteHexdump;

verus! {

/// A source of bytes and the options with which it is dumped.
pub struct Hexd<R: ReadBytes> {
    pub reader: R,
    pub options: HexdOptions,
}

impl<R: ReadBytes> Hexd<R> {
    /// The options describe a dump, and the length of what a known source
    /// holds is a machine integer.
    pub open spec fn wf(&self) -> bool {
        &&& self.options.wf()
        &&& self.reader.known() ==> self.reader.remaining().len() <= usize::MAX
    }

    /// The lines of the dump.
    pub open spec fn spec_lines(&self) -> Seq<Seq<u8>> {
        spec_dump_lines(self.options, self.reader.spec_total_byte_hint(), self.reader.remaining())
    }

    /// A dump of what `reader` holds, with the default options.
    pub fn new(reader: R) -> (h: Self)
        ensures
            h.reader == reader,
            h.options == HexdOptions::spec_default(),
    {
        Hexd { reader, options: HexdOptions::default() }
    }

    /// A dump of what `reader` holds, with the given options.
    pub fn new_with_options(reader: R, options: HexdOptions) -> (h: Self)
        ensures
            h.reader == reader,
            h.options == options,
    {
        Hexd { reader, options }
    }

    /// Writes the dump to a sink made for it and returns what the sink
    /// gives back, or the error with which the source failed.
    pub fn dump_to<W: WriteHexdump + Default>(self) -> (r: Result<W::Output, R::Error>)
        requires
            self.wf(),
        ensures
            self.reader.known() && self.reader.infallible() ==> r is Ok,
            self.reader.known() ==> (r matches Ok(out) ==> exists|start: W| #[trigger]
                call_ensures(W::default, (), start) && spec_dumped(start, self.spec_lines(), out)),
    {
        let writer = W::default();
        let hlw = HexdumpLineWriter::new(self.reader, writer, self.options);
        hlw.do_hexdump()
    }

    /// Writes the dump to `writer` and returns what the sink gives back, or
    /// the error with which the source failed.
    pub fn dump_into<W: WriteHexdump>(self, writer: W) -> (r: Result<W::Output, R::Error>)
        requires
            self.wf(),
        ensures
            self.reader.known() && self.reader.infallible() ==> r is Ok,
            self.reader.known() ==> (r matches Ok(out) ==> spec_dumped(
                writer,
                self.spec_lines(),
                out,
            )),
    {
        let hlw = HexdumpLineWriter::new(self.reader, writer, self.options);
        hlw.do_hexdump()
    }
}

impl<R: ReadBytes> HexdOptionsBuilder for Hexd<R> {
    open spec fn spec_options(&self) -> HexdOptions {
        self.options
    }

    open spec fn spec_with_options(self, o: HexdOptions) -> Self {
        Hexd { reader: self.reader, options: o }
    }

    fn as_options(&self) -> (o: &HexdOptions) {
        &self.options
    }

    fn with_options(self, o: HexdOptions) -> (r: Self) {
        Hexd { reader: self.reader, options: o }
    }
}

/// A value whose bytes can be dumped where they are.
pub trait AsHexd<'a, R: ReadBytes> {
    /// The bytes that a dump of the value shows.
    spec fn dump_bytes(&self) -> Seq<u8>;

    /// A dump of the value's bytes with the default options, from a source
    /// that cannot fail and gives the number of bytes as its length.
    fn as_hexd(&'a self) -> (h: Hexd<R>)
        ensures
            h.reader.known(),
            h.reader.remaining() == self.dump_bytes(),
            h.reader.spec_total_byte_hint() == Some(self.dump_bytes().len() as usize),
            h.reader.infallible(),
            h.options == HexdOptions::spec_default(),
            h.wf(),
    ;

    /// The same as `as_hexd`.
    fn hexd(&'a self) -> (h: Hexd<R>)
        ensures
            h.reader.known(),
            h.reader.remaining() == self.dump_bytes(),
            h.reader.spec_total_byte_hint() == Some(self.dump_bytes().len() as usize),
            h.reader.infallible(),
            h.options == HexdOptions::spec_default(),
            h.wf(),
    {
        self.as_hexd()
    }
}

impl<'a> AsHexd<'a, ByteSliceReader<'a>> for [u8] {
    open spec fn dump_bytes(&self) -> Seq<u8> {
        self@
    }

    fn as_hexd(&'a self) -> (h: Hexd<ByteSliceReader<'a>>) {
        Hexd::new(ByteSliceReader::new(self))
    }
}

impl<'a> AsHexd<'a, ByteSliceReader<'a>> for Vec<u8> {
    open spec fn dump_bytes(&self) -> Seq<u8> {
        self@
    }

    fn as_hexd(&'a self) -> (h: Hexd<ByteSliceReader<'a>>) {
        Hexd::new(ByteSliceReader::new(self.as_slice()))
    }
}

impl<'a, const N: usize> AsHexd<'a, ByteSliceReader<'a>> for [u8; N] {
    open spec fn dump_bytes(&self) -> Seq<u8> {
        self@
    }

    fn as_hexd(&'a self) -> (h: Hexd<ByteSliceReader<'a>>) {
        Hexd::new(ByteSliceReader::new(self.as_slice()))
    }
}

impl<'a> AsHexd<'a, ByteSliceReader<'a>> for str {
    open spec fn dump_bytes(&self) -> Seq<u8> {
        vstd::string::StringSliceAdditionalSpecFns::spec_bytes(self)
    }

    fn as_hexd(&'a self) -> (h: Hexd<ByteSliceReader<'a>>) {
        Hexd::new(ByteSliceReader::new(self.as_bytes()))
    }
}

/// A dump of the bytes that stand for the signed bytes of `slice`, with the
/// default options.
pub fn signed_hexd<'a>(slice: &'a [i8]) -> (h: Hexd<GroupedSliceByteReader<'a, i8, 1>>)
    ensures
        h.reader.known(),
        h.reader.remaining() == spec_flat::<i8, 1>(slice@, Endianness::BigEndian),
        h.reader.spec_total_byte_hint() == Some(
            spec_flat::<i8, 1>(slice@, Endianness::BigEndian).len() as usize,
        ),
        h.reader.infallible(),
        h.options == HexdOptions::spec_default(),
        h.wf(),
{
    let len: usize = slice.len();
    proof {
        crate::grouped::lemma_flat_len::<i8, 1>(slice@, Endianness::BigEndian);
    }
    Hexd::new(GroupedSliceByteReader::new(slice, Endianness::BigEndian))
}

impl<'a> AsHexd<'a, GroupedSliceByteReader<'a, i8, 1>> for [i8] {
    open spec fn dump_bytes(&self) -> Seq<u8> {
        spec_flat::<i8, 1>(self@, Endianness::BigEndian)
    }

    fn as_hexd(&'a self) -> (h: Hexd<GroupedSliceByteReader<'a, i8, 1>>) {
        signed_hexd(self)
    }
}

impl<'a> AsHexd<'a, GroupedSliceByteReader<'a, i8, 1>> for Vec<i8> {
    open spec fn dump_bytes(&self) -> Seq<u8> {
        spec_flat::<i8, 1>(self@, Endianness::BigEndian)
    }

    fn as_hexd(&'a self) -> (h: Hexd<GroupedSliceByteReader<'a, i8, 1>>) {
        signed_hexd(self.as_slice())
    }
}

/// The layout in which integers of `n` bytes are dumped: one group for
/// each integer, as many as fill sixteen bytes; the default layout for
/// other sizes.
pub open spec fn spec_grouping_for(n: usize) -> Grouping {
    if n == 2 {
        Grouping::Grouped {
            group_size: GroupSize::Short,
            byte_spacing: Spacing::NoSpace,
            num_groups: 8,
            group_spacing: Spacing::Normal,
        }
    } else if n == 4 {
        Grouping::Grouped {
            group_size: GroupSize::Int,
            byte_spacing: Spacing::NoSpace,
            num_groups: 4,
            group_spacing: Spacing::Normal,
        }
    } else if n == 8 {
        Grouping::Grouped {
            group_size: GroupSize::Long,
            byte_spacing: Spacing::NoSpace,
            num_groups: 2,
            group_spacing: Spacing::Normal,
        }
    } else if n == 16 {
        Grouping::Grouped {
            group_size: GroupSize::ULong,
            byte_spacing: Spacing::Normal,
            num_groups: 1,
            group_spacing: Spacing::Normal,
        }
    } else {
        Grouping::spec_default()
    }
}

/// The layout in which integers of `n` bytes are dumped.
pub fn grouping_for(n: usize) -> (g: Grouping)
    ensures
        g == spec_grouping_for(n),
        g.wf(),
{
    if n == 2 {
        Grouping::Grouped {
            group_size: GroupSize::Short,
            byte_spacing: Spacing::NoSpace,
            num_groups: 8,
            group_spacing: Spacing::Normal,
        }
    } else if n == 4 {
        Grouping::Grouped {
            group_size: GroupSize::Int,
            byte_spacing: Spacing::NoSpace,
            num_groups: 4,
            group_spacing: Spacing::Normal,
        }
    } else if n == 8 {
        Grouping::Grouped {
            group_size: GroupSize::Long,
            byte_spacing: Spacing::NoSpace,
            num_groups: 2,
            group_spacing: Spacing::Normal,
        }
    } else if n == 16 {
        Grouping::Grouped {
            group_size: GroupSize::ULong,
            byte_spacing: Spacing::Normal,
            num_groups: 1,
            group_spacing: Spacing::Normal,
        }
    } else {
        Grouping::default()
    }
}

/// A value made of integers whose bytes can be dumped where they are, in
/// either byte order.
pub trait AsHexdGrouped<'a, R: ReadBytes> {
    /// The bytes that a dump of the value shows in the given byte order.
    spec fn dump_bytes(&self, endianness: Endianness) -> Seq<u8>;

    /// The options of the dump: the default ones, with the layout that
    /// suits the size of the integers.
    spec fn dump_options(&self) -> HexdOptions;

    /// Whether the number of bytes is a machine integer.
    spec fn dump_fits(&self) -> bool;

    /// A dump of the value's bytes in the given byte order.
    fn as_hexd(&'a self, endianness: Endianness) -> (h: Hexd<R>)
        requires
            self.dump_fits(),
        ensures
            h.reader.known(),
            h.reader.remaining() == self.dump_bytes(endianness),
            h.reader.spec_total_byte_hint() == Some(self.dump_bytes(endianness).len() as usize),
            h.reader.infallible(),
            h.options == self.dump_options(),
            h.wf(),
    ;

    /// A dump of the value's bytes, most significant byte first.
    fn as_hexd_be(&'a self) -> (h: Hexd<R>)
        requires
            self.dump_fits(),
        ensures
            h.reader.known(),
            h.reader.remaining() == self.dump_bytes(Endianness::BigEndian),
            h.reader.spec_total_byte_hint() == Some(self.dump_bytes(Endianness::BigEndian).len() as usize),
            h.reader.infallible(),
            h.options == self.dump_options(),
            h.wf(),
    {
        self.as_hexd(Endianness::BigEndian)
    }

    /// A dump of the value's bytes, least significant byte first.
    fn as_hexd_le(&'a self) -> (h: Hexd<R>)
        requires
            self.dump_fits(),
        ensures
            h.reader.known(),
            h.reader.remaining() == self.dump_bytes(Endianness::LittleEndian),
            h.reader.spec_total_byte_hint() == Some(self.dump_bytes(Endianness::LittleEndian).len() as usize),
            h.reader.infallible(),
            h.options == self.dump_options(),
            h.wf(),
    {
        self.as_hexd(Endianness::LittleEndian)
    }

    /// The same as `as_hexd`.
    fn hexd(&'a self, endianness: Endianness) -> (h: Hexd<R>)
        requires
            self.dump_fits(),
        ensures
            h.reader.known(),
            h.reader.remaining() == self.dump_bytes(endianness),
            h.reader.spec_total_byte_hint() == Some(self.dump_bytes(endianness).len() as usize),
            h.reader.infallible(),
            h.options == self.dump_options(),
            h.wf(),
    {
        self.as_hexd(endianness)
    }

    /// The same as `as_hexd_be`.
    fn hexd_be(&'a self) -> (h: Hexd<R>)
        requires
            self.dump_fits(),
        ensures
            h.reader.known(),
            h.reader.remaining() == self.dump_bytes(Endianness::BigEndian),
            h.reader.spec_total_byte_hint() == Some(self.dump_bytes(Endianness::BigEndian).len() as usize),
            h.reader.infallible(),
            h.options == self.dump_options(),
            h.wf(),
    {
        self.as_hexd(Endianness::BigEndian)
    }

    /// The same as `as_hexd_le`.
    fn hexd_le(&'a self) -> (h: Hexd<R>)
        requires
            self.dump_fits(),
        ensures
            h.reader.known(),
            h.reader.remaining() == self.dump_bytes(Endianness::LittleEndian),
            h.reader.spec_total_byte_hint() == Some(self.dump_bytes(Endianness::LittleEndian).len() as usize),
            h.reader.infallible(),
            h.options == self.dump_options(),
            h.wf(),
    {
        self.as_hexd(Endianness::LittleEndian)
    }
}

/// An integer of more than one byte.
pub trait WideInt {
}

impl WideInt for u16 {
}

impl WideInt for i16 {
}

impl WideInt for u32 {
}

impl WideInt for i32 {
}

impl WideInt for u64 {
}

impl WideInt for i64 {
}

impl WideInt for u128 {
}

impl WideInt for i128 {
}

/// A dump of the integers of `slice` in the given byte order, with the
/// layout that suits their size.
pub fn grouped_hexd<'a, U: EndianBytes<N>, const N: usize>(
    slice: &'a [U],
    endianness: Endianness,
) -> (h: Hexd<GroupedSliceByteReader<'a, U, N>>)
    requires
        N > 0,
        slice@.len() * N <= usize::MAX,
    ensures
        h.reader.known(),
        h.reader.remaining() == spec_flat::<U, N>(slice@, endianness),
        h.reader.spec_total_byte_hint() == Some(
            spec_flat::<U, N>(slice@, endianness).len() as usize,
        ),
        h.reader.infallible(),
        h.options == (HexdOptions { grouping: spec_grouping_for(N), ..HexdOptions::spec_default() }),
        h.wf(),
{
    let reader = GroupedSliceByteReader::new(slice, endianness);
    let options = HexdOptions::default().grouping(grouping_for(N));
    proof {
        crate::grouped::lemma_flat_len::<U, N>(slice@, endianness);
    }
    Hexd { reader, options }
}

impl<'a, U: EndianBytes<N> + WideInt, const N: usize> AsHexdGrouped<
    'a,
    GroupedSliceByteReader<'a, U, N>,
> for [U] {
    open spec fn dump_bytes(&self, endianness: Endianness) -> Seq<u8> {
        spec_flat::<U, N>(self@, endianness)
    }

    open spec fn dump_options(&self) -> HexdOptions {
        HexdOptions { grouping: spec_grouping_for(N), ..HexdOptions::spec_default() }
    }

    open spec fn dump_fits(&self) -> bool {
        N > 0 && self@.len() * N <= usize::MAX
    }

    fn as_hexd(&'a self, endianness: Endianness) -> (h: Hexd<GroupedSliceByteReader<'a, U, N>>) {
        grouped_hexd(self, endianness)
    }
}

impl<'a, U: EndianBytes<N> + WideInt, const N: usize> AsHexdGrouped<
    'a,
    GroupedSliceByteReader<'a, U, N>,
> for Vec<U> {
    open spec fn dump_bytes(&self, endianness: Endianness) -> Seq<u8> {
        spec_flat::<U, N>(self@, endianness)
    }

    open spec fn dump_options(&self) -> HexdOptions {
        HexdOptions { grouping: spec_grouping_for(N), ..HexdOptions::spec_default() }
    }

    open spec fn dump_fits(&self) -> bool {
        N > 0 && self@.len() * N <= usize::MAX
    }

    fn as_hexd(&'a self, endianness: Endianness) -> (h: Hexd<GroupedSliceByteReader<'a, U, N>>) {
        grouped_hexd(self.as_slice(), endianness)
    }
}

} // verus!
