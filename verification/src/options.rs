//! Display options of a dump, and the arithmetic that the grouping fixes.
use vstd::prelude::*;

verus! {

/// The numeric base in which byte values are written.
#[derive(Debug, Clone, Copy, PartialEq, Eq, Structural)]
pub enum Base {
    Hex,
    Decimal(LeadingZeroChar),
    Octal(LeadingZeroChar),
    Binary,
}

/// How leading zeroes are written in the decimal and octal bases.
#[derive(Debug, Clone, Copy, PartialEq, Eq, Structural)]
pub enum LeadingZeroChar {
    /// Leading zeroes are written as spaces.
    Space,
    /// Leading zeroes are written as `0`.
    Zero,
    /// Leading zeroes are written as underscores.
    Underscore,
}

/// Byte order in which a multi-byte integer is laid out.
#[derive(Debug, Clone, Copy, PartialEq, Eq, Structural)]
pub enum Endianness {
    BigEndian,
    LittleEndian,
}

/// The amount of blank space that follows a byte column.
#[derive(Debug, Clone, Copy, PartialEq, Eq, Structural)]
pub enum Spacing {
    /// No space.
    NoSpace,
    /// One space.
    Normal,
    /// Two spaces.
    Wide,
    /// Four spaces.
    UltraWide,
}

impl Spacing {
    /// The number of spaces that this spacing stands for.
    pub open spec fn count(&self) -> nat {
        match self {
            Spacing::NoSpace => 0,
            Spacing::Normal => 1,
            Spacing::Wide => 2,
            Spacing::UltraWide => 4,
        }
    }

    /// The spaces themselves.
    pub fn as_spaces(&self) -> (s: &'static [u8])
        ensures
            s@ == Seq::new(self.count(), |i: int| 0x20u8),
    {
        let s: &'static [u8] = match self {
            Spacing::NoSpace => &[],
            Spacing::Normal => &[0x20u8],
            Spacing::Wide => &[0x20u8, 0x20u8],
            Spacing::UltraWide => &[0x20u8, 0x20u8, 0x20u8, 0x20u8],
        };
        assert(s@ =~= Seq::new(self.count(), |i: int| 0x20u8));
        s
    }
}

/// The number of bytes that make up one group.
#[derive(Debug, Clone, Copy, PartialEq, Eq, Structural)]
pub enum GroupSize {
    /// Groups of one byte.
    Byte,
    /// Groups of two bytes.
    Short,
    /// Groups of four bytes.
    Int,
    /// Groups of eight bytes.
    Long,
    /// Groups of sixteen bytes.
    ULong,
}

impl GroupSize {
    /// The number of bytes in a group of this size.
    pub open spec fn spec_element_count(self) -> nat {
        match self {
            GroupSize::Byte => 1,
            GroupSize::Short => 2,
            GroupSize::Int => 4,
            GroupSize::Long => 8,
            GroupSize::ULong => 16,
        }
    }

    /// The number of bytes in a group of this size.
    pub fn element_count(self) -> (n: usize)
        ensures
            n == self.spec_element_count(),
    {
        match self {
            GroupSize::Byte => 1,
            GroupSize::Short => 2,
            GroupSize::Int => 4,
            GroupSize::Long => 8,
            GroupSize::ULong => 16,
        }
    }
}

/// One end of a range of stream offsets.
#[derive(Debug, Clone, Copy, PartialEq, Eq, Structural)]
pub enum RangeBound {
    /// The range has no end on this side.
    Unbounded,
    /// The range reaches up to and including the offset.
    Included(usize),
    /// The range reaches up to but not including the offset.
    Excluded(usize),
}

/// The window of the stream that a dump shows: the bytes from offset `skip`
/// up to, but not including, offset `limit`.
#[derive(Debug, Clone, Copy, PartialEq, Eq, Structural)]
pub struct HexdRange {
    /// The number of bytes to pass over before the first byte shown.
    pub skip: usize,
    /// The offset at which the window ends, if it ends before the stream does.
    pub limit: Option<usize>,
}

impl HexdRange {
    /// The window does not end before it starts.
    pub open spec fn wf(&self) -> bool {
        self.limit matches Some(l) ==> self.skip <= l
    }

    /// The number of bytes in the window, if it is bounded.
    pub open spec fn spec_length(&self) -> Option<nat> {
        match self.limit {
            Some(l) => Some((l - self.skip) as nat),
            None => None,
        }
    }

    /// The offset of the first byte that a range starting at `start` holds.
    pub open spec fn first_offset(start: RangeBound) -> nat {
        match start {
            RangeBound::Unbounded => 0,
            RangeBound::Included(s) => s as nat,
            RangeBound::Excluded(s) => s as nat + 1,
        }
    }

    /// The offset just past the last byte that a range ending at `end` holds.
    pub open spec fn end_offset(end: RangeBound) -> Option<nat> {
        match end {
            RangeBound::Unbounded => None,
            RangeBound::Included(e) => Some(e as nat + 1),
            RangeBound::Excluded(e) => Some(e as nat),
        }
    }

    /// The window between two bounds.
    pub open spec fn spec_new(start: RangeBound, end: RangeBound) -> HexdRange {
        HexdRange {
            skip: Self::first_offset(start) as usize,
            limit: match Self::end_offset(end) {
                Some(e) => Some(e as usize),
                None => None,
            },
        }
    }

    /// The window that holds the whole stream.
    pub fn full() -> (r: Self)
        ensures
            r.skip == 0,
            r.limit is None,
            r.wf(),
    {
        HexdRange { skip: 0, limit: None }
    }

    /// The window between two bounds.
    pub fn new(start: RangeBound, end: RangeBound) -> (r: Self)
        requires
            Self::first_offset(start) <= usize::MAX,
            Self::end_offset(end) matches Some(e) ==> e <= usize::MAX,
        ensures
            r == Self::spec_new(start, end),
    {
        let skip: usize = match start {
            RangeBound::Unbounded => 0,
            RangeBound::Included(s) => s,
            RangeBound::Excluded(s) => s + 1,
        };
        let limit: Option<usize> = match end {
            RangeBound::Unbounded => None,
            RangeBound::Included(e) => Some(e + 1),
            RangeBound::Excluded(e) => Some(e),
        };
        HexdRange { skip, limit }
    }

    /// The number of bytes in the window, if it is bounded.
    pub fn length(&self) -> (n: Option<usize>)
        requires
            self.wf(),
        ensures
            match self.spec_length() {
                Some(len) => n == Some(len as usize),
                None => n is None,
            },
    {
        match self.limit {
            Some(lim) => Some(lim - self.skip),
            None => None,
        }
    }
}

/// How the printed index relates to stream offsets.
#[derive(Debug, Clone, Copy, PartialEq, Eq, Structural)]
pub enum IndexOffset {
    /// The printed index is the stream offset plus this value.
    Relative(usize),
    /// The printed index counts from this value at the first byte shown.
    Absolute(usize),
}

/// The parameters of a grouped layout.
#[derive(Debug, Clone, Copy, PartialEq, Eq, Structural)]
pub struct GroupedOptions {
    pub group_size: GroupSize,
    pub byte_spacing: Spacing,
    pub num_groups: usize,
    pub group_spacing: Spacing,
}

impl Default for GroupedOptions {
    fn default() -> (r: Self)
        ensures
            r == (GroupedOptions {
                group_size: GroupSize::Short,
                byte_spacing: Spacing::NoSpace,
                num_groups: 8,
                group_spacing: Spacing::Normal,
            }),
    {
        GroupedOptions {
            group_size: GroupSize::Short,
            byte_spacing: Spacing::NoSpace,
            num_groups: 8,
            group_spacing: Spacing::Normal,
        }
    }
}

impl GroupedOptions {
    /// The same layout with another spacing inside groups.
    pub fn byte_spacing(self, byte_spacing: Spacing) -> (r: Self)
        ensures
            r == (GroupedOptions { byte_spacing, ..self }),
    {
        GroupedOptions { byte_spacing, ..self }
    }

    /// The same layout with another spacing between groups.
    pub fn group_spacing(self, group_spacing: Spacing) -> (r: Self)
        ensures
            r == (GroupedOptions { group_spacing, ..self }),
    {
        GroupedOptions { group_spacing, ..self }
    }

    /// The same layout with another number of groups per row.
    pub fn num_groups(self, num_groups: usize) -> (r: Self)
        ensures
            r == (GroupedOptions { num_groups, ..self }),
    {
        GroupedOptions { num_groups, ..self }
    }

    /// The same layout with another group size.
    pub fn group_size(self, group_size: GroupSize) -> (r: Self)
        ensures
            r == (GroupedOptions { group_size, ..self }),
    {
        GroupedOptions { group_size, ..self }
    }

    /// The grouping that this layout describes.
    pub fn grouping(self) -> (g: Grouping)
        ensures
            g == (Grouping::Grouped {
                group_size: self.group_size,
                byte_spacing: self.byte_spacing,
                num_groups: self.num_groups,
                group_spacing: self.group_spacing,
            }),
    {
        Grouping::Grouped {
            group_size: self.group_size,
            byte_spacing: self.byte_spacing,
            num_groups: self.num_groups,
            group_spacing: self.group_spacing,
        }
    }
}

/// How the bytes of a row are laid out.
#[derive(Debug, Clone, Copy, PartialEq, Eq, Structural)]
pub enum Grouping {
    /// `byte_count` bytes per row, each followed by `spacing`.
    Ungrouped { byte_count: usize, spacing: Spacing },
    /// `num_groups` groups of `group_size` bytes per row. A byte is followed by
    /// `byte_spacing` inside its group and by `group_spacing` at the group's end.
    Grouped {
        group_size: GroupSize,
        byte_spacing: Spacing,
        num_groups: usize,
        group_spacing: Spacing,
    },
}

impl Grouping {
    /// The number of bytes in a row.
    pub open spec fn spec_elt_width(&self) -> nat {
        match *self {
            Grouping::Ungrouped { byte_count, spacing } => byte_count as nat,
            Grouping::Grouped { group_size, byte_spacing, num_groups, group_spacing } =>
                group_size.spec_element_count() * (num_groups as nat),
        }
    }

    /// The number of bytes after which a row's content may repeat: one byte
    /// without groups, one group with them.
    pub open spec fn spec_unit(&self) -> nat {
        match *self {
            Grouping::Ungrouped { byte_count, spacing } => 1,
            Grouping::Grouped { group_size, byte_spacing, num_groups, group_spacing } =>
                group_size.spec_element_count(),
        }
    }

    /// The spacing that follows the byte in column `index`.
    pub open spec fn spec_spacing_for_index(&self, index: nat) -> Spacing {
        match *self {
            Grouping::Ungrouped { byte_count, spacing } => spacing,
            Grouping::Grouped { group_size, byte_spacing, num_groups, group_spacing } => {
                if index % group_size.spec_element_count() == group_size.spec_element_count() - 1 {
                    group_spacing
                } else {
                    byte_spacing
                }
            },
        }
    }

    /// A row holds at least one byte, and its width is a machine integer.
    pub open spec fn wf(&self) -> bool {
        0 < self.spec_elt_width() <= usize::MAX
    }

    /// The default grouping: eight groups of two bytes, with a space
    /// between groups.
    pub open spec fn spec_default() -> Grouping {
        Grouping::Grouped {
            group_size: GroupSize::Short,
            byte_spacing: Spacing::NoSpace,
            num_groups: 8,
            group_spacing: Spacing::Normal,
        }
    }

    /// The number of bytes in a row.
    pub fn elt_width(&self) -> (w: usize)
        requires
            self.spec_elt_width() <= usize::MAX,
        ensures
            w == self.spec_elt_width(),
    {
        match *self {
            Grouping::Ungrouped { byte_count, spacing: _ } => byte_count,
            Grouping::Grouped { group_size, num_groups, byte_spacing: _, group_spacing: _ } => {
                let n: usize = group_size.element_count();
                assert(n * num_groups == group_size.spec_element_count() * (num_groups as nat));
                n * num_groups
            },
        }
    }

    /// The spacing that follows the byte in column `index`.
    pub fn spacing_for_index(&self, index: usize) -> (s: Spacing)
        ensures
            s == self.spec_spacing_for_index(index as nat),
    {
        match *self {
            Grouping::Ungrouped { byte_count: _, spacing } => spacing,
            Grouping::Grouped { group_size, num_groups: _, byte_spacing, group_spacing } => {
                let elt_count: usize = group_size.element_count();
                if index % elt_count == elt_count - 1 {
                    group_spacing
                } else {
                    byte_spacing
                }
            },
        }
    }
}

impl Default for Grouping {
    fn default() -> (g: Self)
        ensures
            g == Grouping::spec_default(),
    {
        Grouping::Grouped {
            group_size: GroupSize::Short,
            byte_spacing: Spacing::NoSpace,
            num_groups: 8,
            group_spacing: Spacing::Normal,
        }
    }
}

/// Everything that decides how a dump looks.
#[derive(Debug, Clone, Copy, PartialEq, Eq, Structural)]
pub struct HexdOptions {
    /// The base in which byte values are written.
    pub base: Base,
    /// Whether runs of identical rows are collapsed into a `*` line.
    pub autoskip: bool,
    /// Whether digits above nine are written in upper case.
    pub uppercase: bool,
    /// Whether the ASCII panel is shown to the right of the byte values.
    pub show_ascii: bool,
    /// Whether the index is shown to the left of the byte values.
    pub show_index: bool,
    /// Whether rows start at multiples of the row width, so that a window
    /// starting elsewhere begins with a short, right-aligned row.
    pub align: bool,
    /// How the bytes of a row are laid out.
    pub grouping: Grouping,
    /// The window of the stream that is shown.
    pub print_range: HexdRange,
    /// How the printed index relates to stream offsets.
    pub index_offset: IndexOffset,
}

impl HexdOptions {
    /// The options describe a dump: rows are not empty and the window does
    /// not end before it starts.
    pub open spec fn wf(&self) -> bool {
        self.grouping.wf() && self.print_range.wf()
    }

    /// The number of bytes in a row.
    pub open spec fn spec_elt_width(&self) -> nat {
        self.grouping.spec_elt_width()
    }

    /// The default options: hexadecimal, upper case, index and ASCII panel
    /// shown, rows aligned and runs collapsed, the whole stream, offsets
    /// counted from zero.
    pub open spec fn spec_default() -> HexdOptions {
        HexdOptions {
            base: Base::Hex,
            autoskip: true,
            uppercase: true,
            show_ascii: true,
            show_index: true,
            align: true,
            grouping: Grouping::spec_default(),
            print_range: HexdRange { skip: 0, limit: None },
            index_offset: IndexOffset::Relative(0),
        }
    }

    /// The number of bytes in a row.
    pub fn elt_width(&self) -> (w: usize)
        requires
            self.spec_elt_width() <= usize::MAX,
        ensures
            w == self.spec_elt_width(),
    {
        self.grouping.elt_width()
    }
}

impl Default for HexdOptions {
    fn default() -> (o: Self)
        ensures
            o == HexdOptions::spec_default(),
            o.wf(),
    {
        HexdOptions {
            base: Base::Hex,
            autoskip: true,
            uppercase: true,
            show_ascii: true,
            show_index: true,
            align: true,
            grouping: Grouping::default(),
            print_range: HexdRange { skip: 0, limit: None },
            index_offset: IndexOffset::Relative(0),
        }
    }
}

/// A value that holds options and can be rebuilt with others. Each method
/// but `as_options` returns the value with one or two of its options
/// changed and everything else as it was.
pub trait HexdOptionsBuilder: Sized {
    /// The options that the value holds.
    spec fn spec_options(&self) -> HexdOptions;

    /// The value with `o` for its options.
    spec fn spec_with_options(self, o: HexdOptions) -> Self;

    /// The options that the value holds.
    fn as_options(&self) -> (o: &HexdOptions)
        ensures
            *o == self.spec_options(),
    ;

    /// The value with `o` for its options.
    fn with_options(self, o: HexdOptions) -> (r: Self)
        ensures
            r == self.spec_with_options(o),
    ;

    /// The value with its options replaced by what `f` makes of them.
    fn map_options<F: FnOnce(HexdOptions) -> HexdOptions>(self, f: F) -> (r: Self)
        requires
            f.requires((self.spec_options(),)),
        ensures
            exists|o: HexdOptions| #[trigger]
                f.ensures((self.spec_options(),), o) && r == self.spec_with_options(o),
    {
        let o: HexdOptions = *self.as_options();
        let mapped: HexdOptions = f(o);
        self.with_options(mapped)
    }

    /// Sets the base in which byte values are written.
    fn base(self, base: Base) -> (r: Self)
        ensures
            r == self.spec_with_options((HexdOptions { base: base, ..self.spec_options() })),
    {
        let o: HexdOptions = *self.as_options();
        self.with_options(HexdOptions { base: base, ..o })
    }

    /// Sets whether the ASCII panel is shown.
    fn show_ascii(self, show_ascii: bool) -> (r: Self)
        ensures
            r == self.spec_with_options((HexdOptions { show_ascii: show_ascii, ..self.spec_options() })),
    {
        let o: HexdOptions = *self.as_options();
        self.with_options(HexdOptions { show_ascii: show_ascii, ..o })
    }

    /// Sets whether the index is shown.
    fn show_index(self, show_index: bool) -> (r: Self)
        ensures
            r == self.spec_with_options((HexdOptions { show_index: show_index, ..self.spec_options() })),
    {
        let o: HexdOptions = *self.as_options();
        self.with_options(HexdOptions { show_index: show_index, ..o })
    }

    /// Sets whether rows start at multiples of the row width.
    fn aligned(self, align: bool) -> (r: Self)
        ensures
            r == self.spec_with_options((HexdOptions { align: align, ..self.spec_options() })),
    {
        let o: HexdOptions = *self.as_options();
        self.with_options(HexdOptions { align: align, ..o })
    }

    /// Sets whether digits above nine are written in upper case.
    fn uppercase(self, uppercase: bool) -> (r: Self)
        ensures
            r == self.spec_with_options((HexdOptions { uppercase: uppercase, ..self.spec_options() })),
    {
        let o: HexdOptions = *self.as_options();
        self.with_options(HexdOptions { uppercase: uppercase, ..o })
    }

    /// Sets how the bytes of a row are laid out.
    fn grouping(self, grouping: Grouping) -> (r: Self)
        ensures
            r == self.spec_with_options((HexdOptions { grouping: grouping, ..self.spec_options() })),
    {
        let o: HexdOptions = *self.as_options();
        self.with_options(HexdOptions { grouping: grouping, ..o })
    }

    /// Sets whether runs of identical rows are collapsed.
    fn autoskip(self, autoskip: bool) -> (r: Self)
        ensures
            r == self.spec_with_options((HexdOptions { autoskip: autoskip, ..self.spec_options() })),
    {
        let o: HexdOptions = *self.as_options();
        self.with_options(HexdOptions { autoskip: autoskip, ..o })
    }

    /// Sets how the printed index relates to stream offsets.
    fn offset(self, index_offset: IndexOffset) -> (r: Self)
        ensures
            r == self.spec_with_options((HexdOptions { index_offset: index_offset, ..self.spec_options() })),
    {
        let o: HexdOptions = *self.as_options();
        self.with_options(HexdOptions { index_offset: index_offset, ..o })
    }

    /// Sets the base to hexadecimal and the grouping to the default.
    fn hexadecimal(self) -> (r: Self)
        ensures
            r == self.spec_with_options(
                (HexdOptions {
                    base: Base::Hex,
                    grouping: Grouping::spec_default(),
                    ..self.spec_options()
                }),
            ),
    {
        let o: HexdOptions = *self.as_options();
        self.with_options(HexdOptions { base: Base::Hex, grouping: Grouping::default(), ..o })
    }

    /// Sets the base to decimal with spaces for leading zeroes, and the
    /// grouping to eight bytes with a space after each.
    fn decimal(self) -> (r: Self)
        ensures
            r == self.spec_with_options(
                (HexdOptions {
                    base: Base::Decimal(LeadingZeroChar::Space),
                    grouping: Grouping::Ungrouped { byte_count: 8, spacing: Spacing::Normal },
                    ..self.spec_options()
                }),
            ),
    {
        let o: HexdOptions = *self.as_options();
        self.with_options(
            HexdOptions {
                base: Base::Decimal(LeadingZeroChar::Space),
                grouping: Grouping::Ungrouped { byte_count: 8, spacing: Spacing::Normal },
                ..o
            },
        )
    }

    /// Sets the base to octal with leading zeroes, and the grouping to
    /// eight bytes with a space after each.
    fn octal(self) -> (r: Self)
        ensures
            r == self.spec_with_options(
                (HexdOptions {
                    base: Base::Octal(LeadingZeroChar::Zero),
                    grouping: Grouping::Ungrouped { byte_count: 8, spacing: Spacing::Normal },
                    ..self.spec_options()
                }),
            ),
    {
        let o: HexdOptions = *self.as_options();
        self.with_options(
            HexdOptions {
                base: Base::Octal(LeadingZeroChar::Zero),
                grouping: Grouping::Ungrouped { byte_count: 8, spacing: Spacing::Normal },
                ..o
            },
        )
    }

    /// Sets the base to binary, and the grouping to four bytes with a
    /// space after each.
    fn binary(self) -> (r: Self)
        ensures
            r == self.spec_with_options(
                (HexdOptions {
                    base: Base::Binary,
                    grouping: Grouping::Ungrouped { byte_count: 4, spacing: Spacing::Normal },
                    ..self.spec_options()
                }),
            ),
    {
        let o: HexdOptions = *self.as_options();
        self.with_options(
            HexdOptions {
                base: Base::Binary,
                grouping: Grouping::Ungrouped { byte_count: 4, spacing: Spacing::Normal },
                ..o
            },
        )
    }

    /// Sets the window of the stream that is shown.
    fn range(self, start: RangeBound, end: RangeBound) -> (r: Self)
        requires
            HexdRange::first_offset(start) <= usize::MAX,
            HexdRange::end_offset(end) matches Some(e) ==> e <= usize::MAX,
        ensures
            r == self.spec_with_options(
                (HexdOptions {
                    print_range: HexdRange::spec_new(start, end),
                    ..self.spec_options()
                }),
            ),
    {
        let o: HexdOptions = *self.as_options();
        self.with_options(HexdOptions { print_range: HexdRange::new(start, end), ..o })
    }

    /// Sets the grouping to `num_bytes` bytes per row, each followed by
    /// `spacing`.
    fn ungrouped(self, num_bytes: usize, spacing: Spacing) -> (r: Self)
        ensures
            r == self.spec_with_options(
                (HexdOptions {
                    grouping: Grouping::Ungrouped { byte_count: num_bytes, spacing },
                    ..self.spec_options()
                }),
            ),
    {
        let o: HexdOptions = *self.as_options();
        self.with_options(
            HexdOptions { grouping: Grouping::Ungrouped { byte_count: num_bytes, spacing }, ..o },
        )
    }

    /// Sets the grouping to groups: `bytes` gives the size of a group and
    /// the spacing inside it, `groups` the number of groups per row and the
    /// spacing between them.
    fn grouped(self, bytes: (GroupSize, Spacing), groups: (usize, Spacing)) -> (r: Self)
        ensures
            r == self.spec_with_options(
                (HexdOptions {
                    grouping: Grouping::Grouped {
                        group_size: bytes.0,
                        byte_spacing: bytes.1,
                        num_groups: groups.0,
                        group_spacing: groups.1,
                    },
                    ..self.spec_options()
                }),
            ),
    {
        let o: HexdOptions = *self.as_options();
        self.with_options(
            HexdOptions {
                grouping: Grouping::Grouped {
                    group_size: bytes.0,
                    byte_spacing: bytes.1,
                    num_groups: groups.0,
                    group_spacing: groups.1,
                },
                ..o
            },
        )
    }

    /// Sets the grouping to `num_groups` groups of `group_size` bytes per
    /// row, with no space inside a group and one between groups.
    fn grouped_by(self, group_size: GroupSize, num_groups: usize) -> (r: Self)
        ensures
            r == self.spec_with_options(
                (HexdOptions {
                    grouping: Grouping::Grouped {
                        group_size,
                        byte_spacing: Spacing::NoSpace,
                        num_groups,
                        group_spacing: Spacing::Normal,
                    },
                    ..self.spec_options()
                }),
            ),
    {
        let o: HexdOptions = *self.as_options();
        self.with_options(
            HexdOptions {
                grouping: Grouping::Grouped {
                    group_size,
                    byte_spacing: Spacing::NoSpace,
                    num_groups,
                    group_spacing: Spacing::Normal,
                },
                ..o
            },
        )
    }

    /// Sets the printed index to the stream offset plus `offset`.
    fn relative_offset(self, offset: usize) -> (r: Self)
        ensures
            r == self.spec_with_options(
                (HexdOptions {
                    index_offset: IndexOffset::Relative(offset),
                    ..self.spec_options()
                }),
            ),
    {
        let o: HexdOptions = *self.as_options();
        self.with_options(HexdOptions { index_offset: IndexOffset::Relative(offset), ..o })
    }

    /// Sets the printed index to count from `offset` at the first byte
    /// shown.
    fn absolute_offset(self, offset: usize) -> (r: Self)
        ensures
            r == self.spec_with_options(
                (HexdOptions {
                    index_offset: IndexOffset::Absolute(offset),
                    ..self.spec_options()
                }),
            ),
    {
        let o: HexdOptions = *self.as_options();
        self.with_options(HexdOptions { index_offset: IndexOffset::Absolute(offset), ..o })
    }
}

impl HexdOptionsBuilder for HexdOptions {
    open spec fn spec_options(&self) -> HexdOptions {
        *self
    }

    open spec fn spec_with_options(self, o: HexdOptions) -> HexdOptions {
        o
    }

    fn as_options(&self) -> (o: &HexdOptions) {
        self
    }

    fn with_options(self, o: HexdOptions) -> (r: HexdOptions) {
        o
    }
}

} // verus!
