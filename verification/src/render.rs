//! The line renderer: the three fields of a row as text.
use vstd::prelude::*;
use crate::encode::{ascii_char, bchar_for_u8, blanks, spec_ascii_char, spec_digit, spec_encode, write_blanks, write_byte};
use crate::options::{HexdOptions, IndexOffset, Spacing};
use crate::row::{Row, RowBuffer};

verus! {

/// The number of hexadecimal digits that `v` takes; none for zero.
pub open spec fn spec_hex_width(v: nat) -> nat
    decreases v,
{
    if v == 0 {
        0
    } else {
        1 + spec_hex_width(v / 16)
    }
}

/// The lowest `n` hexadecimal digits of `v`, highest first.
pub open spec fn spec_hex_digits(v: nat, n: nat, uppercase: bool) -> Seq<u8>
    decreases n,
{
    if n == 0 {
        Seq::empty()
    } else {
        spec_hex_digits(v / 16, (n - 1) as nat, uppercase).push(spec_digit(v % 16, uppercase))
    }
}

/// `n` rounded down to a multiple of `trunc` and then one step up, but zero
/// where `n` is below `trunc`.
pub open spec fn spec_trunc_ceil(n: nat, trunc: nat) -> nat {
    if n / trunc == 0 {
        0
    } else {
        (n / trunc + 1) * trunc
    }
}

/// The number printed as the index of a row whose offset is `row_index`.
pub open spec fn spec_visible_index(options: HexdOptions, row_index: nat) -> nat {
    match options.index_offset {
        IndexOffset::Absolute(o) => {
            let skip = options.print_range.skip as nat;
            (row_index - (if row_index < skip { row_index } else { skip }) + o) as nat
        },
        IndexOffset::Relative(o) => row_index + (o as nat),
    }
}

/// The highest index that a source of `hint` bytes leads to.
pub open spec fn spec_index_bound(options: HexdOptions, hint: nat) -> nat {
    match options.index_offset {
        IndexOffset::Absolute(a) => (a as nat) + hint,
        IndexOffset::Relative(r) => (options.print_range.skip as nat) + (r as nat) + hint,
    }
}

/// The number of bytes of the index that are printed: four at least, eight
/// at most, and between them as many as the source's length hint asks for
/// or, without a hint, as the index itself does.
pub open spec fn spec_index_bytes(options: HexdOptions, hint: Option<usize>, v_index: nat) -> nat {
    let wanted = match hint {
        Some(h) => (spec_hex_width(spec_index_bound(options, h as nat)) + 1) / 2,
        None => spec_trunc_ceil(spec_hex_width(v_index) / 2, 2),
    };
    if wanted < 4 {
        4
    } else if wanted > 8 {
        8
    } else {
        wanted
    }
}

/// The index field of a row whose offset is `row_index`.
pub open spec fn spec_index_field(options: HexdOptions, hint: Option<usize>, row_index: nat) -> Seq<
    u8,
> {
    if !options.show_index {
        Seq::empty()
    } else {
        let v = spec_visible_index(options, row_index);
        spec_hex_digits(v, 2 * spec_index_bytes(options, hint, v), options.uppercase) + seq![
            0x3au8,
            0x20u8,
        ]
    }
}

/// The number of columns by which a row's bytes stand to the right: a row
/// of an aligned dump that starts off a multiple of the row width is
/// shifted by what it is off.
pub open spec fn spec_shift(options: HexdOptions, row: Row) -> nat {
    if options.align && row.elt_index != row.row_index {
        row.elt_index % options.spec_elt_width()
    } else {
        0
    }
}

/// The byte in column `i` of a row, if the row has one there.
pub open spec fn spec_byte_at(options: HexdOptions, row: Row, i: nat) -> Option<u8> {
    let shift = spec_shift(options, row);
    if i < shift || i >= row.bytes.len() + shift {
        None
    } else {
        Some(row.bytes[i - shift])
    }
}

/// Whether spacing follows column `i`: it does but after the last column of
/// a dump without an ASCII panel.
pub open spec fn spec_spaced(options: HexdOptions, i: nat) -> bool {
    i != options.spec_elt_width() - 1 || options.show_ascii
}

/// Column `i` of the byte field with the spacing that follows it.
pub open spec fn spec_cell(options: HexdOptions, row: Row, i: nat) -> Seq<u8> {
    spec_encode(options.base, options.uppercase, spec_byte_at(options, row, i)) + (if spec_spaced(
        options,
        i,
    ) {
        blanks(options.grouping.spec_spacing_for_index(i).count())
    } else {
        Seq::empty()
    })
}

/// The first `n` columns of the byte field.
pub open spec fn spec_cells(options: HexdOptions, row: Row, n: nat) -> Seq<u8>
    decreases n,
{
    if n == 0 {
        Seq::empty()
    } else {
        spec_cells(options, row, (n - 1) as nat) + spec_cell(options, row, (n - 1) as nat)
    }
}

/// Whether a space is added to part the byte field from the ASCII panel.
pub open spec fn spec_needs_gap(options: HexdOptions) -> bool {
    options.show_ascii && options.grouping.spec_spacing_for_index(
        (options.spec_elt_width() - 1) as nat,
    ) == Spacing::NoSpace
}

/// The byte field of a row.
pub open spec fn spec_bytes_field(options: HexdOptions, row: Row) -> Seq<u8> {
    spec_cells(options, row, options.spec_elt_width()) + (if spec_needs_gap(options) {
        seq![0x20u8]
    } else {
        Seq::empty()
    })
}

/// The ASCII panel of a row.
pub open spec fn spec_ascii_field(options: HexdOptions, row: Row) -> Seq<u8> {
    if !options.show_ascii {
        Seq::empty()
    } else {
        seq![0x7cu8] + Seq::new(
            options.spec_elt_width(),
            |i: int| spec_ascii_char(spec_byte_at(options, row, i as nat)),
        ) + seq![0x7cu8]
    }
}

/// The line of a row, printed with index `printed`.
#[verifier::opaque]
pub open spec fn spec_line(options: HexdOptions, hint: Option<usize>, row: Row, printed: nat) -> Seq<
    u8,
> {
    spec_index_field(options, hint, printed) + spec_bytes_field(options, row) + spec_ascii_field(
        options,
        row,
    ) + seq![0x0au8]
}

/// The line that stands for the rows left out of a run.
pub open spec fn spec_elision_line() -> Seq<u8> {
    seq![0x2au8, 0x0au8]
}

/// Sixteen to the power `k`.
pub open spec fn pow16(k: nat) -> nat
    decreases k,
{
    if k == 0 {
        1
    } else {
        16 * pow16((k - 1) as nat)
    }
}

/// A number below sixteen to the power `k` takes `k` digits at most.
pub proof fn lemma_hex_width_bound(v: nat, k: nat)
    requires
        v < pow16(k),
    ensures
        spec_hex_width(v) <= k,
    decreases k,
{
    if v != 0 {
        lemma_hex_width_bound(v / 16, (k - 1) as nat);
    }
}

/// A 128-bit number takes 32 digits at most.
pub proof fn lemma_hex_width_u128(v: u128)
    ensures
        spec_hex_width(v as nat) <= 32,
{
    assert(pow16(32) == 0x1_0000_0000_0000_0000_0000_0000_0000_0000nat) by {
        reveal_with_fuel(pow16, 33);
    }
    lemma_hex_width_bound(v as nat, 32);
}

/// The number of hexadecimal digits that `v` takes; none for zero.
pub fn hex_visual_width(v: u128) -> (n: usize)
    ensures
        n == spec_hex_width(v as nat),
        n <= 32,
{
    proof {
        lemma_hex_width_u128(v);
    }
    let mut u: u128 = v;
    let mut i: usize = 0;
    while u > 0
        invariant
            i + spec_hex_width(u as nat) == spec_hex_width(v as nat),
            spec_hex_width(v as nat) <= 32,
        decreases u,
    {
        u = u / 16;
        i += 1;
    }
    i
}

/// `n` rounded down to a multiple of `trunc` and then one step up, but zero
/// where `n` is below `trunc`.
pub fn trunc_ceil_usize(n: usize, trunc: usize) -> (r: usize)
    requires
        trunc > 0,
        (n / trunc + 1) * trunc <= usize::MAX,
    ensures
        r == spec_trunc_ceil(n as nat, trunc as nat),
{
    let rem: usize = n / trunc;
    if rem == 0 {
        0
    } else {
        assert(rem + 1 <= (rem + 1) * trunc) by (nonlinear_arith)
            requires
                trunc > 0,
        ;
        (rem + 1) * trunc
    }
}

/// Appends the lowest `n` hexadecimal digits of `v`, highest first.
pub fn write_hex_digits(buf: &mut Vec<u8>, v: u128, n: usize, uppercase: bool)
    ensures
        final(buf)@ == old(buf)@ + spec_hex_digits(v as nat, n as nat, uppercase),
    decreases n,
{
    if n > 0 {
        write_hex_digits(buf, v / 16, n - 1, uppercase);
        let d: u128 = v % 16;
        buf.push(bchar_for_u8(d as u8, uppercase));
        assert(buf@ =~= old(buf)@ + spec_hex_digits(v as nat, n as nat, uppercase));
    } else {
        assert(buf@ =~= old(buf)@ + spec_hex_digits(v as nat, n as nat, uppercase));
    }
}

/// Appends the index field of a row whose offset is `row_index`. `hint` is
/// the source's estimate of its length.
pub fn write_row_index(
    buf: &mut Vec<u8>,
    options: &HexdOptions,
    hint: Option<usize>,
    row_index: usize,
)
    ensures
        final(buf)@ == old(buf)@ + spec_index_field(*options, hint, row_index as nat),
{
    if !options.show_index {
        assert(buf@ =~= old(buf)@ + spec_index_field(*options, hint, row_index as nat));
        return ;
    }
    let skip: usize = options.print_range.skip;
    let v_index: u128 = match options.index_offset {
        IndexOffset::Absolute(o) => {
            let passed: usize = if row_index < skip { row_index } else { skip };
            (row_index - passed) as u128 + o as u128
        },
        IndexOffset::Relative(o) => row_index as u128 + o as u128,
    };
    let wanted: usize = match hint {
        Some(h) => {
            let bound: u128 = match options.index_offset {
                IndexOffset::Absolute(a) => a as u128 + h as u128,
                IndexOffset::Relative(r) => skip as u128 + r as u128 + h as u128,
            };
            (hex_visual_width(bound) + 1) / 2
        },
        None => trunc_ceil_usize(hex_visual_width(v_index) / 2, 2),
    };
    let bytes: usize = if wanted < 4 { 4 } else if wanted > 8 { 8 } else { wanted };
    write_hex_digits(buf, v_index, 2 * bytes, options.uppercase);
    buf.push(0x3a);
    buf.push(0x20);
    assert(buf@ =~= old(buf)@ + spec_index_field(*options, hint, row_index as nat));
}

/// Appends the line that stands for the rows left out of a run, without
/// its line end.
pub fn write_elision(buf: &mut Vec<u8>)
    ensures
        final(buf)@ == old(buf)@ + seq![0x2au8],
{
    buf.push(0x2a);
    assert(buf@ =~= old(buf)@ + seq![0x2au8]);
}

/// The byte in column `i` of a row, if the row has one there.
pub fn read_row_byte_aligned(row: &RowBuffer, options: &HexdOptions, i: usize) -> (b: Option<u8>)
    requires
        options.wf(),
    ensures
        b == spec_byte_at(*options, row@, i as nat),
{
    let ee: usize = row.elt_index % options.elt_width();
    if options.align && row.is_right_aligned() {
        if i < ee || i - ee >= row.buffer.len() {
            None
        } else {
            Some(row.buffer[i - ee])
        }
    } else {
        if i < row.buffer.len() {
            Some(row.buffer[i])
        } else {
            None
        }
    }
}

/// Appends the byte field of a row.
pub fn write_row_bytes(buf: &mut Vec<u8>, row: &RowBuffer, options: &HexdOptions)
    requires
        options.wf(),
    ensures
        final(buf)@ == old(buf)@ + spec_bytes_field(*options, row@),
{
    let elt_width: usize = options.elt_width();
    let mut i: usize = 0;
    while i < elt_width
        invariant
            i <= elt_width,
            options.wf(),
            elt_width == options.spec_elt_width(),
            buf@ == old(buf)@ + spec_cells(*options, row@, i as nat),
        decreases elt_width - i,
    {
        let ghost before = buf@;
        write_byte(buf, options.base, options.uppercase, read_row_byte_aligned(row, options, i));
        if i != elt_width - 1 || options.show_ascii {
            write_blanks(buf, spacing_count(options.grouping.spacing_for_index(i)));
        }
        assert(buf@ =~= before + spec_cell(*options, row@, i as nat));
        i += 1;
        assert(buf@ =~= old(buf)@ + spec_cells(*options, row@, i as nat));
    }
    if options.show_ascii && options.grouping.spacing_for_index(elt_width - 1) == Spacing::NoSpace {
        buf.push(0x20);
    }
    assert(buf@ =~= old(buf)@ + spec_bytes_field(*options, row@));
}

/// The number of spaces that a spacing stands for.
pub fn spacing_count(spacing: Spacing) -> (n: usize)
    ensures
        n == spacing.count(),
{
    spacing.as_spaces().len()
}

/// Appends the ASCII panel of a row.
pub fn write_row_ascii(buf: &mut Vec<u8>, row: &RowBuffer, options: &HexdOptions)
    requires
        options.wf(),
    ensures
        final(buf)@ == old(buf)@ + spec_ascii_field(*options, row@),
{
    if !options.show_ascii {
        assert(buf@ =~= old(buf)@ + spec_ascii_field(*options, row@));
        return ;
    }
    buf.push(0x7c);
    let elt_width: usize = options.elt_width();
    let mut i: usize = 0;
    while i < elt_width
        invariant
            i <= elt_width,
            options.wf(),
            elt_width == options.spec_elt_width(),
            buf@ == old(buf)@ + seq![0x7cu8] + Seq::new(
                i as nat,
                |j: int| spec_ascii_char(spec_byte_at(*options, row@, j as nat)),
            ),
        decreases elt_width - i,
    {
        buf.push(ascii_char(read_row_byte_aligned(row, options, i)));
        i += 1;
        assert(buf@ =~= old(buf)@ + seq![0x7cu8] + Seq::new(
            i as nat,
            |j: int| spec_ascii_char(spec_byte_at(*options, row@, j as nat)),
        ));
    }
    buf.push(0x7c);
    assert(buf@ =~= old(buf)@ + spec_ascii_field(*options, row@));
}

/// Appends the whole line of a row, printed with index `printed`.
pub fn write_row(
    buf: &mut Vec<u8>,
    row: &RowBuffer,
    options: &HexdOptions,
    hint: Option<usize>,
    printed: usize,
)
    requires
        options.wf(),
    ensures
        final(buf)@ == old(buf)@ + spec_line(*options, hint, row@, printed as nat),
{
    write_row_index(buf, options, hint, printed);
    write_row_bytes(buf, row, options);
    write_row_ascii(buf, row, options);
    buf.push(0x0a);
    reveal(spec_line);
    assert(buf@ =~= old(buf)@ + spec_line(*options, hint, row@, printed as nat));
}

/// Hexadecimal digits are ASCII.
pub proof fn lemma_hex_digits_ascii(v: nat, n: nat, uppercase: bool)
    ensures
        crate::encode::is_ascii_bytes(spec_hex_digits(v, n, uppercase)),
    decreases n,
{
    if n > 0 {
        lemma_hex_digits_ascii(v / 16, (n - 1) as nat, uppercase);
    }
}

/// The first columns of a byte field are ASCII.
pub proof fn lemma_cells_ascii(options: HexdOptions, row: Row, n: nat)
    ensures
        crate::encode::is_ascii_bytes(spec_cells(options, row, n)),
    decreases n,
{
    if n > 0 {
        let i = (n - 1) as nat;
        lemma_cells_ascii(options, row, i);
        crate::encode::lemma_encode_ascii(
            options.base,
            options.uppercase,
            spec_byte_at(options, row, i),
        );
        crate::encode::lemma_ascii_concat(spec_cells(options, row, i), spec_cell(options, row, i));
    }
}

/// The line of a row is ASCII text, and not empty.
pub proof fn lemma_line_ascii(options: HexdOptions, hint: Option<usize>, row: Row, printed: nat)
    ensures
        crate::encode::is_ascii_bytes(spec_line(options, hint, row, printed)),
        spec_line(options, hint, row, printed).len() > 0,
{
    reveal(spec_line);
    let v = spec_visible_index(options, printed);
    lemma_hex_digits_ascii(v, 2 * spec_index_bytes(options, hint, v), options.uppercase);
    lemma_cells_ascii(options, row, options.spec_elt_width());
    let a = spec_index_field(options, hint, printed);
    let b = spec_bytes_field(options, row);
    let c = spec_ascii_field(options, row);
    assert(crate::encode::is_ascii_bytes(a));
    assert(crate::encode::is_ascii_bytes(b));
    assert(crate::encode::is_ascii_bytes(c));
    crate::encode::lemma_ascii_concat(a, b);
    crate::encode::lemma_ascii_concat(a + b, c);
    crate::encode::lemma_ascii_concat(a + b + c, seq![0x0au8]);
}

} // verus!
