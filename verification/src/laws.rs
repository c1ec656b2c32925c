//! What holds of every dump: how the rows cover the window, where they
//! start, and what a run of identical rows turns into.
use vstd::prelude::*;
use crate::hexdump::{spec_lines_upto, spec_suppressed};
use crate::iter::{spec_dump_rows, spec_row_at, spec_rows, spec_window};
use crate::options::HexdOptions;
use crate::reader::min_nat;
use crate::render::{spec_byte_at, spec_elision_line, spec_line, spec_shift};
use crate::row::{spec_uniform, Row};

verus! {

/// The number of bytes in a run of rows.
pub open spec fn spec_total_len(rows: Seq<Row>) -> nat
    decreases rows.len(),
{
    if rows.len() == 0 {
        0
    } else {
        rows[0].bytes.len() + spec_total_len(rows.drop_first())
    }
}

/// The number of bytes of a stream of `len` bytes that lie in the window,
/// from offset `index` on.
pub open spec fn spec_window_len(options: HexdOptions, index: nat, len: nat) -> nat {
    match options.print_range.limit {
        Some(l) => min_nat(len, if index < l { (l - index) as nat } else { 0 }),
        None => len,
    }
}

/// The rows from any offset on hold, between them, the bytes that are left
/// in the window, and none holds more than the row width.
pub proof fn lemma_rows_cover(options: HexdOptions, first: bool, index: nat, rest: Seq<u8>)
    requires
        options.wf(),
        first ==> index == options.print_range.skip,
    ensures
        spec_total_len(spec_rows(options, first, index, rest)) == spec_window_len(
            options,
            index,
            rest.len(),
        ),
        forall|i: int|
            0 <= i < spec_rows(options, first, index, rest).len() ==> 0 < (#[trigger] spec_rows(
                options,
                first,
                index,
                rest,
            )[i]).bytes.len() <= options.spec_elt_width(),
    decreases rest.len(),
{
    let w = options.spec_elt_width() as int;
    let x = index as int;
    assert(0 <= x % w < w) by (nonlinear_arith)
        requires
            w > 0,
            x >= 0,
    ;
    let row = spec_row_at(options, first, index, rest);
    let n = row.bytes.len();
    let rows = spec_rows(options, first, index, rest);
    if n > 0 {
        let tail = spec_rows(options, false, index + n, rest.skip(n as int));
        lemma_rows_cover(options, false, index + n, rest.skip(n as int));
        assert(rows =~= seq![row] + tail);
        assert(rows.drop_first() =~= tail);
        assert forall|i: int| 0 <= i < rows.len() implies 0 < (#[trigger] rows[i]).bytes.len()
            <= options.spec_elt_width() by {
            if i > 0 {
                assert(rows[i] == tail[i - 1]);
            }
        }
    }
}

/// The rows of a dump hold, between them, exactly the bytes of the stream
/// that lie in the window, and no row holds more than the row width.
pub proof fn lemma_row_width_coverage(options: HexdOptions, stream: Seq<u8>)
    requires
        options.wf(),
    ensures
        spec_total_len(spec_dump_rows(options, stream)) == spec_window_len(
            options,
            options.print_range.skip as nat,
            spec_window(options, stream).len(),
        ),
        forall|i: int|
            0 <= i < spec_dump_rows(options, stream).len() ==> 0 < (#[trigger] spec_dump_rows(
                options,
                stream,
            )[i]).bytes.len() <= options.spec_elt_width(),
{
    lemma_rows_cover(
        options,
        true,
        options.print_range.skip as nat,
        spec_window(options, stream),
    );
}

/// The bytes of a run of rows, one row after the other.
pub open spec fn spec_all_bytes(rows: Seq<Row>) -> Seq<u8>
    decreases rows.len(),
{
    if rows.len() == 0 {
        Seq::empty()
    } else {
        rows[0].bytes + spec_all_bytes(rows.drop_first())
    }
}

/// The rows from any offset on hold the bytes that are left in the window,
/// in order and without a gap: the first row starts at the offset, and
/// each later row starts where the row before it ends.
pub proof fn lemma_rows_in_order(options: HexdOptions, first: bool, index: nat, rest: Seq<u8>)
    requires
        options.wf(),
        first ==> index == options.print_range.skip,
    ensures
        spec_all_bytes(spec_rows(options, first, index, rest)) == rest.take(
            spec_window_len(options, index, rest.len()) as int,
        ),
        spec_rows(options, first, index, rest).len() > 0 ==> spec_rows(
            options,
            first,
            index,
            rest,
        )[0].elt_index == index,
        forall|i: int|
            0 <= i < spec_rows(options, first, index, rest).len() - 1 ==> (#[trigger] spec_rows(
                options,
                first,
                index,
                rest,
            )[i + 1]).elt_index == spec_rows(options, first, index, rest)[i].elt_index + spec_rows(
                options,
                first,
                index,
                rest,
            )[i].bytes.len(),
    decreases rest.len(),
{
    let w = options.spec_elt_width() as int;
    let x = index as int;
    assert(0 <= x % w < w) by (nonlinear_arith)
        requires
            w > 0,
            x >= 0,
    ;
    let row = spec_row_at(options, first, index, rest);
    let n = row.bytes.len();
    let rows = spec_rows(options, first, index, rest);
    let total = spec_window_len(options, index, rest.len());
    if n > 0 {
        let tail = spec_rows(options, false, index + n, rest.skip(n as int));
        lemma_rows_in_order(options, false, index + n, rest.skip(n as int));
        lemma_rows_cover(options, first, index, rest);
        lemma_rows_cover(options, false, index + n, rest.skip(n as int));
        assert(rows =~= seq![row] + tail);
        assert(rows.drop_first() =~= tail);
        let later = spec_window_len(options, index + n, rest.skip(n as int).len());
        assert(total == n + later);
        assert(rest.take(n as int) + rest.skip(n as int).take(later as int) =~= rest.take(
            total as int,
        ));
        assert forall|i: int| 0 <= i < rows.len() - 1 implies (#[trigger] rows[i + 1]).elt_index
            == rows[i].elt_index + rows[i].bytes.len() by {
            if i > 0 {
                assert(rows[i + 1] == tail[i]);
                assert(rows[i] == tail[i - 1]);
            } else {
                assert(rows[1] == tail[0]);
            }
        }
    } else {
        lemma_rows_cover(options, first, index, rest);
        assert(rest.take(0) =~= Seq::<u8>::empty());
    }
}

/// The rows of a dump hold the bytes of the stream that lie in the window,
/// in order and without a gap.
pub proof fn lemma_rows_hold_window(options: HexdOptions, stream: Seq<u8>)
    requires
        options.wf(),
    ensures
        spec_all_bytes(spec_dump_rows(options, stream)) == spec_window(options, stream).take(
            spec_window_len(
                options,
                options.print_range.skip as nat,
                spec_window(options, stream).len(),
            ) as int,
        ),
        forall|i: int|
            0 <= i < spec_dump_rows(options, stream).len() - 1 ==> (#[trigger] spec_dump_rows(
                options,
                stream,
            )[i + 1]).elt_index == spec_dump_rows(options, stream)[i].elt_index + spec_dump_rows(
                options,
                stream,
            )[i].bytes.len(),
{
    lemma_rows_in_order(
        options,
        true,
        options.print_range.skip as nat,
        spec_window(options, stream),
    );
}

/// In an aligned dump, every row from any offset on starts at a multiple
/// of the row width, but for the first row of the dump.
pub proof fn lemma_rows_aligned(options: HexdOptions, first: bool, index: nat, rest: Seq<u8>)
    requires
        options.wf(),
        options.align,
        first ==> index == options.print_range.skip,
        !first ==> index % options.spec_elt_width() == 0,
    ensures
        forall|i: int|
            (if first { 1int } else { 0int }) <= i < spec_rows(options, first, index, rest).len() ==> {
                let row = #[trigger] spec_rows(options, first, index, rest)[i];
                &&& row.elt_index % options.spec_elt_width() == 0
                &&& row.row_index == row.elt_index
            },
    decreases rest.len(),
{
    let row = spec_row_at(options, first, index, rest);
    let n = row.bytes.len();
    let rows = spec_rows(options, first, index, rest);
    if n > 0 {
        let tail = spec_rows(options, false, index + n, rest.skip(n as int));
        assert(rows =~= seq![row] + tail);
        crate::hexdump::lemma_step_aligned(options, first, index, rest);
        if tail.len() > 0 {
            lemma_rows_aligned(options, false, index + n, rest.skip(n as int));
        }
        if !first {
            crate::hexdump::lemma_row_index_aligned(options, index);
        }
        assert forall|i: int| (if first { 1int } else { 0int }) <= i < rows.len() implies {
            let r = #[trigger] rows[i];
            &&& r.elt_index % options.spec_elt_width() == 0
            &&& r.row_index == r.elt_index
        } by {
            if i > 0 {
                assert(rows[i] == tail[i - 1]);
            }
        }
    }
}

/// In an aligned dump the bytes of the first row are shifted to the right
/// by what the start of the window is off a multiple of the row width: the
/// columns before them are blank, and the row is printed with the multiple
/// below the start. Every later row starts at a multiple of the row width
/// and is not shifted.
pub proof fn lemma_alignment_boundary(options: HexdOptions, stream: Seq<u8>)
    requires
        options.wf(),
        options.align,
    ensures
        ({
            let rows = spec_dump_rows(options, stream);
            let off = options.print_range.skip as nat % options.spec_elt_width();
            &&& rows.len() > 0 ==> {
                &&& spec_shift(options, rows[0]) == off
                &&& rows[0].row_index + off == options.print_range.skip
                &&& forall|c: nat| c < off ==> spec_byte_at(options, rows[0], c) is None
                &&& forall|c: nat|
                    off <= c < off + rows[0].bytes.len() ==> spec_byte_at(options, rows[0], c)
                        == Some(rows[0].bytes[c - off])
            }
            &&& forall|i: int|
                1 <= i < rows.len() ==> {
                    let row = #[trigger] rows[i];
                    &&& row.elt_index % options.spec_elt_width() == 0
                    &&& row.row_index == row.elt_index
                    &&& spec_shift(options, row) == 0
                }
        }),
{
    let skip = options.print_range.skip as nat;
    let rest = spec_window(options, stream);
    let rows = spec_dump_rows(options, stream);
    let w = options.spec_elt_width() as int;
    let x = skip as int;
    lemma_rows_aligned(options, true, skip, rest);
    assert(x == (x / w) * w + x % w && 0 <= x % w < w) by (nonlinear_arith)
        requires
            w > 0,
            x >= 0,
    ;
    if rows.len() > 0 {
        assert(rows[0] == spec_row_at(options, true, skip, rest));
    }
}

/// Whether the `k` rows from row `a` on are a run: full, uniform rows with
/// the same bytes, of which the first is not held back and after which no
/// row is held back.
pub open spec fn spec_is_run(options: HexdOptions, rows: Seq<Row>, a: int, k: int) -> bool {
    &&& options.autoskip
    &&& 0 <= a
    &&& 1 <= k
    &&& a + k <= rows.len()
    &&& forall|j: int|
        a <= j < a + k ==> spec_uniform(options.grouping, (#[trigger] rows[j]).bytes)
            && rows[j].bytes == rows[a].bytes
    &&& !spec_suppressed(options, rows, a)
    &&& !spec_suppressed(options, rows, a + k)
}

/// The lines that a run of `k` rows from row `a` on gives: the row alone;
/// both rows of a run of two; the first row, the elision line and the last
/// row of a longer run.
pub open spec fn spec_run_lines(
    options: HexdOptions,
    hint: Option<usize>,
    rows: Seq<Row>,
    a: int,
    k: int,
) -> Seq<Seq<u8>> {
    let head = spec_line(options, hint, rows[a], rows[a].row_index);
    let last = spec_line(options, hint, rows[a + k - 1], rows[a + k - 1].row_index);
    if k == 1 {
        seq![head]
    } else if k == 2 {
        seq![head, last]
    } else {
        seq![head, spec_elision_line(), last]
    }
}

/// The rows of a run before its last add nothing to the line of its first.
proof fn lemma_run_prefix(
    options: HexdOptions,
    hint: Option<usize>,
    rows: Seq<Row>,
    a: int,
    k: int,
    m: int,
)
    requires
        spec_is_run(options, rows, a, k),
        1 <= m <= k - 1 || (m == 1 && k == 1),
    ensures
        spec_lines_upto(options, hint, rows, (a + m) as nat) == spec_lines_upto(
            options,
            hint,
            rows,
            a as nat,
        ).push(spec_line(options, hint, rows[a], rows[a].row_index)),
    decreases m,
{
    if m == 1 {
        crate::hexdump::lemma_lines_step(options, hint, rows, a);
    } else {
        lemma_run_prefix(options, hint, rows, a, k, m - 1);
        let j = a + m - 1;
        assert(spec_uniform(options.grouping, rows[j - 1].bytes));
        assert(spec_uniform(options.grouping, rows[j].bytes));
        assert(rows[j + 1].bytes == rows[a].bytes);
        crate::hexdump::lemma_lines_step(options, hint, rows, j);
    }
}

/// A run of three or more identical full, uniform rows is shown as its
/// first row, the elision line and its last row; a run of two as both
/// rows; a single row as itself.
pub proof fn lemma_elision(options: HexdOptions, hint: Option<usize>, rows: Seq<Row>, a: int, k: int)
    requires
        spec_is_run(options, rows, a, k),
    ensures
        spec_lines_upto(options, hint, rows, (a + k) as nat) == spec_lines_upto(
            options,
            hint,
            rows,
            a as nat,
        ) + spec_run_lines(options, hint, rows, a, k),
{
    let before = spec_lines_upto(options, hint, rows, a as nat);
    let head = spec_line(options, hint, rows[a], rows[a].row_index);
    if k == 1 {
        lemma_run_prefix(options, hint, rows, a, k, 1);
        assert(before.push(head) =~= before + seq![head]);
    } else {
        lemma_run_prefix(options, hint, rows, a, k, k - 1);
        let j = a + k - 1;
        let last = spec_line(options, hint, rows[j], rows[j].row_index);
        assert(spec_uniform(options.grouping, rows[j - 1].bytes));
        assert(rows[j].bytes == rows[a].bytes);
        if k >= 3 {
            assert(spec_uniform(options.grouping, rows[j - 2].bytes));
            assert(rows[j - 1].bytes == rows[a].bytes);
        }
        crate::hexdump::lemma_lines_step(options, hint, rows, j);
        if k == 2 {
            assert(before.push(head).push(last) =~= before + seq![head, last]);
        } else {
            assert(before.push(head).push(spec_elision_line()).push(last) =~= before + seq![
                head,
                spec_elision_line(),
                last,
            ]);
        }
    }
}

/// Where runs are not collapsed, every row is shown.
pub proof fn lemma_no_autoskip(options: HexdOptions, hint: Option<usize>, rows: Seq<Row>, n: nat)
    requires
        !options.autoskip,
        n <= rows.len(),
    ensures
        spec_lines_upto(options, hint, rows, n) == Seq::new(
            n,
            |i: int| spec_line(options, hint, rows[i], rows[i].row_index),
        ),
    decreases n,
{
    if n > 0 {
        lemma_no_autoskip(options, hint, rows, (n - 1) as nat);
        crate::hexdump::lemma_lines_step(options, hint, rows, n - 1);
    }
    assert(spec_lines_upto(options, hint, rows, n) =~= Seq::new(
        n,
        |i: int| spec_line(options, hint, rows[i], rows[i].row_index),
    ));
}

} // verus!
