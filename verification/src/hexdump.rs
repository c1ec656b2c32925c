//! The dump itself: which lines the rows of a stream give, and the loop
//! that writes them to a sink.
use vstd::prelude::*;
use crate::encode::{ascii_chars, is_ascii_bytes};
use crate::iter::{spec_dump_rows, spec_row_at, HexdumpLineIterator, HexdumpLineIteratorState, LineIteratorResult};
use crate::options::HexdOptions;
use crate::reader::ReadBytes;
use crate::render::{spec_elision_line, spec_line, spec_shift, write_elision, write_row};
use crate::row::{spec_uniform, Row, RowBuffer};
use crate::writer::{ascii_str, spec_after_lines, spec_append, spec_end_line, WriteHexdump};

verus! {

/// Whether row `i` is held back: it stands after a full, uniform row and
/// repeats it byte for byte.
pub open spec fn spec_suppressed(options: HexdOptions, rows: Seq<Row>, i: int) -> bool {
    &&& options.autoskip
    &&& 0 < i < rows.len()
    &&& spec_uniform(options.grouping, rows[i - 1].bytes)
    &&& rows[i].bytes == rows[i - 1].bytes
}

/// The lines that row `i` adds to a dump. A row that is not held back adds
/// its own line. Of the rows held back in a run, only the last adds
/// anything: its own line, and before it the elision line if the run holds
/// back more than that one row.
pub open spec fn spec_row_lines(options: HexdOptions, hint: Option<usize>, rows: Seq<Row>, i: int) -> Seq<
    Seq<u8>,
> {
    let own = spec_line(options, hint, rows[i], rows[i].row_index);
    if !spec_suppressed(options, rows, i) {
        seq![own]
    } else if spec_suppressed(options, rows, i + 1) {
        Seq::empty()
    } else if spec_suppressed(options, rows, i - 1) {
        seq![spec_elision_line(), own]
    } else {
        seq![own]
    }
}

/// The lines that the first `n` rows add to a dump.
pub open spec fn spec_lines_upto(options: HexdOptions, hint: Option<usize>, rows: Seq<Row>, n: nat) -> Seq<
    Seq<u8>,
>
    decreases n,
{
    if n == 0 {
        Seq::empty()
    } else {
        spec_lines_upto(options, hint, rows, (n - 1) as nat) + spec_row_lines(
            options,
            hint,
            rows,
            n - 1,
        )
    }
}

/// The lines of the dump of `stream`, where `hint` is the source's estimate
/// of its length.
pub open spec fn spec_dump_lines(options: HexdOptions, hint: Option<usize>, stream: Seq<u8>) -> Seq<
    Seq<u8>,
> {
    let rows = spec_dump_rows(options, stream);
    spec_lines_upto(options, hint, rows, rows.len())
}

/// Whether a sink that held `before` holds, as `after`, the lines of the
/// dump of `stream` up to some row: whole lines, and nothing after them.
pub open spec fn spec_dumped_in_part(
    options: HexdOptions,
    hint: Option<usize>,
    stream: Seq<u8>,
    before: Seq<Seq<char>>,
    splits: bool,
    after: Seq<Seq<char>>,
) -> bool {
    let rows = spec_dump_rows(options, stream);
    exists|n: nat|
        n <= rows.len() && after == spec_after_lines(
            before,
            splits,
            spec_texts_of(#[trigger] spec_lines_upto(options, hint, rows, n)),
        )
}

/// Lines of ASCII bytes as lines of characters.
pub open spec fn spec_texts_of(lines: Seq<Seq<u8>>) -> Seq<Seq<char>> {
    Seq::new(lines.len(), |i: int| ascii_chars(lines[i]))
}

/// The line of a row depends on its bytes and on how far they are shifted,
/// not on where the row stands.
pub proof fn lemma_line_same(options: HexdOptions, hint: Option<usize>, a: Row, b: Row, printed: nat)
    requires
        a.bytes == b.bytes,
        spec_shift(options, a) == spec_shift(options, b),
    ensures
        spec_line(options, hint, a, printed) == spec_line(options, hint, b, printed),
{
    reveal(spec_line);
    lemma_cells_same(options, a, b, options.spec_elt_width());
    assert(crate::render::spec_ascii_field(options, a) =~= crate::render::spec_ascii_field(
        options,
        b,
    ));
}

/// The first columns of two rows with the same bytes and shift are the same.
pub proof fn lemma_cells_same(options: HexdOptions, a: Row, b: Row, n: nat)
    requires
        a.bytes == b.bytes,
        spec_shift(options, a) == spec_shift(options, b),
    ensures
        crate::render::spec_cells(options, a, n) == crate::render::spec_cells(options, b, n),
    decreases n,
{
    if n > 0 {
        lemma_cells_same(options, a, b, (n - 1) as nat);
    }
}

/// In an aligned dump every row after the first starts at a multiple of the
/// row width: if a row is followed by another, it ends at such a multiple.
pub proof fn lemma_step_aligned(options: HexdOptions, first: bool, index: nat, rest: Seq<u8>)
    requires
        options.wf(),
        options.align,
        first ==> index == options.print_range.skip,
        !first ==> index % options.spec_elt_width() == 0,
        spec_row_at(options, first, index, rest).bytes.len() > 0,
    ensures
        ({
            let n = spec_row_at(options, first, index, rest).bytes.len();
            spec_row_at(options, false, index + n, rest.skip(n as int)).bytes.len() > 0 ==> (index
                + n) % options.spec_elt_width() == 0
        }),
{
    let w = options.spec_elt_width() as int;
    let i = index as int;
    let n = spec_row_at(options, first, index, rest).bytes.len() as int;
    let next = spec_row_at(options, false, index + n as nat, rest.skip(n));
    if next.bytes.len() > 0 {
        assert(rest.skip(n).len() > 0);
        assert(n == crate::iter::spec_read_len(options, first, index));
        assert(crate::iter::spec_capacity(options, (index + n) as nat) > 0);
        if first {
            assert(n == w - i % w);
            assert((i + (w - i % w)) % w == 0) by (nonlinear_arith)
                requires
                    w > 0,
                    i >= 0,
            ;
        } else {
            assert(n == w);
            assert((i + w) % w == 0) by (nonlinear_arith)
                requires
                    w > 0,
                    i >= 0,
                    i % w == 0,
            ;
        }
    }
}

/// Where rows are still to come, the first of them is the row at the
/// offset reached, and the others are the rows from its end on.
pub proof fn lemma_rows_advance(
    options: HexdOptions,
    first: bool,
    index: nat,
    rest: Seq<u8>,
    rows: Seq<Row>,
    i: int,
)
    requires
        0 <= i <= rows.len(),
        rows.skip(i) == crate::iter::spec_rows(options, first, index, rest),
    ensures
        ({
            let row = spec_row_at(options, first, index, rest);
            let n = row.bytes.len();
            if n == 0 {
                i == rows.len()
            } else {
                &&& i < rows.len()
                &&& rows[i] == row
                &&& rows.skip(i + 1) == crate::iter::spec_rows(
                    options,
                    false,
                    index + n,
                    rest.skip(n as int),
                )
            }
        }),
{
    let row = spec_row_at(options, first, index, rest);
    let n = row.bytes.len();
    let tail = rows.skip(i);
    if n == 0 {
        assert(tail.len() == 0);
    } else {
        let ahead = crate::iter::spec_rows(options, false, index + n, rest.skip(n as int));
        assert(tail =~= seq![row] + ahead);
        assert(tail[0] == row);
        assert(rows.skip(i + 1) =~= tail.skip(1));
        assert(tail.skip(1) =~= ahead);
    }
}

/// A row is held back exactly where the row saved before it, the last one
/// if it was full and uniform, is repeated by it; and the row saved after
/// it is again the last one if it is full and uniform.
pub proof fn lemma_saved_step(options: HexdOptions, rows: Seq<Row>, i: int, saved: Option<Seq<u8>>)
    requires
        0 <= i < rows.len(),
        i == 0 ==> saved is None,
        i > 0 ==> saved == (if options.autoskip && spec_uniform(options.grouping, rows[i - 1].bytes) {
            Some(rows[i - 1].bytes)
        } else {
            None::<Seq<u8>>
        }),
    ensures
        ({
            let row = rows[i];
            let elided = {
                &&& options.autoskip
                &&& saved matches Some(em)
                &&& row.bytes.len() == options.spec_elt_width()
                &&& em == row.bytes
            };
            &&& elided == spec_suppressed(options, rows, i)
            &&& elided ==> spec_uniform(options.grouping, row.bytes)
        }),
{
    if i > 0 && spec_uniform(options.grouping, rows[i - 1].bytes) {
        crate::row::lemma_uniform_full(options.grouping, rows[i - 1].bytes);
    }
}

/// A row that starts at a multiple of the row width is printed with the
/// offset at which it starts.
pub proof fn lemma_row_index_aligned(options: HexdOptions, index: nat)
    requires
        options.wf(),
        options.align ==> index % options.spec_elt_width() == 0,
    ensures
        crate::iter::spec_row_index(options, index) == index,
{
    if options.align {
        let w = options.spec_elt_width() as int;
        let x = index as int;
        assert(x / w * w == x) by (nonlinear_arith)
            requires
                w > 0,
                x >= 0,
                x % w == 0,
        ;
    }
}

/// The lines of a dump up to and with row `i`, for each of the three ways
/// in which the row can end or go on a run.
pub proof fn lemma_lines_step(options: HexdOptions, hint: Option<usize>, rows: Seq<Row>, i: int)
    requires
        0 <= i < rows.len(),
    ensures
        ({
            let upto = spec_lines_upto(options, hint, rows, i as nat);
            let own = spec_line(options, hint, rows[i], rows[i].row_index);
            spec_lines_upto(options, hint, rows, (i + 1) as nat) == (if !spec_suppressed(
                options,
                rows,
                i,
            ) {
                upto.push(own)
            } else if spec_suppressed(options, rows, i + 1) {
                upto
            } else if spec_suppressed(options, rows, i - 1) {
                upto.push(spec_elision_line()).push(own)
            } else {
                upto.push(own)
            })
        }),
{
    let upto = spec_lines_upto(options, hint, rows, i as nat);
    let own = spec_line(options, hint, rows[i], rows[i].row_index);
    let add = spec_row_lines(options, hint, rows, i);
    assert(spec_lines_upto(options, hint, rows, (i + 1) as nat) == upto + add);
    assert(upto + seq![own] =~= upto.push(own));
    assert(upto + Seq::<Seq<u8>>::empty() =~= upto);
    assert(upto + seq![spec_elision_line(), own] =~= upto.push(spec_elision_line()).push(own));
}

/// What ends a dump early: the source failed, or the sink did.
pub enum HexdError<R, W> {
    Read(R),
    Write(W),
}

/// Writes the lines of a dump to a sink.
pub struct HexdumpLineWriter<R: ReadBytes, W: WriteHexdump> {
    pub line_iterator: HexdumpLineIterator<R>,
    pub writer: W,
    pub elided_row: Option<(RowBuffer, usize)>,
    pub str_buffer: Vec<u8>,
    pub options: HexdOptions,
}

impl<R: ReadBytes, W: WriteHexdump> HexdumpLineWriter<R, W> {
    /// The source's estimate of its length.
    pub open spec fn hint(&self) -> Option<usize> {
        self.line_iterator.reader.spec_total_byte_hint()
    }

    /// Whether both the source and the sink are known: what the one holds
    /// and what the other keeps.
    pub open spec fn known(&self) -> bool {
        self.line_iterator.reader.known() && self.writer.keeps_text()
    }

    /// The writer stands at the start of a dump.
    pub open spec fn wf(&self) -> bool {
        &&& self.line_iterator.wf()
        &&& self.line_iterator.options == self.options
        &&& self.line_iterator.state == HexdumpLineIteratorState::NotStarted
        &&& self.line_iterator.elision_match is None
        &&& self.elided_row is None
        &&& self.str_buffer@.len() == 0
    }

    /// A writer of the dump of what `reader` holds.
    pub fn new(reader: R, writer: W, options: HexdOptions) -> (lw: Self)
        ensures
            lw.line_iterator.reader == reader,
            lw.line_iterator.index == 0,
            lw.line_iterator.options == options,
            lw.line_iterator.state == HexdumpLineIteratorState::NotStarted,
            lw.line_iterator.elision_match is None,
            lw.writer == writer,
            lw.elided_row is None,
            lw.str_buffer@.len() == 0,
            lw.options == options,
    {
        let line_iterator = HexdumpLineIterator::new(reader, options);
        HexdumpLineWriter {
            line_iterator,
            writer,
            elided_row: None,
            str_buffer: Vec::new(),
            options,
        }
    }

    /// Hands the line that has been put together to the sink and ends it;
    /// does nothing where there is no text.
    pub fn flush_line(&mut self) -> (r: Result<(), W::Error>)
        requires
            is_ascii_bytes(old(self).str_buffer@),
        ensures
            final(self).line_iterator == old(self).line_iterator,
            final(self).elided_row == old(self).elided_row,
            final(self).options == old(self).options,
            final(self).writer.keeps_text() == old(self).writer.keeps_text(),
            r is Ok ==> final(self).str_buffer@.len() == 0,
            old(self).writer.keeps_text() ==> {
                &&& final(self).writer.splits_lines() == old(self).writer.splits_lines()
                &&& final(self).writer.infallible() == old(self).writer.infallible()
                &&& old(self).writer.infallible() ==> r is Ok
                &&& r is Ok ==> final(self).writer.chunks() == (if old(self).str_buffer@.len()
                    == 0 {
                    old(self).writer.chunks()
                } else {
                    spec_end_line(
                        spec_append(old(self).writer.chunks(), ascii_chars(old(self).str_buffer@)),
                        old(self).writer.splits_lines(),
                    )
                })
            },
    {
        if self.str_buffer.len() > 0 {
            let s: &str = ascii_str(self.str_buffer.as_slice());
            match self.writer.write_str(s) {
                Ok(_) => {},
                Err(e) => {
                    return Err(e);
                },
            }
            match self.writer.line_end() {
                Ok(_) => {},
                Err(e) => {
                    return Err(e);
                },
            }
        }
        self.str_buffer.clear();
        Ok(())
    }

    /// Writes the line of `row`, printed with index `printed`, to the sink.
    pub fn emit_row(&mut self, row: &RowBuffer, printed: usize) -> (r: Result<(), W::Error>)
        requires
            old(self).options.wf(),
            old(self).str_buffer@.len() == 0,
        ensures
            final(self).line_iterator == old(self).line_iterator,
            final(self).elided_row == old(self).elided_row,
            final(self).options == old(self).options,
            final(self).writer.keeps_text() == old(self).writer.keeps_text(),
            r is Ok ==> final(self).str_buffer@.len() == 0,
            old(self).writer.keeps_text() ==> {
                &&& final(self).writer.splits_lines() == old(self).writer.splits_lines()
                &&& final(self).writer.infallible() == old(self).writer.infallible()
                &&& old(self).writer.infallible() ==> r is Ok
            },
            old(self).known() && r is Ok ==> final(self).writer.chunks() == spec_end_line(
                spec_append(
                    old(self).writer.chunks(),
                    ascii_chars(spec_line(old(self).options, old(self).hint(), row@, printed as nat)),
                ),
                old(self).writer.splits_lines(),
            ),
    {
        let hint: Option<usize> = self.line_iterator.reader.total_byte_hint();
        write_row(&mut self.str_buffer, row, &self.options, hint, printed);
        proof {
            crate::render::lemma_line_ascii(self.options, hint, row@, printed as nat);
            assert(self.str_buffer@ =~= spec_line(self.options, hint, row@, printed as nat));
        }
        self.flush_line()
    }

    /// Writes the line that stands for the rows left out of a run.
    pub fn emit_elision(&mut self) -> (r: Result<(), W::Error>)
        requires
            old(self).str_buffer@.len() == 0,
        ensures
            final(self).line_iterator == old(self).line_iterator,
            final(self).elided_row == old(self).elided_row,
            final(self).options == old(self).options,
            final(self).writer.keeps_text() == old(self).writer.keeps_text(),
            r is Ok ==> final(self).str_buffer@.len() == 0,
            old(self).writer.keeps_text() ==> {
                &&& final(self).writer.splits_lines() == old(self).writer.splits_lines()
                &&& final(self).writer.infallible() == old(self).writer.infallible()
                &&& old(self).writer.infallible() ==> r is Ok
                &&& r is Ok ==> final(self).writer.chunks() == spec_end_line(
                    spec_append(old(self).writer.chunks(), ascii_chars(spec_elision_line())),
                    old(self).writer.splits_lines(),
                )
            },
    {
        write_elision(&mut self.str_buffer);
        self.str_buffer.push(0x0a);
        proof {
            assert(self.str_buffer@ =~= spec_elision_line());
        }
        self.flush_line()
    }
}

/// One more line written: the sink holds what it held after the lines
/// before, with the new line appended and ended.
pub proof fn lemma_after_push(chunks: Seq<Seq<char>>, splits: bool, lines: Seq<Seq<u8>>, line: Seq<u8>)
    ensures
        spec_after_lines(chunks, splits, spec_texts_of(lines.push(line))) == spec_end_line(
            spec_append(spec_after_lines(chunks, splits, spec_texts_of(lines)), ascii_chars(line)),
            splits,
        ),
{
    let t = spec_texts_of(lines.push(line));
    assert(t.drop_last() =~= spec_texts_of(lines));
    assert(t.last() == ascii_chars(line));
}

impl<R: ReadBytes, W: WriteHexdump> HexdumpLineWriter<R, W> {
    /// Writes the dump of what the source holds to the sink, line by line.
    /// A row that the iterator holds back is kept until its run ends; then
    /// the elision line is written if the run held back more than one row,
    /// and the row itself with the offset of the last row of the run. The
    /// dump ends with the source, or after as many rows as a machine
    /// integer counts.
    #[verifier::rlimit(80)]
    pub fn do_hexdump_internal(&mut self) -> (r: Result<(), HexdError<R::Error, W::Error>>)
        requires
            old(self).wf(),
        ensures
            final(self).writer.keeps_text() == old(self).writer.keeps_text(),
            final(self).line_iterator.reader.known() == old(self).line_iterator.reader.known(),
            old(self).writer.keeps_text() ==> {
                &&& final(self).writer.splits_lines() == old(self).writer.splits_lines()
                &&& final(self).writer.infallible() == old(self).writer.infallible()
                &&& r matches Err(HexdError::Write(_)) ==> !old(self).writer.infallible()
            },
            old(self).line_iterator.reader.known() ==> (r matches Err(HexdError::Read(_)) ==> !old(
                self,
            ).line_iterator.reader.infallible()),
            old(self).known() ==> (r matches Err(HexdError::Read(_)) ==> spec_dumped_in_part(
                old(self).options,
                old(self).hint(),
                old(self).line_iterator.reader.remaining(),
                old(self).writer.chunks(),
                old(self).writer.splits_lines(),
                final(self).writer.chunks(),
            )),
            old(self).known() && r is Ok ==> final(self).writer.chunks() == spec_after_lines(
                old(self).writer.chunks(),
                old(self).writer.splits_lines(),
                spec_texts_of(
                    spec_dump_lines(
                        old(self).options,
                        old(self).hint(),
                        old(self).line_iterator.reader.remaining(),
                    ),
                ),
            ),
    {
        let ghost rows = self.line_iterator.rows_ahead();
        let ghost c0 = self.writer.chunks();
        let ghost sp = self.writer.splits_lines();
        let ghost hint = self.hint();
        let ghost o = self.options;
        let ghost src = self.line_iterator.reader.known();
        let ghost snk = self.writer.keeps_text();
        let ghost mut emitted: Seq<Seq<u8>> = Seq::empty();
        let mut i: usize = 0;
        let mut finished: bool = false;
        assert(rows.skip(0) =~= rows);
        while !finished && i < usize::MAX
            invariant
                self.options == o,
                self.line_iterator.options == o,
                o.wf(),
                self.str_buffer@.len() == 0,
                src == self.line_iterator.reader.known(),
                src == old(self).line_iterator.reader.known(),
                snk == self.writer.keeps_text(),
                snk == old(self).writer.keeps_text(),
                sp == old(self).writer.splits_lines(),
                c0 == old(self).writer.chunks(),
                o == old(self).options,
                hint == old(self).hint(),
                rows == spec_dump_rows(o, old(self).line_iterator.reader.remaining()),
                !finished ==> self.line_iterator.wf(),
                self.elided_row matches Some((e, start)) ==> start < i,
                snk ==> {
                    &&& self.writer.splits_lines() == sp
                    &&& self.writer.infallible() == old(self).writer.infallible()
                },
                src ==> {
                    &&& self.hint() == hint
                    &&& self.line_iterator.reader.infallible() == old(
                        self,
                    ).line_iterator.reader.infallible()
                },
                src && snk ==> self.writer.chunks() == spec_after_lines(
                    c0,
                    sp,
                    spec_texts_of(emitted),
                ),
                src ==> {
                    &&& emitted == spec_lines_upto(
                        o,
                        hint,
                        rows,
                        if self.elided_row is Some { (i - 1) as nat } else { i as nat },
                    )
                    &&& i <= rows.len()
                    &&& finished ==> i == rows.len()
                    &&& !finished ==> {
                        &&& self.line_iterator.state != HexdumpLineIteratorState::Completed
                        &&& (i == 0) == (self.line_iterator.state
                            == HexdumpLineIteratorState::NotStarted)
                        &&& rows.skip(i as int) == self.line_iterator.rows_ahead()
                        &&& i + self.line_iterator.reader.remaining().len() <= usize::MAX
                        &&& i == 0 ==> self.line_iterator.saved() is None
                        &&& i > 0 ==> self.line_iterator.saved() == (if o.autoskip
                            && spec_uniform(o.grouping, rows[i - 1].bytes) {
                            Some(rows[i - 1].bytes)
                        } else {
                            None
                        })
                        &&& i > 0 && o.align && self.line_iterator.next_row().bytes.len() > 0 ==> (
                        self.line_iterator.index as int) % (o.spec_elt_width() as int) == 0
                    }
                    &&& i > 0 ==> self.line_iterator.index == rows[i - 1].elt_index + rows[i
                        - 1].bytes.len()
                    &&& i > 1 ==> rows[i - 1].row_index == rows[i - 1].elt_index
                    &&& match self.elided_row {
                        Some((e, start)) => {
                            &&& spec_suppressed(o, rows, i - 1)
                            &&& e@.bytes == rows[i - 1].bytes
                            &&& spec_shift(o, e@) == 0
                            &&& (start + 1 < i) == spec_suppressed(o, rows, i - 2)
                        },
                        None => !spec_suppressed(o, rows, i - 1),
                    }
                },
            decreases usize::MAX - i + (if finished { 0int } else { 1int }),
        {
            let ghost before = self.line_iterator;
            proof {
                if src {
                    lemma_rows_advance(
                        o,
                        before.at_start(),
                        before.next_index(),
                        before.next_rest(),
                        rows,
                        i as int,
                    );
                }
            }
            match self.line_iterator.next() {
                None => {
                    finished = true;
                },
                Some(Err(e)) => {
                    proof {
                        if src && snk {
                            let n = if self.elided_row is Some { (i - 1) as nat } else { i as nat };
                            assert(emitted == spec_lines_upto(o, hint, rows, n));
                        }
                    }
                    return Err(HexdError::Read(e));
                },
                Some(Ok(res)) => {
                    let ghost row = res.row()@;
                    proof {
                        if src {
                            assert(rows[i as int] == row);
                            lemma_saved_step(o, rows, i as int, before.saved());
                            assert((res is Elided) == spec_suppressed(o, rows, i as int));
                            if o.align {
                                lemma_step_aligned(
                                    o,
                                    before.at_start(),
                                    before.next_index(),
                                    before.next_rest(),
                                );
                            }
                            if i > 0 {
                                lemma_row_index_aligned(o, before.index as nat);
                                assert(row.row_index == row.elt_index);
                            }
                            lemma_lines_step(o, hint, rows, i as int);
                            if i > 0 {
                                lemma_lines_step(o, hint, rows, i - 1);
                            }
                        }
                    }
                    match res {
                        LineIteratorResult::Row(r) => {
                            match self.elided_row.take() {
                                Some((elided_row, start)) => {
                                    let ghost last = rows[i - 1];
                                    proof {
                                        if src {
                                            crate::row::lemma_uniform_full(
                                                o.grouping,
                                                rows[i - 2].bytes,
                                            );
                                            assert(r.row_index == last.row_index
                                                + o.spec_elt_width());
                                            lemma_line_same(
                                                o,
                                                hint,
                                                elided_row@,
                                                last,
                                                last.row_index,
                                            );
                                        }
                                    }
                                    if i - start > 1 {
                                        match self.emit_elision() {
                                            Ok(_) => {},
                                            Err(e) => {
                                                return Err(HexdError::Write(e));
                                            },
                                        }
                                        proof {
                                            lemma_after_push(c0, sp, emitted, spec_elision_line());
                                            emitted = emitted.push(spec_elision_line());
                                        }
                                    }
                                    let width: usize = self.options.elt_width();
                                    match self.emit_row(
                                        &elided_row,
                                        r.row_index.wrapping_sub(width),
                                    ) {
                                        Ok(_) => {},
                                        Err(e) => {
                                            return Err(HexdError::Write(e));
                                        },
                                    }
                                    proof {
                                        let line = spec_line(o, hint, last, last.row_index);
                                        lemma_after_push(c0, sp, emitted, line);
                                        emitted = emitted.push(line);
                                    }
                                },
                                None => {},
                            }
                            match self.emit_row(&r, r.row_index) {
                                Ok(_) => {},
                                Err(e) => {
                                    return Err(HexdError::Write(e));
                                },
                            }
                            proof {
                                let line = spec_line(o, hint, row, row.row_index);
                                lemma_after_push(c0, sp, emitted, line);
                                emitted = emitted.push(line);
                            }
                        },
                        LineIteratorResult::Elided(r) => {
                            if self.elided_row.is_none() {
                                proof {
                                    if src {
                                        assert(spec_shift(o, r@) == 0);
                                    }
                                }
                                self.elided_row = Some((r, i));
                            }
                        },
                    }
                    i += 1;
                },
            }
        }
        proof {
            if src {
                if !finished {
                    lemma_rows_advance(
                        o,
                        self.line_iterator.at_start(),
                        self.line_iterator.next_index(),
                        self.line_iterator.next_rest(),
                        rows,
                        i as int,
                    );
                }
                if i > 0 {
                    lemma_lines_step(o, hint, rows, i - 1);
                }
            }
        }
        match self.elided_row.take() {
            Some((elided_row, start)) => {
                let ghost last = rows[i - 1];
                proof {
                    if src {
                        crate::row::lemma_uniform_full(o.grouping, rows[i - 2].bytes);
                        lemma_line_same(o, hint, elided_row@, last, last.row_index);
                    }
                }
                if i - start > 1 {
                    match self.emit_elision() {
                        Ok(_) => {},
                        Err(e) => {
                            return Err(HexdError::Write(e));
                        },
                    }
                    proof {
                        lemma_after_push(c0, sp, emitted, spec_elision_line());
                        emitted = emitted.push(spec_elision_line());
                    }
                }
                let row_index: usize = self.line_iterator.index.wrapping_sub(
                    self.options.elt_width(),
                );
                match self.emit_row(&elided_row, row_index) {
                    Ok(_) => {},
                    Err(e) => {
                        return Err(HexdError::Write(e));
                    },
                }
                proof {
                    let line = spec_line(o, hint, last, last.row_index);
                    lemma_after_push(c0, sp, emitted, line);
                    emitted = emitted.push(line);
                }
            },
            None => {},
        }
        Ok(())
    }
}

/// Whether `out` is what a dump of `lines` returns on a sink that was
/// `start` before: the dump ended with some sink or sink error `end`, which
/// gave `out`; and if `start` keeps its text, then it did not fail if it
/// cannot, and where it did not fail it holds what `start` held, with each
/// of the lines appended and ended.
pub open spec fn spec_dumped<W: WriteHexdump>(start: W, lines: Seq<Seq<u8>>, out: W::Output) -> bool {
    exists|end: Result<W, W::Error>|
        {
            &&& #[trigger] W::consumed(end, out)
            &&& start.keeps_text() && start.infallible() ==> end is Ok
            &&& start.keeps_text() ==> (end matches Ok(w) ==> w.chunks() == spec_after_lines(
                start.chunks(),
                start.splits_lines(),
                spec_texts_of(lines),
            ))
        }
}

impl<R: ReadBytes, W: WriteHexdump> HexdumpLineWriter<R, W> {
    /// Writes the dump and hands the sink, or the error that it failed
    /// with, to `consume`. Where the source fails, its error is returned
    /// instead, and nothing more is written.
    pub fn do_hexdump(self) -> (r: Result<W::Output, R::Error>)
        requires
            self.wf(),
        ensures
            self.line_iterator.reader.known() && self.line_iterator.reader.infallible() ==> r is Ok,
            self.line_iterator.reader.known() ==> (r matches Ok(out) ==> spec_dumped(
                self.writer,
                spec_dump_lines(self.options, self.hint(), self.line_iterator.reader.remaining()),
                out,
            )),
    {
        let mut lw = self;
        let r = lw.do_hexdump_internal();
        let ll: Result<W, W::Error> = match r {
            Ok(_) => Ok(lw.writer),
            Err(HexdError::Write(e)) => Err(e),
            Err(HexdError::Read(e)) => {
                return Err(e);
            },
        };
        let out = W::consume(ll);
        assert(W::consumed(ll, out));
        Ok(out)
    }
}

/// What a dump returns on a string: the string as it was before, and then
/// the lines of the dump one after the other.
pub proof fn lemma_dumped_string(start: String, lines: Seq<Seq<u8>>, out: String)
    requires
        spec_dumped(start, lines, out),
    ensures
        out@ == start@ + crate::writer::spec_concat(spec_texts_of(lines)),
{
    let end = choose|end: Result<String, core::convert::Infallible>|
        {
            &&& #[trigger] String::consumed(end, out)
            &&& start.keeps_text() && start.infallible() ==> end is Ok
            &&& start.keeps_text() ==> (end matches Ok(w) ==> w.chunks() == spec_after_lines(
                start.chunks(),
                start.splits_lines(),
                spec_texts_of(lines),
            ))
        };
    crate::writer::lemma_one_piece(start@, spec_texts_of(lines));
    assert(seq![out@][0] == seq![start@ + crate::writer::spec_concat(spec_texts_of(lines))][0]);
}

/// What a dump returns on an empty list of strings: each line of the dump
/// as a string of its own, and an empty string after the last.
pub proof fn lemma_dumped_lines(start: Vec<String>, lines: Seq<Seq<u8>>, out: Vec<String>)
    requires
        spec_dumped(start, lines, out),
        start@.len() == 0,
    ensures
        crate::writer::spec_texts(out@) == (if lines.len() == 0 {
            Seq::<Seq<char>>::empty()
        } else {
            spec_texts_of(lines).push(Seq::empty())
        }),
{
    let end = choose|end: Result<Vec<String>, core::convert::Infallible>|
        {
            &&& #[trigger] Vec::<String>::consumed(end, out)
            &&& start.keeps_text() && start.infallible() ==> end is Ok
            &&& start.keeps_text() ==> (end matches Ok(w) ==> w.chunks() == spec_after_lines(
                start.chunks(),
                start.splits_lines(),
                spec_texts_of(lines),
            ))
        };
    assert(start.chunks() =~= Seq::<Seq<char>>::empty());
    crate::writer::lemma_line_pieces(spec_texts_of(lines));
}

/// What a dump returns on a run of bytes: the bytes as they were before,
/// and then the lines of the dump one after the other.
pub proof fn lemma_dumped_bytes(start: Vec<u8>, lines: Seq<Seq<u8>>, out: Vec<u8>)
    requires
        spec_dumped(start, lines, out),
    ensures
        crate::writer::spec_byte_chars(out@) == crate::writer::spec_byte_chars(start@)
            + crate::writer::spec_concat(spec_texts_of(lines)),
{
    let end = choose|end: Result<Vec<u8>, core::convert::Infallible>|
        {
            &&& #[trigger] Vec::<u8>::consumed(end, out)
            &&& start.keeps_text() && start.infallible() ==> end is Ok
            &&& start.keeps_text() ==> (end matches Ok(w) ==> w.chunks() == spec_after_lines(
                start.chunks(),
                start.splits_lines(),
                spec_texts_of(lines),
            ))
        };
    crate::writer::lemma_one_piece(crate::writer::spec_byte_chars(start@), spec_texts_of(lines));
    assert(seq![crate::writer::spec_byte_chars(out@)][0] == seq![
        crate::writer::spec_byte_chars(start@) + crate::writer::spec_concat(spec_texts_of(lines)),
    ][0]);
}

/// What a dump returns on an empty list of runs of bytes: each line of the
/// dump as a run of its own, and an empty run after the last.
pub proof fn lemma_dumped_byte_lines(start: Vec<Vec<u8>>, lines: Seq<Seq<u8>>, out: Vec<Vec<u8>>)
    requires
        spec_dumped(start, lines, out),
        start@.len() == 0,
    ensures
        crate::writer::spec_byte_texts(out@) == (if lines.len() == 0 {
            Seq::<Seq<char>>::empty()
        } else {
            spec_texts_of(lines).push(Seq::empty())
        }),
{
    let end = choose|end: Result<Vec<Vec<u8>>, core::convert::Infallible>|
        {
            &&& #[trigger] Vec::<Vec<u8>>::consumed(end, out)
            &&& start.keeps_text() && start.infallible() ==> end is Ok
            &&& start.keeps_text() ==> (end matches Ok(w) ==> w.chunks() == spec_after_lines(
                start.chunks(),
                start.splits_lines(),
                spec_texts_of(lines),
            ))
        };
    assert(start.chunks() =~= Seq::<Seq<char>>::empty());
    crate::writer::lemma_line_pieces(spec_texts_of(lines));
}

} // verus!
