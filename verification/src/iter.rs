//! The row iterator: it cuts the source into rows and marks the rows that
//! repeat the one before them.
use vstd::prelude::*;
use crate::options::HexdOptions;
use crate::reader::ReadBytes;
use crate::row::{ElisionMatch, Row, RowBuffer};

verus! {

/// How far an iterator has come.
#[derive(Debug, Clone, Copy, PartialEq, Eq, Structural)]
pub enum HexdumpLineIteratorState {
    NotStarted,
    InProgress,
    Completed,
}

/// What the iterator hands out for one row.
#[derive(Debug)]
pub enum LineIteratorResult {
    /// The row repeats the one before it and is held back.
    Elided(RowBuffer),
    /// The row is to be shown.
    Row(RowBuffer),
}

impl LineIteratorResult {
    /// The row, shown or held back.
    pub open spec fn row(&self) -> RowBuffer {
        match *self {
            LineIteratorResult::Elided(r) => r,
            LineIteratorResult::Row(r) => r,
        }
    }
}

/// The number of bytes that may still be read at offset `index` before the
/// window ends; a full row where it does not end.
pub open spec fn spec_capacity(options: HexdOptions, index: nat) -> nat {
    match options.print_range.limit {
        Some(l) => if index < l { (l - index) as nat } else { 0 },
        None => options.spec_elt_width(),
    }
}

/// The number of bytes to ask the source for at offset `index`. The first
/// row of an aligned dump ends at the next multiple of the row width, or
/// with the window if that is shorter than a row; every other row is full,
/// or ends with the window.
pub open spec fn spec_read_len(options: HexdOptions, first: bool, index: nat) -> nat {
    let w = options.spec_elt_width();
    if first && options.align {
        match options.print_range.spec_length() {
            Some(len) => if len < w { len } else { (w - index % w) as nat },
            None => (w - index % w) as nat,
        }
    } else {
        crate::reader::min_nat(w, spec_capacity(options, index))
    }
}

/// The offset printed for a row that starts at offset `index`.
pub open spec fn spec_row_index(options: HexdOptions, index: nat) -> nat {
    if !options.align {
        index
    } else {
        index / options.spec_elt_width() * options.spec_elt_width()
    }
}

/// The row that starts at offset `index`, where `rest` is what the source
/// still holds.
pub open spec fn spec_row_at(options: HexdOptions, first: bool, index: nat, rest: Seq<u8>) -> Row {
    let n = crate::reader::min_nat(spec_read_len(options, first, index), rest.len());
    Row { bytes: rest.take(n as int), row_index: spec_row_index(options, index), elt_index: index }
}

/// The rows from offset `index` on, where `rest` is what the source still
/// holds: they end with the first row that would be empty.
pub open spec fn spec_rows(options: HexdOptions, first: bool, index: nat, rest: Seq<u8>) -> Seq<Row>
    decreases rest.len(),
{
    let row = spec_row_at(options, first, index, rest);
    if row.bytes.len() == 0 {
        Seq::empty()
    } else {
        seq![row] + spec_rows(
            options,
            false,
            index + row.bytes.len(),
            rest.skip(row.bytes.len() as int),
        )
    }
}

/// What is left of `stream` once the start of the window is reached.
pub open spec fn spec_window(options: HexdOptions, stream: Seq<u8>) -> Seq<u8> {
    stream.skip(crate::reader::min_nat(options.print_range.skip as nat, stream.len()) as int)
}

/// The rows of a dump of `stream`.
pub open spec fn spec_dump_rows(options: HexdOptions, stream: Seq<u8>) -> Seq<Row> {
    spec_rows(options, true, options.print_range.skip as nat, spec_window(options, stream))
}

/// Cuts what a source holds into rows.
pub struct HexdumpLineIterator<R: ReadBytes> {
    pub reader: R,
    pub index: usize,
    pub options: HexdOptions,
    pub state: HexdumpLineIteratorState,
    pub elision_match: Option<ElisionMatch>,
}

impl<R: ReadBytes> HexdumpLineIterator<R> {
    /// The options describe a dump, an iterator that has not started stands
    /// at offset 0, and every offset that it can reach in a known source is
    /// a machine integer.
    pub open spec fn wf(&self) -> bool {
        &&& self.options.wf()
        &&& self.reader.known() ==> self.index + self.reader.remaining().len() <= usize::MAX
        &&& self.state == HexdumpLineIteratorState::NotStarted ==> self.index == 0
    }

    /// Whether the next row is the first.
    pub open spec fn at_start(&self) -> bool {
        self.state == HexdumpLineIteratorState::NotStarted
    }

    /// The offset at which the next row starts.
    pub open spec fn next_index(&self) -> nat {
        if self.at_start() {
            self.options.print_range.skip as nat
        } else {
            self.index as nat
        }
    }

    /// What the source holds from the start of the next row on.
    pub open spec fn next_rest(&self) -> Seq<u8> {
        if self.at_start() {
            spec_window(self.options, self.reader.remaining())
        } else {
            self.reader.remaining()
        }
    }

    /// The next row; it is empty where the dump has ended.
    pub open spec fn next_row(&self) -> Row {
        spec_row_at(self.options, self.at_start(), self.next_index(), self.next_rest())
    }

    /// The rows that are still to come.
    pub open spec fn rows_ahead(&self) -> Seq<Row> {
        if self.state == HexdumpLineIteratorState::Completed {
            Seq::empty()
        } else {
            spec_rows(self.options, self.at_start(), self.next_index(), self.next_rest())
        }
    }

    /// Whether the next row repeats the saved one and is held back.
    pub open spec fn next_elided(&self) -> bool {
        &&& self.options.autoskip
        &&& self.elision_match matches Some(em)
        &&& self.next_row().bytes.len() == self.options.spec_elt_width()
        &&& em@ == self.next_row().bytes
    }

    /// The row that is saved once the next row has been handed out.
    pub open spec fn next_match(&self) -> Option<Seq<u8>> {
        if !self.options.autoskip {
            match self.elision_match {
                Some(em) => Some(em@),
                None => None,
            }
        } else if self.next_elided() || crate::row::spec_uniform(
            self.options.grouping,
            self.next_row().bytes,
        ) {
            Some(self.next_row().bytes)
        } else {
            None
        }
    }

    /// The row that is saved now.
    pub open spec fn saved(&self) -> Option<Seq<u8>> {
        match self.elision_match {
            Some(em) => Some(em@),
            None => None,
        }
    }

    /// An iterator over what `reader` holds.
    pub fn new(reader: R, options: HexdOptions) -> (it: Self)
        ensures
            it.reader == reader,
            it.index == 0,
            it.options == options,
            it.state == HexdumpLineIteratorState::NotStarted,
            it.elision_match is None,
    {
        HexdumpLineIterator {
            reader,
            index: 0,
            options,
            state: HexdumpLineIteratorState::NotStarted,
            elision_match: None,
        }
    }

    /// The offset printed for a row that starts where the iterator stands.
    pub fn calculate_row_index(&self) -> (i: usize)
        requires
            self.options.wf(),
        ensures
            i == spec_row_index(self.options, self.index as nat),
    {
        if !self.options.align {
            self.index
        } else {
            let w: usize = self.options.elt_width();
            let q: usize = self.index / w;
            assert(q * w <= self.index) by (nonlinear_arith)
                requires
                    q == self.index / w,
                    w > 0,
            ;
            q * w
        }
    }

    /// The number of bytes to ask the source for.
    pub fn read_len(&self) -> (n: usize)
        requires
            self.options.wf(),
        ensures
            n == spec_read_len(self.options, self.at_start(), self.index as nat),
    {
        let w: usize = self.options.elt_width();
        let limit: usize = match self.options.print_range.limit {
            Some(limit) => if self.index < limit { limit - self.index } else { 0 },
            None => w,
        };
        let ew: usize = if w < limit { w } else { limit };
        if self.state == HexdumpLineIteratorState::NotStarted && self.options.align {
            match self.options.print_range.length() {
                Some(len) => if len < w { len } else { w - self.index % w },
                None => w - self.index % w,
            }
        } else {
            ew
        }
    }

    /// Reads one row of up to `len` bytes. The offset moves on by what was
    /// read, and wraps around where it leaves the machine integers, which
    /// it does not in a known source.
    pub fn read_into_buffer(&mut self, len: usize) -> (r: Result<RowBuffer, R::Error>)
        requires
            old(self).options.wf(),
            old(self).reader.known() ==> old(self).index + old(self).reader.remaining().len()
                <= usize::MAX,
        ensures
            final(self).options == old(self).options,
            final(self).elision_match == old(self).elision_match,
            final(self).reader.known() == old(self).reader.known(),
            r matches Ok(row) ==> row.wf() && final(self).state
                == HexdumpLineIteratorState::InProgress,
            old(self).reader.known() ==> {
                &&& final(self).reader.spec_total_byte_hint() == old(
                    self,
                ).reader.spec_total_byte_hint()
                &&& final(self).reader.infallible() == old(self).reader.infallible()
                &&& old(self).reader.infallible() ==> r is Ok
                &&& r matches Ok(row) ==> {
                    let n = crate::reader::min_nat(len as nat, old(self).reader.remaining().len());
                    &&& row@ == (Row {
                        bytes: old(self).reader.remaining().take(n as int),
                        row_index: spec_row_index(old(self).options, old(self).index as nat),
                        elt_index: old(self).index as nat,
                    })
                    &&& final(self).index == old(self).index + n
                    &&& final(self).reader.remaining() == old(self).reader.remaining().skip(
                        n as int,
                    )
                }
            },
    {
        let buffer: Vec<u8> = self.reader.next_n(len)?;
        let actually_read_len: usize = buffer.len();
        let o = RowBuffer {
            buffer,
            length: actually_read_len,
            row_index: self.calculate_row_index(),
            elt_index: self.index,
        };
        self.index = self.index.wrapping_add(actually_read_len);
        self.state = HexdumpLineIteratorState::InProgress;
        Ok(o)
    }

    /// Hands out the next row, or nothing once the dump has ended. A row
    /// that repeats the saved one comes as `Elided`; any other is saved in
    /// its place if it is full and uniform. Of a known source the row is
    /// the next of its rows.
    pub fn next(&mut self) -> (r: Option<Result<LineIteratorResult, R::Error>>)
        requires
            old(self).wf(),
        ensures
            final(self).options == old(self).options,
            final(self).reader.known() == old(self).reader.known(),
            old(self).state == HexdumpLineIteratorState::Completed ==> r is None && *final(self)
                == *old(self),
            r matches Some(Ok(res)) ==> final(self).wf() && res.row().wf(),
            r is None ==> final(self).wf(),
            old(self).reader.known() ==> {
                &&& final(self).reader.spec_total_byte_hint() == old(
                    self,
                ).reader.spec_total_byte_hint()
                &&& final(self).reader.infallible() == old(self).reader.infallible()
                &&& old(self).reader.infallible() ==> !(r matches Some(Err(_)))
            },
            old(self).reader.known() && old(self).state != HexdumpLineIteratorState::Completed
                ==> match r {
                Some(Ok(res)) => {
                    &&& res.row()@ == old(self).next_row()
                    &&& res.row()@.bytes.len() > 0
                    &&& res is Elided <==> old(self).next_elided()
                    &&& final(self).state == HexdumpLineIteratorState::InProgress
                    &&& final(self).index == old(self).next_index() + res.row()@.bytes.len()
                    &&& final(self).reader.remaining() == old(self).next_rest().skip(
                        res.row()@.bytes.len() as int,
                    )
                    &&& final(self).saved() == old(self).next_match()
                },
                Some(Err(_)) => true,
                None => {
                    &&& old(self).next_row().bytes.len() == 0
                    &&& final(self).state == HexdumpLineIteratorState::Completed
                    &&& final(self).index == old(self).next_index()
                },
            },
    {
        match self.state {
            HexdumpLineIteratorState::Completed => None,
            _ => {
                if self.state == HexdumpLineIteratorState::NotStarted
                    && self.options.print_range.skip > 0 {
                    match self.reader.skip_n(self.options.print_range.skip) {
                        Ok(_) => {},
                        Err(e) => {
                            return Some(Err(e));
                        },
                    }
                    self.index = self.options.print_range.skip;
                }
                proof {
                    if self.reader.known() {
                        assert(self.reader.remaining() =~= old(self).next_rest());
                    }
                }
                let read_len: usize = self.read_len();
                let rowbuffer = match self.read_into_buffer(read_len) {
                    Ok(row) => row,
                    Err(e) => {
                        return Some(Err(e));
                    },
                };
                if self.options.autoskip {
                    let repeats: bool = match &self.elision_match {
                        Some(em) => em.matches(&rowbuffer, &self.options),
                        None => false,
                    };
                    if repeats {
                        return Some(Ok(LineIteratorResult::Elided(rowbuffer)));
                    }
                    self.elision_match = ElisionMatch::try_match(&rowbuffer, &self.options);
                }
                if rowbuffer.length > 0 {
                    Some(Ok(LineIteratorResult::Row(rowbuffer)))
                } else {
                    self.state = HexdumpLineIteratorState::Completed;
                    None
                }
            },
        }
    }
}

} // verus!
