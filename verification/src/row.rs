//! Rows: the unit of a dump, and the test that lets a run of them collapse.
use vstd::prelude::*;
use crate::options::{Grouping, HexdOptions};

verus! {

/// One row of a dump as a value: the bytes it holds, the offset printed for
/// it, and the stream offset at which its first byte stood.
pub struct Row {
    pub bytes: Seq<u8>,
    pub row_index: nat,
    pub elt_index: nat,
}

/// One row of a dump, as read from the source.
#[derive(Debug)]
pub struct RowBuffer {
    /// The bytes that were read.
    pub buffer: Vec<u8>,
    /// Their number.
    pub length: usize,
    /// The offset that stands for the row: where its first column is.
    pub row_index: usize,
    /// The stream offset of the first byte read.
    pub elt_index: usize,
}

impl View for RowBuffer {
    type V = Row;

    open spec fn view(&self) -> Row {
        Row {
            bytes: self.buffer@,
            row_index: self.row_index as nat,
            elt_index: self.elt_index as nat,
        }
    }
}

/// A copy of a run of bytes.
pub fn copy_bytes(bytes: &Vec<u8>) -> (out: Vec<u8>)
    ensures
        out@ == bytes@,
{
    let mut out: Vec<u8> = Vec::new();
    let mut i: usize = 0;
    while i < bytes.len()
        invariant
            i <= bytes@.len(),
            out@ == bytes@.take(i as int),
        decreases bytes@.len() - i,
    {
        out.push(bytes[i]);
        i += 1;
        assert(out@ =~= bytes@.take(i as int));
    }
    assert(out@ =~= bytes@);
    out
}

/// Whether two runs of bytes are the same.
pub fn same_bytes(a: &Vec<u8>, b: &Vec<u8>) -> (same: bool)
    ensures
        same == (a@ == b@),
{
    if a.len() != b.len() {
        return false;
    }
    let mut i: usize = 0;
    while i < a.len()
        invariant
            i <= a@.len(),
            a@.len() == b@.len(),
            a@.take(i as int) == b@.take(i as int),
        decreases a@.len() - i,
    {
        if a[i] != b[i] {
            return false;
        }
        i += 1;
        assert(a@.take(i as int) =~= a@.take(i - 1).push(a@[i - 1]));
        assert(b@.take(i as int) =~= b@.take(i - 1).push(b@[i - 1]));
    }
    assert(a@ =~= a@.take(a@.len() as int));
    assert(b@ =~= b@.take(b@.len() as int));
    true
}

impl RowBuffer {
    /// The recorded length is that of the bytes held.
    pub open spec fn wf(&self) -> bool {
        self.length == self.buffer@.len()
    }

    /// Whether the row's first byte stands to the right of its first column.
    pub open spec fn spec_is_right_aligned(&self) -> bool {
        self.elt_index != self.row_index
    }

    /// Whether the row's first byte stands to the right of its first column.
    pub fn is_right_aligned(&self) -> (r: bool)
        ensures
            r == self.spec_is_right_aligned(),
    {
        self.elt_index != self.row_index
    }

    /// A copy of the row.
    pub fn duplicate(&self) -> (r: RowBuffer)
        ensures
            r@ == self@,
            r.length == self.length,
    {
        RowBuffer {
            buffer: copy_bytes(&self.buffer),
            length: self.length,
            row_index: self.row_index,
            elt_index: self.elt_index,
        }
    }
}

/// Whether `bytes` fill a row and repeat throughout it: each byte equals the
/// first without groups, each group equals the first group with them.
#[verifier::opaque]
pub open spec fn spec_uniform(grouping: Grouping, bytes: Seq<u8>) -> bool {
    &&& bytes.len() == grouping.spec_elt_width()
    &&& forall|i: int|
        0 <= i < bytes.len() ==> bytes[i] == #[trigger] bytes[i % (grouping.spec_unit() as int)]
}

/// The repeating unit of a grouping is not empty, and a whole number of
/// units fill a row.
pub proof fn lemma_unit_divides(grouping: Grouping)
    requires
        grouping.wf(),
    ensures
        0 < grouping.spec_unit() <= grouping.spec_elt_width(),
        grouping.spec_elt_width() % grouping.spec_unit() == 0,
{
    match grouping {
        Grouping::Ungrouped { byte_count, spacing } => {},
        Grouping::Grouped { group_size, byte_spacing, num_groups, group_spacing } => {
            let u = group_size.spec_element_count() as int;
            let n = num_groups as int;
            assert(u > 0 && u * n > 0 ==> u <= u * n && (u * n) % u == 0) by (nonlinear_arith);
        },
    }
}

/// A uniform row is a full row.
pub proof fn lemma_uniform_full(grouping: Grouping, bytes: Seq<u8>)
    requires
        spec_uniform(grouping, bytes),
    ensures
        bytes.len() == grouping.spec_elt_width(),
{
    reveal(spec_uniform);
}

/// The row that a run of identical rows is measured against.
#[derive(Debug)]
pub struct ElisionMatch {
    pub buffer: Vec<u8>,
}

impl View for ElisionMatch {
    type V = Seq<u8>;

    open spec fn view(&self) -> Seq<u8> {
        self.buffer@
    }
}

impl ElisionMatch {
    /// Saves `row` as the start of a run, if it is full and uniform.
    pub fn try_match(row: &RowBuffer, options: &HexdOptions) -> (m: Option<Self>)
        requires
            options.wf(),
        ensures
            m is Some <==> spec_uniform(options.grouping, row@.bytes),
            m matches Some(em) ==> em@ == row@.bytes,
    {
        reveal(spec_uniform);
        let width: usize = options.elt_width();
        if row.buffer.len() != width {
            return None;
        }
        let unit: usize = match options.grouping {
            Grouping::Ungrouped { byte_count: _, spacing: _ } => 1,
            Grouping::Grouped { group_size, num_groups: _, byte_spacing: _, group_spacing: _ } =>
                group_size.element_count(),
        };
        proof {
            lemma_unit_divides(options.grouping);
        }
        let mut i: usize = 0;
        while i < width
            invariant
                i <= width,
                width == row.buffer@.len(),
                unit == options.grouping.spec_unit(),
                0 < unit <= width,
                forall|j: int|
                    0 <= j < i ==> row.buffer@[j] == #[trigger] row.buffer@[j % (unit as int)],
            decreases width - i,
        {
            if row.buffer[i] != row.buffer[i % unit] {
                proof {
                    reveal(spec_uniform);
                }
                return None;
            }
            i += 1;
        }
        proof {
            reveal(spec_uniform);
        }
        Some(ElisionMatch { buffer: copy_bytes(&row.buffer) })
    }

    /// Whether `row` is full and repeats the saved row.
    pub fn matches(&self, row: &RowBuffer, options: &HexdOptions) -> (m: bool)
        requires
            options.wf(),
        ensures
            m == (row@.bytes.len() == options.spec_elt_width() && self@ == row@.bytes),
    {
        if row.buffer.len() == options.elt_width() {
            same_bytes(&self.buffer, &row.buffer)
        } else {
            false
        }
    }
}

} // verus!
