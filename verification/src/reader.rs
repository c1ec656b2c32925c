//! Byte sources: what a dump reads from.
use vstd::prelude::*;
use core::convert::Infallible;

verus! {

/// The smaller of two numbers.
pub open spec fn min_nat(a: nat, b: nat) -> nat {
    if a <= b {
        a
    } else {
        b
    }
}

/// A sequential source of bytes. A source that is `known` hands out the
/// bytes of `remaining` in order, each once, and comes up short only where
/// they end; of any other source nothing is said but that reading from it
/// gives bytes or an error.
pub trait ReadBytes {
    type Error;

    /// Whether what the source holds is known ahead of reading it.
    open spec fn known(&self) -> bool {
        false
    }

    /// The bytes that a known source has yet to hand out.
    open spec fn remaining(&self) -> Seq<u8> {
        Seq::empty()
    }

    /// The estimate that a known source gives of its total length, if it
    /// gives one. Reading does not change it.
    open spec fn spec_total_byte_hint(&self) -> Option<usize> {
        None
    }

    /// Whether reading from a known source cannot fail.
    open spec fn infallible(&self) -> bool {
        false
    }

    /// Reads up to `n` bytes: exactly `n` unless the source ends first.
    fn next_n(&mut self, n: usize) -> (r: Result<Vec<u8>, Self::Error>)
        ensures
            final(self).known() == old(self).known(),
            old(self).known() ==> {
                &&& final(self).spec_total_byte_hint() == old(self).spec_total_byte_hint()
                &&& final(self).infallible() == old(self).infallible()
                &&& old(self).infallible() ==> r is Ok
                &&& r matches Ok(bytes) ==> {
                    let k = min_nat(n as nat, old(self).remaining().len());
                    &&& bytes@ == old(self).remaining().take(k as int)
                    &&& final(self).remaining() == old(self).remaining().skip(k as int)
                }
            },
    ;

    /// Passes over up to `n` bytes and returns how many were passed over:
    /// `n` unless the source ends first.
    fn skip_n(&mut self, n: usize) -> (r: Result<usize, Self::Error>)
        ensures
            final(self).known() == old(self).known(),
            old(self).known() ==> {
                &&& final(self).spec_total_byte_hint() == old(self).spec_total_byte_hint()
                &&& final(self).infallible() == old(self).infallible()
                &&& old(self).infallible() ==> r is Ok
                &&& r matches Ok(k) ==> {
                    &&& k == min_nat(n as nat, old(self).remaining().len())
                    &&& final(self).remaining() == old(self).remaining().skip(k as int)
                }
            },
    {
        let mut i: usize = 0;
        while i < n
            invariant
                i <= n,
                self.known() == old(self).known(),
                self.known() ==> {
                    &&& i <= old(self).remaining().len()
                    &&& self.remaining() == old(self).remaining().skip(i as int)
                    &&& self.spec_total_byte_hint() == old(self).spec_total_byte_hint()
                    &&& self.infallible() == old(self).infallible()
                },
            decreases n - i,
        {
            let want: usize = if n - i < 64 { n - i } else { 64 };
            let b = self.next_n(want)?;
            if b.len() == 0 || b.len() > want {
                proof {
                    if self.known() {
                        assert(self.remaining() =~= old(self).remaining().skip(i as int));
                    }
                }
                return Ok(i);
            }
            proof {
                if self.known() {
                    assert(self.remaining() =~= old(self).remaining().skip(i + b.len()));
                }
            }
            i += b.len();
        }
        Ok(n)
    }

    /// The source's estimate of its total length, if it has one.
    fn total_byte_hint(&self) -> (h: Option<usize>)
        ensures
            self.known() ==> h == self.spec_total_byte_hint(),
    ;
}

/// A source that reads a slice of bytes.
pub struct ByteSliceReader<'a> {
    slice: &'a [u8],
    index: usize,
}

impl<'a> ByteSliceReader<'a> {
    /// A source that hands out the bytes of `slice` from its start.
    pub fn new(slice: &'a [u8]) -> (r: ByteSliceReader<'a>)
        ensures
            r.known(),
            r.remaining() == slice@,
            r.remaining().len() <= usize::MAX,
            r.spec_total_byte_hint() == Some(slice@.len() as usize),
            r.infallible(),
    {
        let len: usize = slice.len();
        let r = ByteSliceReader { slice, index: 0usize };
        assert(r.remaining() =~= slice@);
        assert(r.remaining().len() == len);
        r
    }
}

impl<'a> ReadBytes for ByteSliceReader<'a> {
    type Error = Infallible;

    open spec fn known(&self) -> bool {
        true
    }

    closed spec fn remaining(&self) -> Seq<u8> {
        if self.index <= self.slice@.len() {
            self.slice@.skip(self.index as int)
        } else {
            Seq::empty()
        }
    }

    closed spec fn spec_total_byte_hint(&self) -> Option<usize> {
        Some(self.slice@.len() as usize)
    }

    open spec fn infallible(&self) -> bool {
        true
    }

    fn next_n(&mut self, n: usize) -> (r: Result<Vec<u8>, Self::Error>) {
        let mut out: Vec<u8> = Vec::new();
        if self.index >= self.slice.len() {
            assert(out@ =~= old(self).remaining().take(0));
            assert(self.remaining() =~= old(self).remaining().skip(0));
            return Ok(out);
        }
        let len: usize = self.slice.len();
        let avail: usize = len - self.index;
        let end: usize = if n < avail { n } else { avail };
        let mut i: usize = 0;
        while i < end
            invariant
                i <= end,
                self.slice@.len() == len,
                self.index + end <= self.slice@.len(),
                out@ == self.slice@.subrange(self.index as int, self.index + i),
                *self == *old(self),
            decreases end - i,
        {
            out.push(self.slice[self.index + i]);
            i += 1;
            assert(out@ =~= self.slice@.subrange(self.index as int, self.index + i));
        }
        assert(out@ =~= old(self).remaining().take(end as int));
        self.index += end;
        assert(self.remaining() =~= old(self).remaining().skip(end as int));
        Ok(out)
    }

    fn skip_n(&mut self, n: usize) -> (r: Result<usize, Self::Error>) {
        if self.index >= self.slice.len() {
            assert(self.remaining() =~= old(self).remaining().skip(0));
            return Ok(0);
        }
        let avail: usize = self.slice.len() - self.index;
        let k: usize = if n < avail { n } else { avail };
        self.index += k;
        assert(self.remaining() =~= old(self).remaining().skip(k as int));
        Ok(k)
    }

    fn total_byte_hint(&self) -> (h: Option<usize>) {
        Some(self.slice.len())
    }
}

} // verus!
