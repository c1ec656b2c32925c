//! Sources that read the bytes of a slice of integers.
use vstd::prelude::*;
use core::convert::Infallible;
use crate::endian::EndianBytes;
use crate::options::Endianness;
use crate::reader::ReadBytes;

verus! {

/// The bytes of a run of integers, one integer after the other.
pub open spec fn spec_flat<U: EndianBytes<N>, const N: usize>(s: Seq<U>, end: Endianness) -> Seq<u8>
    decreases s.len(),
{
    if s.len() == 0 {
        Seq::empty()
    } else {
        s[0].spec_to_bytes(end) + spec_flat::<U, N>(s.drop_first(), end)
    }
}

/// A run of integers of `N` bytes each has `N` bytes for each of them.
pub proof fn lemma_flat_len<U: EndianBytes<N>, const N: usize>(s: Seq<U>, end: Endianness)
    ensures
        spec_flat::<U, N>(s, end).len() == s.len() * N,
    decreases s.len(),
{
    if s.len() > 0 {
        s[0].lemma_bytes_len(end);
        lemma_flat_len::<U, N>(s.drop_first(), end);
        assert((s.len() - 1) * N + N == s.len() * N) by (nonlinear_arith);
    }
}

/// The bytes from integer `e` on are the bytes of integer `e` and then the
/// bytes from the next one on.
pub proof fn lemma_flat_unfold<U: EndianBytes<N>, const N: usize>(s: Seq<U>, end: Endianness, e: int)
    requires
        0 <= e < s.len(),
    ensures
        spec_flat::<U, N>(s.skip(e), end) == s[e].spec_to_bytes(end) + spec_flat::<U, N>(
            s.skip(e + 1),
            end,
        ),
        s[e].spec_to_bytes(end).len() == N,
{
    s[e].lemma_bytes_len(end);
    assert(s.skip(e)[0] == s[e]);
    assert(s.skip(e).drop_first() =~= s.skip(e + 1));
}

/// Passing over whole integers: the bytes from integer `e` on are what is
/// left of the bytes from integer `e0` on after `N` bytes for each integer
/// between them.
pub proof fn lemma_flat_skip<U: EndianBytes<N>, const N: usize>(
    s: Seq<U>,
    end: Endianness,
    e0: int,
    e: int,
)
    requires
        0 <= e0 <= e <= s.len(),
    ensures
        (e - e0) * N <= spec_flat::<U, N>(s.skip(e0), end).len(),
        spec_flat::<U, N>(s.skip(e0), end).skip((e - e0) * N) == spec_flat::<U, N>(s.skip(e), end),
    decreases e - e0,
{
    lemma_flat_len::<U, N>(s.skip(e0), end);
    assert((e - e0) * N <= (s.len() - e0) * N) by (nonlinear_arith)
        requires
            e <= s.len(),
            0 <= e0 <= e,
    ;
    if e == e0 {
        assert((e - e0) * N == 0) by (nonlinear_arith)
            requires
                e == e0,
        ;
        assert(spec_flat::<U, N>(s.skip(e0), end).skip(0) =~= spec_flat::<U, N>(s.skip(e), end));
    } else {
        lemma_flat_unfold::<U, N>(s, end, e0);
        lemma_flat_skip::<U, N>(s, end, e0 + 1, e);
        lemma_flat_len::<U, N>(s.skip(e0 + 1), end);
        let head = s[e0].spec_to_bytes(end);
        let tail = spec_flat::<U, N>(s.skip(e0 + 1), end);
        assert((e - e0) * N == N + (e - e0 - 1) * N) by (nonlinear_arith);
        assert((head + tail).skip((e - e0) * N) =~= tail.skip((e - e0 - 1) * N));
    }
}

/// A source that reads the bytes of a slice of integers, in the byte order
/// it was made with.
pub struct GroupedSliceByteReader<'a, U: EndianBytes<N>, const N: usize> {
    slice: &'a [U],
    elt_index: usize,
    u_index: usize,
    current_elt: Option<[u8; N]>,
    endianness: Endianness,
}

impl<'a, U: EndianBytes<N>, const N: usize> GroupedSliceByteReader<'a, U, N> {
    /// The reader stands inside the slice, at a byte of the integer whose
    /// bytes it holds.
    #[verifier::type_invariant]
    closed spec fn inv(&self) -> bool {
        &&& N > 0
        &&& self.slice@.len() * N <= usize::MAX
        &&& self.elt_index <= self.slice@.len()
        &&& self.u_index < N
        &&& self.elt_index == self.slice@.len() ==> self.u_index == 0
        &&& match self.current_elt {
            Some(a) => self.elt_index < self.slice@.len() && a@ == self.slice@[self.elt_index as int].spec_to_bytes(
                self.endianness,
            ),
            None => self.elt_index == self.slice@.len(),
        }
    }

    /// The bytes of the integer at `index`, if there is one.
    fn load(slice: &'a [U], index: usize, endianness: Endianness) -> (c: Option<[u8; N]>)
        ensures
            match c {
                Some(a) => index < slice@.len() && a@ == slice@[index as int].spec_to_bytes(
                    endianness,
                ),
                None => index >= slice@.len(),
            },
    {
        if index < slice.len() {
            Some(slice[index].to_bytes(endianness))
        } else {
            None
        }
    }

    /// A source that hands out the bytes of the integers of `slice`.
    pub fn new(slice: &'a [U], endianness: Endianness) -> (r: Self)
        requires
            N > 0,
            slice@.len() * N <= usize::MAX,
        ensures
            r.known(),
            r.remaining() == spec_flat::<U, N>(slice@, endianness),
            r.spec_total_byte_hint() == Some((slice@.len() * N) as usize),
            r.infallible(),
    {
        let current_elt = Self::load(slice, 0, endianness);
        assert(slice@.skip(0) =~= slice@);
        assert(spec_flat::<U, N>(slice@, endianness).skip(0) =~= spec_flat::<U, N>(
            slice@,
            endianness,
        ));
        GroupedSliceByteReader { slice, elt_index: 0, u_index: 0, current_elt, endianness }
    }

    /// Steps to the next byte.
    fn advance_indices(&mut self)
        requires
            old(self).remaining().len() > 0,
        ensures
            final(self).remaining() == old(self).remaining().skip(1),
            final(self).spec_total_byte_hint() == old(self).spec_total_byte_hint(),
    {
        let len: usize = self.slice.len();
        proof {
            use_type_invariant(&*self);
            if self.elt_index < self.slice@.len() {
                lemma_flat_unfold::<U, N>(self.slice@, self.endianness, self.elt_index as int);
            } else {
                assert(self.slice@.skip(self.elt_index as int) =~= Seq::<U>::empty());
            }
            assert(self.elt_index < len);
        }
        let ghost head = self.slice@[self.elt_index as int].spec_to_bytes(self.endianness);
        let ghost tail = spec_flat::<U, N>(self.slice@.skip(self.elt_index + 1), self.endianness);
        let mut u: usize = self.u_index + 1;
        let mut e: usize = self.elt_index;
        let mut c: Option<[u8; N]> = self.current_elt;
        if u >= N {
            u = 0;
            e = e + 1;
            c = Self::load(self.slice, e, self.endianness);
            assert((head + tail).skip(N as int) =~= tail);
            assert(tail.skip(0) =~= tail);
        }
        assert((head + tail).skip(self.u_index as int).skip(1) =~= (head + tail).skip(
            self.u_index + 1,
        ));
        *self = GroupedSliceByteReader {
            slice: self.slice,
            elt_index: e,
            u_index: u,
            current_elt: c,
            endianness: self.endianness,
        };
    }

    /// Reads one byte, if there is one left.
    pub fn next_byte(&mut self) -> (b: Option<u8>)
        ensures
            final(self).spec_total_byte_hint() == old(self).spec_total_byte_hint(),
            match b {
                Some(v) => {
                    &&& old(self).remaining().len() > 0
                    &&& v == old(self).remaining()[0]
                    &&& final(self).remaining() == old(self).remaining().skip(1)
                },
                None => old(self).remaining().len() == 0 && final(self).remaining() == old(
                    self,
                ).remaining(),
            },
    {
        proof {
            use_type_invariant(&*self);
            if self.elt_index < self.slice@.len() {
                lemma_flat_unfold::<U, N>(self.slice@, self.endianness, self.elt_index as int);
            }
        }
        match self.current_elt {
            Some(ce) => {
                let v: u8 = ce[self.u_index];
                self.advance_indices();
                Some(v)
            },
            None => {
                assert(self.slice@.skip(self.elt_index as int) =~= Seq::<U>::empty());
                None
            },
        }
    }

    /// Reads up to `n` bytes: exactly `n` unless the integers end first.
    pub fn next_bytes(&mut self, n: usize) -> (out: Vec<u8>)
        ensures
            final(self).spec_total_byte_hint() == old(self).spec_total_byte_hint(),
            ({
                let k = crate::reader::min_nat(n as nat, old(self).remaining().len());
                &&& out@ == old(self).remaining().take(k as int)
                &&& final(self).remaining() == old(self).remaining().skip(k as int)
            }),
    {
        let mut out: Vec<u8> = Vec::new();
        let mut i: usize = 0;
        assert(self.remaining() =~= old(self).remaining().skip(0));
        while i < n
            invariant
                i <= n,
                i <= old(self).remaining().len(),
                out@ == old(self).remaining().take(i as int),
                self.remaining() == old(self).remaining().skip(i as int),
                self.spec_total_byte_hint() == old(self).spec_total_byte_hint(),
            decreases n - i,
        {
            match self.next_byte() {
                Some(cb) => {
                    out.push(cb);
                    assert(out@ =~= old(self).remaining().take(i + 1));
                    assert(self.remaining() =~= old(self).remaining().skip(i + 1));
                },
                None => {
                    assert(out@ =~= old(self).remaining().take(i as int));
                    return out;
                },
            }
            i += 1;
        }
        out
    }

    /// Passes over up to `adv` bytes and returns how many were passed over:
    /// `adv` unless the integers end first.
    pub fn advance_indices_by(&mut self, adv: usize) -> (k: usize)
        ensures
            final(self).spec_total_byte_hint() == old(self).spec_total_byte_hint(),
            k == crate::reader::min_nat(adv as nat, old(self).remaining().len()),
            final(self).remaining() == old(self).remaining().skip(k as int),
    {
        proof {
            use_type_invariant(&*self);
        }
        let len: usize = self.slice.len();
        let ghost s = self.slice@;
        let ghost e0 = self.elt_index as int;
        let ghost u0 = self.u_index as int;
        let ghost width = N as int;
        assert(e0 * width + u0 <= len * width) by (nonlinear_arith)
            requires
                0 <= e0 <= len,
                0 <= u0 < width,
                e0 == len ==> u0 == 0,
        ;
        assert(e0 * width >= 0) by (nonlinear_arith)
            requires
                e0 >= 0,
                width > 0,
        ;
        let consumed: usize = self.elt_index * N + self.u_index;
        let total: usize = len * N;
        let avail: usize = total - consumed;
        let k: usize = if adv < avail { adv } else { avail };
        let pos: usize = consumed + k;
        let e: usize = pos / N;
        let u: usize = pos % N;
        proof {
            let p = pos as int;
            assert(p == (p / width) * width + p % width && 0 <= p % width < width) by (nonlinear_arith)
                requires
                    width > 0,
                    p >= 0,
            ;
            assert(e0 <= e <= len && (e == len ==> u == 0)) by (nonlinear_arith)
                requires
                    p == e * width + u,
                    0 <= u < width,
                    0 <= u0 < width,
                    e0 * width + u0 <= p <= len * width,
                    e0 >= 0,
            ;
            lemma_flat_len::<U, N>(s.skip(e0), self.endianness);
            assert((len - e0) * width == len * width - e0 * width) by (nonlinear_arith);
            lemma_flat_skip::<U, N>(s, self.endianness, e0, e as int);
            assert(u0 + k == (e - e0) * width + u) by (nonlinear_arith)
                requires
                    p == e * width + u,
                    p == e0 * width + u0 + k,
            ;
            let all = spec_flat::<U, N>(s.skip(e0), self.endianness);
            lemma_flat_len::<U, N>(s.skip(e as int), self.endianness);
            assert((len - e) * width == len * width - e * width) by (nonlinear_arith);
            assert(all.skip(u0).skip(k as int) =~= all.skip((e - e0) * width).skip(u as int));
        }
        let c: Option<[u8; N]> = Self::load(self.slice, e, self.endianness);
        *self = GroupedSliceByteReader {
            slice: self.slice,
            elt_index: e,
            u_index: u,
            current_elt: c,
            endianness: self.endianness,
        };
        k
    }
}

impl<'a, U: EndianBytes<N>, const N: usize> ReadBytes for GroupedSliceByteReader<'a, U, N> {
    type Error = Infallible;

    open spec fn known(&self) -> bool {
        true
    }

    closed spec fn remaining(&self) -> Seq<u8> {
        spec_flat::<U, N>(self.slice@.skip(self.elt_index as int), self.endianness).skip(
            self.u_index as int,
        )
    }

    closed spec fn spec_total_byte_hint(&self) -> Option<usize> {
        Some((self.slice@.len() * N) as usize)
    }

    open spec fn infallible(&self) -> bool {
        true
    }

    fn next_n(&mut self, n: usize) -> (r: Result<Vec<u8>, Self::Error>) {
        Ok(self.next_bytes(n))
    }

    fn skip_n(&mut self, n: usize) -> (r: Result<usize, Self::Error>) {
        Ok(self.advance_indices_by(n))
    }

    fn total_byte_hint(&self) -> (h: Option<usize>) {
        proof {
            use_type_invariant(self);
        }
        Some(self.slice.len() * N)
    }
}

/// A source of whole integers, each as its `N` bytes. A source that is
/// `known` hands out the integers of `pending` in order, each once; of any
/// other source nothing is said.
pub trait GroupedReader<const N: usize> {
    /// Whether what the source holds is known ahead of reading it.
    open spec fn known(&self) -> bool {
        false
    }

    /// The integers that a known source has yet to hand out, each as its
    /// bytes in the given order.
    open spec fn pending(&self, end: Endianness) -> Seq<Seq<u8>> {
        Seq::empty()
    }

    /// Reads the bytes of the next integer, if there is one left: the first
    /// of the pending ones, which is then no longer pending, in either byte
    /// order.
    fn read_next(&mut self, end: Endianness) -> (r: Option<[u8; N]>)
        ensures
            final(self).known() == old(self).known(),
            old(self).known() ==> match r {
                Some(bytes) => {
                    &&& old(self).pending(end).len() > 0
                    &&& bytes@ == old(self).pending(end)[0]
                    &&& forall|e: Endianness|
                        #[trigger] final(self).pending(e) == old(self).pending(e).drop_first()
                },
                None => {
                    &&& old(self).pending(end).len() == 0
                    &&& forall|e: Endianness|
                        #[trigger] final(self).pending(e) == old(self).pending(e)
                },
            },
    ;

    /// The number of bytes of each integer.
    fn size(&self) -> (n: usize)
        ensures
            n == N,
    {
        N
    }
}

/// A source that reads the integers of a slice, one at a time.
pub struct GroupedSliceReader<'a, U: EndianBytes<N>, const N: usize> {
    slice: &'a [U],
    index: usize,
}

impl<'a, U: EndianBytes<N>, const N: usize> GroupedSliceReader<'a, U, N> {
    /// The integers that are still to be read.
    pub closed spec fn rest(&self) -> Seq<U> {
        if self.index <= self.slice@.len() {
            self.slice@.skip(self.index as int)
        } else {
            Seq::empty()
        }
    }

    /// A source that hands out the integers of `slice` from its start.
    pub fn new(slice: &'a [U]) -> (r: Self)
        ensures
            r.rest() == slice@,
    {
        let r = GroupedSliceReader { slice, index: 0 };
        assert(r.rest() =~= slice@);
        r
    }

    /// Reads the next integer as bytes in the given order, if there is one
    /// left.
    pub fn next(&mut self, end: Endianness) -> (r: Option<[u8; N]>)
        ensures
            match r {
                Some(bytes) => {
                    &&& old(self).rest().len() > 0
                    &&& bytes@ == old(self).rest()[0].spec_to_bytes(end)
                    &&& final(self).rest() == old(self).rest().drop_first()
                },
                None => old(self).rest().len() == 0 && final(self).rest() == old(self).rest(),
            },
    {
        if self.index < self.slice.len() {
            let s = Some(self.slice[self.index].to_bytes(end));
            self.index += 1;
            assert(self.rest() =~= old(self).rest().drop_first());
            s
        } else {
            None
        }
    }
}

/// The integers of a run, each as its bytes in the given order.
pub open spec fn spec_groups<U: EndianBytes<N>, const N: usize>(s: Seq<U>, end: Endianness) -> Seq<
    Seq<u8>,
> {
    Seq::new(s.len(), |i: int| s[i].spec_to_bytes(end))
}

impl<'a, const N: usize, U: EndianBytes<N>> GroupedReader<N> for GroupedSliceReader<'a, U, N> {
    open spec fn known(&self) -> bool {
        true
    }

    open spec fn pending(&self, end: Endianness) -> Seq<Seq<u8>> {
        spec_groups::<U, N>(self.rest(), end)
    }

    fn read_next(&mut self, end: Endianness) -> (r: Option<[u8; N]>)
        ensures
            match r {
                Some(bytes) => {
                    &&& old(self).rest().len() > 0
                    &&& bytes@ == old(self).rest()[0].spec_to_bytes(end)
                    &&& final(self).rest() == old(self).rest().drop_first()
                },
                None => old(self).rest().len() == 0 && final(self).rest() == old(self).rest(),
            },
    {
        let r = self.next(end);
        proof {
            if r is Some {
                assert forall|e: Endianness| #[trigger]
                    self.pending(e) == old(self).pending(e).drop_first() by {
                    assert(self.pending(e) =~= old(self).pending(e).drop_first());
                }
            }
        }
        r
    }
}

} // verus!
