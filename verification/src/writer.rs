//! Sinks: what a dump writes to.
use vstd::prelude::*;
use core::convert::Infallible;

verus! {

/// What a sink holds once `text` has been appended to it: the text goes to
/// the end of the last piece, or makes the first one.
pub open spec fn spec_append(chunks: Seq<Seq<char>>, text: Seq<char>) -> Seq<Seq<char>> {
    if chunks.len() == 0 {
        seq![text]
    } else {
        chunks.drop_last().push(chunks.last() + text)
    }
}

/// What a sink holds once a line has ended: a sink that keeps lines apart
/// starts a new, empty piece.
pub open spec fn spec_end_line(chunks: Seq<Seq<char>>, splits: bool) -> Seq<Seq<char>> {
    if splits {
        chunks.push(Seq::empty())
    } else {
        chunks
    }
}

/// What a sink holds once each of `lines` has been appended and ended.
pub open spec fn spec_after_lines(chunks: Seq<Seq<char>>, splits: bool, lines: Seq<Seq<char>>) -> Seq<
    Seq<char>,
>
    decreases lines.len(),
{
    if lines.len() == 0 {
        chunks
    } else {
        spec_end_line(
            spec_append(spec_after_lines(chunks, splits, lines.drop_last()), lines.last()),
            splits,
        )
    }
}

/// A sink for the text of a dump. The text it is given is ASCII. A sink
/// that `keeps_text` holds the text it was given, in the pieces that
/// `chunks` tells; of any other sink nothing is said but that writing to it
/// succeeds or fails.
pub trait WriteHexdump: Sized {
    type Error;

    type Output;

    /// Whether the sink holds the text that it was given.
    open spec fn keeps_text(&self) -> bool {
        false
    }

    /// The pieces of text that the sink holds, in order.
    open spec fn chunks(&self) -> Seq<Seq<char>> {
        Seq::empty()
    }

    /// Whether the sink keeps lines apart, each in a piece of its own.
    open spec fn splits_lines(&self) -> bool {
        false
    }

    /// Whether writing to the sink cannot fail.
    open spec fn infallible(&self) -> bool {
        false
    }

    /// Whether `out` is what a dump returns that ended with the sink, or
    /// with the error, `end`.
    open spec fn consumed(end: Result<Self, Self::Error>, out: Self::Output) -> bool {
        true
    }

    /// Appends text.
    fn write_str(&mut self, s: &str) -> (r: Result<(), Self::Error>)
        requires
            vstd::string::is_ascii(s),
        ensures
            final(self).keeps_text() == old(self).keeps_text(),
            old(self).keeps_text() ==> {
                &&& final(self).splits_lines() == old(self).splits_lines()
                &&& final(self).infallible() == old(self).infallible()
                &&& old(self).infallible() ==> r is Ok
                &&& r is Ok ==> final(self).chunks() == spec_append(old(self).chunks(), s@)
            },
    ;

    /// Called once at the end of each line, after the line's text, which
    /// holds the line break already.
    fn line_end(&mut self) -> (r: Result<(), Self::Error>)
        ensures
            final(self).keeps_text() == old(self).keeps_text(),
            old(self).keeps_text() ==> {
                &&& final(self).splits_lines() == old(self).splits_lines()
                &&& final(self).infallible() == old(self).infallible()
                &&& old(self).infallible() ==> r is Ok
                &&& r is Ok ==> final(self).chunks() == spec_end_line(
                    old(self).chunks(),
                    old(self).splits_lines(),
                )
            },
    ;

    /// Turns the sink of a dump that has ended, or the error that ended it,
    /// into what the dump returns.
    fn consume(r: Result<Self, Self::Error>) -> (out: Self::Output)
        ensures
            Self::consumed(r, out),
    ;
}

/// `core::str::from_utf8` on bytes that are all ASCII: the conversion
/// succeeds, and the text has one character for each byte, with the byte's
/// value.
#[verifier::external_body]
pub(crate) fn ascii_str(bytes: &[u8]) -> (s: &str)
    requires
        crate::encode::is_ascii_bytes(bytes@),
    ensures
        s@ == crate::encode::ascii_chars(bytes@),
{
    match core::str::from_utf8(bytes) {
        Ok(s) => s,
        Err(_) => "",
    }
}

/// `String::push_str`: the string afterwards is the string before followed
/// by the text pushed.
#[verifier::external_body]
fn string_push_str(s: &mut String, text: &str)
    ensures
        final(s)@ == old(s)@ + text@,
{
    s.push_str(text)
}

impl WriteHexdump for String {
    type Error = Infallible;

    type Output = String;

    open spec fn keeps_text(&self) -> bool {
        true
    }

    open spec fn chunks(&self) -> Seq<Seq<char>> {
        seq![self@]
    }

    open spec fn splits_lines(&self) -> bool {
        false
    }

    open spec fn infallible(&self) -> bool {
        true
    }

    open spec fn consumed(end: Result<Self, Self::Error>, out: String) -> bool {
        end matches Ok(w) ==> out == w
    }

    fn write_str(&mut self, s: &str) -> (r: Result<(), Self::Error>) {
        string_push_str(self, s);
        assert(self.chunks() =~= spec_append(old(self).chunks(), s@));
        Ok(())
    }

    fn line_end(&mut self) -> (r: Result<(), Self::Error>) {
        Ok(())
    }

    fn consume(r: Result<Self, Self::Error>) -> (out: String) {
        match r {
            Ok(w) => w,
            Err(_) => String::new(),
        }
    }
}

/// The texts of a list of strings.
pub open spec fn spec_texts(v: Seq<String>) -> Seq<Seq<char>> {
    Seq::new(v.len(), |i: int| v[i]@)
}

impl WriteHexdump for Vec<String> {
    type Error = Infallible;

    type Output = Vec<String>;

    open spec fn keeps_text(&self) -> bool {
        true
    }

    open spec fn chunks(&self) -> Seq<Seq<char>> {
        spec_texts(self@)
    }

    open spec fn splits_lines(&self) -> bool {
        true
    }

    open spec fn infallible(&self) -> bool {
        true
    }

    open spec fn consumed(end: Result<Self, Self::Error>, out: Vec<String>) -> bool {
        end matches Ok(w) ==> out == w
    }

    fn write_str(&mut self, s: &str) -> (r: Result<(), Self::Error>) {
        let mut last: String = match self.pop() {
            Some(l) => l,
            None => String::new(),
        };
        string_push_str(&mut last, s);
        self.push(last);
        assert(self.chunks() =~= spec_append(old(self).chunks(), s@));
        Ok(())
    }

    fn line_end(&mut self) -> (r: Result<(), Self::Error>) {
        self.push(String::new());
        assert(self.chunks() =~= spec_end_line(old(self).chunks(), true));
        Ok(())
    }

    fn consume(r: Result<Self, Self::Error>) -> (out: Vec<String>) {
        match r {
            Ok(w) => w,
            Err(_) => Vec::new(),
        }
    }
}

/// Bytes as characters, each byte the character with its value.
pub open spec fn spec_byte_chars(bytes: Seq<u8>) -> Seq<char> {
    Seq::new(bytes.len(), |i: int| bytes[i] as char)
}

/// Appends the bytes of ASCII text to `v`.
fn push_ascii(v: &mut Vec<u8>, s: &str)
    requires
        vstd::string::is_ascii(s),
    ensures
        spec_byte_chars(final(v)@) == spec_byte_chars(old(v)@) + s@,
{
    let bytes: &[u8] = s.as_bytes();
    proof {
        vstd::string::is_ascii_spec_bytes(s);
    }
    let mut i: usize = 0;
    while i < bytes.len()
        invariant
            i <= bytes@.len(),
            bytes@.len() == s@.len(),
            vstd::string::is_ascii(s),
            forall|j: int| 0 <= j < bytes@.len() ==> bytes@[j] == s@[j] as u8,
            spec_byte_chars(v@) == spec_byte_chars(old(v)@) + s@.take(i as int),
        decreases bytes@.len() - i,
    {
        let ghost c = s@[i as int];
        let ghost before = v@;
        v.push(bytes[i]);
        i += 1;
        proof {
            assert('\0' <= c <= '\u{7f}');
            assert((c as u8) as char == c);
            assert(v@ =~= before.push(c as u8));
            assert(s@.take(i as int) =~= s@.take(i - 1).push(c));
            assert(spec_byte_chars(v@) =~= spec_byte_chars(before).push(c));
        }
        assert(spec_byte_chars(v@) =~= spec_byte_chars(old(v)@) + s@.take(i as int));
    }
    assert(s@.take(i as int) =~= s@);
}

impl WriteHexdump for Vec<u8> {
    type Error = Infallible;

    type Output = Vec<u8>;

    open spec fn keeps_text(&self) -> bool {
        true
    }

    open spec fn chunks(&self) -> Seq<Seq<char>> {
        seq![spec_byte_chars(self@)]
    }

    open spec fn splits_lines(&self) -> bool {
        false
    }

    open spec fn infallible(&self) -> bool {
        true
    }

    open spec fn consumed(end: Result<Self, Self::Error>, out: Vec<u8>) -> bool {
        end matches Ok(w) ==> out == w
    }

    fn write_str(&mut self, s: &str) -> (r: Result<(), Self::Error>) {
        push_ascii(self, s);
        assert(self.chunks() =~= spec_append(old(self).chunks(), s@));
        Ok(())
    }

    fn line_end(&mut self) -> (r: Result<(), Self::Error>) {
        Ok(())
    }

    fn consume(r: Result<Self, Self::Error>) -> (out: Vec<u8>) {
        match r {
            Ok(w) => w,
            Err(_) => Vec::new(),
        }
    }
}

/// The texts of a list of runs of bytes.
pub open spec fn spec_byte_texts(v: Seq<Vec<u8>>) -> Seq<Seq<char>> {
    Seq::new(v.len(), |i: int| spec_byte_chars(v[i]@))
}

impl WriteHexdump for Vec<Vec<u8>> {
    type Error = Infallible;

    type Output = Vec<Vec<u8>>;

    open spec fn keeps_text(&self) -> bool {
        true
    }

    open spec fn chunks(&self) -> Seq<Seq<char>> {
        spec_byte_texts(self@)
    }

    open spec fn splits_lines(&self) -> bool {
        true
    }

    open spec fn infallible(&self) -> bool {
        true
    }

    open spec fn consumed(end: Result<Self, Self::Error>, out: Vec<Vec<u8>>) -> bool {
        end matches Ok(w) ==> out == w
    }

    fn write_str(&mut self, s: &str) -> (r: Result<(), Self::Error>) {
        let mut last: Vec<u8> = match self.pop() {
            Some(l) => l,
            None => {
                let l: Vec<u8> = Vec::new();
                assert(spec_byte_chars(l@) =~= Seq::<char>::empty());
                l
            },
        };
        push_ascii(&mut last, s);
        self.push(last);
        assert(self.chunks() =~= spec_append(old(self).chunks(), s@));
        Ok(())
    }

    fn line_end(&mut self) -> (r: Result<(), Self::Error>) {
        let l: Vec<u8> = Vec::new();
        assert(spec_byte_chars(l@) =~= Seq::<char>::empty());
        self.push(l);
        assert(self.chunks() =~= spec_end_line(old(self).chunks(), true));
        Ok(())
    }

    fn consume(r: Result<Self, Self::Error>) -> (out: Vec<Vec<u8>>) {
        match r {
            Ok(w) => w,
            Err(_) => Vec::new(),
        }
    }
}

/// One text after the other.
pub open spec fn spec_concat(texts: Seq<Seq<char>>) -> Seq<char>
    decreases texts.len(),
{
    if texts.len() == 0 {
        Seq::empty()
    } else {
        spec_concat(texts.drop_last()) + texts.last()
    }
}

/// A sink that holds one piece and does not keep lines apart holds, after a
/// dump, what it held before and then the lines one after the other.
pub proof fn lemma_one_piece(text: Seq<char>, lines: Seq<Seq<char>>)
    ensures
        spec_after_lines(seq![text], false, lines) == seq![text + spec_concat(lines)],
    decreases lines.len(),
{
    if lines.len() == 0 {
        assert(seq![text] =~= seq![text + spec_concat(lines)]);
    } else {
        lemma_one_piece(text, lines.drop_last());
        let before = text + spec_concat(lines.drop_last());
        assert(spec_append(seq![before], lines.last()) =~= seq![before + lines.last()]);
        assert(before + lines.last() =~= text + spec_concat(lines));
    }
}

/// A sink that keeps lines apart and was empty holds, after a dump, each
/// line in a piece of its own and an empty piece after the last.
pub proof fn lemma_line_pieces(lines: Seq<Seq<char>>)
    ensures
        spec_after_lines(Seq::empty(), true, lines) == (if lines.len() == 0 {
            Seq::<Seq<char>>::empty()
        } else {
            lines.push(Seq::empty())
        }),
    decreases lines.len(),
{
    if lines.len() > 0 {
        let init = lines.drop_last();
        lemma_line_pieces(init);
        let before = spec_after_lines(Seq::empty(), true, init);
        if init.len() == 0 {
            assert(spec_append(before, lines.last()) =~= seq![lines.last()]);
        } else {
            assert(before.drop_last() =~= init);
            assert(before.last() + lines.last() =~= lines.last());
            assert(spec_append(before, lines.last()) =~= init.push(lines.last()));
        }
        assert(init.push(lines.last()) =~= lines);
    }
}

} // verus!
