//! The byte encoder: one column of a row, as text, in each base.
use vstd::prelude::*;
use crate::options::{Base, LeadingZeroChar};

verus! {

/// The character for a digit below sixteen.
pub open spec fn spec_digit(d: nat, uppercase: bool) -> u8 {
    if d < 10 {
        (0x30 + d) as u8
    } else if uppercase {
        (0x41 + d - 10) as u8
    } else {
        (0x61 + d - 10) as u8
    }
}

/// The character that stands in for a leading zero.
pub open spec fn spec_lead_char(lzc: LeadingZeroChar) -> u8 {
    match lzc {
        LeadingZeroChar::Space => 0x20u8,
        LeadingZeroChar::Underscore => 0x5fu8,
        LeadingZeroChar::Zero => 0x30u8,
    }
}

/// The number of characters that one byte takes in a base.
pub open spec fn spec_column_width(base: Base) -> nat {
    match base {
        Base::Hex => 2,
        Base::Decimal(_) => 3,
        Base::Octal(_) => 3,
        Base::Binary => 8,
    }
}

/// `n` spaces.
pub open spec fn blanks(n: nat) -> Seq<u8> {
    Seq::new(n, |i: int| 0x20u8)
}

/// The text of a byte value in a base.
pub open spec fn spec_encode_value(base: Base, uppercase: bool, b: u8) -> Seq<u8> {
    let v = b as nat;
    match base {
        Base::Hex => seq![spec_digit(v / 16, uppercase), spec_digit(v % 16, uppercase)],
        Base::Decimal(lzc) => {
            let h = v / 100;
            let t = (v / 10) % 10;
            let u = v % 10;
            seq![
                if h == 0 { spec_lead_char(lzc) } else { spec_digit(h, uppercase) },
                if h == 0 && t == 0 && u != 0 { spec_lead_char(lzc) } else { spec_digit(t, uppercase) },
                spec_digit(u, uppercase),
            ]
        },
        Base::Octal(lzc) => {
            let h = v / 64;
            let t = (v / 8) % 8;
            let u = v % 8;
            seq![
                if h == 0 && t != 0 { spec_lead_char(lzc) } else { spec_digit(h, uppercase) },
                if h == 0 && t == 0 && u != 0 { spec_lead_char(lzc) } else { spec_digit(t, uppercase) },
                spec_digit(u, uppercase),
            ]
        },
        Base::Binary => seq![
            spec_digit(v / 128, uppercase),
            spec_digit((v / 64) % 2, uppercase),
            spec_digit((v / 32) % 2, uppercase),
            spec_digit((v / 16) % 2, uppercase),
            spec_digit((v / 8) % 2, uppercase),
            spec_digit((v / 4) % 2, uppercase),
            spec_digit((v / 2) % 2, uppercase),
            spec_digit(v % 2, uppercase),
        ],
    }
}

/// The text of one column: the byte's value, or blanks of the same width
/// where the row has no byte in that column.
pub open spec fn spec_encode(base: Base, uppercase: bool, b: Option<u8>) -> Seq<u8> {
    match b {
        Some(v) => spec_encode_value(base, uppercase, v),
        None => blanks(spec_column_width(base)),
    }
}

/// Whether a byte is shown as itself in the ASCII panel: letters, digits,
/// punctuation and the space.
pub open spec fn spec_is_printable(b: u8) -> bool {
    let alphanumeric = (0x30 <= b <= 0x39) || (0x41 <= b <= 0x5a) || (0x61 <= b <= 0x7a);
    let punctuation = (0x21 <= b <= 0x2f) || (0x3a <= b <= 0x40) || (0x5b <= b <= 0x60) || (0x7b
        <= b <= 0x7e);
    alphanumeric || punctuation || b == 0x20
}

/// The character of one column of the ASCII panel.
pub open spec fn spec_ascii_char(b: Option<u8>) -> u8 {
    match b {
        Some(v) => if spec_is_printable(v) { v } else { 0x2eu8 },
        None => 0x20u8,
    }
}

/// The character that stands in for a leading zero.
pub fn lead_char(lzc: LeadingZeroChar) -> (c: u8)
    ensures
        c == spec_lead_char(lzc),
{
    match lzc {
        LeadingZeroChar::Space => 0x20,
        LeadingZeroChar::Underscore => 0x5f,
        LeadingZeroChar::Zero => 0x30,
    }
}

impl From<LeadingZeroChar> for u8 {
    /// The character that stands in for a leading zero.
    fn from(value: LeadingZeroChar) -> (c: u8) {
        lead_char(value)
    }
}

impl vstd::std_specs::convert::FromSpecImpl<LeadingZeroChar> for u8 {
    open spec fn obeys_from_spec() -> bool {
        true
    }

    open spec fn from_spec(value: LeadingZeroChar) -> u8 {
        spec_lead_char(value)
    }
}

/// The character for a digit below sixteen.
pub fn bchar_for_u8(b: u8, uppercase: bool) -> (c: u8)
    requires
        b < 16,
    ensures
        c == spec_digit(b as nat, uppercase),
{
    if b < 10 {
        0x30 + b
    } else if uppercase {
        0x41 + (b - 10)
    } else {
        0x61 + (b - 10)
    }
}

/// The two hexadecimal digits of a byte.
pub fn u8_to_hex(b: u8, uppercase: bool) -> (d: [u8; 2])
    ensures
        d@ == spec_encode_value(Base::Hex, uppercase, b),
{
    let d: [u8; 2] = [bchar_for_u8(b / 16, uppercase), bchar_for_u8(b % 16, uppercase)];
    assert(d@ =~= spec_encode_value(Base::Hex, uppercase, b));
    d
}

/// The number of characters that one byte takes in a base.
pub fn column_width(base: Base) -> (w: usize)
    ensures
        w == spec_column_width(base),
{
    match base {
        Base::Hex => 2,
        Base::Decimal(_) => 3,
        Base::Octal(_) => 3,
        Base::Binary => 8,
    }
}

/// Whether a byte is shown as itself in the ASCII panel.
pub fn is_printable_char(b: u8) -> (p: bool)
    ensures
        p == spec_is_printable(b),
        p == (0x20 <= b <= 0x7e),
{
    0x20 <= b && b <= 0x7e
}

/// The character of one column of the ASCII panel.
pub fn ascii_char(b: Option<u8>) -> (c: u8)
    ensures
        c == spec_ascii_char(b),
{
    match b {
        Some(v) => if is_printable_char(v) { v } else { 0x2e },
        None => 0x20,
    }
}

/// Appends `n` spaces to `buf`.
pub fn write_blanks(buf: &mut Vec<u8>, n: usize)
    ensures
        final(buf)@ == old(buf)@ + blanks(n as nat),
{
    let mut i: usize = 0;
    while i < n
        invariant
            i <= n,
            buf@ == old(buf)@ + blanks(i as nat),
        decreases n - i,
    {
        buf.push(0x20);
        i += 1;
        assert(buf@ =~= old(buf)@ + blanks(i as nat));
    }
}

/// Appends the text of one column to `buf`.
pub fn write_byte(buf: &mut Vec<u8>, base: Base, uppercase: bool, b: Option<u8>)
    ensures
        final(buf)@ == old(buf)@ + spec_encode(base, uppercase, b),
{
    match (base, b) {
        (Base::Binary, Some(b)) => {
            buf.push(bchar_for_u8(b / 128, uppercase));
            buf.push(bchar_for_u8((b / 64) % 2, uppercase));
            buf.push(bchar_for_u8((b / 32) % 2, uppercase));
            buf.push(bchar_for_u8((b / 16) % 2, uppercase));
            buf.push(bchar_for_u8((b / 8) % 2, uppercase));
            buf.push(bchar_for_u8((b / 4) % 2, uppercase));
            buf.push(bchar_for_u8((b / 2) % 2, uppercase));
            buf.push(bchar_for_u8(b % 2, uppercase));
        },
        (Base::Binary, None) => {
            write_blanks(buf, 8);
        },
        (Base::Octal(lzc), Some(b)) => {
            let lead: u8 = lead_char(lzc);
            let h: u8 = b / 64;
            let t: u8 = (b / 8) % 8;
            let u: u8 = b % 8;
            buf.push(if h == 0 && t != 0 { lead } else { bchar_for_u8(h, uppercase) });
            buf.push(if h == 0 && t == 0 && u != 0 { lead } else { bchar_for_u8(t, uppercase) });
            buf.push(bchar_for_u8(u, uppercase));
        },
        (Base::Octal(_), None) => {
            write_blanks(buf, 3);
        },
        (Base::Decimal(lzc), Some(b)) => {
            let lead: u8 = lead_char(lzc);
            let h: u8 = b / 100;
            let t: u8 = (b / 10) % 10;
            let u: u8 = b % 10;
            buf.push(if h == 0 { lead } else { bchar_for_u8(h, uppercase) });
            buf.push(if h == 0 && t == 0 && u != 0 { lead } else { bchar_for_u8(t, uppercase) });
            buf.push(bchar_for_u8(u, uppercase));
        },
        (Base::Decimal(_), None) => {
            write_blanks(buf, 3);
        },
        (Base::Hex, Some(b)) => {
            buf.push(bchar_for_u8(b / 16, uppercase));
            buf.push(bchar_for_u8(b % 16, uppercase));
        },
        (Base::Hex, None) => {
            write_blanks(buf, 2);
        },
    }
    assert(buf@ =~= old(buf)@ + spec_encode(base, uppercase, b));
}

/// Every column of a base has the same width, whatever it holds, and a
/// column without a byte is all blanks.
pub proof fn lemma_encode_width(base: Base, uppercase: bool, b: Option<u8>)
    ensures
        spec_encode(base, uppercase, b).len() == spec_column_width(base),
        spec_encode(base, uppercase, None) == blanks(spec_column_width(base)),
{
}

/// Whether every byte is an ASCII character.
pub open spec fn is_ascii_bytes(bytes: Seq<u8>) -> bool {
    forall|i: int| 0 <= i < bytes.len() ==> #[trigger] bytes[i] < 0x80
}

/// ASCII bytes as characters.
pub open spec fn ascii_chars(bytes: Seq<u8>) -> Seq<char> {
    Seq::new(bytes.len(), |i: int| bytes[i] as char)
}

/// The text of a column is ASCII.
pub proof fn lemma_encode_ascii(base: Base, uppercase: bool, b: Option<u8>)
    ensures
        is_ascii_bytes(spec_encode(base, uppercase, b)),
{
}

/// ASCII text followed by ASCII text is ASCII text.
pub proof fn lemma_ascii_concat(a: Seq<u8>, b: Seq<u8>)
    requires
        is_ascii_bytes(a),
        is_ascii_bytes(b),
    ensures
        is_ascii_bytes(a + b),
{
    assert forall|i: int| 0 <= i < (a + b).len() implies #[trigger] (a + b)[i] < 0x80 by {
        if i < a.len() {
            assert((a + b)[i] == a[i]);
        } else {
            assert((a + b)[i] == b[i - a.len()]);
        }
    }
}

} // verus!
