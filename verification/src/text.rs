//! Byte classes, maximal runs of a class, and text slices of the input.

use vstd::prelude::*;
use vstd::slice::slice_subrange;
use vstd::string::StringSliceAdditionalSpecFns;
use vstd::utf8::*;

verus! {

pub const LOWER_A: u8 = 97;

pub const LOWER_B: u8 = 98;

pub const LOWER_F: u8 = 102;

pub const LOWER_O: u8 = 111;

pub const LOWER_X: u8 = 120;

pub const LOWER_Z: u8 = 122;

pub const UPPER_A: u8 = 65;

pub const UPPER_F: u8 = 70;

pub const UPPER_Z: u8 = 90;

pub const DIGIT_0: u8 = 48;

pub const DIGIT_1: u8 = 49;

pub const DIGIT_7: u8 = 55;

pub const DIGIT_9: u8 = 57;

pub const TAB: u8 = 9;

pub const LINE_FEED: u8 = 10;

pub const CARRIAGE_RETURN: u8 = 13;

pub const SPACE: u8 = 32;

pub const QUOTE: u8 = 34;

pub const HASH: u8 = 35;

pub const OPEN_PAREN: u8 = 40;

pub const CLOSE_PAREN: u8 = 41;

pub const COMMA: u8 = 44;

pub const MINUS: u8 = 45;

pub const DOT: u8 = 46;

pub const COLON: u8 = 58;

pub const QUESTION: u8 = 63;

pub const AT_SIGN: u8 = 64;

pub const BACKSLASH: u8 = 92;

pub const UNDERSCORE: u8 = 95;

pub const OPEN_BRACE: u8 = 123;

pub const CLOSE_BRACE: u8 = 125;

pub open spec fn is_lower(b: u8) -> bool {
    LOWER_A <= b <= LOWER_Z
}

pub open spec fn is_upper(b: u8) -> bool {
    UPPER_A <= b <= UPPER_Z
}

pub open spec fn is_alpha(b: u8) -> bool {
    is_lower(b) || is_upper(b)
}

pub open spec fn is_digit(b: u8) -> bool {
    DIGIT_0 <= b <= DIGIT_9
}

pub open spec fn is_alnum(b: u8) -> bool {
    is_alpha(b) || is_digit(b)
}

/// The sets of bytes that the scanners take maximal runs of.
#[derive(Clone, Copy, Debug)]
pub enum ByteClass {
    /// ASCII letters and digits.
    Alnum,
    /// What may follow the first byte of an identifier token: letters,
    /// digits, `.` and `_`.
    IdentTail,
    /// `0` to `9`.
    Digit,
    /// `0` to `9`, `a` to `f`, `A` to `F`.
    Hex,
    /// `0` to `7`.
    Octal,
    /// `0` and `1`.
    Binary,
    /// Everything but a line feed.
    NotNewline,
}

impl ByteClass {
    pub open spec fn contains(self, b: u8) -> bool {
        match self {
            ByteClass::Alnum => is_alnum(b),
            ByteClass::IdentTail => is_alnum(b) || b == DOT || b == UNDERSCORE,
            ByteClass::Digit => is_digit(b),
            ByteClass::Hex => is_digit(b) || LOWER_A <= b <= LOWER_F || UPPER_A <= b <= UPPER_F,
            ByteClass::Octal => DIGIT_0 <= b <= DIGIT_7,
            ByteClass::Binary => b == DIGIT_0 || b == DIGIT_1,
            ByteClass::NotNewline => b != LINE_FEED,
        }
    }

    /// Whether `b` belongs to the class.
    pub fn has(self, b: u8) -> (r: bool)
        ensures
            r == self.contains(b),
    {
        match self {
            ByteClass::Alnum => (b >= LOWER_A && b <= LOWER_Z) || (b >= UPPER_A && b <= UPPER_Z) || (b >= DIGIT_0
                && b <= DIGIT_9),
            ByteClass::IdentTail => (b >= LOWER_A && b <= LOWER_Z) || (b >= UPPER_A && b <= UPPER_Z) || (b
                >= DIGIT_0 && b <= DIGIT_9) || b == DOT || b == UNDERSCORE,
            ByteClass::Digit => b >= DIGIT_0 && b <= DIGIT_9,
            ByteClass::Hex => (b >= DIGIT_0 && b <= DIGIT_9) || (b >= LOWER_A && b <= LOWER_F) || (b >= UPPER_A
                && b <= UPPER_F),
            ByteClass::Octal => b >= DIGIT_0 && b <= DIGIT_7,
            ByteClass::Binary => b == DIGIT_0 || b == DIGIT_1,
            ByteClass::NotNewline => b != LINE_FEED,
        }
    }
}

/// Where the maximal run of `class` bytes that begins at `start` ends: the
/// first index at or behind `start` whose byte is outside the class, or the
/// length of `bytes`.
pub open spec fn run_end(bytes: Seq<u8>, start: int, class: ByteClass) -> int
    decreases bytes.len() - start,
{
    if 0 <= start < bytes.len() && class.contains(bytes[start]) {
        run_end(bytes, start + 1, class)
    } else {
        start
    }
}

/// `run_end` is the least index from `start` on that holds no byte of the
/// class.
pub proof fn lemma_run_end(bytes: Seq<u8>, start: int, class: ByteClass)
    requires
        0 <= start <= bytes.len(),
    ensures
        start <= run_end(bytes, start, class) <= bytes.len(),
        forall|i: int| start <= i < run_end(bytes, start, class) ==> class.contains(#[trigger] bytes[i]),
        run_end(bytes, start, class) < bytes.len() ==> !class.contains(
            bytes[run_end(bytes, start, class)],
        ),
    decreases bytes.len() - start,
{
    if start < bytes.len() && class.contains(bytes[start]) {
        lemma_run_end(bytes, start + 1, class);
    }
}

/// A run takes in every byte up to the end where all of them belong to the
/// class.
pub proof fn lemma_run_end_full(bytes: Seq<u8>, start: int, class: ByteClass)
    requires
        0 <= start <= bytes.len(),
        forall|i: int| start <= i < bytes.len() ==> class.contains(#[trigger] bytes[i]),
    ensures
        run_end(bytes, start, class) == bytes.len(),
    decreases bytes.len() - start,
{
    if start < bytes.len() {
        lemma_run_end_full(bytes, start + 1, class);
    }
}

/// Scans the maximal run of `class` bytes that begins at `start`.
pub fn chomp(bytes: &[u8], start: usize, class: ByteClass) -> (end: usize)
    requires
        start <= bytes@.len(),
    ensures
        end == run_end(bytes@, start as int, class),
        start <= end <= bytes@.len(),
{
    let mut i: usize = start;
    while i < bytes.len() && class.has(bytes[i])
        invariant
            start <= i <= bytes@.len(),
            run_end(bytes@, start as int, class) == run_end(bytes@, i as int, class),
        decreases bytes@.len() - i,
    {
        i = i + 1;
    }
    i
}

pub open spec fn all_ascii(bytes: Seq<u8>) -> bool {
    forall|i: int| 0 <= i < bytes.len() ==> #[trigger] bytes[i] < 128
}

/// A sequence of ASCII bytes is well-formed UTF-8.
pub proof fn lemma_ascii_is_utf8(bytes: Seq<u8>)
    requires
        all_ascii(bytes),
    ensures
        valid_utf8(bytes),
{
    assert forall|i: int| 0 <= i < bytes.len() implies #[trigger] is_leading_byte_width_1(
        bytes[i],
    ) by {
        let b = bytes[i];
        assert(b < 128);
        assert(b < 128 ==> b & 0x80 == 0) by (bit_vector);
    }
    assert(bytes.subrange(0, 0) =~= Seq::<u8>::empty());
    assert(valid_utf8(bytes.subrange(0, 0)));
    partial_valid_utf8_extend_ascii_block(bytes, 0, bytes.len() as int);
    assert(bytes.subrange(0, bytes.len() as int) =~= bytes);
}

/// Reads `bytes` as a string slice with `std::str::from_utf8`. Trusted: the
/// call succeeds exactly on well-formed UTF-8, and the string it yields is
/// made of the very bytes passed in.
#[verifier::external_body]
pub(crate) fn str_from_utf8<'a>(bytes: &'a [u8]) -> (r: Option<&'a str>)
    ensures
        r is Some <==> valid_utf8(bytes@),
        r matches Some(s) ==> s.spec_bytes() == bytes@,
{
    std::str::from_utf8(bytes).ok()
}

/// The text between `start` and `end`, if it is well-formed UTF-8.
pub fn utf8_text<'a>(bytes: &'a [u8], start: usize, end: usize) -> (r: Option<&'a str>)
    requires
        start <= end <= bytes@.len(),
    ensures
        r is Some <==> valid_utf8(bytes@.subrange(start as int, end as int)),
        r matches Some(s) ==> s.spec_bytes() == bytes@.subrange(start as int, end as int),
{
    str_from_utf8(slice_subrange(bytes, start, end))
}

/// The text between `start` and `end`, which holds ASCII bytes only.
pub fn ascii_text<'a>(bytes: &'a [u8], start: usize, end: usize) -> (s: &'a str)
    requires
        start <= end <= bytes@.len(),
        all_ascii(bytes@.subrange(start as int, end as int)),
    ensures
        s.spec_bytes() == bytes@.subrange(start as int, end as int),
{
    proof {
        lemma_ascii_is_utf8(bytes@.subrange(start as int, end as int));
    }
    match utf8_text(bytes, start, end) {
        Some(s) => s,
        None => vstd::pervasive::unreached(),
    }
}

} // verus!
