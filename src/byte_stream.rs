use vstd::prelude::*;
use vstd::string::StringExecFns;

use crate::errors::{ByteStreamError, ErrorKind};
use crate::matcher::{
    find_pattern, has_match_from, is_first_match, lemma_first_match_unique, pattern_at,
};
use crate::nal_unit::{start_code_lanes, NalUnit};

verus! {

/// Width, in bytes, of the windows in which `process` scans a stream.
pub const SCAN_WIDTH: usize = 64;

/// The four-byte marker `0x00 0x00 0x00 0x01`: a zero byte followed by the
/// start code prefix.
pub open spec fn marker() -> Seq<u8> {
    seq![0u8, 0u8, 0u8, 1u8]
}

/// At offset `c` begin three bytes `0x00 0x00 0x01` or `0x00 0x00 0x00`: the
/// start of the next unit's marker, which ends the unit being scanned.
pub open spec fn is_boundary(data: Seq<u8>, c: int) -> bool {
    0 <= c && c + 3 <= data.len() && data[c] == 0 && data[c + 1] == 0 && (data[c + 2] == 1
        || data[c + 2] == 0)
}

/// The offset at which the scan of a unit's body, begun at `c`, stops: the
/// first boundary, or else the last byte of the buffer.
pub open spec fn body_end(data: Seq<u8>, c: int) -> int
    decreases data.len() - c,
{
    if c >= data.len() - 1 || is_boundary(data, c) {
        c
    } else {
        body_end(data, c + 1)
    }
}

/// The first marker at or after `from`, where there is one.
pub open spec fn next_marker(data: Seq<u8>, from: int) -> int {
    choose|m: int| is_first_match(data, marker(), from, m)
}

/// Every byte in `data[lo .. hi]` is zero.
pub open spec fn zeros_between(data: Seq<u8>, lo: int, hi: int) -> bool {
    forall|i: int| lo <= i < hi ==> data[i] == 0
}

/// The offset of the first non-zero byte in `data[lo .. hi]`, or `hi`.
pub open spec fn first_nonzero_from(data: Seq<u8>, lo: int, hi: int) -> int
    decreases hi - lo,
{
    if lo >= hi {
        hi
    } else if data[lo] != 0 {
        lo
    } else {
        first_nonzero_from(data, lo + 1, hi)
    }
}

/// A failure of the segmentation: its class and the offset at which it was
/// found.
pub type Failure = (ErrorKind, int);

/// The outcome of segmenting `data` from a marker expected at offset `m`:
/// the spans `(offset, length)` of the units that follow, or the failure.
/// Spans found before a failure are not part of the outcome.
///
/// Only a unit that runs through the last byte of the buffer ends the
/// stream: after a unit that ends on three boundary bytes a marker must
/// follow, with nothing but zero bytes before it.
pub open spec fn segment_at(data: Seq<u8>, m: int) -> Result<Seq<(usize, usize)>, Failure>
    decreases data.len() - m,
{
    if m < 0 || m + 4 >= data.len() {
        Err((ErrorKind::Termination, m))
    } else if !pattern_at(data, marker(), m) {
        Err((ErrorKind::IncorrectSequence, m))
    } else {
        let s = m + 4;
        let e = body_end(data, s);
        if !is_boundary(data, e) {
            Ok(seq![(s as usize, (e - s + 1) as usize)])
        } else {
            let span = (s as usize, (e - s) as usize);
            let b = e + 3;
            let m2 = next_marker(data, b);
            if !is_first_match(data, marker(), b, m2) {
                Err((ErrorKind::Termination, b))
            } else if !zeros_between(data, b, m2) {
                Err((ErrorKind::UnexpectedByte, first_nonzero_from(data, b, m2)))
            } else {
                proof {
                    lemma_body_end_bounds(data, s);
                }
                match segment_at(data, m2) {
                    Ok(rest) => Ok(seq![span] + rest),
                    Err(k) => Err(k),
                }
            }
        }
    }
}

/// The outcome of segmenting `data` from the first marker at or after `from`.
pub open spec fn segment_from(data: Seq<u8>, from: int) -> Result<Seq<(usize, usize)>, Failure> {
    let m = next_marker(data, from);
    if !is_first_match(data, marker(), from, m) {
        Err((ErrorKind::Termination, from))
    } else {
        segment_at(data, m)
    }
}

/// `k` zero bytes, the marker, then `payload`.
pub open spec fn padded_stream(k: nat, payload: Seq<u8>) -> Seq<u8> {
    Seq::new(k, |i: int| 0u8) + marker() + payload
}

/// However much zero padding comes before the first marker, the first marker
/// is found right after it: `preprocess`, for any width of at least four,
/// leaves the position at offset `k`.
pub proof fn lemma_preprocess_skips_padding(k: nat, payload: Seq<u8>)
    ensures
        has_match_from(padded_stream(k, payload), marker(), 0),
        forall|p: int| is_first_match(padded_stream(k, payload), marker(), 0, p) <==> p == k,
{
    let data = padded_stream(k, payload);
    let ki = k as int;
    assert(data[ki + 0] == 0 && data[ki + 1] == 0 && data[ki + 2] == 0 && data[ki + 3] == 1);
    assert(pattern_at(data, marker(), k as int)) by {
        assert forall|t: int| 0 <= t < 4 implies #[trigger] data[ki + t] == marker()[t] by {
            if t == 0 {
            } else if t == 1 {
            } else if t == 2 {
            } else {
            }
        }
    }
    assert forall|q: int| 0 <= q < k implies !#[trigger] pattern_at(data, marker(), q) by {
        if pattern_at(data, marker(), q) {
            assert(data[q + 3] == marker()[3]);
            assert(data[q + 3] == 0);
        }
    }
    assert forall|p: int| is_first_match(data, marker(), 0, p) <==> p == k by {
        if is_first_match(data, marker(), 0, p) {
            lemma_first_match_unique(data, marker(), 0, p, k as int);
        }
    }
}

/// A buffer in which the marker never occurs yields no units: the
/// segmentation ends with a termination error.
pub proof fn lemma_no_marker_terminates(data: Seq<u8>, from: int)
    requires
        !has_match_from(data, marker(), from),
    ensures
        segment_from(data, from) == Err::<Seq<(usize, usize)>, Failure>(
            (ErrorKind::Termination, from),
        ),
{
    lemma_next_marker_none(data, from);
}

/// Each span lies within a buffer of `len` bytes, each ends before the next
/// one begins, and the last one runs through the end of the buffer.
pub open spec fn spans_ordered(len: int, spans: Seq<(usize, usize)>) -> bool {
    &&& forall|i: int| 0 <= i < spans.len() ==> #[trigger] spans[i].0 + spans[i].1 <= len
    &&& forall|i: int|
        0 <= i < spans.len() - 1 ==> #[trigger] spans[i].0 + spans[i].1 < spans[i + 1].0
    &&& spans.len() >= 1 ==> spans.last().0 + spans.last().1 == len
}

/// The spans of a successful segmentation lie within the buffer, in
/// increasing order and without overlap, each after the marker it follows;
/// the last one ends with the buffer.
pub proof fn lemma_segment_spans_ordered(data: Seq<u8>, m: int)
    requires
        data.len() <= usize::MAX,
    ensures
        segment_at(data, m) is Ok ==> {
            let spans = segment_at(data, m)->Ok_0;
            &&& spans.len() >= 1
            &&& spans[0].0 == m + 4
            &&& spans_ordered(data.len() as int, spans)
        },
    decreases data.len() - m,
{
    if segment_at(data, m) is Ok {
        let s = m + 4;
        lemma_body_end_bounds(data, s);
        let e = body_end(data, s);
        if is_boundary(data, e) {
            let b = e + 3;
            {
                let m2 = next_marker(data, b);
                lemma_segment_spans_ordered(data, m2);
                let rest = segment_at(data, m2)->Ok_0;
                let spans = seq![(s as usize, (e - s) as usize)] + rest;
                assert(segment_at(data, m)->Ok_0 == spans);
                assert forall|i: int| 0 <= i < spans.len() implies #[trigger] spans[i].0
                    + spans[i].1 <= data.len() by {
                    if i > 0 {
                        assert(spans[i] == rest[i - 1]);
                    }
                }
                assert forall|i: int| 0 <= i < spans.len() - 1 implies #[trigger] spans[i].0
                    + spans[i].1 < spans[i + 1].0 by {
                    if i > 0 {
                        assert(spans[i] == rest[i - 1]);
                        assert(spans[i + 1] == rest[i]);
                    }
                }
                assert(spans.last() == rest.last());
            }
        }
    }
}

/// The hexadecimal digit of a value below sixteen.
pub open spec fn hex_digit_char(v: int) -> char {
    if v == 0 {
        '0'
    } else if v == 1 {
        '1'
    } else if v == 2 {
        '2'
    } else if v == 3 {
        '3'
    } else if v == 4 {
        '4'
    } else if v == 5 {
        '5'
    } else if v == 6 {
        '6'
    } else if v == 7 {
        '7'
    } else if v == 8 {
        '8'
    } else if v == 9 {
        '9'
    } else if v == 10 {
        'a'
    } else if v == 11 {
        'b'
    } else if v == 12 {
        'c'
    } else if v == 13 {
        'd'
    } else if v == 14 {
        'e'
    } else {
        'f'
    }
}

/// `0x` and the two hexadecimal digits of a byte.
pub open spec fn hex_byte_text(b: u8) -> Seq<char> {
    seq!['0', 'x', hex_digit_char(b as int / 16), hex_digit_char(b as int % 16)]
}

/// `e` is the error that reports failure `f` of segmenting `data`: it has the
/// failure's class, and an unexpected byte names the byte found at the
/// failure's offset and the zero that was expected there.
pub open spec fn reports(e: ByteStreamError, data: Seq<u8>, f: Failure) -> bool {
    &&& e.spec_kind() == f.0
    &&& e is UnexpectedByte ==> e->UnexpectedByte_0@ == hex_byte_text(data[f.1])
        && e->UnexpectedByte_1@ == seq!['0', 'x', '0', '0']
}

/// `rest` with `done` put before its spans.
spec fn prefixed(done: Seq<(usize, usize)>, rest: Result<Seq<(usize, usize)>, Failure>) -> Result<
    Seq<(usize, usize)>,
    Failure,
> {
    match rest {
        Ok(r) => Ok(done + r),
        Err(k) => Err(k),
    }
}

/// The body scan stops inside the buffer, at or after where it began, on a
/// boundary or on the last byte.
pub proof fn lemma_body_end_bounds(data: Seq<u8>, c: int)
    requires
        0 <= c < data.len(),
    ensures
        c <= body_end(data, c) <= data.len() - 1,
        is_boundary(data, body_end(data, c)) || body_end(data, c) == data.len() - 1,
    decreases data.len() - c,
{
    if !(c >= data.len() - 1 || is_boundary(data, c)) {
        lemma_body_end_bounds(data, c + 1);
    }
}

/// `next_marker` is the offset that a scan for the marker reports.
proof fn lemma_next_marker_is(data: Seq<u8>, from: int, p: int)
    requires
        is_first_match(data, marker(), from, p),
    ensures
        next_marker(data, from) == p,
        is_first_match(data, marker(), from, next_marker(data, from)),
{
    lemma_first_match_unique(data, marker(), from, p, next_marker(data, from));
}

/// Where the marker does not occur, `next_marker` is no first occurrence.
proof fn lemma_next_marker_none(data: Seq<u8>, from: int)
    requires
        !has_match_from(data, marker(), from),
    ensures
        !is_first_match(data, marker(), from, next_marker(data, from)),
{
    let m = next_marker(data, from);
    if is_first_match(data, marker(), from, m) {
        assert(pattern_at(data, marker(), m));
    }
}

/// A NAL unit byte stream: a borrowed buffer of `0x00 0x00 0x00 0x01`-delimited
/// units, and the scan position in it.
pub struct ByteStream<'a> {
    cursor: usize,
    data: &'a [u8],
}

impl<'a> ByteStream<'a> {
    /// The scan position.
    pub closed spec fn position(&self) -> int {
        self.cursor as int
    }

    /// The bytes of the stream.
    pub closed spec fn bytes(&self) -> Seq<u8> {
        self.data@
    }

    /// A stream over `data`, positioned at its first byte.
    pub fn new(data: &'a [u8]) -> (r: Self)
        ensures
            r.bytes() == data@,
            r.position() == 0,
    {
        Self { data, cursor: 0 }
    }

    /// The scan position.
    pub fn cursor(&self) -> (r: usize)
        ensures
            r == self.position(),
    {
        self.cursor
    }

    /// Skips leading zero padding: moves the position to the first byte of the
    /// first marker `0x00 0x00 0x00 0x01` at or after it, scanning in windows
    /// of `N` bytes.
    ///
    /// A width below four is refused before the buffer is read. Where no
    /// marker follows, the scan reports the end of the stream. On failure the
    /// position is left where it was.
    pub fn preprocess<const N: usize>(&mut self) -> (r: Result<(), ByteStreamError>)
        ensures
            final(self).bytes() == old(self).bytes(),
            match r {
                Ok(()) => N >= 4 && is_first_match(
                    old(self).bytes(),
                    marker(),
                    old(self).position(),
                    final(self).position(),
                ),
                Err(e) => final(self).position() == old(self).position() && if N < 4 {
                    e.spec_kind() == ErrorKind::Configuration
                } else {
                    e.spec_kind() == ErrorKind::Termination && !has_match_from(
                        old(self).bytes(),
                        marker(),
                        old(self).position(),
                    )
                },
            },
    {
        let to_find: [u8; 4] = [0x00, 0x00, 0x00, 0x01];
        assert(to_find@ =~= marker());
        match find_pattern(self.data, self.cursor, to_find.as_slice(), N) {
            Ok(p) => {
                self.cursor = p;
                Ok(())
            },
            Err(e) => Err(e),
        }
    }

    /// Splits the stream into NAL units and returns the span
    /// `(offset, length)` of each, in order: the bytes that follow a marker
    /// `0x00 0x00 0x00 0x01`, up to the next three bytes `0x00 0x00 0x01` or
    /// `0x00 0x00 0x00`, or through the last byte of the buffer. Spans are
    /// windows into the buffer as it stands: emulation prevention bytes are
    /// left in place.
    ///
    /// The scan starts at the first marker at or after the position. Only a
    /// unit that runs through the last byte ends the stream: after a unit that
    /// ends on three boundary bytes another marker must follow, with nothing
    /// but zero bytes before it, else the stream ended too early
    /// (`UnexpectedTermination`) or holds a stray byte (`UnexpectedByte`,
    /// naming that byte and the expected `0x00`). The outcome is
    /// `segment_from` of the bytes and the starting position; on failure the
    /// spans found so far are dropped. The position only moves forward and
    /// stays within the buffer.
    pub fn process(&mut self) -> (r: Result<Vec<(usize, usize)>, ByteStreamError>)
        ensures
            final(self).bytes() == old(self).bytes(),
            old(self).position() <= final(self).position(),
            old(self).position() <= old(self).bytes().len() ==> final(self).position() <= old(
                self,
            ).bytes().len(),
            match r {
                Ok(spans) => segment_from(old(self).bytes(), old(self).position()) == Ok::<
                    Seq<(usize, usize)>,
                    Failure,
                >(spans@) && final(self).position() == old(self).bytes().len() && spans_ordered(
                    old(self).bytes().len() as int,
                    spans@,
                ),
                Err(e) => segment_from(old(self).bytes(), old(self).position()) is Err && reports(
                    e,
                    old(self).bytes(),
                    segment_from(old(self).bytes(), old(self).position())->Err_0,
                ),
            },
    {
        let ghost data = self.data@;
        let ghost from = self.cursor as int;
        match self.preprocess::<SCAN_WIDTH>() {
            Ok(()) => {},
            Err(e) => {
                proof {
                    lemma_next_marker_none(data, from);
                }
                return Err(e);
            },
        }
        let n = self.data.len();
        proof {
            lemma_next_marker_is(data, from, self.cursor as int);
            lemma_segment_spans_ordered(data, self.cursor as int);
        }
        let mut nal_units: Vec<(usize, usize)> = Vec::new();
        loop
            invariant
                self.data@ == data,
                data == old(self).bytes(),
                from == old(self).position(),
                n == data.len(),
                from <= self.cursor <= n,
                segment_from(data, from) is Ok ==> spans_ordered(
                    n as int,
                    segment_from(data, from)->Ok_0,
                ),
                segment_from(data, from) == prefixed(
                    nal_units@,
                    segment_at(data, self.cursor as int),
                ),
            decreases n - self.cursor,
        {
            let c = self.cursor;
            if n - c <= 4 {
                return Err(
                    ByteStreamError::UnexpectedTermination(
                        String::from_str("reached end of bitstream"),
                    ),
                );
            }
            if !marker_at(self.data, c) {
                return Err(
                    ByteStreamError::IncorrectByteSequence {
                        expected: String::from_str("0x00 0x00 0x00 0x01"),
                        got: hex_text(self.data, c, c + 4),
                    },
                );
            }
            let start = c + 4;
            let mut e = start;
            loop
                invariant
                    self.data@ == data,
                    n == data.len(),
                    start <= e < n,
                    body_end(data, start as int) == body_end(data, e as int),
                ensures
                    start <= e < n,
                    body_end(data, start as int) == body_end(data, e as int),
                    e == n - 1 || is_boundary(data, e as int),
                decreases n - e,
            {
                if e == n - 1 {
                    break ;
                }
                if n - e >= 3 && boundary_at(self.data, e) {
                    break ;
                }
                e = e + 1;
            }
            assert(body_end(data, start as int) == e);
            let ghost before = nal_units@;
            if e == n - 1 {
                let last = (start, e - start + 1);
                nal_units.push(last);
                assert(nal_units@ =~= before + seq![last]);
                self.cursor = n;
                return Ok(nal_units);
            }
            let span = (start, e - start);
            nal_units.push(span);
            assert(nal_units@ =~= before + seq![span]);
            let b = e + 3;
            self.cursor = b;
            let to_find: [u8; 4] = [0x00, 0x00, 0x00, 0x01];
            assert(to_find@ =~= marker());
            match find_pattern(self.data, b, to_find.as_slice(), SCAN_WIDTH) {
                Err(_) => {
                    proof {
                        lemma_next_marker_none(data, b as int);
                    }
                    return Err(
                        ByteStreamError::UnexpectedTermination(
                            String::from_str("reached end of bitstream before the next start code"),
                        ),
                    );
                },
                Ok(m2) => {
                    proof {
                        lemma_next_marker_is(data, b as int, m2 as int);
                    }
                    match first_nonzero(self.data, b, m2) {
                        Some(i) => {
                            let found = hex_byte(self.data[i]);
                            proof {
                                reveal_strlit("0x00");
                            }
                            let expected = String::from_str("0x00");
                            assert(expected@ =~= seq!['0', 'x', '0', '0']);
                            assert(!zeros_between(data, b as int, m2 as int)) by {
                                assert(data[i as int] != 0);
                            }
                            return Err(ByteStreamError::UnexpectedByte(found, expected));
                        },
                        None => {},
                    }
                    proof {
                        match segment_at(data, m2 as int) {
                            Ok(rest) => {
                                assert(before + (seq![span] + rest) =~= nal_units@ + rest);
                            },
                            Err(_) => {},
                        }
                    }
                    self.cursor = m2;
                },
            }
        }
    }
}

/// `0x` and two hexadecimal digits for each byte of `bytes[lo .. hi]`,
/// separated by spaces.
fn hex_text(bytes: &[u8], lo: usize, hi: usize) -> String
    requires
        lo <= hi <= bytes@.len(),
{
    let mut text = String::from_str("");
    let mut i: usize = lo;
    while i < hi
        invariant
            lo <= i <= hi,
            hi <= bytes@.len(),
        decreases hi - i,
    {
        if i > lo {
            text.append(" ");
        }
        let byte = hex_byte(bytes[i]);
        text.append(byte.as_str());
        i = i + 1;
    }
    text
}

/// `0x` and the two hexadecimal digits of a byte.
fn hex_byte(b: u8) -> (r: String)
    ensures
        r@ == hex_byte_text(b),
{
    proof {
        reveal_strlit("0x");
    }
    let mut text = String::from_str("0x");
    text.append(hex_digit(b / 16));
    text.append(hex_digit(b % 16));
    assert(text@ =~= hex_byte_text(b));
    text
}

/// The hexadecimal digit of a value below sixteen.
fn hex_digit(v: u8) -> (r: &'static str)
    requires
        v < 16,
    ensures
        r@ == seq![hex_digit_char(v as int)],
{
    match v {
        0 => {
            proof {
                reveal_strlit("0");
            }
            "0"
        },
        1 => {
            proof {
                reveal_strlit("1");
            }
            "1"
        },
        2 => {
            proof {
                reveal_strlit("2");
            }
            "2"
        },
        3 => {
            proof {
                reveal_strlit("3");
            }
            "3"
        },
        4 => {
            proof {
                reveal_strlit("4");
            }
            "4"
        },
        5 => {
            proof {
                reveal_strlit("5");
            }
            "5"
        },
        6 => {
            proof {
                reveal_strlit("6");
            }
            "6"
        },
        7 => {
            proof {
                reveal_strlit("7");
            }
            "7"
        },
        8 => {
            proof {
                reveal_strlit("8");
            }
            "8"
        },
        9 => {
            proof {
                reveal_strlit("9");
            }
            "9"
        },
        10 => {
            proof {
                reveal_strlit("a");
            }
            "a"
        },
        11 => {
            proof {
                reveal_strlit("b");
            }
            "b"
        },
        12 => {
            proof {
                reveal_strlit("c");
            }
            "c"
        },
        13 => {
            proof {
                reveal_strlit("d");
            }
            "d"
        },
        14 => {
            proof {
                reveal_strlit("e");
            }
            "e"
        },
        _ => {
            proof {
                reveal_strlit("f");
            }
            "f"
        },
    }
}

/// Whether three bytes at `c`, padded with a zero lane, equal the start code
/// prefix lanes or four zero lanes.
fn boundary_at(data: &[u8], c: usize) -> (r: bool)
    requires
        c + 3 <= data@.len(),
    ensures
        r == is_boundary(data@, c as int),
{
    let lanes: [u8; 4] = [data[c], data[c + 1], data[c + 2], 0x00];
    let prefix = NalUnit::start_code_prefix_simd_array();
    let mut eq_prefix = true;
    let mut eq_zero = true;
    let mut i: usize = 0;
    while i < 4
        invariant
            i <= 4,
            prefix@ == start_code_lanes(),
            eq_prefix <==> forall|t: int| 0 <= t < i ==> lanes@[t] == prefix@[t],
            eq_zero <==> forall|t: int| 0 <= t < i ==> lanes@[t] == 0,
        decreases 4 - i,
    {
        eq_prefix = eq_prefix && lanes[i] == prefix[i];
        eq_zero = eq_zero && lanes[i] == 0;
        i = i + 1;
    }
    assert(eq_prefix <==> (lanes@[0] == 0 && lanes@[1] == 0 && lanes@[2] == 1 && lanes@[3] == 0));
    assert(eq_zero <==> (lanes@[0] == 0 && lanes@[1] == 0 && lanes@[2] == 0 && lanes@[3] == 0));
    eq_prefix || eq_zero
}

/// The first offset in `data[lo .. hi]` that holds a non-zero byte, if any.
fn first_nonzero(data: &[u8], lo: usize, hi: usize) -> (r: Option<usize>)
    requires
        lo <= hi <= data@.len(),
    ensures
        match r {
            Some(i) => lo <= i < hi && data@[i as int] != 0 && first_nonzero_from(
                data@,
                lo as int,
                hi as int,
            ) == i,
            None => zeros_between(data@, lo as int, hi as int),
        },
{
    let mut i = lo;
    while i < hi
        invariant
            lo <= i <= hi,
            hi <= data@.len(),
            zeros_between(data@, lo as int, i as int),
            first_nonzero_from(data@, lo as int, hi as int) == first_nonzero_from(
                data@,
                i as int,
                hi as int,
            ),
        decreases hi - i,
    {
        if data[i] != 0x00 {
            return Some(i);
        }
        i = i + 1;
    }
    None
}

/// Whether the four bytes at `c` form the marker.
fn marker_at(data: &[u8], c: usize) -> (r: bool)
    requires
        c + 4 <= data@.len(),
    ensures
        r == pattern_at(data@, marker(), c as int),
{
    let r = data[c] == 0 && data[c + 1] == 0 && data[c + 2] == 0 && data[c + 3] == 1;
    proof {
        if r {
            assert forall|t: int| 0 <= t < 4 implies #[trigger] data@[c + t] == marker()[t] by {
                if t == 0 {
                } else if t == 1 {
                } else if t == 2 {
                } else {
                }
            }
        }
        if pattern_at(data@, marker(), c as int) {
            assert(data@[c + 0] == marker()[0]);
            assert(data@[c + 1] == marker()[1]);
            assert(data@[c + 2] == marker()[2]);
            assert(data@[c + 3] == marker()[3]);
        }
    }
    r
}

} // verus!
