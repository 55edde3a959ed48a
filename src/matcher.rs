use vstd::prelude::*;
use vstd::string::StringExecFns;

use crate::errors::ByteStreamError;

verus! {

/// `pattern` occurs in `data` with its first byte at offset `i`.
pub open spec fn pattern_at(data: Seq<u8>, pattern: Seq<u8>, i: int) -> bool {
    0 <= i && i + pattern.len() <= data.len() && forall|t: int|
        0 <= t < pattern.len() ==> #[trigger] data[i + t] == pattern[t]
}

/// `pattern` occurs somewhere at or after offset `from`.
pub open spec fn has_match_from(data: Seq<u8>, pattern: Seq<u8>, from: int) -> bool {
    exists|q: int| from <= q && #[trigger] pattern_at(data, pattern, q)
}

/// `p` is the lowest offset at or after `from` where `pattern` occurs.
pub open spec fn is_first_match(data: Seq<u8>, pattern: Seq<u8>, from: int, p: int) -> bool {
    from <= p && pattern_at(data, pattern, p) && forall|q: int|
        from <= q < p ==> !#[trigger] pattern_at(data, pattern, q)
}

/// A pattern has at most one first occurrence after a given offset.
pub proof fn lemma_first_match_unique(data: Seq<u8>, pattern: Seq<u8>, from: int, p: int, q: int)
    requires
        is_first_match(data, pattern, from, p),
        is_first_match(data, pattern, from, q),
    ensures
        p == q,
{
    if p < q {
        assert(!pattern_at(data, pattern, p));
    } else if q < p {
        assert(!pattern_at(data, pattern, q));
    }
}

/// Compares one window of `width` lanes, starting at `base`, against
/// `pattern`: lane `j` is set when every lane mask `i` agrees, that is when
/// the byte at lane `j + i` equals `pattern[i]`. Lanes whose match would run
/// past the window or the buffer are left out; the next window picks them up.
fn first_lane_in_window(data: &[u8], base: usize, pattern: &[u8], width: usize) -> (r: Option<
    usize,
>)
    requires
        1 <= pattern@.len() <= width,
        base < data@.len(),
    ensures
        match r {
            Some(j) => j + pattern@.len() <= width && is_first_match(
                data@,
                pattern@,
                base as int,
                base + j,
            ),
            None => forall|q: int|
                base <= q <= base + width - pattern@.len() ==> !#[trigger] pattern_at(
                    data@,
                    pattern@,
                    q,
                ),
        },
{
    let k = pattern.len();
    let n = data.len();
    let avail = n - base;
    let w = if width < avail {
        width
    } else {
        avail
    };
    if w < k {
        return None;
    }
    let lanes = w - k + 1;
    let mut mask: Vec<bool> = Vec::new();
    let mut j: usize = 0;
    while j < lanes
        invariant
            j <= lanes,
            mask@.len() == j,
            forall|jj: int| 0 <= jj < j ==> mask@[jj],
        decreases lanes - j,
    {
        mask.push(true);
        j = j + 1;
    }
    let mut i: usize = 0;
    while i < k
        invariant
            k == pattern@.len(),
            lanes + k - 1 == w,
            w <= width,
            base + w <= data@.len(),
            n == data@.len(),
            i <= k,
            mask@.len() == lanes,
            forall|jj: int|
                0 <= jj < lanes ==> (mask@[jj] <==> forall|t: int|
                    0 <= t < i ==> #[trigger] data@[base + jj + t] == pattern@[t]),
        decreases k - i,
    {
        let mut j: usize = 0;
        while j < lanes
            invariant
                k == pattern@.len(),
                lanes + k - 1 == w,
                w <= width,
                base + w <= data@.len(),
                n == data@.len(),
                i < k,
                j <= lanes,
                mask@.len() == lanes,
                forall|jj: int|
                    0 <= jj < j ==> (mask@[jj] <==> forall|t: int|
                        0 <= t < i + 1 ==> #[trigger] data@[base + jj + t] == pattern@[t]),
                forall|jj: int|
                    j <= jj < lanes ==> (mask@[jj] <==> forall|t: int|
                        0 <= t < i ==> #[trigger] data@[base + jj + t] == pattern@[t]),
            decreases lanes - j,
        {
            assert(base + j + i < data@.len());
            let hit = data[base + j + i] == pattern[i];
            let lane = mask[j] && hit;
            proof {
                if lane {
                    assert forall|t: int| 0 <= t < i + 1 implies #[trigger] data@[base + j + t]
                        == pattern@[t] by {
                        if t < i {
                            assert(data@[base + j + t] == pattern@[t]);
                        }
                    }
                } else if hit {
                    assert(!(forall|t: int|
                        0 <= t < i ==> #[trigger] data@[base + j + t] == pattern@[t]));
                } else {
                    assert(data@[base + j + i] != pattern@[i as int]);
                }
            }
            mask.set(j, lane);
            j = j + 1;
        }
        i = i + 1;
    }
    let mut j: usize = 0;
    while j < lanes
        invariant
            k == pattern@.len(),
            lanes + k - 1 == w,
            w <= width,
            base + w <= data@.len(),
            n == data@.len(),
            j <= lanes,
            mask@.len() == lanes,
            forall|jj: int|
                0 <= jj < lanes ==> (mask@[jj] <==> forall|t: int|
                    0 <= t < k ==> #[trigger] data@[base + jj + t] == pattern@[t]),
            forall|q: int| base <= q < base + j ==> !#[trigger] pattern_at(data@, pattern@, q),
        decreases lanes - j,
    {
        if mask[j] {
            assert(pattern_at(data@, pattern@, base + j)) by {
                assert forall|t: int| 0 <= t < k implies #[trigger] data@[base + j + t]
                    == pattern@[t] by {
                    assert(data@[base + j + t] == pattern@[t]);
                }
            }
            return Some(j);
        }
        assert(!pattern_at(data@, pattern@, base + j)) by {
            if pattern_at(data@, pattern@, base + j) {
                assert forall|t: int| 0 <= t < k implies #[trigger] data@[base + j + t]
                    == pattern@[t] by {
                    assert(data@[(base + j) + t] == pattern@[t]);
                }
            }
        }
        j = j + 1;
    }
    None
}

/// Finds the lowest offset at or after `start` where `pattern` occurs, scanning
/// the buffer in windows of `width` bytes. A window without a match moves the
/// scan on by `width - (pattern.len() - 1)` bytes, so that a match that
/// straddles two windows is seen whole in the second one.
///
/// A `width` shorter than the pattern is refused before any byte is read.
pub fn find_pattern(data: &[u8], start: usize, pattern: &[u8], width: usize) -> (r: Result<
    usize,
    ByteStreamError,
>)
    requires
        pattern@.len() >= 1,
    ensures
        match r {
            Ok(p) => pattern@.len() <= width && is_first_match(
                data@,
                pattern@,
                start as int,
                p as int,
            ),
            Err(e) => if width < pattern@.len() {
                e is InvalidLaneCount
            } else {
                e is UnexpectedTermination && !has_match_from(data@, pattern@, start as int)
            },
        },
{
    if width < pattern.len() {
        return Err(
            ByteStreamError::InvalidLaneCount(
                String::from_str("matching. provide a number that is greater than 4"),
            ),
        );
    }
    let stride = width - (pattern.len() - 1);
    let mut cursor = start;
    while cursor < data.len()
        invariant
            1 <= pattern@.len() <= width,
            stride == width - (pattern@.len() - 1),
            start <= cursor,
            forall|q: int| start <= q < cursor ==> !#[trigger] pattern_at(data@, pattern@, q),
        decreases data@.len() - cursor,
    {
        match first_lane_in_window(data, cursor, pattern, width) {
            Some(j) => {
                return Ok(cursor + j);
            },
            None => {},
        }
        if stride >= data.len() - cursor {
            assert forall|q: int| start <= q < data@.len() implies !#[trigger] pattern_at(
                data@,
                pattern@,
                q,
            ) by {
                if q >= cursor && q > cursor + width - pattern@.len() {
                    assert(q + pattern@.len() > data@.len());
                }
            }
            cursor = data.len();
        } else {
            cursor = cursor + stride;
        }
    }
    assert forall|q: int| start <= q implies !#[trigger] pattern_at(data@, pattern@, q) by {
        if q >= cursor {
            assert(q + pattern@.len() > data@.len());
        }
    }
    Err(
        ByteStreamError::UnexpectedTermination(
            String::from_str("reached end of bitstream during preprocessing."),
        ),
    )
}

} // verus!
