//! Looking for the token in bytes read from a process: the marker that
//! precedes it, in two encodings, and the UUID that follows.

use crate::pattern::{first_match, first_match_of};
use crate::text::{matches_at, occurs_at};
use crate::types::opt_text;
use vstd::prelude::*;
use vstd::slice::slice_subrange;
use vstd::string::*;
use vstd::utf8::encode_utf8;

verus! {

/// How many bytes after a marker are looked at.
pub const SCAN_AHEAD: usize = 200;

/// How many bytes of a region are read at once.
pub const CHUNK_SIZE: usize = 512 * 1024;

/// How many bytes of one region are read at most.
pub const MAX_REGION_BYTES: usize = 64 * 1024 * 1024;

/// How many bytes of one process are read at most.
pub const MAX_PROCESS_BYTES: usize = 1024 * 1024 * 1024;

/// The header name that stands before the token in memory.
pub const MARKER: &'static str = "x-codeium-csrf-token";

/// What `String::from_utf8_lossy` makes of bytes: their text as UTF-8, with
/// the replacement character for what is no UTF-8.
pub uninterp spec fn utf8_lossy_of(bytes: Seq<u8>) -> Seq<char>;

/// What `String::from_utf16_lossy` makes of code units: their text as
/// UTF-16, with the replacement character for unpaired surrogates.
pub uninterp spec fn utf16_lossy_of(units: Seq<u16>) -> Seq<char>;

/// `String::from_utf8_lossy` of the standard library. The contract claims
/// only that the text is the one named `utf8_lossy_of`: it depends on the
/// bytes alone.
#[verifier::external_body]
pub(crate) fn decode_utf8_lossy(bytes: &[u8]) -> (r: String)
    ensures
        r@ == utf8_lossy_of(bytes@),
{
    String::from_utf8_lossy(bytes).into_owned()
}

/// `String::from_utf16_lossy` of the standard library. The contract claims
/// only that the text is the one named `utf16_lossy_of`: it depends on the
/// code units alone.
#[verifier::external_body]
pub(crate) fn decode_utf16_lossy(units: &[u16]) -> (r: String)
    ensures
        r@ == utf16_lossy_of(units@),
{
    String::from_utf16_lossy(units)
}

/// How many bytes of a region of `region_len` bytes are read.
pub open spec fn region_budget(region_len: usize) -> usize {
    if region_len < MAX_REGION_BYTES {
        region_len
    } else {
        MAX_REGION_BYTES
    }
}

/// The chunk to read once `done` bytes of a region are read: where it
/// begins and how long it is; none once the budget of the region is spent.
pub open spec fn chunk_after(region_len: usize, done: usize) -> Option<(usize, usize)> {
    if done >= region_budget(region_len) {
        None
    } else if region_budget(region_len) - done < CHUNK_SIZE {
        Some((done, (region_budget(region_len) - done) as usize))
    } else {
        Some((done, CHUNK_SIZE))
    }
}

/// Says which chunk of a region to read next, once `done` bytes of it are
/// read. The chunks follow one another without a gap, none is longer than
/// `CHUNK_SIZE`, and together they cover the region up to
/// `MAX_REGION_BYTES`.
pub fn next_chunk(region_len: usize, done: usize) -> (r: Option<(usize, usize)>)
    ensures
        r == chunk_after(region_len, done),
        r matches Some(c) ==> c.0 == done && 0 < c.1 <= CHUNK_SIZE && done + c.1 <= region_len
            && done + c.1 <= MAX_REGION_BYTES,
{
    let budget = if region_len < MAX_REGION_BYTES {
        region_len
    } else {
        MAX_REGION_BYTES
    };
    if done >= budget {
        None
    } else if budget - done < CHUNK_SIZE {
        Some((done, budget - done))
    } else {
        Some((done, CHUNK_SIZE))
    }
}

/// What a scan does next.
#[derive(Debug, Clone, Copy, PartialEq, Eq, Structural)]
pub enum ScanStep {
    /// Read so many bytes of the region from this offset.
    Read(usize, usize),
    /// The region is done: go on with the next one.
    NextRegion,
    /// The budget of the process is spent: stop.
    Stop,
}

/// What a scan does once `done` bytes of a region and `scanned` bytes of
/// the process are read: nothing more once the budget of the process is
/// spent; else the next chunk of the region, cut to what is left of that
/// budget; else the next region.
pub open spec fn scan_step(region_len: usize, done: usize, scanned: usize) -> ScanStep {
    if scanned >= MAX_PROCESS_BYTES {
        ScanStep::Stop
    } else {
        match chunk_after(region_len, done) {
            None => ScanStep::NextRegion,
            Some(chunk) => if chunk.1 <= MAX_PROCESS_BYTES - scanned {
                ScanStep::Read(chunk.0, chunk.1)
            } else {
                ScanStep::Read(chunk.0, (MAX_PROCESS_BYTES - scanned) as usize)
            },
        }
    }
}

/// Says what a scan does next, once `done` bytes of a region and `scanned`
/// bytes of the process are read. What is read stays within the region,
/// within `MAX_REGION_BYTES` of it and within `MAX_PROCESS_BYTES` of the
/// process.
pub fn next_scan_step(region_len: usize, done: usize, scanned: usize) -> (r: ScanStep)
    ensures
        r == scan_step(region_len, done, scanned),
        r matches ScanStep::Read(offset, len) ==> offset == done && 0 < len <= CHUNK_SIZE && done
            + len <= region_len && done + len <= MAX_REGION_BYTES && scanned + len
            <= MAX_PROCESS_BYTES,
{
    if scanned >= MAX_PROCESS_BYTES {
        return ScanStep::Stop;
    }
    match next_chunk(region_len, done) {
        None => ScanStep::NextRegion,
        Some(chunk) => if chunk.1 <= MAX_PROCESS_BYTES - scanned {
            ScanStep::Read(chunk.0, chunk.1)
        } else {
            ScanStep::Read(chunk.0, MAX_PROCESS_BYTES - scanned)
        },
    }
}

/// Each byte followed by a zero byte: the UTF-16 form, low byte first, of a
/// text of ASCII characters.
pub open spec fn widened(bytes: Seq<u8>) -> Seq<u8> {
    Seq::new(
        2 * bytes.len(),
        |i: int|
            if i % 2 == 0 {
                bytes[i / 2]
            } else {
                0u8
            },
    )
}

/// The code units that bytes write in pairs, low byte first; a last byte
/// without a partner is left out.
pub open spec fn le_units(bytes: Seq<u8>) -> Seq<u16> {
    Seq::new(bytes.len() / 2, |i: int| (bytes[2 * i] + 256 * bytes[2 * i + 1]) as u16)
}

/// The places where `needle` stands in `hay` from `from` on, from left to
/// right, none overlapping the one before it.
pub open spec fn positions_from(hay: Seq<u8>, needle: Seq<u8>, from: int) -> Seq<int>
    decreases hay.len() - from,
{
    if needle.len() == 0 || from < 0 || from + needle.len() > hay.len() {
        Seq::empty()
    } else if occurs_at(hay, needle, from) {
        seq![from] + positions_from(hay, needle, from + needle.len())
    } else {
        positions_from(hay, needle, from + 1)
    }
}

/// Positions as integers.
pub open spec fn as_ints(positions: Seq<usize>) -> Seq<int> {
    Seq::new(positions.len(), |i: int| positions[i] as int)
}

/// The text of a search that found something.
pub open spec fn found_text(outcome: Option<Option<Seq<char>>>) -> Option<Seq<char>> {
    match outcome {
        Some(Some(t)) => Some(t),
        _ => None,
    }
}

/// The first match of the pattern in a window: in its text as UTF-8, else in
/// its text as UTF-16.
pub open spec fn window_token(pattern: Seq<char>, window: Seq<u8>) -> Option<Seq<char>> {
    match found_text(first_match_of(pattern, utf8_lossy_of(window))) {
        Some(t) => Some(t),
        None => found_text(first_match_of(pattern, utf16_lossy_of(le_units(window)))),
    }
}

/// The window that begins at `start`: `SCAN_AHEAD` bytes, or what is left of
/// the data.
pub open spec fn window_after(data: Seq<u8>, start: int) -> Seq<u8> {
    data.subrange(
        start,
        if start + SCAN_AHEAD < data.len() {
            start + SCAN_AHEAD
        } else {
            data.len() as int
        },
    )
}

/// The first match in the windows that follow marker hits, the hits taken in
/// their order. A marker at the very end of the data has no window.
pub open spec fn scan_hits(data: Seq<u8>, pattern: Seq<char>, marker_len: int, hits: Seq<int>)
    -> Option<Seq<char>>
    decreases hits.len(),
{
    if hits.len() == 0 {
        None
    } else {
        let start = hits[0] + marker_len;
        let here = if 0 <= start < data.len() {
            window_token(pattern, window_after(data, start))
        } else {
            None
        };
        match here {
            Some(t) => Some(t),
            None => scan_hits(data, pattern, marker_len, hits.drop_first()),
        }
    }
}

/// The first match after any place where the marker stands.
pub open spec fn token_after_marker(data: Seq<u8>, pattern: Seq<char>, marker: Seq<u8>)
    -> Option<Seq<char>> {
    scan_hits(data, pattern, marker.len() as int, positions_from(data, marker, 0))
}

/// The token in a block of bytes: what follows the first marker, else what
/// follows the second.
pub open spec fn token_in_bytes(
    data: Seq<u8>,
    pattern: Seq<char>,
    first_marker: Seq<u8>,
    second_marker: Seq<u8>,
) -> Option<Seq<char>> {
    match token_after_marker(data, pattern, first_marker) {
        Some(t) => Some(t),
        None => token_after_marker(data, pattern, second_marker),
    }
}

/// Every position that `positions_from` lists is a place where the needle
/// stands, no earlier than `from`; each begins where the one before it has
/// ended, or later.
pub proof fn lemma_positions_sound(hay: Seq<u8>, needle: Seq<u8>, from: int)
    ensures
        forall|k: int|
            0 <= k < positions_from(hay, needle, from).len() ==> from <= (
            #[trigger] positions_from(hay, needle, from)[k]) && occurs_at(
                hay,
                needle,
                positions_from(hay, needle, from)[k],
            ),
        forall|k: int|
            0 < k < positions_from(hay, needle, from).len() ==> positions_from(
                hay,
                needle,
                from,
            )[k - 1] + needle.len() <= #[trigger] positions_from(hay, needle, from)[k],
    decreases hay.len() - from,
{
    let all = positions_from(hay, needle, from);
    if needle.len() == 0 || from < 0 || from + needle.len() > hay.len() {
        assert(all.len() == 0);
    } else if occurs_at(hay, needle, from) {
        let rest = positions_from(hay, needle, from + needle.len());
        lemma_positions_sound(hay, needle, from + needle.len());
        assert(all =~= seq![from] + rest);
        assert forall|k: int| 0 <= k < all.len() implies from <= (#[trigger] all[k]) && occurs_at(
            hay,
            needle,
            all[k],
        ) by {
            if k > 0 {
                assert(all[k] == rest[k - 1]);
            }
        }
        assert forall|k: int| 0 < k < all.len() implies all[k - 1] + needle.len()
            <= #[trigger] all[k] by {
            assert(all[k] == rest[k - 1]);
            if k > 1 {
                assert(all[k - 1] == rest[k - 2]);
            } else {
                assert(all[0] == from);
            }
        }
    } else {
        let rest = positions_from(hay, needle, from + 1);
        lemma_positions_sound(hay, needle, from + 1);
        assert(all == rest);
        assert forall|k: int| 0 <= k < all.len() implies from <= (#[trigger] all[k]) && occurs_at(
            hay,
            needle,
            all[k],
        ) by {
            assert(all[k] == rest[k]);
        }
        assert forall|k: int| 0 < k < all.len() implies all[k - 1] + needle.len()
            <= #[trigger] all[k] by {
            assert(all[k] == rest[k]);
            assert(all[k - 1] == rest[k - 1]);
        }
    }
}

/// The marker as it stands in memory: its bytes as UTF-8, and its bytes as
/// UTF-16 with the low byte first.
pub fn get_patterns() -> (r: (Vec<u8>, Vec<u8>))
    ensures
        r.0@ == encode_utf8(MARKER@),
        r.1@ == widened(encode_utf8(MARKER@)),
{
    let narrow = MARKER.as_bytes_vec();
    let mut wide: Vec<u8> = Vec::new();
    let mut i: usize = 0;
    while i < narrow.len()
        invariant
            i <= narrow@.len(),
            wide@ == widened(narrow@.subrange(0, i as int)),
        decreases narrow@.len() - i,
    {
        wide.push(narrow[i]);
        wide.push(0u8);
        i += 1;
        assert(wide@ =~= widened(narrow@.subrange(0, i as int)));
    }
    assert(narrow@.subrange(0, i as int) =~= narrow@);
    (narrow, wide)
}

/// Finds every place where `needle` stands in `haystack`, from left to
/// right; a place that overlaps the one found before it is passed over. An
/// empty needle stands nowhere.
pub fn find_all_positions(haystack: &[u8], needle: &[u8]) -> (r: Vec<usize>)
    ensures
        as_ints(r@) == positions_from(haystack@, needle@, 0),
        forall|k: int| 0 <= k < r@.len() ==> occurs_at(haystack@, needle@, #[trigger] r@[k] as int),
        forall|k: int| 0 < k < r@.len() ==> r@[k - 1] + needle@.len() <= #[trigger] r@[k],
{
    let mut positions: Vec<usize> = Vec::new();
    if needle.len() == 0 || haystack.len() < needle.len() {
        assert(as_ints(positions@) =~= positions_from(haystack@, needle@, 0));
        return positions;
    }
    let last: usize = haystack.len() - needle.len();
    let mut i: usize = 0;
    assert(as_ints(positions@) + positions_from(haystack@, needle@, 0) =~= positions_from(
        haystack@,
        needle@,
        0,
    ));
    while i <= last
        invariant
            needle@.len() > 0,
            last + needle@.len() == haystack@.len(),
            haystack@.len() <= usize::MAX,
            i <= haystack@.len(),
            positions_from(haystack@, needle@, 0) == as_ints(positions@) + positions_from(
                haystack@,
                needle@,
                i as int,
            ),
        decreases haystack@.len() - i,
    {
        let ghost before = as_ints(positions@);
        if matches_at(haystack, needle, i) {
            positions.push(i);
            assert(as_ints(positions@) =~= before + seq![i as int]);
            assert(before + (seq![i as int] + positions_from(
                haystack@,
                needle@,
                i + needle@.len(),
            )) =~= as_ints(positions@) + positions_from(haystack@, needle@, i + needle@.len()));
            i += needle.len();
        } else {
            i += 1;
        }
    }
    proof {
        assert(positions_from(haystack@, needle@, i as int) =~= Seq::<int>::empty());
        assert(as_ints(positions@) + Seq::<int>::empty() =~= as_ints(positions@));
        lemma_positions_sound(haystack@, needle@, 0);
        let listed = positions_from(haystack@, needle@, 0);
        assert forall|k: int| 0 <= k < positions@.len() implies occurs_at(
            haystack@,
            needle@,
            #[trigger] positions@[k] as int,
        ) by {
            assert(listed[k] == positions@[k] as int);
        }
        assert forall|k: int| 0 < k < positions@.len() implies positions@[k - 1] + needle@.len()
            <= #[trigger] positions@[k] by {
            assert(listed[k] == positions@[k] as int);
            assert(listed[k - 1] == positions@[k - 1] as int);
        }
    }
    positions
}

/// Reads bytes in pairs as 16-bit code units, low byte first.
pub fn pair_le_units(bytes: &[u8]) -> (r: Vec<u16>)
    ensures
        r@ == le_units(bytes@),
{
    let mut units: Vec<u16> = Vec::new();
    let count: usize = bytes.len() / 2;
    let mut i: usize = 0;
    while i < count
        invariant
            i <= count,
            count == bytes@.len() / 2,
            bytes@.len() <= usize::MAX,
            units@.len() == i,
            forall|j: int| 0 <= j < i ==> units@[j] == le_units(bytes@)[j],
        decreases count - i,
    {
        let low: u16 = bytes[2 * i] as u16;
        let high: u16 = bytes[2 * i + 1] as u16;
        units.push(low + 256 * high);
        i += 1;
    }
    assert(units@ =~= le_units(bytes@));
    units
}

/// Looks for the pattern in one window, read as UTF-8 and then as UTF-16.
pub fn token_in_window(window: &[u8], pattern: &str) -> (r: Option<String>)
    ensures
        opt_text(r) == window_token(pattern@, window@),
{
    let narrow = decode_utf8_lossy(window);
    match first_match(pattern, narrow.as_str()) {
        Ok(Some(t)) => {
            return Some(t);
        },
        _ => {},
    }
    let units = pair_le_units(window);
    let wide = decode_utf16_lossy(units.as_slice());
    match first_match(pattern, wide.as_str()) {
        Ok(Some(t)) => Some(t),
        _ => None,
    }
}

/// Looks for the pattern after every place where one marker stands.
pub fn search_after_marker(data: &[u8], pattern: &str, marker: &[u8]) -> (r: Option<String>)
    ensures
        opt_text(r) == token_after_marker(data@, pattern@, marker@),
{
    let positions = find_all_positions(data, marker);
    let ghost hits = as_ints(positions@);
    let len = data.len();
    let mut i: usize = 0;
    assert(hits.skip(0) =~= hits);
    while i < positions.len()
        invariant
            i <= positions@.len(),
            len == data@.len(),
            hits == as_ints(positions@),
            hits == positions_from(data@, marker@, 0),
            forall|k: int|
                0 <= k < positions@.len() ==> occurs_at(data@, marker@, #[trigger] positions@[k] as int),
            scan_hits(data@, pattern@, marker@.len() as int, hits) == scan_hits(
                data@,
                pattern@,
                marker@.len() as int,
                hits.skip(i as int),
            ),
        decreases positions@.len() - i,
    {
        let ghost rest = hits.skip(i as int);
        proof {
            assert(rest[0] == positions@[i as int] as int);
            assert(rest.drop_first() =~= hits.skip(i + 1));
            assert(occurs_at(data@, marker@, positions@[i as int] as int));
        }
        let start: usize = positions[i] + marker.len();
        if start < len {
            let end: usize = if len - start > SCAN_AHEAD {
                start + SCAN_AHEAD
            } else {
                len
            };
            let window = slice_subrange(data, start, end);
            assert(window@ == window_after(data@, start as int));
            let here = token_in_window(window, pattern);
            assert(opt_text(here) == window_token(pattern@, window_after(data@, rest[0] + marker@.len())));
            if here.is_some() {
                assert(scan_hits(data@, pattern@, marker@.len() as int, rest) == opt_text(here));
                return here;
            }
        }
        i += 1;
    }
    assert(hits.skip(i as int).len() == 0);
    None
}

/// Looks for the token in a block of bytes: after the marker in its first
/// form, then after the marker in its second form. The first match of the
/// pattern in a window after a marker is the token.
pub fn search_bytes_for_token(data: &[u8], uuid_pattern: &str, patterns: &(Vec<u8>, Vec<u8>)) -> (r:
    Option<String>)
    ensures
        opt_text(r) == token_in_bytes(data@, uuid_pattern@, patterns.0@, patterns.1@),
{
    match search_after_marker(data, uuid_pattern, patterns.0.as_slice()) {
        Some(t) => Some(t),
        None => search_after_marker(data, uuid_pattern, patterns.1.as_slice()),
    }
}

} // verus!
