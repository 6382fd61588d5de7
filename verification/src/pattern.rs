//! Wildcard byte patterns: their textual grammar and the search for their
//! first occurrence in a block of memory.

use vstd::prelude::*;
use vstd::string::StringSliceAdditionalSpecFns;

verus! {

/// Why a signature search produced no address.
#[derive(Debug, Clone, Copy, PartialEq, Eq, Structural)]
pub enum PatternSearchError {
    /// The pattern text is not a sequence of hex pairs and wildcards.
    Parse,
    /// The match lies beyond the scanned window.
    OutOfRange,
    /// No position of the window matches the pattern.
    NotFound,
}

/// One pattern token as a pair: the byte to compare with, and whether the
/// token is a wildcard (in which case the byte is zero and never compared).
pub type PatternToken = (u8, bool);

/// The value of an ASCII hex digit, in either case.
pub open spec fn hex_value(b: u8) -> Option<u8> {
    if 0x30 <= b <= 0x39 {
        Some((b - 0x30) as u8)
    } else if 0x61 <= b <= 0x66 {
        Some((b - 0x61 + 10) as u8)
    } else if 0x41 <= b <= 0x46 {
        Some((b - 0x41 + 10) as u8)
    } else {
        None
    }
}

/// The tokens that the text denotes from byte `i` on, or `None` where the
/// text is malformed at or after `i`.
///
/// Spaces separate tokens and are otherwise ignored. A `?`, or two of them
/// written together, is one wildcard. Anything else has to be two hex digits
/// written together, which give one byte.
pub open spec fn parse_from(text: Seq<u8>, i: int) -> Option<Seq<PatternToken>>
    decreases text.len() - i,
{
    if i < 0 || i >= text.len() {
        Some(Seq::empty())
    } else if text[i] == 0x20 {
        parse_from(text, i + 1)
    } else if text[i] == 0x3f {
        let next = if i + 1 < text.len() && text[i + 1] == 0x3f {
            i + 2
        } else {
            i + 1
        };
        match parse_from(text, next) {
            Some(rest) => Some(seq![(0u8, true)] + rest),
            None => None,
        }
    } else if i + 1 < text.len() && hex_value(text[i]) is Some && hex_value(text[i + 1]) is Some {
        let byte = (16 * hex_value(text[i])->0 + hex_value(text[i + 1])->0) as u8;
        match parse_from(text, i + 2) {
            Some(rest) => Some(seq![(byte, false)] + rest),
            None => None,
        }
    } else {
        None
    }
}

/// The tokens that a whole pattern text denotes.
pub open spec fn parse_spec(text: Seq<u8>) -> Option<Seq<PatternToken>> {
    parse_from(text, 0)
}

/// Whether `pattern` fits into `window` at offset `at` and every token that
/// is not a wildcard equals the byte under it.
pub open spec fn matches_at(window: Seq<u8>, pattern: Seq<PatternToken>, at: int) -> bool {
    &&& 0 <= at
    &&& at + pattern.len() <= window.len()
    &&& forall|k: int|
        0 <= k < pattern.len() ==> pattern[k].1 || pattern[k].0 == #[trigger] window[at + k]
}

/// Whether `found` is what a search for `pattern` in `window` has to report:
/// the lowest matching offset, or nothing where no offset matches.
pub open spec fn is_first_match(
    window: Seq<u8>,
    pattern: Seq<PatternToken>,
    found: Option<int>,
) -> bool {
    match found {
        Some(at) => matches_at(window, pattern, at) && forall|j: int|
            0 <= j < at ==> !matches_at(window, pattern, j),
        None => forall|j: int| !matches_at(window, pattern, j),
    }
}

/// Whether `outcome` is the result owed for the pattern text `mask` searched
/// in `window`: a parse error for malformed text, otherwise the first match
/// or `NotFound`. `OutOfRange` is never owed, since a match always lies inside
/// the window it was found in.
pub open spec fn find_outcome(
    mask: Seq<u8>,
    window: Seq<u8>,
    outcome: Result<int, PatternSearchError>,
) -> bool {
    match parse_spec(mask) {
        None => outcome == Err::<int, PatternSearchError>(PatternSearchError::Parse),
        Some(pattern) => match outcome {
            Ok(at) => is_first_match(window, pattern, Some(at)),
            Err(PatternSearchError::NotFound) => is_first_match(window, pattern, None),
            Err(_) => false,
        },
    }
}

fn hex_digit(b: u8) -> (value: Option<u8>)
    ensures
        value == hex_value(b),
        value matches Some(v) ==> v < 16,
{
    if 0x30 <= b && b <= 0x39 {
        Some(b - 0x30)
    } else if 0x61 <= b && b <= 0x66 {
        Some(b - 0x61 + 10)
    } else if 0x41 <= b && b <= 0x46 {
        Some(b - 0x41 + 10)
    } else {
        None
    }
}

/// Parses the bytes of a pattern text into tokens.
pub fn parse_pattern_bytes(text: &[u8]) -> (tokens: Result<Vec<PatternToken>, PatternSearchError>)
    ensures
        match tokens {
            Ok(t) => parse_spec(text@) == Some(t@),
            Err(e) => parse_spec(text@) is None && e == PatternSearchError::Parse,
        },
{
    let mut out: Vec<PatternToken> = Vec::new();
    let mut i: usize = 0;
    while i < text.len()
        invariant
            i <= text.len(),
            parse_spec(text@) == match parse_from(text@, i as int) {
                Some(rest) => Some(out@ + rest),
                None => None,
            },
        decreases text.len() - i,
    {
        let b = text[i];
        if b == 0x20 {
            i += 1;
        } else if b == 0x3f {
            let ghost before = out@;
            let ghost from = i as int;
            if i + 1 < text.len() && text[i + 1] == 0x3f {
                i += 2;
            } else {
                i += 1;
            }
            out.push((0u8, true));
            proof {
                match parse_from(text@, i as int) {
                    Some(rest) => {
                        assert(before + (seq![(0u8, true)] + rest) =~= out@ + rest);
                    },
                    None => {},
                }
            }
        } else {
            if i + 1 >= text.len() {
                return Err(PatternSearchError::Parse);
            }
            let high = hex_digit(b);
            let low = hex_digit(text[i + 1]);
            match (high, low) {
                (Some(h), Some(l)) => {
                    let ghost before = out@;
                    let byte: u8 = 16 * h + l;
                    out.push((byte, false));
                    i += 2;
                    proof {
                        match parse_from(text@, i as int) {
                            Some(rest) => {
                                assert(before + (seq![(byte, false)] + rest) =~= out@ + rest);
                            },
                            None => {},
                        }
                    }
                },
                _ => {
                    return Err(PatternSearchError::Parse);
                },
            }
        }
    }
    proof {
        assert(out@ + Seq::<PatternToken>::empty() =~= out@);
    }
    Ok(out)
}

/// Parses a pattern text: hex pairs and `?` / `??` wildcards, separated by
/// spaces, hex digits in either case.
pub fn parse_pattern(mask: &str) -> (tokens: Result<Vec<PatternToken>, PatternSearchError>)
    ensures
        match tokens {
            Ok(t) => parse_spec(mask.spec_bytes()) == Some(t@),
            Err(e) => parse_spec(mask.spec_bytes()) is None && e == PatternSearchError::Parse,
        },
{
    parse_pattern_bytes(mask.as_bytes())
}

fn window_matches(memory: &[u8], end: usize, pattern: &Vec<PatternToken>, at: usize) -> (hit: bool)
    requires
        end <= memory.len(),
        at + pattern.len() <= end,
    ensures
        hit == matches_at(memory@.subrange(0, end as int), pattern@, at as int),
{
    let ghost window = memory@.subrange(0, end as int);
    let mut k: usize = 0;
    while k < pattern.len()
        invariant
            k <= pattern.len(),
            end <= memory.len(),
            at + pattern.len() <= end,
            window == memory@.subrange(0, end as int),
            forall|j: int|
                0 <= j < k ==> pattern@[j].1 || pattern@[j].0 == #[trigger] window[at + j],
        decreases pattern.len() - k,
    {
        let token = pattern[k];
        if !token.1 && token.0 != memory[at + k] {
            assert(window[at + k] == memory@[at + k]);
            return false;
        }
        assert(window[at + k] == memory@[at + k]);
        k += 1;
    }
    true
}

/// Finds the first offset in the first `end` bytes of `memory` at which
/// `pattern` matches.
pub fn find_tokens(memory: &[u8], end: usize, pattern: &Vec<PatternToken>) -> (found: Option<usize>)
    requires
        end <= memory.len(),
    ensures
        is_first_match(
            memory@.subrange(0, end as int),
            pattern@,
            match found {
                Some(at) => Some(at as int),
                None => None,
            },
        ),
{
    let ghost window = memory@.subrange(0, end as int);
    if pattern.len() > end {
        return None;
    }
    let last: usize = end - pattern.len();
    let mut at: usize = 0;
    while at <= last
        invariant
            end <= memory.len(),
            pattern.len() <= end,
            last == end - pattern.len(),
            at <= last + 1,
            window == memory@.subrange(0, end as int),
            forall|j: int| 0 <= j < at ==> !matches_at(window, pattern@, j),
        decreases last + 1 - at,
    {
        if window_matches(memory, end, pattern, at) {
            return Some(at);
        }
        at += 1;
    }
    None
}

/// Searches the first `max_size + 1` bytes of `memory` for the pattern that
/// `mask` denotes and returns the offset of its first occurrence.
///
/// The window is one byte longer than `max_size`, and so is the bound that a
/// match is held against; both are part of the behaviour. An empty pattern
/// has no window to slide and is left out.
pub fn find_pattern(memory: &[u8], max_size: usize, mask: &str) -> (found: Result<
    usize,
    PatternSearchError,
>)
    requires
        max_size < memory.len(),
        parse_spec(mask.spec_bytes()) matches Some(p) ==> p.len() > 0,
    ensures
        find_outcome(
            mask.spec_bytes(),
            memory@.subrange(0, max_size + 1),
            match found {
                Ok(at) => Ok(at as int),
                Err(e) => Err(e),
            },
        ),
{
    let pattern = match parse_pattern(mask) {
        Ok(p) => p,
        Err(e) => {
            return Err(e);
        },
    };
    let data_end: usize = max_size + 1;
    let at = match find_tokens(memory, data_end, &pattern) {
        Some(at) => at,
        None => {
            return Err(PatternSearchError::NotFound);
        },
    };
    if at > data_end {
        return Err(PatternSearchError::OutOfRange);
    }
    Ok(at)
}

/// The bytes that the tokens of a pattern carry.
pub open spec fn token_bytes(pattern: Seq<PatternToken>) -> Seq<u8> {
    pattern.map_values(|t: PatternToken| t.0)
}

/// Whether `bytes` stand in `window` as a contiguous run that starts at `at`.
pub open spec fn occurs_at(window: Seq<u8>, bytes: Seq<u8>, at: int) -> bool {
    &&& 0 <= at
    &&& at + bytes.len() <= window.len()
    &&& window.subrange(at, at + bytes.len()) == bytes
}

/// A pattern without wildcards matches exactly where its bytes occur.
pub proof fn wildcard_free_match_is_occurrence(
    window: Seq<u8>,
    pattern: Seq<PatternToken>,
    at: int,
)
    requires
        forall|k: int| 0 <= k < pattern.len() ==> !(#[trigger] pattern[k]).1,
    ensures
        matches_at(window, pattern, at) <==> occurs_at(window, token_bytes(pattern), at),
{
    let bytes = token_bytes(pattern);
    if 0 <= at && at + pattern.len() <= window.len() {
        let run = window.subrange(at, at + pattern.len());
        if matches_at(window, pattern, at) {
            assert forall|k: int| 0 <= k < run.len() implies run[k] == bytes[k] by {
                assert(!pattern[k].1);
                assert(pattern[k].0 == window[at + k]);
            }
            assert(run =~= bytes);
        }
        if run == bytes {
            assert forall|k: int| 0 <= k < pattern.len() implies pattern[k].1 || pattern[k].0
                == #[trigger] window[at + k] by {
                assert(run[k] == window[at + k]);
                assert(bytes[k] == pattern[k].0);
            }
        }
    }
}

/// A search for a wildcard-free pattern whose bytes occur somewhere in the
/// window reports the first place where they occur.
pub proof fn wildcard_free_search_finds_first_occurrence(
    window: Seq<u8>,
    pattern: Seq<PatternToken>,
    somewhere: int,
    found: Option<int>,
)
    requires
        forall|k: int| 0 <= k < pattern.len() ==> !(#[trigger] pattern[k]).1,
        occurs_at(window, token_bytes(pattern), somewhere),
        is_first_match(window, pattern, found),
    ensures
        found is Some,
        found->0 <= somewhere,
        occurs_at(window, token_bytes(pattern), found->0),
        forall|j: int| 0 <= j < found->0 ==> !occurs_at(window, token_bytes(pattern), j),
{
    wildcard_free_match_is_occurrence(window, pattern, somewhere);
    let at = found->0;
    wildcard_free_match_is_occurrence(window, pattern, at);
    assert forall|j: int| 0 <= j < at implies !occurs_at(window, token_bytes(pattern), j) by {
        wildcard_free_match_is_occurrence(window, pattern, j);
    }
}

/// The text `??` is a single wildcard.
pub proof fn lone_wildcard_text()
    ensures
        parse_spec("??".spec_bytes()) == Some(seq![(0u8, true)]),
{
    reveal_strlit("??");
    vstd::string::is_ascii_spec_bytes("??");
    let mask = "??".spec_bytes();
    assert(mask =~= seq![0x3fu8, 0x3fu8]);
    reveal_with_fuel(parse_from, 3);
    assert(parse_from(mask, 2) == Some(Seq::<PatternToken>::empty()));
    assert(seq![(0u8, true)] + Seq::<PatternToken>::empty() =~= seq![(0u8, true)]);
}

/// A search for `??` in any non-empty window succeeds at offset 0.
pub proof fn lone_wildcard_found_at_start(
    window: Seq<u8>,
    outcome: Result<int, PatternSearchError>,
)
    requires
        window.len() > 0,
        find_outcome("??".spec_bytes(), window, outcome),
    ensures
        outcome == Ok::<int, PatternSearchError>(0),
{
    lone_wildcard_text();
    let pattern = seq![(0u8, true)];
    assert(matches_at(window, pattern, 0));
}

} // verus!
