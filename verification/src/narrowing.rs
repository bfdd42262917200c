//! Narrowing a text through a chain of patterns.
//!
//! The first pattern of a chain is matched against the whole text, and every
//! later pattern only against what the pattern before it matched.  The chain
//! yields the text of the last match and the byte offset at which that text
//! starts in the original.

use vstd::prelude::*;
use vstd::string::*;
use vstd::utf8::*;
use crate::search::{accepted, byte_slice, find_first, first_match, pattern_compiles, slice_span, Search};

verus! {

/// Why a chain could not be run to an answer.
#[derive(Clone, Copy, Debug, PartialEq, Eq, Structural)]
pub enum ChainFault {
    /// The pattern at position `link` of the chain does not compile.
    PatternRejected { link: usize },
    /// The engine gave up while searching for the pattern at position `link`.
    SearchAborted { link: usize },
}

/// The mathematical outcome of a chain: a fault, no match (`Ok(None)`), or
/// the byte offset and the text of the final match.
pub type Narrowed = Result<Option<(int, Seq<char>)>, ChainFault>;

/// The patterns of a chain as character sequences.
pub open spec fn patterns_of(regexes: Seq<String>) -> Seq<Seq<char>> {
    regexes.map_values(|s: String| s@)
}

/// Every pattern of the chain compiles.
pub open spec fn all_accepted(patterns: Seq<Seq<char>>) -> bool {
    forall|i: int| 0 <= i < patterns.len() ==> accepted(#[trigger] patterns[i])
}

/// `link` is the position of the first pattern that does not compile.
pub open spec fn first_rejected(patterns: Seq<Seq<char>>, link: int) -> bool {
    &&& 0 <= link < patterns.len()
    &&& !accepted(patterns[link])
    &&& forall|j: int| 0 <= j < link ==> accepted(#[trigger] patterns[j])
}

/// An outcome found inside a part of a text, seen from the whole text in
/// which that part starts at byte `by`.
pub open spec fn shifted(inner: Narrowed, by: int) -> Narrowed {
    match inner {
        Ok(Some((offset, text))) => Ok(Some((by + offset, text))),
        Ok(None) => Ok(None),
        Err(fault) => Err(fault),
    }
}

/// The outcome of applying the patterns from position `from` on to `text`.
pub open spec fn narrow_from(text: Seq<char>, patterns: Seq<Seq<char>>, from: int) -> Narrowed
    decreases patterns.len() - from,
{
    if from < 0 || from >= patterns.len() {
        Ok(Some((0, text)))
    } else {
        match first_match(patterns[from], text) {
            Search::Found { start, end } => shifted(
                narrow_from(byte_slice(text, start as int, end as int), patterns, from + 1),
                start as int,
            ),
            Search::Absent => Ok(None),
            Search::Rejected => Err(ChainFault::PatternRejected { link: from as usize }),
            Search::Aborted => Err(ChainFault::SearchAborted { link: from as usize }),
        }
    }
}

/// The outcome of a whole chain on `text`.  All patterns are compiled before
/// the first search, so a pattern that does not compile is a fault even where
/// the links before it find nothing.
pub open spec fn narrowing(text: Seq<char>, patterns: Seq<Seq<char>>) -> Narrowed {
    if all_accepted(patterns) {
        narrow_from(text, patterns, 0)
    } else {
        Err(
            ChainFault::PatternRejected {
                link: (choose|link: int| first_rejected(patterns, link)) as usize,
            },
        )
    }
}

/// `part` is spelled by the bytes of `whole` that start at byte `offset`.
pub open spec fn lies_at(whole: Seq<char>, offset: int, part: Seq<char>) -> bool {
    &&& 0 <= offset
    &&& offset + encode_utf8(part).len() <= encode_utf8(whole).len()
    &&& encode_utf8(part) == encode_utf8(whole).subrange(
        offset,
        offset + encode_utf8(part).len(),
    )
}

/// What a returned value stands for.
pub open spec fn narrowed_view(r: Result<Option<(usize, String)>, ChainFault>) -> Narrowed {
    match r {
        Ok(Some((offset, text))) => Ok(Some((offset as int, text@))),
        Ok(None) => Ok(None),
        Err(fault) => Err(fault),
    }
}

/// Finds the position of the first pattern that does not compile.
fn find_rejected(regexes: &[String]) -> (r: Option<usize>)
    ensures
        match r {
            Some(link) => first_rejected(patterns_of(regexes@), link as int),
            None => all_accepted(patterns_of(regexes@)),
        },
{
    let mut i: usize = 0;
    while i < regexes.len()
        invariant
            i <= regexes.len(),
            forall|j: int| 0 <= j < i ==> accepted(#[trigger] patterns_of(regexes@)[j]),
        decreases regexes.len() - i,
    {
        if !pattern_compiles(regexes[i].as_str()) {
            return Some(i);
        }
        i += 1;
    }
    None
}

/// Applies the chain `regexes` to `input_str`.
///
/// Returns `Ok(Some((offset, text)))` where the last pattern matched `text`
/// at byte `offset` of `input_str`, `Ok(None)` where some pattern found no
/// match in what the pattern before it matched, and a [`ChainFault`] where a
/// pattern does not compile or a search was given up.  An empty chain yields
/// the whole input at offset 0.
pub fn get_substr(input_str: &str, regexes: &[String]) -> (r: Result<
    Option<(usize, String)>,
    ChainFault,
>)
    ensures
        narrowed_view(r) == narrowing(input_str@, patterns_of(regexes@)),
        r matches Ok(Some((offset, text))) ==> lies_at(input_str@, offset as int, text@),
{
    let ghost patterns = patterns_of(regexes@);
    match find_rejected(regexes) {
        Some(link) => {
            proof {
                let chosen = choose|l: int| first_rejected(patterns, l);
                assert(first_rejected(patterns, link as int));
                assert(chosen == link) by {
                    if chosen < link {
                        assert(accepted(patterns[chosen]));
                    } else if link < chosen {
                        assert(accepted(patterns[link as int]));
                    }
                }
            }
            return Err(ChainFault::PatternRejected { link });
        },
        None => {},
    }
    let total = input_str.as_bytes().len();
    let mut start: usize = 0;
    let mut substr: &str = input_str;
    let mut i: usize = 0;
    assert(encode_utf8(input_str@).subrange(0, total as int) =~= encode_utf8(input_str@));
    while i < regexes.len()
        invariant
            i <= regexes.len(),
            patterns == patterns_of(regexes@),
            all_accepted(patterns),
            total == encode_utf8(input_str@).len(),
            lies_at(input_str@, start as int, substr@),
            narrow_from(input_str@, patterns, 0) == shifted(
                narrow_from(substr@, patterns, i as int),
                start as int,
            ),
        decreases regexes.len() - i,
    {
        assert(patterns[i as int] == regexes@[i as int]@);
        match find_first(regexes[i].as_str(), substr) {
            Search::Found { start: first, end } => {
                let part = slice_span(substr, first, end);
                proof {
                    lemma_lies_at_nested(input_str@, start as int, substr@, first as int, part@);
                }
                start = start + first;
                substr = part;
            },
            Search::Absent => {
                return Ok(None);
            },
            Search::Rejected => {
                assert(accepted(patterns[i as int]));
                return Err(ChainFault::PatternRejected { link: i });
            },
            Search::Aborted => {
                return Err(ChainFault::SearchAborted { link: i });
            },
        }
        i += 1;
    }
    Ok(Some((start, substr.to_owned())))
}

/// A part of a part lies in the whole at the sum of the two offsets.
pub proof fn lemma_lies_at_nested(
    whole: Seq<char>,
    outer: int,
    middle: Seq<char>,
    inner: int,
    part: Seq<char>,
)
    requires
        lies_at(whole, outer, middle),
        lies_at(middle, inner, part),
    ensures
        lies_at(whole, outer + inner, part),
{
    let w = encode_utf8(whole);
    let m = encode_utf8(middle);
    let p = encode_utf8(part);
    assert(p =~= w.subrange(outer + inner, outer + inner + p.len()));
}

} // verus!
