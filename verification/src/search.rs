//! The boundary to the regular-expression engine.
//!
//! Everything the crate knows about regular expressions comes through the two
//! functions at the end of this module.  Their contracts are taken on trust;
//! all other code is proved against them.

use vstd::prelude::*;
use vstd::string::*;
use vstd::utf8::*;

verus! {

/// What a single search of a text for a pattern came to.
#[derive(Clone, Copy, Debug, PartialEq, Eq, Structural)]
pub enum Search {
    /// The leftmost match covers the bytes `start..end` of the text.
    Found { start: usize, end: usize },
    /// The pattern is well formed and matches nowhere in the text.
    Absent,
    /// The pattern is not a regular expression the engine accepts.
    Rejected,
    /// The engine gave up on the search before reaching an answer.
    Aborted,
}

/// Whether the engine compiles `pattern` under its default options.
pub uninterp spec fn accepted(pattern: Seq<char>) -> bool;

/// The engine's answer when `text` is searched for the first match of
/// `pattern` under its default options.
pub uninterp spec fn first_match(pattern: Seq<char>, text: Seq<char>) -> Search;

/// The characters spelled by the bytes `start..end` of `text`'s UTF-8 form.
pub open spec fn byte_slice(text: Seq<char>, start: int, end: int) -> Seq<char> {
    decode_utf8(encode_utf8(text).subrange(start, end))
}

/// A found span lies inside the text and cuts no character in two.
pub open spec fn span_fits(text: Seq<char>, start: int, end: int) -> bool {
    &&& 0 <= start <= end <= encode_utf8(text).len()
    &&& is_char_boundary(encode_utf8(text), start)
    &&& is_char_boundary(encode_utf8(text), end)
}

/// Calls `fancy_regex::Regex::new` and reports whether it returned `Ok`.
///
/// Trusted: the answer depends on the pattern alone, so it is given the name
/// [`accepted`].
#[verifier::external_body]
pub(crate) fn pattern_compiles(pattern: &str) -> (ok: bool)
    ensures
        ok == accepted(pattern@),
{
    fancy_regex::Regex::new(pattern).is_ok()
}

/// Compiles `pattern` with `fancy_regex::Regex::new`, searches `text` with
/// `fancy_regex::Regex::find`, and reads the match through
/// `fancy_regex::Match::start` and `fancy_regex::Match::end`.
///
/// Trusted: the answer depends on the pattern and the text alone, so it is
/// given the name [`first_match`]; the pattern is reported as rejected exactly
/// when compiling it fails; and a match is a range of byte offsets into the
/// text that `fancy_regex::Match::as_str` can slice, hence ordered, within the
/// text and on character boundaries.
#[verifier::external_body]
pub(crate) fn find_first(pattern: &str, text: &str) -> (r: Search)
    ensures
        r == first_match(pattern@, text@),
        (r is Rejected) == !accepted(pattern@),
        r matches Search::Found { start, end } ==> span_fits(text@, start as int, end as int),
{
    match fancy_regex::Regex::new(pattern) {
        Err(_) => Search::Rejected,
        Ok(regex) => match regex.find(text) {
            Err(_) => Search::Aborted,
            Ok(None) => Search::Absent,
            Ok(Some(m)) => Search::Found { start: m.start(), end: m.end() },
        },
    }
}

/// Cuts the bytes `start..end` out of `text`.
pub(crate) fn slice_span<'a>(text: &'a str, start: usize, end: usize) -> (part: &'a str)
    requires
        span_fits(text@, start as int, end as int),
    ensures
        part@ == byte_slice(text@, start as int, end as int),
        part.spec_bytes() == text.spec_bytes().subrange(start as int, end as int),
{
    broadcast use group_utf8_lib;

    let ghost bytes = text.spec_bytes();
    let (head, _) = text.split_at(end);
    proof {
        let prefix = bytes.subrange(0, end as int);
        assert(head.spec_bytes() == prefix);
        assert(valid_utf8(prefix));
        if start < end {
            assert(prefix[start as int] == bytes[start as int]);
            is_char_boundary_iff_not_is_continuation_byte(bytes, start as int);
            is_char_boundary_iff_not_is_continuation_byte(prefix, start as int);
        } else {
            is_char_boundary_start_end_of_seq(prefix);
        }
    }
    let (_, part) = head.split_at(start);
    proof {
        assert(part.spec_bytes() =~= bytes.subrange(start as int, end as int));
        encode_utf8_decode_utf8(part@);
    }
    part
}

} // verus!
