//! The masked instance: the public input that prover and verifier agree on.
//!
//! For every byte position of the message the instance says which chain, if
//! any, revealed the byte, and shows the byte where one did.

use vstd::prelude::*;
use vstd::string::*;
use vstd::utf8::*;
use crate::circuit::MAX_STRING_LEN;
use crate::narrowing::{get_substr, lies_at, narrowing, patterns_of, ChainFault};

verus! {

/// What each chain of a list found: `None` where it found nothing, else the
/// byte offset of its match and the bytes of the matched text.
pub type Spans = Seq<Option<(int, Seq<u8>)>>;

/// The span covers byte position `i`.
pub open spec fn covers(span: Option<(int, Seq<u8>)>, i: int) -> bool {
    span matches Some((offset, text)) && offset <= i < offset + text.len()
}

/// The byte offset at which a span starts.
pub open spec fn offset_of(span: Option<(int, Seq<u8>)>) -> int {
    match span {
        Some((offset, _)) => offset,
        None => 0,
    }
}

/// The bytes that a span holds.
pub open spec fn text_of(span: Option<(int, Seq<u8>)>) -> Seq<u8> {
    match span {
        Some((_, text)) => text,
        None => Seq::empty(),
    }
}

/// The span does not lie within the capacity of the instance.
pub open spec fn overruns(span: Option<(int, Seq<u8>)>) -> bool {
    span matches Some((offset, text)) && (offset < 0 || offset + text.len() > MAX_STRING_LEN)
}

/// The tag at position `i` once the first `n` spans are written: the number,
/// counted from 1, of the last of them that covers `i`, or 0.
pub open spec fn tag_upto(spans: Spans, n: int, i: int) -> int
    decreases n,
{
    if n <= 0 || n > spans.len() {
        0
    } else if covers(spans[n - 1], i) {
        n
    } else {
        tag_upto(spans, n - 1, i)
    }
}

/// The tag at position `i` of the finished instance.
pub open spec fn tag_at(spans: Spans, i: int) -> int {
    tag_upto(spans, spans.len() as int, i)
}

/// The masked character at position `i` once the first `n` spans are
/// written: the byte that the span named by the tag holds for `i`, or 0 where
/// the tag is 0.
pub open spec fn char_upto(spans: Spans, n: int, i: int) -> int {
    let tag = tag_upto(spans, n, i);
    if tag == 0 {
        0
    } else {
        let (offset, text) = spans[tag - 1]->0;
        text[i - offset] as int
    }
}

/// The masked character at position `i` of the finished instance.
pub open spec fn char_at(spans: Spans, i: int) -> int {
    char_upto(spans, spans.len() as int, i)
}

/// The spans that a list of found matches stands for.
pub open spec fn spans_of(found: Seq<Option<(usize, String)>>) -> Spans {
    found.map_values(
        |f: Option<(usize, String)>|
            match f {
                Some((offset, text)) => Some((offset as int, encode_utf8(text@))),
                None => None,
            },
    )
}

/// `chain` is the position of the first span that overruns the instance.
pub open spec fn first_overrun(spans: Spans, chain: int) -> bool {
    &&& 0 <= chain < spans.len()
    &&& overruns(spans[chain])
    &&& forall|d: int| 0 <= d < chain ==> !overruns(#[trigger] spans[d])
}

/// No span overruns the instance.
pub open spec fn all_within(spans: Spans) -> bool {
    forall|c: int| 0 <= c < spans.len() ==> !overruns(#[trigger] spans[c])
}

/// A span that does not fit into the instance.
#[derive(Clone, Copy, Debug, PartialEq, Eq, Structural)]
pub struct SpanOverrun {
    /// The position in the list of the first span that does not fit.
    pub chain: usize,
}

/// The masked characters and the tags, each `MAX_STRING_LEN` values long.
#[derive(Clone, Debug)]
pub struct MaskedInstance {
    masked_chars: Vec<u64>,
    substr_ids: Vec<u64>,
}

impl MaskedInstance {
    /// The masked characters, one value per byte position.
    pub closed spec fn chars(&self) -> Seq<u64> {
        self.masked_chars@
    }

    /// The tags, one value per byte position.
    pub closed spec fn ids(&self) -> Seq<u64> {
        self.substr_ids@
    }

    /// Both arrays have exactly `MAX_STRING_LEN` entries.
    pub open spec fn well_formed(&self) -> bool {
        &&& self.chars().len() == MAX_STRING_LEN
        &&& self.ids().len() == MAX_STRING_LEN
    }

    /// The instance is the one that `spans` describe, none of which overruns
    /// it.
    pub open spec fn shows(&self, spans: Spans) -> bool {
        &&& self.well_formed()
        &&& all_within(spans)
        &&& forall|i: int|
            0 <= i < MAX_STRING_LEN ==> {
                &&& #[trigger] self.ids()[i] == tag_at(spans, i)
                &&& self.chars()[i] == char_at(spans, i)
            }
    }

    /// The instance of a message in which nothing is revealed.
    pub fn blank() -> (r: Self)
        ensures
            r.shows(Seq::empty()),
    {
        let mut masked_chars: Vec<u64> = Vec::new();
        let mut substr_ids: Vec<u64> = Vec::new();
        let mut i: usize = 0;
        while i < MAX_STRING_LEN
            invariant
                i <= MAX_STRING_LEN,
                masked_chars@.len() == i,
                substr_ids@.len() == i,
                forall|j: int| 0 <= j < i ==> masked_chars@[j] == 0 && substr_ids@[j] == 0,
            decreases MAX_STRING_LEN - i,
        {
            masked_chars.push(0);
            substr_ids.push(0);
            i += 1;
        }
        MaskedInstance { masked_chars, substr_ids }
    }

    /// The masked characters.
    pub fn masked_chars(&self) -> (r: &Vec<u64>)
        ensures
            r@ == self.chars(),
    {
        &self.masked_chars
    }

    /// The tags.
    pub fn substr_ids(&self) -> (r: &Vec<u64>)
        ensures
            r@ == self.ids(),
    {
        &self.substr_ids
    }
}

/// A tag that is not 0 names a span that covers the position.
pub proof fn lemma_tag_names_covering_span(spans: Spans, n: int, i: int)
    ensures
        0 <= tag_upto(spans, n, i) <= spans.len(),
        tag_upto(spans, n, i) != 0 ==> covers(spans[tag_upto(spans, n, i) - 1], i),
    decreases n,
{
    if n <= 0 || n > spans.len() {
    } else if covers(spans[n - 1], i) {
    } else {
        lemma_tag_names_covering_span(spans, n - 1, i);
    }
}

/// Writes the spans into a blank instance, in order, so that a later span
/// overwrites an earlier one where the two overlap.
fn write_spans(found: &[Option<(usize, String)>]) -> (r: MaskedInstance)
    requires
        all_within(spans_of(found@)),
    ensures
        r.shows(spans_of(found@)),
{
    let ghost spans = spans_of(found@);
    let mut inst = MaskedInstance::blank();
    let mut c: usize = 0;
    while c < found.len()
        invariant
            c <= found.len(),
            spans == spans_of(found@),
            all_within(spans),
            inst.well_formed(),
            forall|i: int|
                0 <= i < MAX_STRING_LEN ==> {
                    &&& #[trigger] inst.ids()[i] == tag_upto(spans, c as int, i)
                    &&& inst.chars()[i] == char_upto(spans, c as int, i)
                },
        decreases found.len() - c,
    {
        match &found[c] {
            Some((offset, text)) => {
                let bytes = text.as_str().as_bytes();
                let tag: u64 = (c + 1) as u64;
                let ghost before = inst;
                assert(spans[c as int] == Some((*offset as int, bytes@)));
                assert(!overruns(spans[c as int]));
                let mut k: usize = 0;
                while k < bytes.len()
                    invariant
                        k <= bytes.len(),
                        c < found.len(),
                        tag == c + 1,
                        *offset + bytes.len() <= MAX_STRING_LEN,
                        inst.well_formed(),
                        forall|i: int|
                            0 <= i < MAX_STRING_LEN ==> {
                                &&& #[trigger] inst.ids()[i] == if *offset <= i < *offset + k {
                                    tag
                                } else {
                                    before.ids()[i]
                                }
                                &&& inst.chars()[i] == if *offset <= i < *offset + k {
                                    bytes@[i - *offset] as u64
                                } else {
                                    before.chars()[i]
                                }
                            },
                    decreases bytes.len() - k,
                {
                    inst.masked_chars.set(*offset + k, bytes[k] as u64);
                    inst.substr_ids.set(*offset + k, tag);
                    k += 1;
                }
            },
            None => {},
        }
        c += 1;
    }
    inst
}

/// Builds the instance that a list of found matches describes.
///
/// Takes, for each chain in order, what the chain found: `None`, or the byte
/// offset and the text of its match.  Position `offset + k` of the instance
/// then shows byte `k` of the text and the number of the chain, counted from
/// 1; where matches overlap the later chain wins; all other positions are 0.
/// Fails where a match reaches past `MAX_STRING_LEN`, naming the first chain
/// whose match does.
pub fn mask_spans(found: &[Option<(usize, String)>]) -> (r: Result<MaskedInstance, SpanOverrun>)
    ensures
        match r {
            Ok(inst) => inst.shows(spans_of(found@)),
            Err(e) => first_overrun(spans_of(found@), e.chain as int),
        },
{
    let ghost spans = spans_of(found@);
    let mut c: usize = 0;
    while c < found.len()
        invariant
            c <= found.len(),
            spans == spans_of(found@),
            forall|d: int| 0 <= d < c ==> !overruns(#[trigger] spans[d]),
        decreases found.len() - c,
    {
        match &found[c] {
            Some((offset, text)) => {
                let len = text.as_str().as_bytes().len();
                assert(spans[c as int] == Some((*offset as int, encode_utf8(text@))));
                if len > MAX_STRING_LEN || *offset > MAX_STRING_LEN - len {
                    return Err(SpanOverrun { chain: c });
                }
            },
            None => {
                assert(spans[c as int] is None);
            },
        }
        c += 1;
    }
    Ok(write_spans(found))
}

/// Why no instance could be derived from a message.
#[derive(Clone, Copy, Debug, PartialEq, Eq, Structural)]
pub enum InstanceError {
    /// The message has `len` bytes, more than `MAX_STRING_LEN`.
    MessageTooLong { len: usize },
    /// The chain at position `chain` of the list could not be run.
    Chain { chain: usize, fault: ChainFault },
}

/// The chains of a list as sequences of patterns.
pub open spec fn chains_of(chains: Seq<Vec<String>>) -> Seq<Seq<Seq<char>>> {
    chains.map_values(|c: Vec<String>| patterns_of(c@))
}

/// What each chain of the list finds in `text`.
pub open spec fn found_spans(text: Seq<char>, chains: Seq<Seq<Seq<char>>>) -> Spans {
    Seq::new(
        chains.len(),
        |c: int|
            match narrowing(text, chains[c]) {
                Ok(Some((offset, part))) => Some((offset, encode_utf8(part))),
                _ => None,
            },
    )
}

/// Every chain of the list runs on `text` without a fault.
pub open spec fn all_run(text: Seq<char>, chains: Seq<Seq<Seq<char>>>) -> bool {
    forall|c: int| 0 <= c < chains.len() ==> (#[trigger] narrowing(text, chains[c])) is Ok
}

/// `chain` is the position of the first chain that does not run on `text`,
/// and `fault` is why.
pub open spec fn first_fault(
    text: Seq<char>,
    chains: Seq<Seq<Seq<char>>>,
    chain: int,
    fault: ChainFault,
) -> bool {
    &&& 0 <= chain < chains.len()
    &&& narrowing(text, chains[chain]) == Err::<Option<(int, Seq<char>)>, ChainFault>(fault)
    &&& forall|d: int| 0 <= d < chain ==> (#[trigger] narrowing(text, chains[d])) is Ok
}

/// Every span is a stretch of `bytes`: it starts inside them, ends inside
/// them, and holds what they hold there.
pub open spec fn spans_lie_in(spans: Spans, bytes: Seq<u8>) -> bool {
    forall|c: int|
        0 <= c < spans.len() ==> (#[trigger] spans[c] matches Some((offset, text)) ==> {
            &&& 0 <= offset
            &&& offset + text.len() <= bytes.len()
            &&& text == bytes.subrange(offset, offset + text.len())
        })
}

/// `r` is what deriving the instance of `text` under `chains` comes to.
pub open spec fn is_derivation(
    text: Seq<char>,
    chains: Seq<Seq<Seq<char>>>,
    r: Result<MaskedInstance, InstanceError>,
) -> bool {
    match r {
        Ok(inst) => {
            &&& encode_utf8(text).len() <= MAX_STRING_LEN
            &&& all_run(text, chains)
            &&& spans_lie_in(found_spans(text, chains), encode_utf8(text))
            &&& inst.shows(found_spans(text, chains))
        },
        Err(InstanceError::MessageTooLong { len }) => {
            &&& len == encode_utf8(text).len()
            &&& len > MAX_STRING_LEN
        },
        Err(InstanceError::Chain { chain, fault }) => {
            &&& encode_utf8(text).len() <= MAX_STRING_LEN
            &&& first_fault(text, chains, chain as int, fault)
        },
    }
}

/// Derives the masked instance of `text` under a list of chains.
///
/// Each chain is run on the whole message.  A chain that finds nothing
/// contributes nothing.  A chain that matches `part` at byte `offset` sets,
/// for every `k` below the length of `part`, the masked character at
/// `offset + k` to byte `k` of `part` and the tag there to the chain's number
/// in the list, counted from 1.  Chains are written in the order of the list.
/// A message longer than `MAX_STRING_LEN` bytes is refused, and so is a list
/// with a chain that cannot be run.
pub fn derive_masked_instance(text: &str, chains: &[Vec<String>]) -> (r: Result<
    MaskedInstance,
    InstanceError,
>)
    ensures
        is_derivation(text@, chains_of(chains@), r),
        r matches Ok(inst) ==> inst.chars().len() == MAX_STRING_LEN && inst.ids().len()
            == MAX_STRING_LEN,
{
    let ghost model = chains_of(chains@);
    let len = text.as_bytes().len();
    if len > MAX_STRING_LEN {
        return Err(InstanceError::MessageTooLong { len });
    }
    let mut found: Vec<Option<(usize, String)>> = Vec::new();
    let mut c: usize = 0;
    while c < chains.len()
        invariant
            c <= chains.len(),
            model == chains_of(chains@),
            len == encode_utf8(text@).len(),
            len <= MAX_STRING_LEN,
            found@.len() == c,
            forall|d: int| 0 <= d < c ==> (#[trigger] narrowing(text@, model[d])) is Ok,
            forall|d: int|
                0 <= d < c ==> #[trigger] spans_of(found@)[d] == found_spans(text@, model)[d],
            forall|d: int|
                0 <= d < c ==> (#[trigger] found@[d] matches Some((offset, part)) ==> lies_at(
                    text@,
                    offset as int,
                    part@,
                )),
        decreases chains.len() - c,
    {
        assert(model[c as int] == patterns_of(chains@[c as int]@));
        match get_substr(text, chains[c].as_slice()) {
            Ok(span) => {
                let ghost earlier = found@;
                found.push(span);
                assert forall|d: int| 0 <= d <= c implies #[trigger] spans_of(found@)[d]
                    == found_spans(text@, model)[d] by {
                    if d < c {
                        assert(found@[d] == earlier[d]);
                        assert(spans_of(earlier)[d] == found_spans(text@, model)[d]);
                    }
                }
                assert forall|d: int| 0 <= d <= c implies (#[trigger] found@[d] matches Some(
                    (offset, part),
                ) ==> lies_at(text@, offset as int, part@)) by {
                    if d < c {
                        assert(found@[d] == earlier[d]);
                    }
                }
            },
            Err(fault) => {
                return Err(InstanceError::Chain { chain: c, fault });
            },
        }
        c += 1;
    }
    proof {
        let spans = spans_of(found@);
        assert(spans =~= found_spans(text@, model));
        assert forall|d: int| 0 <= d < spans.len() implies (#[trigger] spans[d] matches Some(
            (offset, part),
        ) ==> {
            &&& 0 <= offset
            &&& offset + part.len() <= encode_utf8(text@).len()
            &&& part == encode_utf8(text@).subrange(offset, offset + part.len())
        }) by {
            assert(found@[d] matches Some((offset, part)) ==> lies_at(text@, offset as int, part@));
        }
    }
    let inst = write_spans(found.as_slice());
    Ok(inst)
}

/// Matches what stands between `from:` and the last `to`, provided it holds
/// an `@`.
pub const SENDER_FIELD: &'static str = "(?<=from:).*@.*(?=to)";

/// Matches an address, with the angle brackets around it where it has them.
pub const BRACKETED_ADDRESS: &'static str = "<?(a|b|c|d|e|f|g|h|i|j|k|l|m|n|o|p|q|r|s|t|u|v|w|x|y|z|A|B|C|D|E|F|G|H|I|J|K|L|M|N|O|P|Q|R|S|T|U|V|W|X|Y|Z|0|1|2|3|4|5|6|7|8|9|_|\\.|-)+@(a|b|c|d|e|f|g|h|i|j|k|l|m|n|o|p|q|r|s|t|u|v|w|x|y|z|A|B|C|D|E|F|G|H|I|J|K|L|M|N|O|P|Q|R|S|T|U|V|W|X|Y|Z|0|1|2|3|4|5|6|7|8|9|_|\\.|-)+>?";

/// Matches an address alone.
pub const ADDRESS: &'static str = "(a|b|c|d|e|f|g|h|i|j|k|l|m|n|o|p|q|r|s|t|u|v|w|x|y|z|A|B|C|D|E|F|G|H|I|J|K|L|M|N|O|P|Q|R|S|T|U|V|W|X|Y|Z|0|1|2|3|4|5|6|7|8|9|_|\\.|-)+@(a|b|c|d|e|f|g|h|i|j|k|l|m|n|o|p|q|r|s|t|u|v|w|x|y|z|A|B|C|D|E|F|G|H|I|J|K|L|M|N|O|P|Q|R|S|T|U|V|W|X|Y|Z|0|1|2|3|4|5|6|7|8|9|_|\\.|-)+";

/// The chains that [`gen_masked_instance`] applies: a single chain that
/// narrows a message to the address of its sender.
pub open spec fn sender_address_chains() -> Seq<Seq<Seq<char>>> {
    seq![seq![SENDER_FIELD@, BRACKETED_ADDRESS@, ADDRESS@]]
}

/// Builds the chains that [`gen_masked_instance`] applies.
pub fn default_chains() -> (r: Vec<Vec<String>>)
    ensures
        chains_of(r@) == sender_address_chains(),
{
    let mut chain: Vec<String> = Vec::new();
    chain.push(SENDER_FIELD.to_owned());
    chain.push(BRACKETED_ADDRESS.to_owned());
    chain.push(ADDRESS.to_owned());
    let mut chains: Vec<Vec<String>> = Vec::new();
    chains.push(chain);
    proof {
        assert(patterns_of(chain@) =~= seq![SENDER_FIELD@, BRACKETED_ADDRESS@, ADDRESS@]);
        assert(chains_of(chains@) =~= sender_address_chains());
    }
    chains
}

/// Derives the masked instance that reveals the sender's address in `text`.
pub fn gen_masked_instance(text: &str) -> (r: Result<MaskedInstance, InstanceError>)
    ensures
        is_derivation(text@, sender_address_chains(), r),
        r matches Ok(inst) ==> inst.chars().len() == MAX_STRING_LEN && inst.ids().len()
            == MAX_STRING_LEN,
{
    let chains = default_chains();
    derive_masked_instance(text, chains.as_slice())
}

/// With the spans after `c` left out of account, a position that span `c`
/// covers carries the tag `c + 1`.
proof fn lemma_tag_of_last_covering(spans: Spans, c: int, n: int, i: int)
    requires
        0 <= c < n <= spans.len(),
        covers(spans[c], i),
        forall|d: int| c < d < spans.len() ==> !covers(#[trigger] spans[d], i),
    ensures
        tag_upto(spans, n, i) == c + 1,
    decreases n,
{
    if n > c + 1 {
        lemma_tag_of_last_covering(spans, c, n - 1, i);
    }
}

/// A match shows in the instance: where the span of chain `c` holds byte `k`
/// of its text and no later span covers that position, the masked character
/// there is that byte and the tag is the chain's number, counted from 1.
pub proof fn lemma_match_is_shown(inst: MaskedInstance, spans: Spans, c: int, k: int)
    requires
        inst.shows(spans),
        0 <= c < spans.len(),
        spans[c] is Some,
        0 <= k < text_of(spans[c]).len(),
        forall|d: int| c < d < spans.len() ==> !covers(#[trigger] spans[d], offset_of(spans[c]) + k),
    ensures
        inst.ids()[offset_of(spans[c]) + k] == c + 1,
        inst.chars()[offset_of(spans[c]) + k] == text_of(spans[c])[k],
{
    let i = offset_of(spans[c]) + k;
    lemma_tag_of_last_covering(spans, c, spans.len() as int, i);
    assert(inst.ids()[i] == tag_at(spans, i));
}

/// An instance gives away nothing but the message: every position that
/// carries a tag lies inside the message and shows the byte that the message
/// has there.
pub proof fn lemma_shows_message_bytes(inst: MaskedInstance, spans: Spans, bytes: Seq<u8>, i: int)
    requires
        inst.shows(spans),
        spans_lie_in(spans, bytes),
        0 <= i < MAX_STRING_LEN,
        inst.ids()[i] != 0,
    ensures
        i < bytes.len(),
        inst.chars()[i] == bytes[i],
        1 <= inst.ids()[i] <= spans.len(),
{
    lemma_tag_names_covering_span(spans, spans.len() as int, i);
    let c = tag_at(spans, i) - 1;
    assert(spans[c] is Some);
}

/// A masked character is 0 exactly where the tag is 0, at every position
/// where the message does not itself reveal a 0 byte.
pub proof fn lemma_zero_char_iff_zero_tag(
    inst: MaskedInstance,
    spans: Spans,
    bytes: Seq<u8>,
    i: int,
)
    requires
        inst.shows(spans),
        spans_lie_in(spans, bytes),
        0 <= i < MAX_STRING_LEN,
        inst.ids()[i] != 0 && i < bytes.len() ==> bytes[i] != 0,
    ensures
        inst.chars()[i] == 0 <==> inst.ids()[i] == 0,
{
    if inst.ids()[i] != 0 {
        lemma_shows_message_bytes(inst, spans, bytes, i);
    } else {
        assert(inst.ids()[i] == tag_at(spans, i));
    }
}

/// Deriving is a function of the message and the chains: two derivations
/// from the same message and chains end alike, with the same error or with
/// the same two arrays.
pub proof fn lemma_derivation_is_unique(
    text: Seq<char>,
    chains: Seq<Seq<Seq<char>>>,
    a: Result<MaskedInstance, InstanceError>,
    b: Result<MaskedInstance, InstanceError>,
)
    requires
        is_derivation(text, chains, a),
        is_derivation(text, chains, b),
    ensures
        match (a, b) {
            (Ok(x), Ok(y)) => x.chars() == y.chars() && x.ids() == y.ids(),
            (Err(e), Err(f)) => e == f,
            _ => false,
        },
{
    match (a, b) {
        (Ok(x), Ok(y)) => {
            let spans = found_spans(text, chains);
            assert forall|i: int| 0 <= i < MAX_STRING_LEN implies x.ids()[i] == y.ids()[i]
                && x.chars()[i] == y.chars()[i] by {
                assert(x.ids()[i] == tag_at(spans, i));
                assert(y.ids()[i] == tag_at(spans, i));
            }
            assert(x.chars() =~= y.chars());
            assert(x.ids() =~= y.ids());
        },
        (Err(InstanceError::Chain { chain: c, fault: _ }), Err(InstanceError::Chain { chain: d, fault: _ })) => {
            if c < d {
                assert(narrowing(text, chains[c as int]) is Ok);
            } else if d < c {
                assert(narrowing(text, chains[d as int]) is Ok);
            }
        },
        (Ok(_), Err(InstanceError::Chain { chain: c, fault: _ })) => {
            assert(narrowing(text, chains[c as int]) is Ok);
        },
        (Err(InstanceError::Chain { chain: c, fault: _ }), Ok(_)) => {
            assert(narrowing(text, chains[c as int]) is Ok);
        },
        _ => {},
    }
}

} // verus!
