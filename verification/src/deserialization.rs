//! Decoding venue order-book payloads into [`Levels`].
//!
//! A payload is one JSON document; each side is an array of two-element
//! arrays `["<price>", "<amount>"]`, both fields decimal strings.  Exactly
//! the first `depth` entries are consumed; a shorter side fails with
//! [`SideError::InvalidLength`], a missing element position with
//! [`SideError::MissingField`], and a non-numeric (or non-string) field
//! with [`SideError::InvalidType`].  The walk through the parsed document
//! goes through [`crate::json`]; everything read out of it is decoded by
//! verified code over plain values.

use vstd::prelude::*;

use crate::json::{json_parse, json_wf};
use crate::level::Level;
use crate::levels::Levels;
use crate::numeric::{parse_fixed, spec_parse_fixed};

verus! {

/// The element position inside one `["<price>", "<amount>"]` entry.
#[derive(Copy, Clone, Debug, PartialEq, Eq, Structural)]
pub enum LevelField {
    Price,
    Amount,
}

/// Why one side of a payload failed to decode.
#[derive(Copy, Clone, Debug, PartialEq, Eq, Structural)]
pub enum SideError {
    /// Fewer than `expected` entries were present; `got` counts them.
    InvalidLength { got: usize, expected: usize },
    /// An entry is missing the element at this position.
    MissingField(LevelField),
    /// A field is not a string or does not read as a decimal number.
    InvalidType,
}

/// Why a payload failed to decode.
#[derive(Copy, Clone, Debug, PartialEq, Eq, Structural)]
pub enum DecodeError {
    /// The payload is not a JSON document.
    Json,
    /// Only the bids failed.
    Bids(SideError),
    /// Only the asks failed.
    Asks(SideError),
    /// Both sides failed.
    BothSides(SideError, SideError),
}

/// One field of an entry, as found in the document.
#[derive(Clone, Debug, PartialEq)]
pub enum RawField {
    /// The element position is absent.
    Missing,
    /// The element is there but is not a JSON string.
    NotText,
    /// The element is this JSON string.
    Text(String),
}

/// The mathematical content of a [`RawField`].
pub enum RawFieldView {
    Missing,
    NotText,
    Text(Seq<char>),
}

impl View for RawField {
    type V = RawFieldView;

    open spec fn view(&self) -> RawFieldView {
        match self {
            RawField::Missing => RawFieldView::Missing,
            RawField::NotText => RawFieldView::NotText,
            RawField::Text(s) => RawFieldView::Text(s@),
        }
    }
}

/// The first two element positions of one entry of a side.
#[derive(Clone, Debug, PartialEq)]
pub struct RawEntry {
    pub price: RawField,
    pub amount: RawField,
}

/// The mathematical content of a [`RawEntry`].
pub struct RawEntryView {
    pub price: RawFieldView,
    pub amount: RawFieldView,
}

impl View for RawEntry {
    type V = RawEntryView;

    open spec fn view(&self) -> RawEntryView {
        RawEntryView { price: self.price@, amount: self.amount@ }
    }
}

/// What one field decodes to: its fixed-point value, or the error.
pub open spec fn spec_decode_field(f: RawFieldView, which: LevelField) -> Result<i64, SideError> {
    match f {
        RawFieldView::Missing => Err(SideError::MissingField(which)),
        RawFieldView::NotText => Err(SideError::InvalidType),
        RawFieldView::Text(s) => match spec_parse_fixed(s) {
            Some(v) => Ok(v),
            None => Err(SideError::InvalidType),
        },
    }
}

/// What one entry decodes to: price first, then amount.
pub open spec fn spec_decode_entry(e: RawEntryView) -> Result<Level, SideError> {
    match spec_decode_field(e.price, LevelField::Price) {
        Err(err) => Err(err),
        Ok(p) => match spec_decode_field(e.amount, LevelField::Amount) {
            Err(err) => Err(err),
            Ok(a) => Ok(Level { price: p, amount: a }),
        },
    }
}

/// What the entries from position `i` on decode to: the levels at positions
/// `i` up to `depth`, or the first failure, in position order.
pub open spec fn spec_decode_side(depth: int, entries: Seq<RawEntryView>, i: int) -> Result<
    Seq<Level>,
    SideError,
>
    recommends
        0 <= i,
    decreases depth - i,
{
    if i >= depth {
        Ok(Seq::empty())
    } else if i >= entries.len() {
        Err(SideError::InvalidLength { got: i as usize, expected: depth as usize })
    } else {
        match spec_decode_entry(entries[i]) {
            Err(e) => Err(e),
            Ok(l) => match spec_decode_side(depth, entries, i + 1) {
                Err(e) => Err(e),
                Ok(rest) => Ok(seq![l] + rest),
            },
        }
    }
}

/// A successful decode from position `i` carries exactly `depth - i`
/// levels.
pub proof fn lemma_decode_side_len(depth: int, entries: Seq<RawEntryView>, i: int)
    requires
        0 <= i,
        spec_decode_side(depth, entries, i) is Ok,
    ensures
        spec_decode_side(depth, entries, i)->Ok_0.len() == if i >= depth {
            0int
        } else {
            depth - i
        },
    decreases depth - i,
{
    if i < depth {
        lemma_decode_side_len(depth, entries, i + 1);
    }
}

/// Decoding a side of exactly `depth` well-formed entries (or more) yields
/// exactly `depth` levels.
pub proof fn lemma_decode_side_full(depth: usize, entries: Seq<RawEntryView>)
    requires
        entries.len() >= depth,
        forall|k: int| 0 <= k < depth ==> spec_decode_entry(#[trigger] entries[k]) is Ok,
    ensures
        spec_decode_side(depth as int, entries, 0) is Ok,
        spec_decode_side(depth as int, entries, 0)->Ok_0.len() == depth,
{
    lemma_decode_side_full_from(depth, entries, 0);
    lemma_decode_side_len(depth as int, entries, 0);
}

proof fn lemma_decode_side_full_from(depth: usize, entries: Seq<RawEntryView>, i: int)
    requires
        0 <= i,
        entries.len() >= depth,
        forall|k: int| 0 <= k < depth ==> spec_decode_entry(#[trigger] entries[k]) is Ok,
    ensures
        spec_decode_side(depth as int, entries, i) is Ok,
    decreases depth - i,
{
    if i < depth {
        lemma_decode_side_full_from(depth, entries, i + 1);
    }
}

/// Decoding a side of fewer than `depth` entries, all of them well-formed,
/// fails with `InvalidLength` carrying their count.
pub proof fn lemma_decode_side_short(depth: usize, entries: Seq<RawEntryView>)
    requires
        entries.len() < depth,
        forall|k: int|
            0 <= k < entries.len() ==> spec_decode_entry(#[trigger] entries[k]) is Ok,
    ensures
        spec_decode_side(depth as int, entries, 0) == Err::<Seq<Level>, SideError>(
            SideError::InvalidLength { got: entries.len() as usize, expected: depth },
        ),
{
    lemma_decode_side_short_from(depth, entries, 0);
}

proof fn lemma_decode_side_short_from(depth: usize, entries: Seq<RawEntryView>, i: int)
    requires
        0 <= i <= entries.len(),
        entries.len() < depth,
        forall|k: int|
            0 <= k < entries.len() ==> spec_decode_entry(#[trigger] entries[k]) is Ok,
    ensures
        spec_decode_side(depth as int, entries, i) == Err::<Seq<Level>, SideError>(
            SideError::InvalidLength { got: entries.len() as usize, expected: depth },
        ),
    decreases depth - i,
{
    if i < entries.len() {
        lemma_decode_side_short_from(depth, entries, i + 1);
    }
}

/// An `InvalidLength` failure always reports a count below the wanted
/// depth, and the wanted depth itself.
pub proof fn lemma_decode_side_length_error(depth: int, entries: Seq<RawEntryView>, i: int)
    requires
        0 <= i,
        depth <= usize::MAX,
        spec_decode_side(depth, entries, i) matches Err(SideError::InvalidLength { got, expected }),
    ensures
        spec_decode_side(depth, entries, i) matches Err(SideError::InvalidLength { got, expected })
            && got < depth && expected == depth,
    decreases depth - i,
{
    if i < depth && i < entries.len() {
        if spec_decode_entry(entries[i]) is Ok {
            lemma_decode_side_length_error(depth, entries, i + 1);
        }
    }
}

/// An entry whose price reads as a number but whose amount does not fails
/// with `InvalidType`, exactly.
pub proof fn lemma_malformed_amount(e: RawEntryView)
    requires
        e.price matches RawFieldView::Text(p) && spec_parse_fixed(p) is Some,
        e.amount matches RawFieldView::Text(a) && spec_parse_fixed(a) is None,
    ensures
        spec_decode_entry(e) == Err::<Level, SideError>(SideError::InvalidType),
{
}

/// The visitor that reads one `["<price>", "<amount>"]` entry.
pub struct OrderbookPriceSizeVisitor;

impl OrderbookPriceSizeVisitor {
    /// Decodes one entry: the price element, then the amount element.
    pub fn visit_seq(self, entry: &RawEntry) -> (r: Result<Level, SideError>)
        ensures
            r == spec_decode_entry(entry@),
    {
        let price = match decode_field(&entry.price, LevelField::Price) {
            Ok(p) => p,
            Err(e) => {
                return Err(e);
            },
        };
        let amount = match decode_field(&entry.amount, LevelField::Amount) {
            Ok(a) => a,
            Err(e) => {
                return Err(e);
            },
        };
        Ok(Level { price, amount })
    }
}

/// Decodes one field of an entry.
fn decode_field(f: &RawField, which: LevelField) -> (r: Result<i64, SideError>)
    ensures
        r == spec_decode_field(f@, which),
{
    match f {
        RawField::Missing => Err(SideError::MissingField(which)),
        RawField::NotText => Err(SideError::InvalidType),
        RawField::Text(s) => match parse_fixed(s.as_str()) {
            Some(v) => Ok(v),
            None => Err(SideError::InvalidType),
        },
    }
}

/// Decodes the first `depth` entries of one side, already pulled out of the
/// document as plain values.
pub fn decode_side(depth: usize, entries: &Vec<RawEntry>) -> (r: Result<Vec<Level>, SideError>)
    ensures
        ({
            let s = spec_decode_side(
                depth as int,
                entries@.map_values(|e: RawEntry| e@),
                0,
            );
            match r {
                Ok(v) => s matches Ok(ls) && ls == v@,
                Err(e) => s == Err::<Seq<Level>, SideError>(e),
            }
        }),
{
    let ghost evs = entries@.map_values(|e: RawEntry| e@);
    let mut levels: Vec<Level> = Vec::new();
    let mut index: usize = 0;
    proof {
        assert(evs.len() == entries@.len());
    }
    while index < depth
        invariant
            0 <= index <= depth,
            evs == entries@.map_values(|e: RawEntry| e@),
            evs.len() == entries@.len(),
            levels@.len() == index,
            match spec_decode_side(depth as int, evs, index as int) {
                Ok(rest) => spec_decode_side(depth as int, evs, 0) == Ok::<Seq<Level>, SideError>(
                    levels@ + rest,
                ),
                Err(e) => spec_decode_side(depth as int, evs, 0) == Err::<Seq<Level>, SideError>(
                    e,
                ),
            },
        decreases depth - index,
    {
        if index >= entries.len() {
            return Err(SideError::InvalidLength { got: index, expected: depth });
        }
        proof {
            assert(evs[index as int] == entries@[index as int]@);
        }
        let visitor = OrderbookPriceSizeVisitor {};
        match visitor.visit_seq(&entries[index]) {
            Err(e) => {
                return Err(e);
            },
            Ok(level) => {
                proof {
                    assert(spec_decode_entry(evs[index as int]) == Ok::<Level, SideError>(level));
                    assert(spec_decode_side(depth as int, evs, index as int) == match spec_decode_side(
                        depth as int,
                        evs,
                        index + 1,
                    ) {
                        Err(e) => Err::<Seq<Level>, SideError>(e),
                        Ok(rest) => Ok::<Seq<Level>, SideError>(seq![level] + rest),
                    });
                }
                let ghost lv0 = levels@;
                levels.push(level);
                proof {
                    if let Ok(rest) = spec_decode_side(depth as int, evs, index + 1) {
                        assert(spec_decode_side(depth as int, evs, index as int)
                            == Ok::<Seq<Level>, SideError>(seq![level] + rest));
                        assert(spec_decode_side(depth as int, evs, 0) == Ok::<
                            Seq<Level>,
                            SideError,
                        >(lv0 + (seq![level] + rest)));
                        assert(levels@ + rest =~= lv0 + (seq![level] + rest));
                    } else {
                        let e = spec_decode_side(depth as int, evs, index + 1)->Err_0;
                        assert(spec_decode_side(depth as int, evs, index as int) == Err::<
                            Seq<Level>,
                            SideError,
                        >(e));
                        assert(spec_decode_side(depth as int, evs, 0) == Err::<
                            Seq<Level>,
                            SideError,
                        >(e));
                    }
                }
            },
        }
        index = index + 1;
    }
    proof {
        assert(levels@ + Seq::<Level>::empty() =~= levels@);
    }
    Ok(levels)
}

/// Pulls one element position of an entry out of the document.
fn extract_field(entry: &serde_json::Value, idx: usize) -> (r: RawField) {
    match entry.get(idx) {
        None => RawField::Missing,
        Some(v) => match v.as_str() {
            None => RawField::NotText,
            Some(s) => RawField::Text(s.to_owned()),
        },
    }
}

/// Pulls up to `depth` entries of one side out of the document, stopping at
/// the first absent slot.
fn extract_entries(side: &serde_json::Value, depth: usize) -> (r: Vec<RawEntry>)
    ensures
        r@.len() <= depth,
{
    let mut out: Vec<RawEntry> = Vec::new();
    let mut i: usize = 0;
    while i < depth
        invariant
            0 <= i <= depth,
            out@.len() == i,
        decreases depth - i,
    {
        match side.get(i) {
            None => {
                return out;
            },
            Some(entry) => {
                let price = extract_field(entry, 0);
                let amount = extract_field(entry, 1);
                out.push(RawEntry { price, amount });
            },
        }
        i = i + 1;
    }
    out
}

/// Deserializes one side of the order book found at a node of the parsed
/// document.
pub fn deserialize_level(depth: usize, json_value: &serde_json::Value) -> (r: Result<
    Vec<Level>,
    SideError,
>)
    ensures
        r matches Ok(v) ==> v@.len() == depth,
        r matches Err(SideError::InvalidLength { got, expected }) ==> got < depth && expected
            == depth,
{
    let entries = extract_entries(json_value, depth);
    let r = decode_side(depth, &entries);
    proof {
        let evs = entries@.map_values(|e: RawEntry| e@);
        if r is Ok {
            lemma_decode_side_len(depth as int, evs, 0);
        }
        if r matches Err(SideError::InvalidLength { .. }) {
            lemma_decode_side_length_error(depth as int, evs, 0);
        }
    }
    r
}

/// Deserializes one optional side node: an absent node has no entries.
fn deserialize_side(depth: usize, node: Option<&serde_json::Value>) -> (r: Result<
    Vec<Level>,
    SideError,
>)
    ensures
        r matches Ok(v) ==> v@.len() == depth,
        r matches Err(SideError::InvalidLength { got, expected }) ==> got < depth && expected
            == depth,
{
    match node {
        Some(v) => deserialize_level(depth, v),
        None => {
            let empty: Vec<RawEntry> = Vec::new();
            let r = decode_side(depth, &empty);
            proof {
                let evs = empty@.map_values(|e: RawEntry| e@);
                if r is Ok {
                    lemma_decode_side_len(depth as int, evs, 0);
                }
                if r matches Err(SideError::InvalidLength { .. }) {
                    lemma_decode_side_length_error(depth as int, evs, 0);
                }
            }
            r
        },
    }
}

/// Walks the parsed document down a path of object keys.
fn select_node<'a>(root: &'a serde_json::Value, path: &Vec<String>) -> (r: Option<
    &'a serde_json::Value,
>) {
    let mut node = root;
    let mut i: usize = 0;
    while i < path.len()
        invariant
            0 <= i <= path@.len(),
        decreases path@.len() - i,
    {
        match node.get(path[i].as_str()) {
            None => {
                return None;
            },
            Some(v) => {
                node = v;
            },
        }
        i = i + 1;
    }
    Some(node)
}

/// Relies on `rayon::join`: it returns the pair of its two closures'
/// results, and each closure is one call of the verified side decoder.
#[verifier::external_body]
fn join_deserialize_sides(
    depth: usize,
    bids: Option<&serde_json::Value>,
    asks: Option<&serde_json::Value>,
) -> (r: (Result<Vec<Level>, SideError>, Result<Vec<Level>, SideError>))
    ensures
        r.0 matches Ok(v) ==> v@.len() == depth,
        r.1 matches Ok(v) ==> v@.len() == depth,
        r.0 matches Err(SideError::InvalidLength { got, expected }) ==> got < depth && expected
            == depth,
        r.1 matches Err(SideError::InvalidLength { got, expected }) ==> got < depth && expected
            == depth,
{
    rayon::join(|| deserialize_side(depth, bids), || deserialize_side(depth, asks))
}

/// Deserializes the bids and asks of an exchange order-book update.
///
/// The two paths locate the side arrays in the document (venues nest them
/// differently).  The two sides are decoded on a worker pool; if both fail,
/// both errors surface.
pub fn deserialize(
    depth: usize,
    json_data: &String,
    bids_path: &Vec<String>,
    asks_path: &Vec<String>,
) -> (r: Result<Levels, DecodeError>)
    ensures
        r matches Err(e) && e == DecodeError::Json <==> !json_wf(json_data@),
        r matches Ok(l) ==> l.bids@.len() == depth && l.asks@.len() == depth,
        r matches Err(DecodeError::Bids(SideError::InvalidLength { got, expected })) ==> got
            < depth && expected == depth,
        r matches Err(DecodeError::Asks(SideError::InvalidLength { got, expected })) ==> got
            < depth && expected == depth,
{
    let doc = match json_parse(json_data.as_str()) {
        Ok(v) => v,
        Err(_) => {
            return Err(DecodeError::Json);
        },
    };
    let bids_node = select_node(&doc, bids_path);
    let asks_node = select_node(&doc, asks_path);
    let (bids_res, asks_res) = join_deserialize_sides(depth, bids_node, asks_node);
    match (bids_res, asks_res) {
        (Ok(bids), Ok(asks)) => Ok(Levels::new(bids, asks)),
        (Ok(_), Err(asks_err)) => Err(DecodeError::Asks(asks_err)),
        (Err(bids_err), Ok(_)) => Err(DecodeError::Bids(bids_err)),
        (Err(bids_err), Err(asks_err)) => Err(DecodeError::BothSides(bids_err, asks_err)),
    }
}

} // verus!
