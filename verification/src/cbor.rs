//! Elements of a self-describing binary message sequence, and the trusted
//! boundary to the CBOR serializer that puts them on the wire.
//!
//! Every protocol message is one CBOR array whose elements are integers, text,
//! byte strings or integer lists. The serializer and deserializer are outside
//! code; their results are named by the uninterpreted functions `cbor_enc` and
//! `cbor_dec`, and everything the library proves about messages goes through
//! those names.

use vstd::prelude::*;

use crate::errors::ProtocolError;

verus! {

/// One element of a message sequence, as contracts and proofs see it.
pub enum CborVal {
    /// A non-negative integer.
    Int(u64),
    /// A text string.
    Text(Seq<char>),
    /// A byte string.
    Bytes(Seq<u8>),
    /// An inner array of non-negative integers (a missing-chunk list).
    IntList(Seq<u64>),
    /// Any value the protocol has no use for (floats, maps, nulls, ...).
    Other,
}

/// One element of a message sequence.
pub enum CborItem {
    /// A non-negative integer.
    Int(u64),
    /// A text string.
    Text(String),
    /// A byte string.
    Bytes(Vec<u8>),
    /// An inner array of non-negative integers (a missing-chunk list).
    IntList(Vec<u64>),
    /// Any value the protocol has no use for.
    Other,
}

impl View for CborItem {
    type V = CborVal;

    open spec fn view(&self) -> CborVal {
        match self {
            CborItem::Int(n) => CborVal::Int(*n),
            CborItem::Text(s) => CborVal::Text(s@),
            CborItem::Bytes(b) => CborVal::Bytes(b@),
            CborItem::IntList(v) => CborVal::IntList(v@),
            CborItem::Other => CborVal::Other,
        }
    }
}

/// The views of a sequence of elements.
pub open spec fn items_view(items: Seq<CborItem>) -> Seq<CborVal> {
    items.map_values(|it: CborItem| it@)
}

/// What the CBOR serializer emits for a sequence of elements.
pub uninterp spec fn cbor_enc(items: Seq<CborVal>) -> Seq<u8>;

/// What the CBOR deserializer reads from a datagram body: the elements when
/// the body is the encoding of one array, and nothing otherwise.
pub uninterp spec fn cbor_dec(data: Seq<u8>) -> Option<Seq<CborVal>>;

#[verifier::external_type_specification]
#[verifier::external_body]
pub struct ExCborValue(serde_cbor::Value);

/// Relies on serde_cbor::to_vec: serializes the elements as one CBOR array.
/// On these values it cannot fail — the vector writer is infallible, and
/// every integer the protocol puts on the wire is within the u64 range the
/// serializer accepts — so the encoding comes back outright. CBOR is
/// self-describing, so decoding the emitted bytes yields the same elements
/// back; the second clause records that through `cbor_dec`.
#[verifier::external_body]
pub(crate) fn cbor_encode_items(items: &Vec<CborItem>) -> (r: Vec<u8>)
    ensures
        r@ == cbor_enc(items_view(items@)),
        cbor_dec(r@) == Some(items_view(items@)),
{
    let vals: Vec<serde_cbor::Value> = items.iter().map(value_of_item).collect();
    serde_cbor::to_vec(&serde_cbor::Value::Array(vals)).unwrap_or_default()
}

/// Relies on serde_cbor::from_slice: reads one CBOR value from the whole
/// input, and fails on malformed input, trailing bytes, or a value that is
/// not an array.
#[verifier::external_body]
pub(crate) fn cbor_decode_items(data: &[u8]) -> (r: Result<Vec<CborItem>, ProtocolError>)
    ensures
        r matches Ok(v) ==> cbor_dec(data@) == Some(items_view(v@)),
        r matches Err(e) ==> cbor_dec(data@) is None && e == ProtocolError::BadFrame,
{
    match serde_cbor::from_slice::<serde_cbor::Value>(data) {
        Ok(serde_cbor::Value::Array(vs)) => Ok(vs.into_iter().map(item_of_value).collect()),
        _ => Err(ProtocolError::BadFrame),
    }
}

/// Builds the serde_cbor::Value for one element; conversion only, on behalf
/// of the encoding wrapper above.
#[verifier::external_body]
fn value_of_item(it: &CborItem) -> serde_cbor::Value {
    match it {
        CborItem::Int(n) => serde_cbor::Value::Integer(*n as i128),
        CborItem::Text(s) => serde_cbor::Value::Text(s.clone()),
        CborItem::Bytes(b) => serde_cbor::Value::Bytes(b.clone()),
        CborItem::IntList(v) => serde_cbor::Value::Array(
            v.iter().map(|n| serde_cbor::Value::Integer(*n as i128)).collect(),
        ),
        CborItem::Other => serde_cbor::Value::Null,
    }
}

/// Reads one serde_cbor::Value back into an element; conversion only, on
/// behalf of the decoding wrapper above.
#[verifier::external_body]
fn item_of_value(v: serde_cbor::Value) -> CborItem {
    match v {
        serde_cbor::Value::Integer(i) => match u64::try_from(i) {
            Ok(n) => CborItem::Int(n),
            Err(_) => CborItem::Other,
        },
        serde_cbor::Value::Text(s) => CborItem::Text(s),
        serde_cbor::Value::Bytes(b) => CborItem::Bytes(b),
        serde_cbor::Value::Array(vs) => int_list_of(vs),
        _ => CborItem::Other,
    }
}

/// Reads an inner array of integers; conversion only, on behalf of the
/// decoding wrapper above.
#[verifier::external_body]
fn int_list_of(vs: Vec<serde_cbor::Value>) -> CborItem {
    let mut out: Vec<u64> = Vec::new();
    for v in vs {
        match v {
            serde_cbor::Value::Integer(i) => match u64::try_from(i) {
                Ok(n) => out.push(n),
                Err(_) => return CborItem::Other,
            },
            _ => return CborItem::Other,
        }
    }
    CborItem::IntList(out)
}

} // verus!
