use vstd::prelude::*;

use crate::alphabet::{
    decode_spec, encode_spec, encoded_len, is_base64, lemma_decode_encode, lemma_encode_injective,
};

verus! {

/// A node of a structured document (JSON or alike).
#[derive(Debug, PartialEq, Eq)]
pub enum Node {
    Null,
    Bool(bool),
    /// A number, kept as its literal text.
    Number(String),
    Text(String),
    Array(Vec<Node>),
    Object(Vec<(String, Node)>),
}

/// Why a node could not be read as optional base64 bytes.
#[derive(Debug, PartialEq, Eq)]
pub enum CodecError {
    /// The text is not standard padded base64; `reason` is the base64
    /// decoder's own description of the fault.
    InvalidBase64 { reason: String },
    /// The node is neither a text nor null.
    UnexpectedNodeType,
}

/// The bytes held by an optional byte vector.
pub open spec fn bytes_of(value: Option<Vec<u8>>) -> Option<Seq<u8>> {
    match value {
        Some(b) => Some(b@),
        None => None,
    }
}

/// The value fits the encoder: its encoding's length fits in `isize`.
pub open spec fn encodable(value: Option<Seq<u8>>) -> bool {
    match value {
        Some(b) => encoded_len(b.len()) <= isize::MAX,
        None => true,
    }
}

/// `node` is how `value` is written: null when absent, the standard base64
/// text of the bytes when present.
pub open spec fn encodes(node: Node, value: Option<Seq<u8>>) -> bool {
    match value {
        None => node is Null,
        Some(b) => node matches Node::Text(s) && s@ == encode_spec(b),
    }
}

/// Reading `node` gives `value`: null gives absent, a valid base64 text gives
/// the bytes it encodes.
pub open spec fn decodes_to(node: Node, value: Option<Seq<u8>>) -> bool {
    match node {
        Node::Null => value is None,
        Node::Text(s) => is_base64(s@) && value == Some(decode_spec(s@)),
        _ => false,
    }
}

/// Relies on `base64::Engine::encode` with the `STANDARD` engine: standard
/// alphabet, `=` padding. It panics when the encoded length does not fit,
/// which the precondition leaves out.
#[verifier::external_body]
fn encode_standard(b: &[u8]) -> (r: String)
    requires
        encoded_len(b@.len()) <= isize::MAX,
    ensures
        r@ == encode_spec(b@),
{
    base64::Engine::encode(&base64::engine::general_purpose::STANDARD, b)
}

#[verifier::external_type_specification]
#[verifier::external_body]
pub struct ExBase64DecodeError(base64::DecodeError);

/// Relies on `base64::Engine::decode` with the `STANDARD` engine (standard
/// alphabet, canonical padding required, no trailing bits): it accepts exactly
/// the standard encodings, and gives back the bytes encoded.
#[verifier::external_body]
fn decode_standard(s: &str) -> (r: Result<Vec<u8>, base64::DecodeError>)
    ensures
        r is Ok <==> is_base64(s@),
        r matches Ok(b) ==> encode_spec(b@) == s@,
{
    base64::Engine::decode(&base64::engine::general_purpose::STANDARD, s)
}

/// Relies on the `Display` impl of `base64::DecodeError` for a readable cause.
#[verifier::external_body]
fn describe(e: &base64::DecodeError) -> (r: String) {
    e.to_string()
}

/// Writes an optional byte vector as a node: null when absent, the standard
/// padded base64 text of the bytes when present.
pub fn serialize(bytes: &Option<Vec<u8>>) -> (r: Node)
    requires
        encodable(bytes_of(*bytes)),
    ensures
        encodes(r, bytes_of(*bytes)),
{
    match bytes {
        Some(b) => Node::Text(encode_standard(b.as_slice())),
        None => Node::Null,
    }
}

/// Reads an optional byte vector from a node: null gives `None`, a standard
/// padded base64 text gives the bytes it encodes. Any other text fails with
/// `InvalidBase64`, any other shape with `UnexpectedNodeType`.
pub fn deserialize(node: &Node) -> (r: Result<Option<Vec<u8>>, CodecError>)
    ensures
        r is Ok <==> (node is Null || (node matches Node::Text(s) && is_base64(s@))),
        r matches Ok(v) ==> decodes_to(*node, bytes_of(v)),
        (node matches Node::Text(s) && !is_base64(s@)) ==> (r matches Err(
            CodecError::InvalidBase64 { .. },
        )),
        !(node is Null || node is Text) ==> r matches Err(CodecError::UnexpectedNodeType),
{
    match node {
        Node::Null => Ok(None),
        Node::Text(s) => match decode_standard(s.as_str()) {
            Ok(b) => {
                proof {
                    lemma_decode_encode(b@);
                }
                Ok(Some(b))
            },
            Err(e) => Err(CodecError::InvalidBase64 { reason: describe(&e) }),
        },
        _ => Err(CodecError::UnexpectedNodeType),
    }
}

/// Reading what was written for present bytes gives those bytes back, for
/// every byte sequence, the empty one included.
pub proof fn lemma_round_trip_present(node: Node, b: Seq<u8>)
    requires
        encodes(node, Some(b)),
    ensures
        decodes_to(node, Some(b)),
{
    lemma_decode_encode(b);
}

/// Reading what was written for an absent value gives an absent value.
pub proof fn lemma_round_trip_absent(node: Node)
    requires
        encodes(node, None),
    ensures
        decodes_to(node, None),
{
}

/// A node is read as at most one value.
pub proof fn lemma_decode_unique(node: Node, v: Option<Seq<u8>>, w: Option<Seq<u8>>)
    requires
        decodes_to(node, v),
        decodes_to(node, w),
    ensures
        v == w,
{
}

/// Different values are written as different nodes.
pub proof fn lemma_encode_unique(node: Node, v: Option<Seq<u8>>, w: Option<Seq<u8>>)
    requires
        encodes(node, v),
        encodes(node, w),
    ensures
        v == w,
{
    if let (Some(a), Some(b)) = (v, w) {
        lemma_encode_injective(a, b);
    }
}

} // verus!
