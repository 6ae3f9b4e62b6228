use crate::principal::Principal;
use crate::text;
use ic_scalable_misc::models::identifier_model::Identifier;
use vstd::prelude::*;
use vstd::slice::slice_subrange;
use vstd::string::StringExecFns;
use vstd::utf8::{decode_utf8, encode_utf8, valid_utf8};

verus! {

/// The longest node reference that fits in an identifier.
pub const MAX_NODE_BYTES: usize = 18;

/// The four bytes that open every identifier made here.
pub open spec fn marker() -> Seq<u8> {
    seq![0x0Au8, 0x63u8, 0x61u8, 0x74u8]
}

/// The low 32 bits of a number, highest byte first.
pub open spec fn be32(n: u64) -> Seq<u8> {
    seq![
        ((n / 0x100_0000) % 0x100) as u8,
        ((n / 0x1_0000) % 0x100) as u8,
        ((n / 0x100) % 0x100) as u8,
        (n % 0x100) as u8,
    ]
}

/// The number that four bytes spell, highest byte first.
pub open spec fn from_be32(bytes: Seq<u8>) -> u64 {
    (bytes[0] * 0x100_0000 + bytes[1] * 0x1_0000 + bytes[2] * 0x100 + bytes[3]) as u64
}

/// The identifier of entry number `id` of the node `node`, of the kind whose
/// tag has the bytes `kind`: the marker, the tag, the node, the number.
pub open spec fn encoded(id: u64, node: Seq<u8>, kind: Seq<u8>) -> Seq<u8> {
    marker() + kind + node + be32(id)
}

/// Whether the bytes open with the marker.
pub open spec fn is_marked(bytes: Seq<u8>) -> bool {
    bytes.len() >= 4 && bytes.subrange(0, 4) == marker()
}

/// Whether the bytes can be taken apart: they are those of a plain actor of
/// at least four bytes, or they open with the marker and hold a tag of three
/// bytes in UTF-8 and a number after it.
pub open spec fn decodable(bytes: Seq<u8>) -> bool {
    &&& bytes.len() >= 4
    &&& is_marked(bytes) ==> bytes.len() >= 11 && valid_utf8(bytes.subrange(4, 7))
}

/// The parts of an identifier: the number, the node and the tag of the kind.
/// Bytes without the marker are a plain actor, of the kind "principal".
pub open spec fn decoded(bytes: Seq<u8>) -> (u64, Seq<u8>, Seq<char>) {
    if is_marked(bytes) {
        (
            from_be32(bytes.subrange(bytes.len() - 4, bytes.len() as int)),
            bytes.subrange(7, bytes.len() - 4),
            decode_utf8(bytes.subrange(4, 7)),
        )
    } else {
        (0, bytes, "principal"@)
    }
}

/// `Identifier::new` followed by `Identifier::encode`, of `ic_scalable_misc`.
/// With a tag of three bytes both succeed, and the result holds the marker,
/// the tag, the node and the low 32 bits of the number. The node must leave
/// room for the other eleven bytes.
#[verifier::external_body]
fn encode(id: u64, node: &Principal, kind: &str) -> (r: Principal)
    requires
        encode_utf8(kind@).len() == 3,
        node@.len() <= MAX_NODE_BYTES,
    ensures
        r@ == encoded(id, node@, encode_utf8(kind@)),
{
    let node = candid::Principal::from_slice(&node.bytes);
    let made = Identifier::new(id, node, kind.to_string()).unwrap().encode().unwrap();
    Principal { bytes: made.as_slice().to_vec() }
}

/// `Identifier::decode` of `ic_scalable_misc`: the number, the node and the
/// tag held by bytes that open with the marker; for other bytes, zero, the
/// bytes themselves and the tag "principal".
#[verifier::external_body]
fn decode(identifier: &Principal) -> (r: (u64, Principal, String))
    requires
        decodable(identifier@),
    ensures
        (r.0, r.1@, r.2@) == decoded(identifier@),
{
    let whole = candid::Principal::from_slice(&identifier.bytes);
    let (id, node, kind) = Identifier::decode(&whole);
    (id, Principal { bytes: node.as_slice().to_vec() }, kind)
}

/// Whether the bytes `bytes` open with the marker.
fn opens_with_marker(bytes: &[u8]) -> (r: bool)
    ensures
        r == is_marked(bytes@),
{
    if bytes.len() < 4 {
        return false;
    }
    let r = bytes[0] == 0x0A && bytes[1] == 0x63 && bytes[2] == 0x61 && bytes[3] == 0x74;
    proof {
        if r {
            assert(bytes@.subrange(0, 4) =~= marker());
        } else {
            assert(bytes@.subrange(0, 4)[0] == bytes@[0]);
            assert(bytes@.subrange(0, 4)[1] == bytes@[1]);
            assert(bytes@.subrange(0, 4)[2] == bytes@[2]);
            assert(bytes@.subrange(0, 4)[3] == bytes@[3]);
        }
    }
    r
}

/// Why no identifier was made.
pub open spec fn encode_refusal(node: Seq<u8>, kind: Seq<char>) -> Option<Seq<char>> {
    if encode_utf8(kind).len() != 3 {
        Some("New - Invalid identifier: 'kind' length needs to be 3"@)
    } else if node.len() > MAX_NODE_BYTES {
        Some("Encode - Invalid identifier: 'principal' length exceeds 18"@)
    } else {
        None
    }
}

/// Makes the identifier of entry number `id` of the node `principal`, of
/// the kind with the tag `kind`. The tag must have three bytes and the node
/// at most eighteen; otherwise the result says which of the two failed.
pub fn encode_identifier(id: u64, principal: &Principal, kind: &str) -> (r: Result<
    Principal,
    String,
>)
    ensures
        match r {
            Ok(identifier) => encode_refusal(principal@, kind@) is None && identifier@ == encoded(
                id,
                principal@,
                encode_utf8(kind@),
            ),
            Err(message) => encode_refusal(principal@, kind@) == Some(message@),
        },
{
    let tag = kind.as_bytes();
    assert(tag@ == encode_utf8(kind@));
    if tag.len() != 3 {
        return Err(String::from_str("New - Invalid identifier: 'kind' length needs to be 3"));
    }
    if principal.as_slice().len() > MAX_NODE_BYTES {
        return Err(
            String::from_str("Encode - Invalid identifier: 'principal' length exceeds 18"),
        );
    }
    Ok(encode(id, principal, kind))
}

/// Takes an identifier apart into the number of the entry, the node that
/// holds it and the tag of its kind. `None` for bytes that cannot be taken
/// apart.
pub fn decode_identifier(identifier: &Principal) -> (r: Option<(u64, Principal, String)>)
    ensures
        r is Some <==> decodable(identifier@),
        r matches Some(parts) ==> (parts.0, parts.1@, parts.2@) == decoded(identifier@),
{
    let bytes = identifier.as_slice();
    if bytes.len() < 4 {
        return None;
    }
    if opens_with_marker(bytes) {
        if bytes.len() < 11 {
            return None;
        }
        if !text::is_utf8(slice_subrange(bytes, 4, 7)) {
            return None;
        }
    }
    Some(decode(identifier))
}

/// Four bytes made of a number spell its low 32 bits.
pub proof fn lemma_be32_round_trip(id: u64)
    ensures
        from_be32(be32(id)) == (id % 0x1_0000_0000) as u64,
{
    let b0 = ((id / 0x100_0000) % 0x100) as u64;
    let b1 = ((id / 0x1_0000) % 0x100) as u64;
    let b2 = ((id / 0x100) % 0x100) as u64;
    let b3 = (id % 0x100) as u64;
    assert(b0 < 0x100 && b1 < 0x100 && b2 < 0x100 && b3 < 0x100 && b0 * 0x100_0000 + b1 * 0x1_0000
        + b2 * 0x100 + b3 == id % 0x1_0000_0000) by (bit_vector)
        requires
            b0 == ((id / 0x100_0000) % 0x100) as u64,
            b1 == ((id / 0x1_0000) % 0x100) as u64,
            b2 == ((id / 0x100) % 0x100) as u64,
            b3 == (id % 0x100) as u64,
    ;
    let bytes = be32(id);
    assert(bytes[0] == b0 as u8 && bytes[1] == b1 as u8 && bytes[2] == b2 as u8 && bytes[3]
        == b3 as u8);
}

/// The parts of the bytes of an identifier.
proof fn lemma_encoded_parts(id: u64, node: Seq<u8>, tag: Seq<u8>)
    requires
        tag.len() == 3,
    ensures
        encoded(id, node, tag).len() == node.len() + 11,
        encoded(id, node, tag).subrange(0, 4) == marker(),
        encoded(id, node, tag).subrange(4, 7) == tag,
        encoded(id, node, tag).subrange(7, node.len() + 11 - 4) == node,
        encoded(id, node, tag).subrange(node.len() + 11 - 4, node.len() + 11 - 0) == be32(id),
{
    let bytes = encoded(id, node, tag);
    assert(bytes.subrange(0, 4) =~= marker());
    assert(bytes.subrange(4, 7) =~= tag);
    assert(bytes.subrange(7, node.len() + 11 - 4) =~= node);
    assert(bytes.subrange(node.len() + 11 - 4, node.len() + 11 - 0) =~= be32(id));
}

/// An identifier taken apart gives back the node and the tag it was made
/// of, and the low 32 bits of the number.
pub proof fn lemma_identifier_round_trip(id: u64, node: Seq<u8>, kind: Seq<char>)
    requires
        encode_utf8(kind).len() == 3,
    ensures
        decodable(encoded(id, node, encode_utf8(kind))),
        decoded(encoded(id, node, encode_utf8(kind))) == ((id % 0x1_0000_0000) as u64, node, kind),
{
    lemma_encoded_parts(id, node, encode_utf8(kind));
    lemma_be32_round_trip(id);
    vstd::utf8::encode_utf8_valid_utf8(kind);
    vstd::utf8::encode_utf8_decode_utf8(kind);
}

} // verus!
