use candid::Principal as CandidPrincipal;
use ic_scalable_misc::models::identifier_model::Identifier;
use scalable_groups::identifier::{decode_identifier, encode_identifier};
use scalable_groups::principal::Principal;

fn node() -> Principal {
    Principal::from_slice(&[0, 0, 0, 0, 1, 240, 0, 1, 1, 1]).unwrap()
}

#[test]
fn encode_puts_marker_kind_node_and_number() {
    let id = encode_identifier(0x0102_0304, &node(), "grp").unwrap();
    let mut expected = vec![0x0A, b'c', b'a', b't', b'g', b'r', b'p'];
    expected.extend_from_slice(&[0, 0, 0, 0, 1, 240, 0, 1, 1, 1]);
    expected.extend_from_slice(&[1, 2, 3, 4]);
    assert_eq!(id.as_slice(), &expected[..]);
}

#[test]
fn encode_agrees_with_the_outside_codec() {
    let outside = Identifier::new(
        77,
        CandidPrincipal::from_slice(node().as_slice()),
        "grp".to_string(),
    )
    .unwrap()
    .encode()
    .unwrap();
    let ours = encode_identifier(77, &node(), "grp").unwrap();
    assert_eq!(ours.as_slice(), outside.as_slice());
}

#[test]
fn encode_keeps_the_low_32_bits_of_the_number() {
    let id = encode_identifier(0x1_0000_0005, &node(), "grp").unwrap();
    let (number, _, _) = decode_identifier(&id).unwrap();
    assert_eq!(number, 5);
}

#[test]
fn encode_refuses_a_kind_that_is_not_three_bytes() {
    assert_eq!(
        encode_identifier(1, &node(), "group"),
        Err("New - Invalid identifier: 'kind' length needs to be 3".to_string())
    );
    assert_eq!(
        encode_identifier(1, &node(), ""),
        Err("New - Invalid identifier: 'kind' length needs to be 3".to_string())
    );
}

#[test]
fn encode_refuses_a_node_of_more_than_eighteen_bytes() {
    let long = Principal::from_slice(&[7u8; 19]).unwrap();
    assert_eq!(
        encode_identifier(1, &long, "grp"),
        Err("Encode - Invalid identifier: 'principal' length exceeds 18".to_string())
    );
    let fits = Principal::from_slice(&[7u8; 18]).unwrap();
    assert!(encode_identifier(1, &fits, "grp").is_ok());
}

#[test]
fn decode_gives_back_what_was_encoded() {
    let id = encode_identifier(4242, &node(), "mbr").unwrap();
    let (number, holder, kind) = decode_identifier(&id).unwrap();
    assert_eq!(number, 4242);
    assert!(holder.same(&node()));
    assert_eq!(kind, "mbr");
}

#[test]
fn decode_takes_unmarked_bytes_for_a_plain_principal() {
    let plain = Principal::from_slice(&[1, 2, 3, 4, 5]).unwrap();
    let (number, holder, kind) = decode_identifier(&plain).unwrap();
    assert_eq!(number, 0);
    assert!(holder.same(&plain));
    assert_eq!(kind, "principal");
}

#[test]
fn decode_refuses_what_cannot_be_taken_apart() {
    let short = Principal::from_slice(&[4]).unwrap();
    assert!(decode_identifier(&short).is_none());
    let cut = Principal::from_slice(&[0x0A, b'c', b'a', b't', b'g', b'r']).unwrap();
    assert!(decode_identifier(&cut).is_none());
    let bad_kind =
        Principal::from_slice(&[0x0A, b'c', b'a', b't', 0xFF, 0xFE, 0xFD, 0, 0, 0, 1]).unwrap();
    assert!(decode_identifier(&bad_kind).is_none());
}

#[test]
fn decode_agrees_with_the_outside_codec() {
    let id = encode_identifier(9, &node(), "grp").unwrap();
    let (number, holder, kind) = decode_identifier(&id).unwrap();
    let (n2, h2, k2) = Identifier::decode(&CandidPrincipal::from_slice(id.as_slice()));
    assert_eq!(number, n2);
    assert_eq!(holder.as_slice(), h2.as_slice());
    assert_eq!(kind, k2);
}
