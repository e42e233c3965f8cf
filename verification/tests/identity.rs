use connect_four::identity::Identity;
use mongodb::bson::oid::ObjectId;

const BYTES: [u8; 12] = [0x00, 0x01, 0x0f, 0x10, 0x7f, 0x80, 0x9a, 0xab, 0xcd, 0xef, 0xfe, 0xff];

#[test]
fn text_of_an_identity_is_lower_case_hex() {
    let id = Identity::from_bytes(BYTES);
    assert_eq!(id.to_hex(), "00010f107f809aabcdeffeff");
    assert_eq!(id.bytes(), BYTES);
}

#[test]
fn text_of_an_identity_is_that_of_the_object_id() {
    let id = Identity::from_bytes(BYTES);
    assert_eq!(id.to_hex(), ObjectId::from_bytes(BYTES).to_hex());
}

#[test]
fn identity_is_read_from_24_hex_digits() {
    let id = Identity::parse_str("00010f107f809aabcdeffeff").unwrap();
    assert_eq!(id.bytes(), BYTES);
    assert_eq!(id, Identity::from_bytes(BYTES));
}

#[test]
fn identity_is_read_from_digits_of_either_case() {
    let id = Identity::parse_str("00010F107F809AabCDefFEff").unwrap();
    assert_eq!(id.bytes(), BYTES);
}

#[test]
fn identity_is_not_read_from_other_texts() {
    assert_eq!(Identity::parse_str(""), None);
    assert_eq!(Identity::parse_str("00010f107f809aabcdeffef"), None);
    assert_eq!(Identity::parse_str("00010f107f809aabcdeffeff0"), None);
    assert_eq!(Identity::parse_str("00010f107f809aabcdeffeff00"), None);
    assert_eq!(Identity::parse_str("00010f107f809aabcdeffefg"), None);
    assert_eq!(Identity::parse_str("+0010f107f809aabcdeffeff"), None);
    assert_eq!(Identity::parse_str(" 0010f107f809aabcdeffeff"), None);
    assert_eq!(Identity::parse_str("00010f107f809aabcdeffe\u{e9}"), None);
    assert_eq!(Identity::parse_str("\u{ff10}0010f107f809aabcdeffeff"), None);
}

#[test]
fn text_of_an_identity_reads_back() {
    let id = Identity::from_bytes(BYTES);
    assert_eq!(Identity::parse_str(&id.to_hex()), Some(id));
    let fresh = Identity::generate();
    assert_eq!(fresh.to_hex().len(), 24);
    assert_eq!(Identity::parse_str(&fresh.to_hex()), Some(fresh));
}

#[test]
fn generated_identities_differ() {
    let first = Identity::generate();
    let second = Identity::generate();
    assert_ne!(first, second);
}
