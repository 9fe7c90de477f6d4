use blockchain::ledger::Blockchain;
use blockchain::records::{Blockheader, Transaction};

fn tx(sender: &str, receiver: &str, amount: &str) -> Transaction {
    Transaction {
        sender: sender.to_string(),
        receiver: receiver.to_string(),
        amount: amount.to_string(),
    }
}

#[test]
fn hex_rendering_has_no_zero_padding() {
    assert_eq!(Blockchain::hex_to_string(&[0x00, 0x0f, 0x10, 0xff, 0xa0]), "0f10ffa0");
    assert_eq!(Blockchain::hex_to_string(&[0x01, 0x02, 0x03]), "123");
    assert_eq!(Blockchain::hex_to_string(&[0xab]), "ab");
}

#[test]
fn hex_rendering_of_nothing_is_empty() {
    assert_eq!(Blockchain::hex_to_string(&[]), "");
}

#[test]
fn hash_of_a_known_text() {
    assert_eq!(
        Blockchain::hash("abc"),
        "ba7816bf8f1cfea414140de5dae2223b0361a396177a9cb410ff61f2015ad"
    );
}

#[test]
fn hash_of_the_empty_text() {
    assert_eq!(
        Blockchain::hash(""),
        "e3b0c44298fc1c149afbf4c8996fb92427ae41e4649b934ca495991b7852b855"
    );
}

#[test]
fn digest_strings_differ_in_length() {
    assert_eq!(Blockchain::hash("abc").len(), 61);
    assert_eq!(Blockchain::hash("").len(), 64);
}

#[test]
fn hash_is_repeatable() {
    assert_eq!(Blockchain::hash("some record"), Blockchain::hash("some record"));
    assert_ne!(Blockchain::hash("some record"), Blockchain::hash("some other record"));
}

#[test]
fn transaction_canonical_text() {
    assert_eq!(
        tx("Root", "minerA", "100.0").canonical(),
        "{\"sender\":\"Root\",\"receiver\":\"minerA\",\"amount\":100.0}"
    );
}

#[test]
fn transaction_canonical_text_escapes_strings() {
    assert_eq!(
        tx("a\"b", "c\nd", "1.5").canonical(),
        "{\"sender\":\"a\\\"b\",\"receiver\":\"c\\nd\",\"amount\":1.5}"
    );
}

#[test]
fn transaction_canonical_text_escapes_control_characters_only() {
    assert_eq!(
        tx("\u{1}\u{8}\u{9}\u{c}\r\u{1f}", "\u{7f}/\u{e9}\u{20ac} '", "0.0").canonical(),
        "{\"sender\":\"\\u0001\\b\\t\\f\\r\\u001f\",\"receiver\":\"\u{7f}/\u{e9}\u{20ac} '\",\"amount\":0.0}"
    );
}

#[test]
fn amount_text_is_the_json_number_of_the_amount() {
    assert_eq!(serde_json::to_string(&100.0f32).unwrap(), "100.0");
    assert_eq!(serde_json::to_string(&2.5f32).unwrap(), "2.5");
}

#[test]
fn transaction_digest_value() {
    assert_eq!(
        tx("Root", "minerA", "100.0").digest(),
        "5b3d8a6afa970e449dfad4a1b6b865bb5c16dac42c228a81bcd68792cce53"
    );
}

#[test]
fn header_canonical_text() {
    let header = Blockheader {
        timestamp: 1000,
        nonce: 337,
        difficulty: 1,
        prev_hash: "0@".to_string(),
        merkle: "17b6d6cf8a2de3329e5e365cdd8f56d58506156f6302a2610ee5b29f58d3".to_string(),
    };
    assert_eq!(
        header.canonical(),
        "{\"timestamp\":1000,\"nonce\":337,\"difficulty\":1,\"prev_hash\":\"0@\",\"merkle\":\"17b6d6cf8a2de3329e5e365cdd8f56d58506156f6302a2610ee5b29f58d3\"}"
    );
    assert_eq!(
        header.digest(),
        "04883f324f1b4646c6e893ef42dbf4e1371f266cb623586279fffc1ffe1f88"
    );
}

#[test]
fn header_canonical_text_with_negative_timestamp_and_escapes() {
    let header = Blockheader {
        timestamp: -5,
        nonce: 3,
        difficulty: 2,
        prev_hash: "a\"b".to_string(),
        merkle: "x\\y".to_string(),
    };
    assert_eq!(
        header.canonical(),
        "{\"timestamp\":-5,\"nonce\":3,\"difficulty\":2,\"prev_hash\":\"a\\\"b\",\"merkle\":\"x\\\\y\"}"
    );
    assert_eq!(
        header.digest(),
        "bb6fe2d9756ef4abe95cef9a9fb9353e6fedd9c45a9e43b98a3b20513cd84ee"
    );
}

#[test]
fn header_canonical_text_at_the_limits() {
    let header = Blockheader {
        timestamp: i64::MIN,
        nonce: u32::MAX,
        difficulty: 0,
        prev_hash: String::new(),
        merkle: String::new(),
    };
    assert_eq!(
        header.canonical(),
        "{\"timestamp\":-9223372036854775808,\"nonce\":4294967295,\"difficulty\":0,\"prev_hash\":\"\",\"merkle\":\"\"}"
    );
}
