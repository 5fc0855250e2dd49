use bitcoin_vm::transfer::{Account, MaybeCommon, SerializationError, ShortVal, Transfer};

fn key(s: &str) -> [u8; 32] {
    let mut k = [0u8; 32];
    k.copy_from_slice(&hex::decode(s).unwrap());
    k
}

const G_X: &str = "79be667ef9dcbbac55a06295ce870b07029bfcdb2dce28d959f2815b16f81798";
const G2_X: &str = "c6047f9441ed7d6d3045406e95c07cd85c778e4b8cef3ca7abac09b95c709ee5";

fn sample() -> Transfer {
    Transfer::new_uncommon(Account::new(key(G_X)), Account::new(key(G2_X)), ShortVal::new(1000))
}

#[test]
fn serialize_is_fixed_width() {
    let t = sample();
    let bytes = t.serialize();
    assert_eq!(bytes, hex::decode(format!("{}{}e8030000", G_X, G2_X)).unwrap());
    let mut common = t;
    common.set_to_common_index(3);
    common.set_amount_common_index(9);
    assert_eq!(common.serialize(), bytes);
}

#[test]
fn transfer_round_trip() {
    let t = sample();
    let back = Transfer::from_bytes(t.serialize()).unwrap();
    assert_eq!(back.from().key(), key(G_X));
    assert!(matches!(back.to(), MaybeCommon::Uncommon(a) if a.key() == key(G2_X)));
    assert!(matches!(back.amount(), MaybeCommon::Uncommon(v) if v.value() == 1000));

    let mut longer = t.serialize();
    longer.extend_from_slice(&[1, 2, 3]);
    let back = Transfer::from_bytes(longer).unwrap();
    assert_eq!(back.serialize(), t.serialize());
}

#[test]
fn from_bytes_errors() {
    let bytes = sample().serialize();
    assert!(matches!(
        Transfer::from_bytes(bytes[..67].to_vec()),
        Err(SerializationError::TruncatedInput)
    ));
    assert!(matches!(Transfer::from_bytes(vec![]), Err(SerializationError::TruncatedInput)));
    let mut bad_from = bytes.clone();
    bad_from[..32].copy_from_slice(&[0xff; 32]);
    assert!(matches!(Transfer::from_bytes(bad_from), Err(SerializationError::KeyParseError)));
    let mut bad_to = bytes.clone();
    bad_to[32..64].copy_from_slice(&[0xff; 32]);
    assert!(matches!(Transfer::from_bytes(bad_to), Err(SerializationError::KeyParseError)));
}

#[test]
fn sighash_known_answer_and_sensitivity() {
    let t = sample();
    let h0 = [0u8; 32];
    assert_eq!(
        t.sighash(h0).to_vec(),
        hex::decode("842aceca6e14fbd8e4dbe8529790dd51060fd2d6a4e03443b610a99d160ed9f6").unwrap()
    );
    let mut h1 = h0;
    h1[31] = 1;
    assert_ne!(t.sighash(h0), t.sighash(h1));
    let other =
        Transfer::new_uncommon(Account::new(key(G_X)), Account::new(key(G2_X)), ShortVal::new(1001));
    assert_ne!(t.sighash(h0), other.sighash(h0));
    assert_eq!(t.sighash(h1), t.sighash(h1));
}

#[test]
fn setters_replace_fields() {
    let mut t = sample();
    t.set_from_account_index(7);
    assert_eq!(t.from().account_index, Some(7));
    t.set_to_account_index(8);
    assert!(matches!(t.to(), MaybeCommon::Uncommon(a) if a.account_index == Some(8)));
    t.set_to_common_index(4);
    t.set_to_account_index(9);
    assert!(matches!(t.to(), MaybeCommon::Common(a, 4) if a.account_index == Some(9)));
    t.set_amount_common_index(2);
    assert!(matches!(t.amount(), MaybeCommon::Common(v, 2) if v.value() == 1000));
    let n = Transfer::new(
        Account::new(key(G_X)),
        MaybeCommon::Common(Account::new(key(G2_X)), 1),
        MaybeCommon::Uncommon(ShortVal::new(5)),
    );
    assert!(matches!(n.to(), MaybeCommon::Common(_, 1)));
}

#[test]
fn compact_encoding_layout() {
    let t = sample();
    let bits = t.to_cpe();
    assert_eq!(bits.len(), 2 + 257 + 258 + 33);
    assert_eq!(bits.get(0), Some(false));
    assert_eq!(bits.get(1), Some(false));
    // sender flag clear, then its key: 0x79 = 0111_1001
    assert_eq!(bits.get(2), Some(false));
    let first: Vec<bool> = (3..11).map(|i| bits.get(i).unwrap()).collect();
    assert_eq!(first, vec![false, true, true, true, true, false, false, true]);

    let mut c = t;
    c.set_from_account_index(5);
    c.set_to_common_index(3);
    c.set_amount_common_index(1);
    let bits = c.to_cpe();
    assert_eq!(bits.len(), 2 + 33 + 9 + 9);
    let all: Vec<bool> = (0..bits.len()).map(|i| bits.get(i).unwrap()).collect();
    let mut expected = vec![false, false, true];
    expected.extend((0..32).map(|i| (5u32 >> (31 - i)) & 1 == 1));
    expected.push(true);
    expected.extend((0..8).map(|i| (3u32 >> (7 - i)) & 1 == 1));
    expected.push(true);
    expected.extend((0..8).map(|i| (1u32 >> (7 - i)) & 1 == 1));
    assert_eq!(all, expected);

    let amount = ShortVal::new(6).to_cpe();
    assert_eq!(amount.len(), 32);
    assert_eq!(amount.get(29), Some(true));
    assert_eq!(amount.get(30), Some(true));
    assert_eq!(amount.get(31), Some(false));
    assert_eq!(Account::new(key(G_X)).to_cpe().len(), 257);
}
