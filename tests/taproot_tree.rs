use bitcoin_vm::hash::{tagged_hash, HashTag};
use bitcoin_vm::taproot::{
    hash_tap_branch, hash_tap_leaf, hash_tap_tweak, key_parity, spk_of, x_only, Parity, TapBranch,
    TapLeaf, TapRoot, TaprootError,
};

fn h(s: &str) -> Vec<u8> {
    hex::decode(s).unwrap()
}

const G_X: &str = "79be667ef9dcbbac55a06295ce870b07029bfcdb2dce28d959f2815b16f81798";

#[test]
fn tagged_hash_known_answers() {
    let data = b"abc";
    assert_eq!(
        tagged_hash(data, HashTag::TapLeafTag).to_vec(),
        h("83a56308a9c56f467e8df293da5ae5fdbc85b871952a83c4bf0575ee948ec230")
    );
    assert_eq!(
        tagged_hash(data, HashTag::TapBranchTag).to_vec(),
        h("d695f69898df4e3f1dbdb34be238218be5ee53c7deb2493a5345aa9154660b70")
    );
    assert_eq!(
        tagged_hash(data, HashTag::TapTweakTag).to_vec(),
        h("b4db0a539110ab84dac5af069f081eee7e3becbf970e6705d20f59ea9b4eb1f8")
    );
    assert_eq!(
        tagged_hash(data, HashTag::SighashTransfer).to_vec(),
        h("aae3f1be7afd128716527f6f5ea343badd9fd524049b645b62416db2aca2dedd")
    );
}

#[test]
fn tagged_hash_separates_domains() {
    let tags = [
        HashTag::TapLeafTag,
        HashTag::TapBranchTag,
        HashTag::TapTweakTag,
        HashTag::SighashTransfer,
    ];
    for data in [&b""[..], &b"abc"[..], &[0u8; 64][..]] {
        for i in 0..tags.len() {
            for j in 0..tags.len() {
                if i != j {
                    assert_ne!(tagged_hash(data, tags[i]), tagged_hash(data, tags[j]));
                }
            }
        }
    }
}

#[test]
fn leaf_hashes() {
    let a = TapLeaf::new(h("51")).unwrap();
    assert_eq!(
        a.hash().to_vec(),
        h("a85b2107f791b26a84e7586c28cec7cb61202ed3d01944d832500f363782d675")
    );
    assert_eq!(a.hash_as_vec(), a.hash().to_vec());
    assert_eq!(hash_tap_leaf(&h("51"), 0xc0), Ok(a.hash()));
    let b = TapLeaf::new_version(h("5252"), 0xc0).unwrap();
    assert_eq!(
        b.hash().to_vec(),
        h("9e669e9aefbade72836f53a44e29e4ee08ec5859a739b2b803d98d9b8e933c0b")
    );
    assert_ne!(TapLeaf::new_version(h("51"), 0xc2).unwrap().hash(), a.hash());
}

#[test]
fn branch_order_does_not_matter() {
    let a = TapLeaf::new(h("51")).unwrap();
    let b = TapLeaf::new(h("5252")).unwrap();
    let ab = TapBranch::new(a.into_branch(), b.into_branch());
    let ba = TapBranch::new(b.into_branch(), a.into_branch());
    let expected = h("9441db4ac2410623811b40fdb0291dda1dc3f05028763469835f2093e001800c");
    assert_eq!(ab.hash().to_vec(), expected);
    assert_eq!(ba.hash().to_vec(), expected);
    assert_eq!(ab.hash_as_vec(), expected);
    assert_eq!(hash_tap_branch(&b.hash_as_vec(), &a.hash_as_vec()).to_vec(), expected);
    assert_ne!(hash_tap_branch(&a.hash_as_vec(), &b.hash_as_vec()).to_vec(), expected);

    let c = TapLeaf::new(h("53")).unwrap();
    let left = TapBranch::new(ab.into_branch(), c.into_branch());
    let right = TapBranch::new(c.into_branch(), ba.into_branch());
    assert_eq!(left.hash(), right.hash());
}

#[test]
fn root_tweak_and_output_script() {
    let a = TapLeaf::new(h("51")).unwrap();
    let b = TapLeaf::new(h("5252")).unwrap();
    let tree = TapBranch::new(a.into_branch(), b.into_branch()).into_branch();
    let mut key = [0u8; 33];
    key[0] = 0x02;
    key[1..].copy_from_slice(&h(G_X));
    let root = TapRoot::new(key, tree);
    assert_eq!(root.inner_key_full(), key);
    let expected_tweak = h("c48e1e4950a713242e77831fbcba62edc6b62fdc58ae5ae9ed001f72d9e9403f");
    assert_eq!(root.tap_tweak().to_vec(), expected_tweak);
    let branch_hash = h("9441db4ac2410623811b40fdb0291dda1dc3f05028763469835f2093e001800c");
    assert_eq!(hash_tap_tweak(&h(G_X), &branch_hash).to_vec(), expected_tweak);
    let tweaked = root.tweaked_key().unwrap();
    assert_eq!(
        tweaked.to_vec(),
        h("0379aedb05189af7096413121f55bafad1e969aef39ea6ed094c63f69a98c1477d")
    );
    assert_eq!(root.tweaked_key_parity().unwrap(), Parity::Odd);
    assert_eq!(
        root.tweaked_key_x_only().unwrap().to_vec(),
        h("79aedb05189af7096413121f55bafad1e969aef39ea6ed094c63f69a98c1477d")
    );
    assert_eq!(
        root.spk().unwrap(),
        h("512079aedb05189af7096413121f55bafad1e969aef39ea6ed094c63f69a98c1477d")
    );
}

#[test]
fn odd_key_normalized_to_even() {
    let mut even = [0u8; 33];
    even[0] = 0x02;
    even[1..].copy_from_slice(&h(G_X));
    let mut odd = even;
    odd[0] = 0x03;
    let leaf = TapLeaf::new(h("51")).unwrap();
    let from_even = TapRoot::new(even, leaf.into_branch());
    let from_odd = TapRoot::new(odd, leaf.into_branch());
    assert_eq!(from_odd.inner_key_full(), even);
    assert_eq!(from_odd.tap_tweak(), from_even.tap_tweak());
    assert_eq!(from_odd.spk().unwrap(), from_even.spk().unwrap());
}

#[test]
fn key_helpers() {
    let mut key = [7u8; 33];
    key[0] = 0x03;
    assert_eq!(key_parity(&key), Parity::Odd);
    assert_eq!(x_only(&key), [7u8; 32]);
    let spk = spk_of(&key);
    assert_eq!(&spk[..2], &[0x51, 0x20]);
    assert_eq!(&spk[2..], &[7u8; 32]);
    key[0] = 0x02;
    assert_eq!(key_parity(&key), Parity::Even);
}

#[test]
fn long_scripts_are_refused() {
    assert!(TapLeaf::new(vec![0x51; 255]).is_ok());
    assert!(matches!(TapLeaf::new(vec![0x51; 256]), Err(TaprootError::ScriptTooLong)));
    assert!(matches!(
        TapLeaf::new_version(vec![0x51; 300], 0xc0),
        Err(TaprootError::ScriptTooLong)
    ));
    assert_eq!(hash_tap_leaf(&vec![0x51; 256], 0xc0), Err(TaprootError::ScriptTooLong));
    assert!(hash_tap_leaf(&vec![0x51; 255], 0xc0).is_ok());
}

#[test]
fn equal_children_branch() {
    let a = TapLeaf::new(h("51")).unwrap();
    let twin = TapBranch::new(a.into_branch(), a.into_branch());
    assert_eq!(hash_tap_branch(&a.hash_as_vec(), &a.hash_as_vec()), twin.hash());
}
