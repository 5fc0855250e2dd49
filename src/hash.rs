use sha2::Digest;
use vstd::prelude::*;

use crate::prefix::append_bytes;

verus! {

/// The SHA-256 digest of a byte string.
pub uninterp spec fn sha256_of(data: Seq<u8>) -> Seq<u8>;

/// Relies on sha2's `Sha256::digest`: the SHA-256 digest of `data`, a function of the bytes alone.
#[verifier::external_body]
fn sha256(data: &[u8]) -> (r: [u8; 32])
    ensures
        r@ == sha256_of(data@),
{
    sha2::Sha256::digest(data).into()
}

/// The purpose a tagged hash is computed for; each has its own domain string.
#[derive(Clone, Copy, Debug, PartialEq, Eq, Structural)]
pub enum HashTag {
    TapLeafTag,
    TapBranchTag,
    TapTweakTag,
    SighashTransfer,
}

/// The ASCII domain string of a tag.
pub open spec fn tag_bytes(tag: HashTag) -> Seq<u8> {
    match tag {
        // "TapLeaf"
        HashTag::TapLeafTag => seq![0x54u8, 0x61, 0x70, 0x4c, 0x65, 0x61, 0x66],
        // "TapBranch"
        HashTag::TapBranchTag => seq![0x54u8, 0x61, 0x70, 0x42, 0x72, 0x61, 0x6e, 0x63, 0x68],
        // "TapTweak"
        HashTag::TapTweakTag => seq![0x54u8, 0x61, 0x70, 0x54, 0x77, 0x65, 0x61, 0x6b],
        // "Sighash/Transfer"
        HashTag::SighashTransfer => seq![
            0x53u8, 0x69, 0x67, 0x68, 0x61, 0x73, 0x68, 0x2f,
            0x54, 0x72, 0x61, 0x6e, 0x73, 0x66, 0x65, 0x72,
        ],
    }
}

/// `SHA256(SHA256(tag) || SHA256(tag) || data)`.
pub open spec fn tagged_hash_spec(data: Seq<u8>, tag: HashTag) -> Seq<u8> {
    let t = sha256_of(tag_bytes(tag));
    sha256_of(t + t + data)
}

fn tag_name(tag: HashTag) -> (r: Vec<u8>)
    ensures
        r@ == tag_bytes(tag),
{
    let r = match tag {
        HashTag::TapLeafTag => vec![0x54u8, 0x61, 0x70, 0x4c, 0x65, 0x61, 0x66],
        HashTag::TapBranchTag => vec![0x54u8, 0x61, 0x70, 0x42, 0x72, 0x61, 0x6e, 0x63, 0x68],
        HashTag::TapTweakTag => vec![0x54u8, 0x61, 0x70, 0x54, 0x77, 0x65, 0x61, 0x6b],
        HashTag::SighashTransfer => vec![
            0x53u8, 0x69, 0x67, 0x68, 0x61, 0x73, 0x68, 0x2f,
            0x54, 0x72, 0x61, 0x6e, 0x73, 0x66, 0x65, 0x72,
        ],
    };
    assert(r@ =~= tag_bytes(tag));
    r
}

/// The tagged hash of `data` under the domain of `tag`.
pub fn tagged_hash(data: &[u8], tag: HashTag) -> (r: [u8; 32])
    ensures
        r@ == tagged_hash_spec(data@, tag),
{
    let name = tag_name(tag);
    let tag_digest = sha256(name.as_slice());
    let mut preimage: Vec<u8> = Vec::new();
    append_bytes(&mut preimage, &tag_digest);
    append_bytes(&mut preimage, &tag_digest);
    append_bytes(&mut preimage, data);
    sha256(preimage.as_slice())
}

/// Distinct tags have distinct domain strings.
pub proof fn lemma_tags_distinct(a: HashTag, b: HashTag)
    requires
        a != b,
    ensures
        tag_bytes(a) != tag_bytes(b),
{
    if tag_bytes(a) == tag_bytes(b) {
        assert(tag_bytes(a).len() == tag_bytes(b).len());
    }
}

} // verus!
