use musig2::secp256k1;
use vstd::prelude::*;

use crate::hash::{tagged_hash, tagged_hash_spec, HashTag};
use crate::prefix::append_bytes;

verus! {

/// The leaf version of a plain tapscript leaf.
pub const LEAF_VERSION: u8 = 0xc0;

/// `a` orders strictly before `b`, byte by byte, most significant byte first; a proper prefix
/// orders first.
pub open spec fn lex_less(a: Seq<u8>, b: Seq<u8>) -> bool {
    (exists|i: int|
        0 <= i < a.len() && i < b.len() && a[i] < b[i] && (forall|j: int|
            0 <= j < i ==> a[j] == b[j]))
    || (a.len() < b.len() && forall|j: int| 0 <= j < a.len() ==> a[j] == b[j])
}

/// The leaf hash: tagged over `version || script length || script`.
pub open spec fn tap_leaf_hash_spec(script: Seq<u8>, version: u8) -> Seq<u8> {
    tagged_hash_spec(seq![version, script.len() as u8] + script, HashTag::TapLeafTag)
}

/// The branch hash of two ordered child hashes.
pub open spec fn tap_branch_hash_spec(left: Seq<u8>, right: Seq<u8>) -> Seq<u8> {
    tagged_hash_spec(left + right, HashTag::TapBranchTag)
}

/// The tweak hash of an x-only inner key and a tree root hash.
pub open spec fn tap_tweak_hash_spec(inner_key: Seq<u8>, root: Seq<u8>) -> Seq<u8> {
    tagged_hash_spec(inner_key + root, HashTag::TapTweakTag)
}

/// The hash of a branch over two children with hashes `a` and `b`: in the order given, unless
/// `b` orders strictly before `a`.
pub open spec fn combined_hash(a: Seq<u8>, b: Seq<u8>) -> Seq<u8> {
    if !lex_less(b, a) {
        tap_branch_hash_spec(a, b)
    } else {
        tap_branch_hash_spec(b, a)
    }
}

/// The shape and contents of a commitment tree: leaves with their version and script.
pub enum TreeView {
    Leaf(u8, Seq<u8>),
    Node(Box<TreeView>, Box<TreeView>),
}

/// One node reference in a commitment tree.
pub enum Branch {
    Leaf(TapLeaf),
    Branch(Box<TapBranch>),
}

/// A script leaf.
pub struct TapLeaf {
    leaf_version: u8,
    tap_script: Vec<u8>,
}

/// An inner node; its left child has the smaller hash.
pub struct TapBranch {
    left_branch: Branch,
    right_branch: Branch,
}

impl TapLeaf {
    /// The leaf version.
    pub closed spec fn version(self) -> u8 {
        self.leaf_version
    }

    /// The script bytes.
    pub closed spec fn script(self) -> Seq<u8> {
        self.tap_script@
    }

    /// The script length fits the single length byte of the leaf hash.
    pub open spec fn wf(self) -> bool {
        self.script().len() <= 255
    }

    pub open spec fn hash_spec(self) -> Seq<u8> {
        tap_leaf_hash_spec(self.script(), self.version())
    }

    /// A leaf of the plain tapscript version; a script longer than 255 bytes is refused.
    pub fn new(tap_script: Vec<u8>) -> (r: Result<TapLeaf, TaprootError>)
        ensures
            tap_script@.len() <= 255 <==> r is Ok,
            r matches Ok(l) ==> l.script() == tap_script@ && l.version() == LEAF_VERSION
                && l.wf(),
            r matches Err(e) ==> e == TaprootError::ScriptTooLong,
    {
        TapLeaf::new_version(tap_script, LEAF_VERSION)
    }

    /// A leaf of the given version; a script longer than 255 bytes is refused.
    pub fn new_version(tap_script: Vec<u8>, leaf_version: u8) -> (r: Result<
        TapLeaf,
        TaprootError,
    >)
        ensures
            tap_script@.len() <= 255 <==> r is Ok,
            r matches Ok(l) ==> l.script() == tap_script@ && l.version() == leaf_version
                && l.wf(),
            r matches Err(e) ==> e == TaprootError::ScriptTooLong,
    {
        if tap_script.len() > 255 {
            return Err(TaprootError::ScriptTooLong);
        }
        Ok(TapLeaf { leaf_version, tap_script })
    }

    pub fn hash(&self) -> (r: [u8; 32])
        requires
            self.wf(),
        ensures
            r@ == self.hash_spec(),
    {
        leaf_hash(&self.tap_script, self.leaf_version)
    }

    pub fn hash_as_vec(&self) -> (r: Vec<u8>)
        requires
            self.wf(),
        ensures
            r@ == self.hash_spec(),
    {
        let h = self.hash();
        let mut r: Vec<u8> = Vec::new();
        append_bytes(&mut r, &h);
        r
    }

    fn copy(&self) -> (r: TapLeaf)
        ensures
            r.script() == self.script(),
            r.version() == self.version(),
    {
        let mut tap_script: Vec<u8> = Vec::new();
        append_bytes(&mut tap_script, self.tap_script.as_slice());
        let r = TapLeaf { leaf_version: self.leaf_version, tap_script };
        assert(r.tap_script@ =~= self.tap_script@);
        r
    }

    /// This leaf as a tree node.
    pub fn into_branch(&self) -> (r: Branch)
        ensures
            r matches Branch::Leaf(l) && l.script() == self.script() && l.version()
                == self.version(),
            r.tree() == TreeView::Leaf(self.version(), self.script()),
            r.hash_spec() == self.hash_spec(),
            r.wf() == self.wf(),
    {
        Branch::Leaf(self.copy())
    }
}

impl Branch {
    /// The tree under this node.
    pub closed spec fn tree(self) -> TreeView
        decreases self,
    {
        match self {
            Branch::Leaf(l) => TreeView::Leaf(l.leaf_version, l.tap_script@),
            Branch::Branch(b) => TreeView::Node(
                Box::new(b.left_branch.tree()),
                Box::new(b.right_branch.tree()),
            ),
        }
    }

    /// The node's hash: a leaf hash, or the branch hash of its children in stored order.
    pub closed spec fn hash_spec(self) -> Seq<u8>
        decreases self,
    {
        match self {
            Branch::Leaf(l) => tap_leaf_hash_spec(l.tap_script@, l.leaf_version),
            Branch::Branch(b) => tap_branch_hash_spec(
                b.left_branch.hash_spec(),
                b.right_branch.hash_spec(),
            ),
        }
    }

    /// Every leaf script fits a length byte, and in every inner node the right child's hash
    /// does not order before the left child's.
    pub closed spec fn wf(self) -> bool
        decreases self,
    {
        match self {
            Branch::Leaf(l) => l.wf(),
            Branch::Branch(b) => b.left_branch.wf() && b.right_branch.wf() && !lex_less(
                b.right_branch.hash_spec(),
                b.left_branch.hash_spec(),
            ),
        }
    }
}

impl TapBranch {
    /// The left child.
    pub closed spec fn left(self) -> Branch {
        self.left_branch
    }

    /// The right child.
    pub closed spec fn right(self) -> Branch {
        self.right_branch
    }

    pub open spec fn hash_spec(self) -> Seq<u8> {
        tap_branch_hash_spec(self.left().hash_spec(), self.right().hash_spec())
    }

    pub open spec fn wf(self) -> bool {
        self.left().wf() && self.right().wf() && !lex_less(
            self.right().hash_spec(),
            self.left().hash_spec(),
        )
    }

    /// The branch over two nodes, the one with the smaller hash on the left.
    pub fn new(first: Branch, second: Branch) -> (r: TapBranch)
        requires
            first.wf(),
            second.wf(),
        ensures
            r.wf(),
            r.hash_spec() == combined_hash(first.hash_spec(), second.hash_spec()),
            if !lex_less(second.hash_spec(), first.hash_spec()) {
                r.left() == first && r.right() == second
            } else {
                r.left() == second && r.right() == first
            },
    {
        let first_hash = node_hash(&first);
        let second_hash = node_hash(&second);
        if !bytes_less(&second_hash, &first_hash) {
            TapBranch { left_branch: first, right_branch: second }
        } else {
            proof {
                lemma_lex_asymmetric(first.hash_spec(), second.hash_spec());
            }
            TapBranch { left_branch: second, right_branch: first }
        }
    }

    pub fn hash(&self) -> (r: [u8; 32])
        requires
            self.wf(),
        ensures
            r@ == self.hash_spec(),
    {
        let left = node_hash(&self.left_branch);
        let right = node_hash(&self.right_branch);
        branch_hash(&left, &right)
    }

    pub fn hash_as_vec(&self) -> (r: Vec<u8>)
        requires
            self.wf(),
        ensures
            r@ == self.hash_spec(),
    {
        let h = self.hash();
        let mut r: Vec<u8> = Vec::new();
        append_bytes(&mut r, &h);
        r
    }

    /// This branch as a tree node.
    pub fn into_branch(&self) -> (r: Branch)
        ensures
            r matches Branch::Branch(b) && b.left().tree() == self.left().tree()
                && b.right().tree() == self.right().tree(),
            r.hash_spec() == self.hash_spec(),
            r.wf() == self.wf(),
    {
        let left = copy_node(&self.left_branch);
        let right = copy_node(&self.right_branch);
        Branch::Branch(Box::new(TapBranch { left_branch: left, right_branch: right }))
    }
}

fn copy_node(b: &Branch) -> (r: Branch)
    ensures
        r.tree() == b.tree(),
        r.hash_spec() == b.hash_spec(),
        r.wf() == b.wf(),
    decreases b,
{
    match b {
        Branch::Leaf(l) => Branch::Leaf(l.copy()),
        Branch::Branch(inner) => {
            let left = copy_node(&inner.left_branch);
            let right = copy_node(&inner.right_branch);
            Branch::Branch(Box::new(TapBranch { left_branch: left, right_branch: right }))
        },
    }
}

fn node_hash(b: &Branch) -> (r: [u8; 32])
    requires
        b.wf(),
    ensures
        r@ == b.hash_spec(),
    decreases b,
{
    match b {
        Branch::Leaf(l) => leaf_hash(&l.tap_script, l.leaf_version),
        Branch::Branch(inner) => {
            let left = node_hash(&inner.left_branch);
            let right = node_hash(&inner.right_branch);
            branch_hash(&left, &right)
        },
    }
}

fn branch_hash(left: &[u8; 32], right: &[u8; 32]) -> (r: [u8; 32])
    ensures
        r@ == tap_branch_hash_spec(left@, right@),
{
    let mut data: Vec<u8> = Vec::new();
    append_bytes(&mut data, left);
    append_bytes(&mut data, right);
    tagged_hash(data.as_slice(), HashTag::TapBranchTag)
}

/// Byte-wise comparison of two digests.
fn bytes_less(a: &[u8; 32], b: &[u8; 32]) -> (r: bool)
    ensures
        r == lex_less(a@, b@),
{
    let mut i: usize = 0;
    while i < 32
        invariant
            i <= 32,
            a@.len() == 32,
            b@.len() == 32,
            forall|j: int| 0 <= j < i ==> a@[j] == b@[j],
        decreases 32 - i,
    {
        if a[i] != b[i] {
            if a[i] < b[i] {
                assert(lex_less(a@, b@));
                return true;
            } else {
                assert(!lex_less(a@, b@)) by {
                    if exists|k: int|
                        0 <= k < a@.len() && k < b@.len() && a@[k] < b@[k] && (forall|j: int|
                            0 <= j < k ==> a@[j] == b@[j]) {
                        let k = choose|k: int|
                            0 <= k < a@.len() && k < b@.len() && a@[k] < b@[k] && (forall|
                                j: int,
                            |
                                0 <= j < k ==> a@[j] == b@[j]);
                        if k > i {
                            assert(a@[i as int] == b@[i as int]);
                        }
                    }
                }
                return false;
            }
        }
        i = i + 1;
    }
    false
}

/// No two byte strings each order before the other.
pub proof fn lemma_lex_asymmetric(a: Seq<u8>, b: Seq<u8>)
    ensures
        !(lex_less(a, b) && lex_less(b, a)),
{
    if lex_less(a, b) && lex_less(b, a) {
        if exists|i: int|
            0 <= i < a.len() && i < b.len() && a[i] < b[i] && (forall|j: int|
                0 <= j < i ==> a[j] == b[j]) {
            let i = choose|i: int|
                0 <= i < a.len() && i < b.len() && a[i] < b[i] && (forall|j: int|
                    0 <= j < i ==> a[j] == b[j]);
            if exists|k: int|
                0 <= k < b.len() && k < a.len() && b[k] < a[k] && (forall|j: int|
                    0 <= j < k ==> b[j] == a[j]) {
                let k = choose|k: int|
                    0 <= k < b.len() && k < a.len() && b[k] < a[k] && (forall|j: int|
                        0 <= j < k ==> b[j] == a[j]);
                if i < k {
                    assert(b[i] == a[i]);
                } else if k < i {
                    assert(a[k] == b[k]);
                }
            } else {
                assert(b[i] == a[i]);
            }
        } else {
            if exists|k: int|
                0 <= k < b.len() && k < a.len() && b[k] < a[k] && (forall|j: int|
                    0 <= j < k ==> b[j] == a[j]) {
                let k = choose|k: int|
                    0 <= k < b.len() && k < a.len() && b[k] < a[k] && (forall|j: int|
                        0 <= j < k ==> b[j] == a[j]);
                assert(a[k] == b[k]);
            }
        }
    }
}

proof fn lemma_lex_total_from(a: Seq<u8>, b: Seq<u8>, i: int)
    requires
        a != b,
        0 <= i <= a.len(),
        i <= b.len(),
        forall|j: int| 0 <= j < i ==> a[j] == b[j],
    ensures
        lex_less(a, b) || lex_less(b, a),
    decreases a.len() - i,
{
    if i == a.len() || i == b.len() {
        if a.len() == b.len() {
            assert(a =~= b);
        }
    } else if a[i] == b[i] {
        lemma_lex_total_from(a, b, i + 1);
    } else if a[i] < b[i] {
        assert(lex_less(a, b));
    } else {
        assert(lex_less(b, a));
    }
}

/// Two different byte strings are ordered one way or the other.
pub proof fn lemma_lex_total(a: Seq<u8>, b: Seq<u8>)
    requires
        a != b,
    ensures
        lex_less(a, b) || lex_less(b, a),
{
    lemma_lex_total_from(a, b, 0);
}

/// A branch hash does not depend on the order in which its two children were given.
pub proof fn lemma_branch_order_independent(a: Branch, b: Branch)
    ensures
        combined_hash(a.hash_spec(), b.hash_spec()) == combined_hash(b.hash_spec(), a.hash_spec()),
{
    let ha = a.hash_spec();
    let hb = b.hash_spec();
    lemma_lex_asymmetric(ha, hb);
    if ha != hb {
        lemma_lex_total(ha, hb);
    }
}

/// The result of adding `tweak * G` to the compressed public key `key`, as a compressed key;
/// none where the key or the tweak is invalid or the sum is the point at infinity.
pub uninterp spec fn tweak_add_of(key: Seq<u8>, tweak: Seq<u8>) -> Option<Seq<u8>>;

/// Relies on secp256k1's `PublicKey::add_exp_tweak`, with the key parsed by
/// `PublicKey::from_byte_array_compressed`, the tweak by `Scalar::from_be_bytes`, and the sum
/// written back by `PublicKey::serialize`.
#[verifier::external_body]
fn add_exp_tweak(key: [u8; 33], tweak: [u8; 32]) -> (r: Option<[u8; 33]>)
    ensures
        match r {
            Some(k) => tweak_add_of(key@, tweak@) == Some(k@),
            None => tweak_add_of(key@, tweak@) is None,
        },
{
    let pk = secp256k1::PublicKey::from_byte_array_compressed(key).ok()?;
    let scalar = secp256k1::Scalar::from_be_bytes(tweak).ok()?;
    let sum = pk.add_exp_tweak(&secp256k1::Secp256k1::new(), &scalar).ok()?;
    Some(sum.serialize())
}

/// The parity of a point's y coordinate.
#[derive(Clone, Copy, Debug, PartialEq, Eq, Structural)]
pub enum Parity {
    Even,
    Odd,
}

/// Why a leaf or an output key cannot be built.
#[derive(Clone, Copy, Debug, PartialEq, Eq, Structural)]
pub enum TaprootError {
    /// A leaf script longer than its one length byte can state.
    ScriptTooLong,
    /// The tweaked key is not a valid point.
    KeyTweakError,
}

/// A compressed public key: a parity byte (2 even, 3 odd) and the x coordinate.
pub open spec fn is_compressed_key(key: Seq<u8>) -> bool {
    key.len() == 33 && (key[0] == 2 || key[0] == 3)
}

/// The same point negated: same x coordinate, the other parity.
pub open spec fn negated_key(key: Seq<u8>) -> Seq<u8> {
    seq![if key[0] == 2 { 3u8 } else { 2u8 }] + key.subrange(1, 33)
}

/// The witness program that pays to an x-only output key: segwit version 1, a 32-byte push.
pub open spec fn spk_spec(x_only: Seq<u8>) -> Seq<u8> {
    seq![0x51u8, 0x20u8] + x_only
}

/// A commitment tree under an inner key of even parity.
pub struct TapRoot {
    inner_key: [u8; 32],
    uppermost_branch: Branch,
}

impl TapRoot {
    /// The inner key as an x-only key.
    pub closed spec fn inner(self) -> Seq<u8> {
        self.inner_key@
    }

    /// The tree.
    pub closed spec fn root(self) -> Branch {
        self.uppermost_branch
    }

    pub open spec fn wf(self) -> bool {
        self.root().wf()
    }

    /// The tweak hash of this root.
    pub open spec fn tap_tweak_spec(self) -> Seq<u8> {
        tap_tweak_hash_spec(self.inner(), self.root().hash_spec())
    }

    /// The inner key, negated first where its parity is odd, kept as its x coordinate.
    pub fn new(key: [u8; 33], branch: Branch) -> (r: TapRoot)
        requires
            is_compressed_key(key@),
        ensures
            r.inner() == key@.subrange(1, 33),
            r.root() == branch,
    {
        // Negating a point keeps its x coordinate, so both parities give the same x-only key.
        let mut inner_key: [u8; 32] = [0u8; 32];
        let mut i: usize = 0;
        while i < 32
            invariant
                i <= 32,
                key@.len() == 33,
                inner_key@.len() == 32,
                forall|j: int| 0 <= j < i ==> inner_key@[j] == key@[j + 1],
            decreases 32 - i,
        {
            inner_key[i] = key[i + 1];
            i = i + 1;
        }
        assert(inner_key@ =~= key@.subrange(1, 33));
        TapRoot { inner_key, uppermost_branch: branch }
    }

    /// The inner key with even parity, compressed.
    pub fn inner_key_full(&self) -> (r: [u8; 33])
        ensures
            r@ == seq![2u8] + self.inner(),
    {
        let mut r: [u8; 33] = [2u8; 33];
        let mut i: usize = 0;
        while i < 32
            invariant
                i <= 32,
                r@.len() == 33,
                r@[0] == 2,
                self.inner_key@.len() == 32,
                forall|j: int| 0 <= j < i ==> r@[j + 1] == self.inner_key@[j],
            decreases 32 - i,
        {
            r[i + 1] = self.inner_key[i];
            i = i + 1;
        }
        assert(r@ =~= seq![2u8] + self.inner());
        r
    }

    pub fn tap_tweak(&self) -> (r: [u8; 32])
        requires
            self.wf(),
        ensures
            r@ == self.tap_tweak_spec(),
    {
        let root = node_hash(&self.uppermost_branch);
        let mut data: Vec<u8> = Vec::new();
        append_bytes(&mut data, &self.inner_key);
        append_bytes(&mut data, &root);
        tagged_hash(data.as_slice(), HashTag::TapTweakTag)
    }

    /// The output key: the even inner key plus the tweak times the generator.
    pub fn tweaked_key(&self) -> (r: Result<[u8; 33], TaprootError>)
        requires
            self.wf(),
        ensures
            match r {
                Ok(k) => tweak_add_of(seq![2u8] + self.inner(), self.tap_tweak_spec()) == Some(
                    k@,
                ),
                Err(_) => tweak_add_of(seq![2u8] + self.inner(), self.tap_tweak_spec()) is None,
            },
    {
        let tweak = self.tap_tweak();
        match add_exp_tweak(self.inner_key_full(), tweak) {
            Some(k) => Ok(k),
            None => Err(TaprootError::KeyTweakError),
        }
    }

    pub fn tweaked_key_parity(&self) -> (r: Result<Parity, TaprootError>)
        requires
            self.wf(),
        ensures
            match r {
                Ok(p) => exists|k: Seq<u8>|
                    tweak_add_of(seq![2u8] + self.inner(), self.tap_tweak_spec()) == Some(k)
                        && parity_of(k) == p,
                Err(_) => tweak_add_of(seq![2u8] + self.inner(), self.tap_tweak_spec()) is None,
            },
    {
        match self.tweaked_key() {
            Ok(k) => Ok(key_parity(&k)),
            Err(e) => Err(e),
        }
    }

    pub fn tweaked_key_x_only(&self) -> (r: Result<[u8; 32], TaprootError>)
        requires
            self.wf(),
        ensures
            match r {
                Ok(x) => exists|k: Seq<u8>|
                    tweak_add_of(seq![2u8] + self.inner(), self.tap_tweak_spec()) == Some(k)
                        && x@ == k.subrange(1, 33),
                Err(_) => tweak_add_of(seq![2u8] + self.inner(), self.tap_tweak_spec()) is None,
            },
    {
        match self.tweaked_key() {
            Ok(k) => Ok(x_only(&k)),
            Err(e) => Err(e),
        }
    }

    /// The output script that pays to this root's output key.
    pub fn spk(&self) -> (r: Result<Vec<u8>, TaprootError>)
        requires
            self.wf(),
        ensures
            match r {
                Ok(s) => exists|k: Seq<u8>|
                    tweak_add_of(seq![2u8] + self.inner(), self.tap_tweak_spec()) == Some(k)
                        && s@ == spk_spec(k.subrange(1, 33)),
                Err(_) => tweak_add_of(seq![2u8] + self.inner(), self.tap_tweak_spec()) is None,
            },
    {
        match self.tweaked_key() {
            Ok(k) => Ok(spk_of(&k)),
            Err(e) => Err(e),
        }
    }
}

/// The parity a compressed key's first byte records.
pub open spec fn parity_of(key: Seq<u8>) -> Parity {
    if key[0] == 3 {
        Parity::Odd
    } else {
        Parity::Even
    }
}

/// The parity of a compressed key.
pub fn key_parity(key: &[u8; 33]) -> (r: Parity)
    ensures
        r == parity_of(key@),
{
    if key[0] == 3 {
        Parity::Odd
    } else {
        Parity::Even
    }
}

/// The x coordinate of a compressed key.
pub fn x_only(key: &[u8; 33]) -> (r: [u8; 32])
    ensures
        r@ == key@.subrange(1, 33),
{
    let mut r: [u8; 32] = [0u8; 32];
    let mut i: usize = 0;
    while i < 32
        invariant
            i <= 32,
            key@.len() == 33,
            r@.len() == 32,
            forall|j: int| 0 <= j < i ==> r@[j] == key@[j + 1],
        decreases 32 - i,
    {
        r[i] = key[i + 1];
        i = i + 1;
    }
    assert(r@ =~= key@.subrange(1, 33));
    r
}

/// The output script that pays to the x coordinate of a compressed output key.
pub fn spk_of(tweaked_key: &[u8; 33]) -> (r: Vec<u8>)
    ensures
        r@ == spk_spec(tweaked_key@.subrange(1, 33)),
{
    let mut r: Vec<u8> = Vec::new();
    r.push(0x51);
    r.push(0x20);
    let x = x_only(tweaked_key);
    append_bytes(&mut r, &x);
    r
}

/// A root built from a key of odd parity has the inner key of one built from its negation.
pub proof fn lemma_parity_normalized(key: Seq<u8>)
    requires
        is_compressed_key(key),
    ensures
        is_compressed_key(negated_key(key)),
        negated_key(key).subrange(1, 33) == key.subrange(1, 33),
{
    assert(negated_key(key).subrange(1, 33) =~= key.subrange(1, 33));
}

/// The leaf hash of `raw_script` under `version`; a script longer than 255 bytes has none.
pub fn hash_tap_leaf(raw_script: &Vec<u8>, version: u8) -> (r: Result<[u8; 32], TaprootError>)
    ensures
        raw_script@.len() <= 255 <==> r is Ok,
        r matches Ok(h) ==> h@ == tap_leaf_hash_spec(raw_script@, version),
        r matches Err(e) ==> e == TaprootError::ScriptTooLong,
{
    if raw_script.len() > 255 {
        return Err(TaprootError::ScriptTooLong);
    }
    Ok(leaf_hash(raw_script, version))
}

fn leaf_hash(raw_script: &Vec<u8>, version: u8) -> (r: [u8; 32])
    requires
        raw_script@.len() <= 255,
    ensures
        r@ == tap_leaf_hash_spec(raw_script@, version),
{
    let mut data: Vec<u8> = Vec::new();
    data.push(version);
    data.push(raw_script.len() as u8);
    append_bytes(&mut data, raw_script.as_slice());
    assert(data@ =~= seq![version, raw_script@.len() as u8] + raw_script@);
    tagged_hash(data.as_slice(), HashTag::TapLeafTag)
}

/// The branch hash over two child hashes, in the order given.
pub fn hash_tap_branch(left_branch: &Vec<u8>, right_branch: &Vec<u8>) -> (r: [u8; 32])
    ensures
        r@ == tap_branch_hash_spec(left_branch@, right_branch@),
{
    let mut data: Vec<u8> = Vec::new();
    append_bytes(&mut data, left_branch.as_slice());
    append_bytes(&mut data, right_branch.as_slice());
    tagged_hash(data.as_slice(), HashTag::TapBranchTag)
}

/// The tweak hash over an x-only inner key and a root hash.
pub fn hash_tap_tweak(inner_key: &Vec<u8>, tweak: &Vec<u8>) -> (r: [u8; 32])
    ensures
        r@ == tap_tweak_hash_spec(inner_key@, tweak@),
{
    let mut data: Vec<u8> = Vec::new();
    append_bytes(&mut data, inner_key.as_slice());
    append_bytes(&mut data, tweak.as_slice());
    tagged_hash(data.as_slice(), HashTag::TapTweakTag)
}

} // verus!
