use vstd::prelude::*;

use crate::hash::{tagged_hash, tagged_hash_spec, HashTag};
use crate::prefix::{append_bytes, append_le, le_bytes};

verus! {

/// The x-only public key encodings: 32 bytes that are the x coordinate of a curve point.
pub uninterp spec fn is_x_only_key(bytes: Seq<u8>) -> bool;

/// Relies on secp256k1's `XOnlyPublicKey::from_byte_array`, which accepts exactly the valid
/// x-only key encodings.
#[verifier::external_body]
fn x_only_key_valid(bytes: [u8; 32]) -> (r: bool)
    ensures
        r == is_x_only_key(bytes@),
{
    musig2::secp256k1::XOnlyPublicKey::from_byte_array(bytes).is_ok()
}

/// An account: its x-only key and, once registered, its index.
#[derive(Clone, Copy)]
pub struct Account {
    pub key: [u8; 32],
    pub account_index: Option<u32>,
}

impl Account {
    pub fn new(key: [u8; 32]) -> (r: Account)
        ensures
            r.key@ == key@,
            r.account_index == None::<u32>,
    {
        Account { key, account_index: None }
    }

    pub fn key(&self) -> (r: [u8; 32])
        ensures
            r@ == self.key@,
    {
        self.key
    }

    pub fn set_account_index(&mut self, account_index: u32)
        ensures
            final(self).key@ == old(self).key@,
            final(self).account_index == Some(account_index),
    {
        self.account_index = Some(account_index);
    }
}

/// An amount.
#[derive(Clone, Copy, PartialEq, Eq, Structural)]
pub struct ShortVal {
    pub value: u32,
}

impl ShortVal {
    pub fn new(value: u32) -> (r: ShortVal)
        ensures
            r.value == value,
    {
        ShortVal { value }
    }

    pub fn value(&self) -> (r: u32)
        ensures
            r == self.value,
    {
        self.value
    }
}

/// A value, possibly tagged with an index into a table of common values.
#[derive(Clone, Copy)]
pub enum MaybeCommon<T> {
    Uncommon(T),
    Common(T, u8),
}

impl<T> MaybeCommon<T> {
    /// The value, whichever the variant.
    pub open spec fn inner(self) -> T {
        match self {
            MaybeCommon::Uncommon(v) => v,
            MaybeCommon::Common(v, _) => v,
        }
    }
}

/// Why a byte string is not a serialized transfer.
#[derive(Clone, Copy, Debug, PartialEq, Eq, Structural)]
pub enum SerializationError {
    TruncatedInput,
    KeyParseError,
}

/// Moves a value from one account to another.
#[derive(Clone, Copy)]
pub struct Transfer {
    from: Account,
    to: MaybeCommon<Account>,
    amount: MaybeCommon<ShortVal>,
}

/// The fixed serialization: `from key || to key || amount as u32 little-endian`.
pub open spec fn serialize_spec(from_key: Seq<u8>, to_key: Seq<u8>, amount: u32) -> Seq<u8> {
    from_key + to_key + le_bytes(amount as nat, 4)
}

/// The little-endian number in the first four bytes of `b`.
pub open spec fn le_u32(b: Seq<u8>) -> nat {
    b[0] as nat + b[1] as nat * 0x100 + b[2] as nat * 0x1_0000 + b[3] as nat * 0x100_0000
}

/// When `from_bytes` succeeds on `b`.
pub open spec fn parses(b: Seq<u8>) -> bool {
    b.len() >= 68 && is_x_only_key(b.subrange(0, 32)) && is_x_only_key(b.subrange(32, 64))
}

/// The sighash preimage: the previous state hash, then the serialized transfer.
pub open spec fn sighash_preimage(prev_state_hash: Seq<u8>, serialized: Seq<u8>) -> Seq<u8> {
    prev_state_hash + serialized
}

impl Transfer {
    pub closed spec fn from_account(self) -> Account {
        self.from
    }

    pub closed spec fn to_account(self) -> MaybeCommon<Account> {
        self.to
    }

    pub closed spec fn amount_value(self) -> MaybeCommon<ShortVal> {
        self.amount
    }

    /// The fixed serialization of this transfer; common indices play no part.
    pub open spec fn serialized(self) -> Seq<u8> {
        serialize_spec(
            self.from_account().key@,
            self.to_account().inner().key@,
            self.amount_value().inner().value,
        )
    }

    /// The sending account.
    pub fn from(&self) -> (r: Account)
        ensures
            r == self.from_account(),
    {
        self.from
    }

    /// The receiving account, with its common-table tag.
    pub fn to(&self) -> (r: MaybeCommon<Account>)
        ensures
            r == self.to_account(),
    {
        self.to
    }

    /// The amount, with its common-table tag.
    pub fn amount(&self) -> (r: MaybeCommon<ShortVal>)
        ensures
            r == self.amount_value(),
    {
        self.amount
    }

    pub fn new(from: Account, to: MaybeCommon<Account>, amount: MaybeCommon<ShortVal>) -> (r:
        Transfer)
        ensures
            r.from_account() == from,
            r.to_account() == to,
            r.amount_value() == amount,
    {
        Transfer { from, to, amount }
    }

    pub fn new_uncommon(from: Account, to: Account, amount: ShortVal) -> (r: Transfer)
        ensures
            r.from_account() == from,
            r.to_account() == MaybeCommon::Uncommon(to),
            r.amount_value() == MaybeCommon::Uncommon(amount),
    {
        Transfer { from, to: MaybeCommon::Uncommon(to), amount: MaybeCommon::Uncommon(amount) }
    }

    pub fn set_from_account_index(&mut self, account_index: u32)
        ensures
            final(self).from_account().key@ == old(self).from_account().key@,
            final(self).from_account().account_index == Some(account_index),
            final(self).to_account() == old(self).to_account(),
            final(self).amount_value() == old(self).amount_value(),
    {
        self.from.set_account_index(account_index);
    }

    /// Sets the index of the receiving account, keeping its common-table tag.
    pub fn set_to_account_index(&mut self, account_index: u32)
        ensures
            final(self).from_account() == old(self).from_account(),
            final(self).amount_value() == old(self).amount_value(),
            final(self).to_account().inner().key@ == old(self).to_account().inner().key@,
            final(self).to_account().inner().account_index == Some(account_index),
            match (old(self).to_account(), final(self).to_account()) {
                (MaybeCommon::Uncommon(_), MaybeCommon::Uncommon(_)) => true,
                (MaybeCommon::Common(_, i), MaybeCommon::Common(_, j)) => i == j,
                _ => false,
            },
    {
        match self.to {
            MaybeCommon::Uncommon(to) => {
                let mut to = to;
                to.set_account_index(account_index);
                self.to = MaybeCommon::Uncommon(to);
            },
            MaybeCommon::Common(to, common_index) => {
                let mut to = to;
                to.set_account_index(account_index);
                self.to = MaybeCommon::Common(to, common_index);
            },
        }
    }

    pub fn set_to_common_index(&mut self, common_index: u8)
        ensures
            final(self).from_account() == old(self).from_account(),
            final(self).amount_value() == old(self).amount_value(),
            final(self).to_account() == MaybeCommon::Common(
                old(self).to_account().inner(),
                common_index,
            ),
    {
        let to = match self.to {
            MaybeCommon::Uncommon(to) => to,
            MaybeCommon::Common(to, _) => to,
        };
        self.to = MaybeCommon::Common(to, common_index);
    }

    pub fn set_amount_common_index(&mut self, common_index: u8)
        ensures
            final(self).from_account() == old(self).from_account(),
            final(self).to_account() == old(self).to_account(),
            final(self).amount_value() == MaybeCommon::Common(
                old(self).amount_value().inner(),
                common_index,
            ),
    {
        let amount = match self.amount {
            MaybeCommon::Uncommon(amount) => amount,
            MaybeCommon::Common(amount, _) => amount,
        };
        self.amount = MaybeCommon::Common(amount, common_index);
    }

    /// The 68-byte canonical form.
    pub fn serialize(&self) -> (r: Vec<u8>)
        ensures
            r@ == self.serialized(),
            r@.len() == 68,
    {
        let mut bytes: Vec<u8> = Vec::new();
        let from = self.from.key();
        append_bytes(&mut bytes, &from);
        let to = match self.to {
            MaybeCommon::Uncommon(to) => to.key(),
            MaybeCommon::Common(to, _) => to.key(),
        };
        append_bytes(&mut bytes, &to);
        let amount = match self.amount {
            MaybeCommon::Uncommon(amount) => amount.value(),
            MaybeCommon::Common(amount, _) => amount.value(),
        };
        append_le(&mut bytes, amount as u64, 4);
        bytes
    }

    /// Reads a transfer from its canonical form; bytes past the first 68 are ignored.
    pub fn from_bytes(bytes: Vec<u8>) -> (r: Result<Transfer, SerializationError>)
        ensures
            r is Ok <==> parses(bytes@),
            bytes@.len() < 68 ==> r == Err::<Transfer, _>(SerializationError::TruncatedInput),
            bytes@.len() >= 68 && !parses(bytes@) ==> r == Err::<Transfer, _>(
                SerializationError::KeyParseError,
            ),
            r matches Ok(t) ==> {
                &&& t.from_account().key@ == bytes@.subrange(0, 32)
                &&& t.from_account().account_index == None::<u32>
                &&& t.to_account() matches MaybeCommon::Uncommon(to)
                &&& to.key@ == bytes@.subrange(32, 64)
                &&& to.account_index == None::<u32>
                &&& t.amount_value() matches MaybeCommon::Uncommon(a)
                &&& a.value as nat == le_u32(bytes@.subrange(64, 68))
            },
    {
        if bytes.len() < 68 {
            return Err(SerializationError::TruncatedInput);
        }
        let from = read_key(&bytes, 0);
        if !x_only_key_valid(from) {
            return Err(SerializationError::KeyParseError);
        }
        let to = read_key(&bytes, 32);
        if !x_only_key_valid(to) {
            return Err(SerializationError::KeyParseError);
        }
        let amount = bytes[64] as u32 + bytes[65] as u32 * 0x100 + bytes[66] as u32 * 0x1_0000
            + bytes[67] as u32 * 0x100_0000;
        Ok(Transfer::new_uncommon(Account::new(from), Account::new(to), ShortVal::new(amount)))
    }

    /// The tagged hash binding this transfer to the previous protocol state.
    pub fn sighash(&self, prev_state_hash: [u8; 32]) -> (r: [u8; 32])
        ensures
            r@ == tagged_hash_spec(
                sighash_preimage(prev_state_hash@, self.serialized()),
                HashTag::SighashTransfer,
            ),
    {
        let mut preimage: Vec<u8> = Vec::new();
        append_bytes(&mut preimage, &prev_state_hash);
        let serialized = self.serialize();
        append_bytes(&mut preimage, serialized.as_slice());
        tagged_hash(preimage.as_slice(), HashTag::SighashTransfer)
    }
}

fn read_key(bytes: &Vec<u8>, start: usize) -> (r: [u8; 32])
    requires
        start + 32 <= bytes@.len(),
    ensures
        r@ == bytes@.subrange(start as int, start + 32),
{
    let mut r: [u8; 32] = [0u8; 32];
    let n = bytes.len();
    let mut i: usize = 0;
    while i < 32
        invariant
            i <= 32,
            n == bytes@.len(),
            start + 32 <= n,
            r@.len() == 32,
            forall|j: int| 0 <= j < i ==> r@[j] == bytes@[start + j],
        decreases 32 - i,
    {
        r[i] = bytes[start + i];
        i = i + 1;
    }
    assert(r@ =~= bytes@.subrange(start as int, start + 32));
    r
}

proof fn lemma_le_u32_of_le_bytes(v: u32)
    ensures
        le_u32(le_bytes(v as nat, 4)) == v,
{
    let b = le_bytes(v as nat, 4);
    assert(b[0] as nat == v % 256);
    assert(b[1] as nat == (v / 0x100) % 256);
    assert(b[2] as nat == (v / 0x1_0000) % 256);
    assert(b[3] as nat == (v / 0x100_0000) % 256);
    assert(v == (v % 256) + ((v / 0x100) % 256) * 0x100 + ((v / 0x1_0000) % 256) * 0x1_0000 + ((v
        / 0x100_0000) % 256) * 0x100_0000) by (bit_vector);
}

/// Reading back a serialized transfer succeeds exactly when both keys are valid, and then
/// gives the same keys and amount, with both fields uncommon.
pub proof fn lemma_transfer_round_trip(t: Transfer, u: Transfer)
    ensures
        parses(t.serialized()) <==> is_x_only_key(t.from_account().key@) && is_x_only_key(
            t.to_account().inner().key@,
        ),
        ({
            let b = t.serialized();
            u.from_account().key@ == b.subrange(0, 32) && u.to_account().inner().key@
                == b.subrange(32, 64) && u.amount_value().inner().value as nat == le_u32(
                b.subrange(64, 68),
            )
        }) ==> u.from_account().key@ == t.from_account().key@ && u.to_account().inner().key@
            == t.to_account().inner().key@ && u.amount_value().inner().value
            == t.amount_value().inner().value,
{
    let b = t.serialized();
    let amount = t.amount_value().inner().value;
    assert(b.subrange(0, 32) =~= t.from_account().key@);
    assert(b.subrange(32, 64) =~= t.to_account().inner().key@);
    assert(b.subrange(64, 68) =~= le_bytes(amount as nat, 4));
    lemma_le_u32_of_le_bytes(amount);
}

/// Different previous states, or transfers with different serializations, give different
/// sighash preimages.
pub proof fn lemma_sighash_preimage_distinct(h1: [u8; 32], h2: [u8; 32], t1: Transfer, t2: Transfer)
    ensures
        h1@ != h2@ ==> sighash_preimage(h1@, t1.serialized()) != sighash_preimage(
            h2@,
            t1.serialized(),
        ),
        t1.serialized() != t2.serialized() ==> sighash_preimage(h1@, t1.serialized())
            != sighash_preimage(h1@, t2.serialized()),
{
    let s1 = t1.serialized();
    let s2 = t2.serialized();
    if h1@ != h2@ && sighash_preimage(h1@, s1) == sighash_preimage(h2@, s1) {
        assert(sighash_preimage(h1@, s1).subrange(0, 32) =~= h1@);
        assert(sighash_preimage(h2@, s1).subrange(0, 32) =~= h2@);
    }
    if s1 != s2 && sighash_preimage(h1@, s1) == sighash_preimage(h1@, s2) {
        assert(sighash_preimage(h1@, s1).subrange(32, sighash_preimage(h1@, s1).len() as int)
            =~= s1);
        assert(sighash_preimage(h1@, s2).subrange(32, sighash_preimage(h1@, s2).len() as int)
            =~= s2);
    }
}

} // verus!
