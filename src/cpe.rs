use bit_vec::BitVec;
use vstd::prelude::*;

use crate::transfer::{Account, MaybeCommon, ShortVal, Transfer};

verus! {

#[verifier::external_type_specification]
#[verifier::external_body]
#[verifier::reject_recursive_types(B)]
pub struct ExBitVec<B>(BitVec<B>);

/// The bits a bit vector holds, in order.
pub uninterp spec fn bits_of(v: BitVec) -> Seq<bool>;

/// Relies on `BitVec::new`: a vector with no bits.
#[verifier::external_body]
fn bits_new() -> (r: BitVec)
    ensures
        bits_of(r) == Seq::<bool>::empty(),
{
    BitVec::new()
}

/// Relies on `BitVec::push`: appends one bit; it panics only when the length would overflow.
#[verifier::external_body]
fn bits_push(v: &mut BitVec, bit: bool)
    requires
        bits_of(*old(v)).len() < usize::MAX,
    ensures
        bits_of(*final(v)) == bits_of(*old(v)).push(bit),
{
    v.push(bit)
}

/// The `width` lowest bits of `n`, most significant first.
pub open spec fn u32_bits(n: u32, width: nat) -> Seq<bool> {
    Seq::new(width, |i: int| (n >> ((width - 1 - i) as u32)) & 1u32 == 1u32)
}

/// The 256 bits of a key, byte by byte, most significant bit of each byte first.
pub open spec fn key_bits(key: Seq<u8>) -> Seq<bool> {
    Seq::new(256, |i: int| (key[i / 8] >> ((7 - i % 8) as u8)) & 1u8 == 1u8)
}

/// An account: a set flag and its 32-bit index once registered, else a clear flag and its key.
pub open spec fn account_cpe(a: Account) -> Seq<bool> {
    match a.account_index {
        Some(i) => seq![true] + u32_bits(i, 32),
        None => seq![false] + key_bits(a.key@),
    }
}

/// An amount: its 32 bits.
pub open spec fn short_val_cpe(v: ShortVal) -> Seq<bool> {
    u32_bits(v.value, 32)
}

/// A possibly common value: a clear flag and the value's own encoding, or a set flag and the
/// 8-bit common index.
pub open spec fn maybe_common_cpe<T>(m: MaybeCommon<T>, inner: spec_fn(T) -> Seq<bool>) -> Seq<
    bool,
> {
    match m {
        MaybeCommon::Uncommon(v) => seq![false] + inner(v),
        MaybeCommon::Common(_, i) => seq![true] + u32_bits(i as u32, 8),
    }
}

/// A transfer: two clear class bits, then the sender, the receiver and the amount.
pub open spec fn transfer_cpe(t: Transfer) -> Seq<bool> {
    seq![false, false] + account_cpe(t.from_account()) + maybe_common_cpe(
        t.to_account(),
        |a: Account| account_cpe(a),
    ) + maybe_common_cpe(t.amount_value(), |v: ShortVal| short_val_cpe(v))
}

const LEN_BOUND: usize = 0x1_0000;

fn write_u32_bits(out: &mut BitVec, n: u32, width: u32)
    requires
        width <= 32,
        bits_of(*old(out)).len() <= LEN_BOUND,
    ensures
        bits_of(*final(out)) == bits_of(*old(out)) + u32_bits(n, width as nat),
{
    let ghost start = bits_of(*out);
    let mut i: u32 = 0;
    while i < width
        invariant
            i <= width,
            width <= 32,
            start.len() <= LEN_BOUND,
            bits_of(*out) == start + u32_bits(n, width as nat).subrange(0, i as int),
        decreases width - i,
    {
        let bit = (n >> (width - 1 - i)) & 1u32 == 1u32;
        bits_push(out, bit);
        i = i + 1;
        assert(bits_of(*out) =~= start + u32_bits(n, width as nat).subrange(0, i as int));
    }
    assert(u32_bits(n, width as nat).subrange(0, width as int) =~= u32_bits(n, width as nat));
}

fn write_key_bits(out: &mut BitVec, key: &[u8; 32])
    requires
        bits_of(*old(out)).len() <= LEN_BOUND,
    ensures
        bits_of(*final(out)) == bits_of(*old(out)) + key_bits(key@),
{
    let ghost start = bits_of(*out);
    let mut i: usize = 0;
    while i < 256
        invariant
            i <= 256,
            start.len() <= LEN_BOUND,
            key@.len() == 32,
            bits_of(*out) == start + key_bits(key@).subrange(0, i as int),
        decreases 256 - i,
    {
        let bit = (key[i / 8] >> (7 - (i % 8)) as u8) & 1u8 == 1u8;
        bits_push(out, bit);
        i = i + 1;
        assert(bits_of(*out) =~= start + key_bits(key@).subrange(0, i as int));
    }
    assert(key_bits(key@).subrange(0, 256) =~= key_bits(key@));
}

impl Account {
    fn write_cpe(&self, out: &mut BitVec)
        requires
            bits_of(*old(out)).len() + 300 <= LEN_BOUND,
        ensures
            bits_of(*final(out)) == bits_of(*old(out)) + account_cpe(*self),
    {
        let ghost start = bits_of(*out);
        match self.account_index {
            Some(i) => {
                bits_push(out, true);
                write_u32_bits(out, i, 32);
                assert(bits_of(*out) =~= start + account_cpe(*self));
            },
            None => {
                bits_push(out, false);
                write_key_bits(out, &self.key);
                assert(bits_of(*out) =~= start + account_cpe(*self));
            },
        }
    }

    /// The compact encoding of this account.
    pub fn to_cpe(&self) -> (r: BitVec)
        ensures
            bits_of(r) == account_cpe(*self),
    {
        let mut r = bits_new();
        self.write_cpe(&mut r);
        assert(bits_of(r) =~= account_cpe(*self));
        r
    }
}

impl ShortVal {
    /// The compact encoding of this amount.
    pub fn to_cpe(&self) -> (r: BitVec)
        ensures
            bits_of(r) == short_val_cpe(*self),
    {
        let mut r = bits_new();
        write_u32_bits(&mut r, self.value, 32);
        assert(bits_of(r) =~= short_val_cpe(*self));
        r
    }
}

fn write_common_index(out: &mut BitVec, common_index: u8)
    requires
        bits_of(*old(out)).len() + 300 <= LEN_BOUND,
    ensures
        bits_of(*final(out)) == bits_of(*old(out)) + seq![true] + u32_bits(common_index as u32, 8),
{
    let ghost start = bits_of(*out);
    bits_push(out, true);
    write_u32_bits(out, common_index as u32, 8);
    assert(bits_of(*out) =~= start + seq![true] + u32_bits(common_index as u32, 8));
}

impl Transfer {
    /// The compact in-script encoding of this transfer.
    pub fn to_cpe(&self) -> (r: BitVec)
        ensures
            bits_of(r) == transfer_cpe(*self),
    {
        let mut r = bits_new();
        bits_push(&mut r, false);
        bits_push(&mut r, false);
        let ghost head = bits_of(r);
        let from = self.from();
        from.write_cpe(&mut r);
        let ghost after_from = bits_of(r);
        match self.to() {
            MaybeCommon::Uncommon(to) => {
                bits_push(&mut r, false);
                to.write_cpe(&mut r);
            },
            MaybeCommon::Common(_, i) => {
                write_common_index(&mut r, i);
            },
        }
        let ghost after_to = bits_of(r);
        assert(after_to =~= after_from + maybe_common_cpe(
            self.to_account(),
            |a: Account| account_cpe(a),
        ));
        match self.amount() {
            MaybeCommon::Uncommon(amount) => {
                bits_push(&mut r, false);
                write_u32_bits(&mut r, amount.value, 32);
            },
            MaybeCommon::Common(_, i) => {
                write_common_index(&mut r, i);
            },
        }
        assert(bits_of(r) =~= after_to + maybe_common_cpe(
            self.amount_value(),
            |v: ShortVal| short_val_cpe(v),
        ));
        assert(bits_of(r) =~= transfer_cpe(*self));
        r
    }
}

} // verus!
