use vstd::prelude::*;

use crate::prefix::{append_le, le_bytes, pushdata_spec, with_prefix_pushdata};

verus! {

/// Blocks in a day, at one block every ten minutes.
pub const BLOCKS_PER_DAY: u32 = 144;

/// `OP_CHECKSEQUENCEVERIFY`.
pub const OP_CSV: u8 = 0xb2;

/// `OP_DROP`.
pub const OP_DROP: u8 = 0x75;

/// A relative timelock.
#[derive(Clone, Copy, Debug, PartialEq, Eq, Structural)]
pub enum CSVFlag {
    Days(u8),
    Blocks(u16),
}

/// The timelock in blocks.
pub open spec fn csv_blocks(flag: CSVFlag) -> nat {
    match flag {
        CSVFlag::Days(d) => d as nat * BLOCKS_PER_DAY as nat,
        CSVFlag::Blocks(b) => b as nat,
    }
}

/// The minimal script number encoding of `n` (below 2^16): its significant bytes, least
/// significant first, and a zero byte where the top byte would read as a sign.
pub open spec fn script_num_spec(n: nat) -> Seq<u8> {
    let body = if n == 0 {
        Seq::<u8>::empty()
    } else if n < 0x100 {
        le_bytes(n, 1)
    } else {
        le_bytes(n, 2)
    };
    if body.len() > 0 && body.last() >= 0x80 {
        body.push(0u8)
    } else {
        body
    }
}

/// The script that checks the timelock: push the block count, `OP_CSV`, `OP_DROP`.
pub open spec fn csv_script_spec(flag: CSVFlag) -> Seq<u8> {
    pushdata_spec(script_num_spec(csv_blocks(flag))) + seq![OP_CSV, OP_DROP]
}

fn relative_blocks(flag: CSVFlag) -> (r: u32)
    ensures
        r as nat == csv_blocks(flag),
        r < 0x1_0000,
{
    match flag {
        CSVFlag::Days(d) => d as u32 * BLOCKS_PER_DAY,
        CSVFlag::Blocks(b) => b as u32,
    }
}

fn script_num(n: u32) -> (r: Vec<u8>)
    requires
        n < 0x1_0000,
    ensures
        r@ == script_num_spec(n as nat),
        r@.len() <= 3,
{
    let mut r: Vec<u8> = Vec::new();
    if n == 0 {
        assert(r@ =~= script_num_spec(n as nat));
        return r;
    }
    if n < 0x100 {
        append_le(&mut r, n as u64, 1);
    } else {
        append_le(&mut r, n as u64, 2);
    }
    let last = r[r.len() - 1];
    if last >= 0x80 {
        r.push(0);
    }
    r
}

/// The transaction input sequence number for the timelock: the block count as four
/// little-endian bytes.
pub fn to_n_sequence_encode(flag: CSVFlag) -> (r: Vec<u8>)
    ensures
        r@ == le_bytes(csv_blocks(flag), 4),
{
    let blocks = relative_blocks(flag);
    let mut r: Vec<u8> = Vec::new();
    append_le(&mut r, blocks as u64, 4);
    assert(r@ =~= le_bytes(csv_blocks(flag), 4));
    r
}

/// The script that enforces the timelock.
pub fn to_csv_script_encode(flag: CSVFlag) -> (r: Vec<u8>)
    ensures
        r@ == csv_script_spec(flag),
{
    let blocks = relative_blocks(flag);
    let num = script_num(blocks);
    let mut r = match with_prefix_pushdata(&num) {
        Ok(r) => r,
        Err(_) => Vec::new(),
    };
    r.push(OP_CSV);
    r.push(OP_DROP);
    assert(r@ =~= csv_script_spec(flag));
    r
}

} // verus!
