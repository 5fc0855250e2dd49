use vstd::prelude::*;

verus! {

/// Why data cannot be encoded.
#[derive(Clone, Copy, Debug, PartialEq, Eq, Structural)]
pub enum EncodingError {
    /// The data is longer than the largest push header can state.
    LengthOutOfRange,
}

/// Weight of byte `i` in a little-endian integer: 256 to the power `i`, for `i < 8`.
pub open spec fn byte_weight(i: int) -> nat {
    if i == 0 {
        1
    } else if i == 1 {
        0x100
    } else if i == 2 {
        0x1_0000
    } else if i == 3 {
        0x100_0000
    } else if i == 4 {
        0x1_0000_0000
    } else if i == 5 {
        0x100_0000_0000
    } else if i == 6 {
        0x1_0000_0000_0000
    } else {
        0x100_0000_0000_0000
    }
}

/// The `k` lowest bytes of `n`, least significant first.
pub open spec fn le_bytes(n: nat, k: nat) -> Seq<u8> {
    Seq::new(k, |i: int| ((n / byte_weight(i)) % 256) as u8)
}

/// The CompactSize encoding of a length.
pub open spec fn compact_size_spec(len: nat) -> Seq<u8> {
    if len <= 252 {
        seq![len as u8]
    } else if len <= 0xffff {
        seq![0xfdu8] + le_bytes(len, 2)
    } else if len <= 0xffff_ffff {
        seq![0xfeu8] + le_bytes(len, 4)
    } else {
        seq![0xffu8] + le_bytes(len, 8)
    }
}

/// The number whose `k` lowest bytes, least significant first, are the first `k` of `b`.
pub open spec fn le_value(b: Seq<u8>, k: nat) -> nat
    decreases k,
{
    if k == 0 {
        0
    } else {
        le_value(b, (k - 1) as nat) + b[k - 1] as nat * byte_weight(k - 1)
    }
}

/// What a CompactSize at the start of `b` encodes, with the number of bytes it takes; none
/// where `b` is too short or the encoding is not the shortest one for its value.
pub open spec fn parse_compact_size_spec(b: Seq<u8>) -> Option<(nat, nat)> {
    if b.len() == 0 {
        None
    } else if b[0] < 0xfd {
        Some((b[0] as nat, 1))
    } else if b[0] == 0xfd {
        if b.len() < 3 || le_value(b.subrange(1, 3), 2) <= 252 {
            None
        } else {
            Some((le_value(b.subrange(1, 3), 2), 3))
        }
    } else if b[0] == 0xfe {
        if b.len() < 5 || le_value(b.subrange(1, 5), 4) <= 0xffff {
            None
        } else {
            Some((le_value(b.subrange(1, 5), 4), 5))
        }
    } else {
        if b.len() < 9 || le_value(b.subrange(1, 9), 8) <= 0xffff_ffff {
            None
        } else {
            Some((le_value(b.subrange(1, 9), 8), 9))
        }
    }
}

/// The script opcode that pushes the small number `n` (0 to 16).
pub open spec fn small_number_opcode(n: u8) -> u8 {
    if n == 0 {
        0x00
    } else {
        (0x50 + n) as u8
    }
}

/// The length header of a generic script push of `len` bytes.
pub open spec fn push_header_spec(len: nat) -> Seq<u8> {
    if len <= 75 {
        seq![len as u8]
    } else if len <= 0xff {
        seq![0x4cu8, len as u8]
    } else if len <= 0xffff {
        seq![0x4du8] + le_bytes(len, 2)
    } else {
        seq![0x4eu8] + le_bytes(len, 4)
    }
}

/// A script push of `data`: one opcode for a single byte 0 to 16, else a header and the bytes.
pub open spec fn pushdata_spec(data: Seq<u8>) -> Seq<u8> {
    if data.len() == 1 && data[0] <= 16 {
        seq![small_number_opcode(data[0])]
    } else {
        push_header_spec(data.len()) + data
    }
}

fn byte_weight_exec(i: usize) -> (r: u64)
    requires
        i < 8,
    ensures
        r as nat == byte_weight(i as int),
{
    if i == 0 {
        1
    } else if i == 1 {
        0x100
    } else if i == 2 {
        0x1_0000
    } else if i == 3 {
        0x100_0000
    } else if i == 4 {
        0x1_0000_0000
    } else if i == 5 {
        0x100_0000_0000
    } else if i == 6 {
        0x1_0000_0000_0000
    } else {
        0x100_0000_0000_0000
    }
}

/// Appends the `width` lowest bytes of `n`, least significant first.
pub fn append_le(out: &mut Vec<u8>, n: u64, width: usize)
    requires
        width <= 8,
    ensures
        final(out)@ == old(out)@ + le_bytes(n as nat, width as nat),
{
    let ghost start = out@;
    let mut i: usize = 0;
    while i < width
        invariant
            i <= width,
            width <= 8,
            out@ == start + le_bytes(n as nat, i as nat),
        decreases width - i,
    {
        let w = byte_weight_exec(i);
        out.push((n / w % 256) as u8);
        i = i + 1;
        assert(out@ =~= start + le_bytes(n as nat, i as nat));
    }
}

/// Appends every byte of `src` to `out`.
pub fn append_bytes(out: &mut Vec<u8>, src: &[u8])
    ensures
        final(out)@ == old(out)@ + src@,
{
    let ghost start = out@;
    let mut i: usize = 0;
    while i < src.len()
        invariant
            i <= src@.len(),
            out@ == start + src@.subrange(0, i as int),
        decreases src@.len() - i,
    {
        out.push(src[i]);
        i = i + 1;
        assert(out@ =~= start + src@.subrange(0, i as int));
    }
    assert(src@.subrange(0, src@.len() as int) =~= src@);
}

/// The CompactSize prefix for a length.
pub fn compact_size(len: u64) -> (r: Vec<u8>)
    ensures
        r@ == compact_size_spec(len as nat),
{
    let mut r: Vec<u8> = Vec::new();
    if len <= 252 {
        r.push(len as u8);
        assert(r@ =~= seq![len as u8]);
    } else if len <= 0xffff {
        r.push(0xfd);
        append_le(&mut r, len, 2);
    } else if len <= 0xffff_ffff {
        r.push(0xfe);
        append_le(&mut r, len, 4);
    } else {
        r.push(0xff);
        append_le(&mut r, len, 8);
    }
    r
}

fn read_le(bytes: &[u8], start: usize, width: usize) -> (r: u64)
    requires
        width <= 8,
        start + width <= bytes@.len(),
    ensures
        r as nat == le_value(bytes@.subrange(start as int, start + width), width as nat),
{
    let ghost s = bytes@.subrange(start as int, start + width);
    let len = bytes.len();
    let mut r: u64 = 0;
    let mut i: usize = 0;
    while i < width
        invariant
            i <= width,
            width <= 8,
            len == bytes@.len(),
            start + width <= len,
            s == bytes@.subrange(start as int, start + width),
            r as nat == le_value(s, i as nat),
            i < 8 ==> r < byte_weight(i as int),
        decreases width - i,
    {
        let w = byte_weight_exec(i);
        let b = bytes[start + i];
        assert(le_value(s, (i + 1) as nat) == le_value(s, i as nat) + s[i as int] as nat
            * byte_weight(i as int));
        assert(r + b as nat * w < w * 256) by (nonlinear_arith)
            requires
                r < w,
                b <= 255,
        ;
        assert(w * 256 <= 0x1_0000_0000_0000_0000) by (nonlinear_arith)
            requires
                w <= 0x100_0000_0000_0000,
        ;
        r = r + b as u64 * w;
        assert(i + 1 < 8 ==> byte_weight(i + 1) == w * 256);
        i = i + 1;
    }
    r
}

/// Reads the CompactSize at the start of `bytes`: its value and how many bytes it takes.
pub fn read_compact_size(bytes: &[u8]) -> (r: Option<(u64, usize)>)
    ensures
        match r {
            Some((n, used)) => parse_compact_size_spec(bytes@) == Some((n as nat, used as nat)),
            None => parse_compact_size_spec(bytes@) is None,
        },
{
    if bytes.len() == 0 {
        return None;
    }
    let first = bytes[0];
    if first < 0xfd {
        return Some((first as u64, 1));
    }
    let (width, least): (usize, u64) = if first == 0xfd {
        (2, 253)
    } else if first == 0xfe {
        (4, 0x1_0000)
    } else {
        (8, 0x1_0000_0000)
    };
    if bytes.len() < width + 1 {
        return None;
    }
    let n = read_le(bytes, 1, width);
    if n < least {
        return None;
    }
    Some((n, width + 1))
}

proof fn lemma_le_value_of_le_bytes(n: u64, k: nat)
    requires
        k == 2 || k == 4 || k == 8,
        k == 2 ==> n <= 0xffff,
        k == 4 ==> n <= 0xffff_ffff,
    ensures
        le_value(le_bytes(n as nat, k), k) == n,
{
    let b = le_bytes(n as nat, k);
    reveal_with_fuel(le_value, 9);
    let b0 = n % 0x100;
    let b1 = n / 0x100 % 0x100;
    let b2 = n / 0x1_0000 % 0x100;
    let b3 = n / 0x100_0000 % 0x100;
    let b4 = n / 0x1_0000_0000 % 0x100;
    let b5 = n / 0x100_0000_0000 % 0x100;
    let b6 = n / 0x1_0000_0000_0000 % 0x100;
    let b7 = n / 0x100_0000_0000_0000 % 0x100;
    if k == 2 {
        assert(n == b0 + b1 * 0x100) by (bit_vector)
            requires
                n <= 0xffff,
                b0 == n % 0x100,
                b1 == n / 0x100 % 0x100,
        ;
    } else if k == 4 {
        assert(n == b0 + b1 * 0x100 + b2 * 0x1_0000 + b3 * 0x100_0000) by (bit_vector)
            requires
                n <= 0xffff_ffff,
                b0 == n % 0x100,
                b1 == n / 0x100 % 0x100,
                b2 == n / 0x1_0000 % 0x100,
                b3 == n / 0x100_0000 % 0x100,
        ;
    } else {
        assert(n == b0 + b1 * 0x100 + b2 * 0x1_0000 + b3 * 0x100_0000 + b4 * 0x1_0000_0000 + b5
            * 0x100_0000_0000 + b6 * 0x1_0000_0000_0000 + b7 * 0x100_0000_0000_0000)
            by (bit_vector)
            requires
                b0 == n % 0x100,
                b1 == n / 0x100 % 0x100,
                b2 == n / 0x1_0000 % 0x100,
                b3 == n / 0x100_0000 % 0x100,
                b4 == n / 0x1_0000_0000 % 0x100,
                b5 == n / 0x100_0000_0000 % 0x100,
                b6 == n / 0x1_0000_0000_0000 % 0x100,
                b7 == n / 0x100_0000_0000_0000 % 0x100,
        ;
    }
}

/// Reading back a CompactSize gives the length it was written for, and how many bytes it
/// took, whatever follows it.
pub proof fn lemma_compact_size_round_trip(len: u64, rest: Seq<u8>)
    ensures
        parse_compact_size_spec(compact_size_spec(len as nat) + rest) == Some(
            (len as nat, compact_size_spec(len as nat).len()),
        ),
{
    let e = compact_size_spec(len as nat);
    let b = e + rest;
    if len <= 252 {
    } else if len <= 0xffff {
        assert(b.subrange(1, 3) =~= le_bytes(len as nat, 2));
        lemma_le_value_of_le_bytes(len, 2);
    } else if len <= 0xffff_ffff {
        assert(b.subrange(1, 5) =~= le_bytes(len as nat, 4));
        lemma_le_value_of_le_bytes(len, 4);
    } else {
        assert(b.subrange(1, 9) =~= le_bytes(len as nat, 8));
        lemma_le_value_of_le_bytes(len, 8);
    }
}

/// `data` preceded by its length as a CompactSize.
pub fn with_prefix_compact_size(data: &Vec<u8>) -> (r: Vec<u8>)
    ensures
        r@ == compact_size_spec(data@.len()) + data@,
{
    let mut r = compact_size(data.len() as u64);
    append_bytes(&mut r, data.as_slice());
    r
}

/// `data` as a script push: a single byte 0 to 16 becomes its number opcode, anything else
/// gets the shortest length header that holds its length.
pub fn with_prefix_pushdata(data: &Vec<u8>) -> (r: Result<Vec<u8>, EncodingError>)
    ensures
        data@.len() <= 0xffff_ffff <==> r is Ok,
        r matches Ok(v) ==> v@ == pushdata_spec(data@),
        r matches Err(e) ==> e == EncodingError::LengthOutOfRange,
{
    if data.len() > 0xffff_ffff {
        return Err(EncodingError::LengthOutOfRange);
    }
    let mut r: Vec<u8> = Vec::new();
    if data.len() == 1 && data[0] <= 16 {
        let n = data[0];
        if n == 0 {
            r.push(0x00);
        } else {
            r.push(0x50 + n);
        }
        assert(r@ =~= seq![small_number_opcode(n)]);
        return Ok(r);
    }
    let len = data.len() as u64;
    if len <= 75 {
        r.push(len as u8);
        assert(r@ =~= seq![len as u8]);
    } else if len <= 0xff {
        r.push(0x4c);
        r.push(len as u8);
        assert(r@ =~= seq![0x4cu8, len as u8]);
    } else if len <= 0xffff {
        r.push(0x4d);
        append_le(&mut r, len, 2);
    } else {
        r.push(0x4e);
        append_le(&mut r, len, 4);
    }
    assert(r@ == push_header_spec(data@.len()));
    append_bytes(&mut r, data.as_slice());
    Ok(r)
}

} // verus!
