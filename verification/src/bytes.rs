//! Integers as byte strings, in both orders.
use vstd::prelude::*;

verus! {

/// The number that `s` spells with its least significant byte first.
pub open spec fn le_value(s: Seq<u8>) -> nat
    decreases s.len(),
{
    if s.len() == 0 {
        0
    } else {
        s.first() as nat + 256 * le_value(s.drop_first())
    }
}

/// The lowest `len` bytes of `n`, least significant byte first.
pub open spec fn le_bytes(n: nat, len: nat) -> Seq<u8>
    decreases len,
{
    if len == 0 {
        Seq::empty()
    } else {
        seq![(n % 256) as u8] + le_bytes(n / 256, (len - 1) as nat)
    }
}

/// The number that `s` spells with its most significant byte first.
pub open spec fn be_value(s: Seq<u8>) -> nat
    decreases s.len(),
{
    if s.len() == 0 {
        0
    } else {
        256 * be_value(s.drop_last()) + s.last() as nat
    }
}

/// The lowest `len` bytes of `n`, most significant byte first.
pub open spec fn be_bytes(n: nat, len: nat) -> Seq<u8>
    decreases len,
{
    if len == 0 {
        Seq::empty()
    } else {
        be_bytes(n / 256, (len - 1) as nat).push((n % 256) as u8)
    }
}

/// The number of values that `len` bytes can hold.
pub open spec fn byte_values(len: nat) -> nat
    decreases len,
{
    if len == 0 {
        1
    } else {
        256 * byte_values((len - 1) as nat)
    }
}

pub proof fn lemma_le_bytes_len(n: nat, len: nat)
    ensures
        le_bytes(n, len).len() == len,
    decreases len,
{
    if len > 0 {
        lemma_le_bytes_len(n / 256, (len - 1) as nat);
    }
}

/// Reading little-endian bytes gives back the number that was written.
pub proof fn law_le_read_back(n: nat, len: nat)
    requires
        n < byte_values(len),
    ensures
        le_value(le_bytes(n, len)) == n,
    decreases len,
{
    if len > 0 {
        let rest = le_bytes(n / 256, (len - 1) as nat);
        assert(n / 256 < byte_values((len - 1) as nat));
        law_le_read_back(n / 256, (len - 1) as nat);
        assert(le_bytes(n, len).drop_first() == rest);
    }
}

/// Writing what was read gives back the little-endian bytes.
pub proof fn law_le_write_back(s: Seq<u8>)
    ensures
        le_bytes(le_value(s), s.len()) == s,
    decreases s.len(),
{
    if s.len() > 0 {
        law_le_write_back(s.drop_first());
        assert(seq![s.first()] + s.drop_first() == s);
    }
}

pub proof fn lemma_be_bytes_len(n: nat, len: nat)
    ensures
        be_bytes(n, len).len() == len,
    decreases len,
{
    if len > 0 {
        lemma_be_bytes_len(n / 256, (len - 1) as nat);
    }
}

/// Reading big-endian bytes gives back the number that was written.
pub proof fn law_be_read_back(n: nat, len: nat)
    requires
        n < byte_values(len),
    ensures
        be_value(be_bytes(n, len)) == n,
    decreases len,
{
    if len > 0 {
        let rest = be_bytes(n / 256, (len - 1) as nat);
        law_be_read_back(n / 256, (len - 1) as nat);
        assert(be_bytes(n, len).drop_last() == rest);
    }
}

/// Writing what was read gives back the big-endian bytes.
pub proof fn law_be_write_back(s: Seq<u8>)
    ensures
        be_bytes(be_value(s), s.len()) == s,
    decreases s.len(),
{
    if s.len() > 0 {
        law_be_write_back(s.drop_last());
        assert(s.drop_last().push(s.last()) == s);
    }
}

/// The little-endian number in the two bytes at `o`.
pub fn u16le(data: &[u8], o: usize) -> (r: u16)
    requires
        o + 2 <= data.len(),
    ensures
        r == le_value(data@.subrange(o as int, o + 2)),
{
    proof {
        reveal_with_fuel(le_value, 3);
        let s = data@.subrange(o as int, o + 2);
        assert(s.drop_first().first() == data@[o + 1]);
    }
    data[o] as u16 + 256 * data[o + 1] as u16
}

/// The little-endian number in the four bytes at `o`.
pub fn u32le(data: &[u8], o: usize) -> (r: u32)
    requires
        o + 4 <= data.len(),
    ensures
        r == le_value(data@.subrange(o as int, o + 4)),
{
    proof {
        lemma_le_split(data@.subrange(o as int, o + 4), 2);
        assert(data@.subrange(o as int, o + 4).take(2) == data@.subrange(o as int, o + 2));
        assert(data@.subrange(o as int, o + 4).skip(2) == data@.subrange(o + 2, o + 4));
        reveal_with_fuel(byte_values, 3);
    }
    u16le(data, o) as u32 + 0x1_0000 * u16le(data, o + 2) as u32
}

/// The little-endian number in the eight bytes at `o`.
pub fn u64le(data: &[u8], o: usize) -> (r: u64)
    requires
        o + 8 <= data.len(),
    ensures
        r == le_value(data@.subrange(o as int, o + 8)),
{
    proof {
        lemma_le_split(data@.subrange(o as int, o + 8), 4);
        assert(data@.subrange(o as int, o + 8).take(4) == data@.subrange(o as int, o + 4));
        assert(data@.subrange(o as int, o + 8).skip(4) == data@.subrange(o + 4, o + 8));
        reveal_with_fuel(byte_values, 5);
    }
    u32le(data, o) as u64 + 0x1_0000_0000 * u32le(data, o + 4) as u64
}

/// A little-endian number is its low part plus the shifted high part.
proof fn lemma_le_split(s: Seq<u8>, at: nat)
    requires
        at <= s.len(),
    ensures
        le_value(s) == le_value(s.take(at as int)) + byte_values(at) * le_value(s.skip(at as int)),
    decreases at,
{
    if at == 0 {
        assert(s.skip(0) == s);
        assert(s.take(0).len() == 0);
        let whole = le_value(s);
        assert(byte_values(0) * whole == whole) by (nonlinear_arith)
            requires
                byte_values(0) == 1,
        ;
    } else {
        lemma_le_split(s.drop_first(), (at - 1) as nat);
        assert(s.take(at as int).drop_first() == s.drop_first().take(at - 1));
        assert(s.drop_first().skip(at - 1) == s.skip(at as int));
        assert(s.take(at as int).first() == s.first());
        let low = le_value(s.drop_first().take(at - 1));
        let high = le_value(s.skip(at as int));
        let unit = byte_values((at - 1) as nat);
        assert(256 * (low + unit * high) == 256 * low + (256 * unit) * high) by (nonlinear_arith);
        assert(byte_values(at) == 256 * unit);
    }
}

/// What `len` bytes spell is below the number of their values.
pub proof fn lemma_le_bound(s: Seq<u8>)
    ensures
        le_value(s) < byte_values(s.len()),
    decreases s.len(),
{
    if s.len() > 0 {
        lemma_le_bound(s.drop_first());
    }
}

/// What `len` bytes spell is below the number of their values.
pub proof fn lemma_be_bound(s: Seq<u8>)
    ensures
        be_value(s) < byte_values(s.len()),
    decreases s.len(),
{
    if s.len() > 0 {
        lemma_be_bound(s.drop_last());
    }
}

/// With the least significant byte first, two bytes spell the first and 256
/// times the second.
pub proof fn law_le_two(s: Seq<u8>)
    requires
        s.len() == 2,
    ensures
        le_value(s) == s[0] + 256 * s[1],
{
    reveal_with_fuel(le_value, 3);
    assert(s.drop_first()[0] == s[1]);
}

/// With the least significant byte first, each of four bytes counts 256 times
/// as much as the one before it.
pub proof fn law_le_four(s: Seq<u8>)
    requires
        s.len() == 4,
    ensures
        le_value(s) == s[0] + 0x100 * s[1] + 0x1_0000 * s[2] + 0x100_0000 * s[3],
{
    reveal_with_fuel(le_value, 5);
    let a = s.drop_first();
    let b = a.drop_first();
    let c = b.drop_first();
    assert(a[0] == s[1] && b[0] == s[2] && c[0] == s[3]);
}

/// With the least significant byte first, each of eight bytes counts 256 times
/// as much as the one before it.
pub proof fn law_le_eight(s: Seq<u8>)
    requires
        s.len() == 8,
    ensures
        le_value(s) == s[0] + 0x100 * s[1] + 0x1_0000 * s[2] + 0x100_0000 * s[3] + 0x1_0000_0000
            * s[4] + 0x100_0000_0000 * s[5] + 0x1_0000_0000_0000 * s[6] + 0x100_0000_0000_0000
            * s[7],
{
    lemma_le_split(s, 4);
    law_le_four(s.take(4));
    law_le_four(s.skip(4));
    reveal_with_fuel(byte_values, 5);
    let high = le_value(s.skip(4)) as int;
    assert(byte_values(4) == 0x1_0000_0000);
    assert(byte_values(4) * high == 0x1_0000_0000 * high) by (nonlinear_arith)
        requires
            byte_values(4) == 0x1_0000_0000,
    ;
}

/// With the most significant byte first, one more byte behind the others makes
/// them count 256 times as much.
pub proof fn law_be_order(s: Seq<u8>, b: u8)
    ensures
        be_value(Seq::<u8>::empty()) == 0,
        be_value(s.push(b)) == 256 * be_value(s) + b,
{
    assert(s.push(b).drop_last() =~= s);
}

} // verus!
