//! The Location Information Protocol: reading bits, and the short location
//! report.
//!
//! A report gives its coordinates as two's complement fractions of a half
//! circle and of a quarter circle. Every such coordinate is a whole number of
//! 2^-23 degrees, the unit in which positions are held.
use crate::text::{
    all_digits, decimal, digits_value, hex_value, law_decimal_reads_back, law_hex_digits,
    push_decimal, to_upper_hex_digit, upper_hex_digit,
};
use vstd::arithmetic::power2::pow2;
use vstd::prelude::*;

verus! {

/// The number of position units in one degree.
pub const UNITS_PER_DEGREE: u32 = 0x80_0000;

/// The SDS protocol identifier of a location report.
pub const LIP_PROTOCOL: u8 = 0x0A;

/// The bits of a short location report.
pub const SHORT_REPORT_BITS: u16 = 84;

/// Bit `i` of `data`, counted from the most significant bit of the first byte.
pub open spec fn bit_at(data: Seq<u8>, i: int) -> nat {
    (data[i / 8] as nat / pow2((7 - i % 8) as nat)) % 2
}

/// The number that `count` bits from `from` on spell, most significant first.
pub open spec fn bits_value(data: Seq<u8>, from: nat, count: nat) -> nat
    decreases count,
{
    if count == 0 {
        0
    } else {
        2 * bits_value(data, from, (count - 1) as nat) + bit_at(data, from + count - 1)
    }
}

/// The bits that a reader may take from `len` bytes of which `bit_len` bits count.
pub open spec fn readable_bits(len: nat, bit_len: nat) -> nat {
    if bit_len < 8 * len {
        bit_len
    } else {
        8 * len
    }
}

/// Why a location report cannot be read.
#[derive(Debug, Clone, Copy, PartialEq, Eq, Structural)]
pub enum LipError {
    /// The payload has this many bits.
    TooShort(u16),
    /// The payload is for this protocol.
    UnexpectedProtocol(u8),
    /// The report is of this type.
    UnsupportedPduType(u8),
    /// More than 32 bits were asked for at once.
    TooManyBits,
    /// At bit `pos`, `count` bits were asked for of `bit_len` in all.
    Underrun { pos: usize, count: usize, bit_len: usize },
}

impl LipError {
    /// The words for this error.
    pub open spec fn words(self) -> Seq<char> {
        match self {
            LipError::TooShort(bits) => "LIP payload too short: "@ + decimal(bits as nat)
                + " bits (need at least 84)"@,
            LipError::UnexpectedProtocol(id) => "unexpected SDS protocol identifier: 0x"@.push(
                upper_hex_digit((id / 16) as nat),
            ).push(upper_hex_digit((id % 16) as nat)),
            LipError::UnsupportedPduType(kind) => "unsupported LIP PDU type "@ + decimal(
                kind as nat,
            ) + " (only Short Location Report supported)"@,
            LipError::TooManyBits => "cannot read more than 32 bits"@,
            LipError::Underrun { pos, count, bit_len } => "bitstream underrun at bit "@ + decimal(
                pos as nat,
            ) + " reading "@ + decimal(count as nat) + " bits (length "@ + decimal(bit_len as nat)
                + ")"@,
        }
    }

    /// Says in words what is wrong with the report.
    pub fn message(&self) -> (r: String)
        ensures
            r@ == self.words(),
    {
        match *self {
            LipError::TooShort(bits) => {
                let mut out = "LIP payload too short: ".to_owned();
                push_decimal(&mut out, bits as u64);
                out.append(" bits (need at least 84)");
                out
            },
            LipError::UnexpectedProtocol(id) => {
                let mut out = "unexpected SDS protocol identifier: 0x".to_owned();
                out.push(to_upper_hex_digit(id / 16));
                out.push(to_upper_hex_digit(id % 16));
                out
            },
            LipError::UnsupportedPduType(kind) => {
                let mut out = "unsupported LIP PDU type ".to_owned();
                push_decimal(&mut out, kind as u64);
                out.append(" (only Short Location Report supported)");
                out
            },
            LipError::TooManyBits => "cannot read more than 32 bits".to_owned(),
            LipError::Underrun { pos, count, bit_len } => {
                let mut out = "bitstream underrun at bit ".to_owned();
                push_decimal(&mut out, pos as u64);
                out.append(" reading ");
                push_decimal(&mut out, count as u64);
                out.append(" bits (length ");
                push_decimal(&mut out, bit_len as u64);
                out.append(")");
                out
            },
        }
    }
}

/// A short location report. The coordinates are in units of 2^-23 degrees,
/// north and east of zero; the direction is in tenths of a degree.
#[derive(Debug, Clone, Copy, PartialEq, Eq, Structural)]
pub struct LipPosition {
    pub latitude: i32,
    pub longitude: i32,
    pub position_error: u8,
    pub velocity_raw: u8,
    pub direction: u16,
    pub additional_data_type: u8,
    pub additional_data: u8,
}

/// Takes numbers from a string of bits, from the front on.
pub struct BitReader<'a> {
    pub data: &'a [u8],
    pub bit_len: usize,
    pub pos: usize,
}

/// A number of `count` bits is below two to that power.
proof fn lemma_bits_bound(data: Seq<u8>, from: nat, count: nat)
    ensures
        bits_value(data, from, count) < pow2(count),
    decreases count,
{
    if count == 0 {
        vstd::arithmetic::power2::lemma2_to64();
    } else {
        lemma_bits_bound(data, from, (count - 1) as nat);
        vstd::arithmetic::power2::lemma_pow2_unfold(count);
    }
}

/// The first bits of a byte are what is left of it when the others are cut off.
proof fn lemma_byte_front(data: Seq<u8>, k: nat, count: nat)
    requires
        k < data.len(),
        count <= 8,
    ensures
        bits_value(data, 8 * k, count) == data[k as int] as nat / pow2((8 - count) as nat),
    decreases count,
{
    vstd::arithmetic::power2::lemma2_to64();
    let b = data[k as int] as int;
    if count > 0 {
        lemma_byte_front(data, k, (count - 1) as nat);
        let rest = (8 - count) as nat;
        vstd::arithmetic::power2::lemma_pow2_pos(rest);
        vstd::arithmetic::power2::lemma_pow2_unfold(rest + 1);
        vstd::arithmetic::div_mod::lemma_div_denominator(b, pow2(rest) as int, 2);
        assert(pow2(rest) * 2 == pow2(rest + 1));
        assert((8 * k + count - 1) / 8 == k && (8 * k + count - 1) % 8 == count - 1);
        let x = b / pow2(rest) as int;
        assert(b / pow2(rest + 1) as int == x / 2);
        assert(bit_at(data, 8 * k + count - 1) == x % 2);
        assert(bits_value(data, 8 * k, (count - 1) as nat) == x / 2);
    } else {
        vstd::arithmetic::div_mod::lemma_basic_div(b, pow2(8) as int);
    }
}

impl<'a> BitReader<'a> {
    /// The reader stands within its bits, and these within its bytes.
    pub open spec fn within(self) -> bool {
        self.pos <= self.bit_len <= 8 * self.data@.len()
    }

    /// A reader of the first `bit_len` bits, or of all where there are fewer.
    pub fn new(data: &'a [u8], bit_len: usize) -> (r: Self)
        ensures
            r.within(),
            r.data@ == data@,
            r.bit_len == readable_bits(data@.len(), bit_len as nat),
            r.pos == 0,
    {
        let readable: usize = if bit_len / 8 < data.len() {
            bit_len
        } else {
            data.len() * 8
        };
        BitReader { data, bit_len: readable, pos: 0 }
    }

    /// Takes the next `count` bits as a number.
    pub fn read_u32(&mut self, count: usize) -> (r: Result<u32, LipError>)
        requires
            old(self).within(),
        ensures
            final(self).within(),
            final(self).data@ == old(self).data@,
            final(self).bit_len == old(self).bit_len,
            count > 32 ==> r == Err::<u32, LipError>(LipError::TooManyBits),
            count <= 32 && old(self).pos + count > old(self).bit_len ==> r == Err::<u32, LipError>(
                LipError::Underrun { pos: old(self).pos, count, bit_len: old(self).bit_len },
            ),
            count <= 32 && old(self).pos + count <= old(self).bit_len ==> r is Ok,
            r matches Ok(v) ==> v == bits_value(old(self).data@, old(self).pos as nat, count as nat)
                && final(self).pos == old(self).pos + count,
            r is Err ==> final(self).pos == old(self).pos,
    {
        if count > 32 {
            return Err(LipError::TooManyBits);
        }
        if count > self.bit_len - self.pos {
            return Err(
                LipError::Underrun { pos: self.pos, count, bit_len: self.bit_len },
            );
        }
        let mut value: u32 = 0;
        let mut i: usize = 0;
        while i < count
            invariant
                0 <= i <= count <= 32,
                self.within(),
                self.data@ == old(self).data@,
                self.bit_len == old(self).bit_len,
                self.pos == old(self).pos + i,
                old(self).pos + count <= self.bit_len,
                value == bits_value(self.data@, old(self).pos as nat, i as nat),
            decreases count - i,
        {
            let byte = self.data[self.pos / 8];
            let shift: u8 = 7 - (self.pos % 8) as u8;
            let bit: u8 = (byte >> shift) & 1;
            proof {
                vstd::bits::lemma_u8_shr_is_div(byte, shift);
                let shifted = byte >> shift;
                assert(shifted & 1 == shifted % 2) by (bit_vector);
                assert(bit == bit_at(self.data@, self.pos as int));
                lemma_bits_bound(self.data@, old(self).pos as nat, i as nat);
                vstd::arithmetic::power2::lemma2_to64();
                if i < 31 {
                    vstd::arithmetic::power2::lemma_pow2_strictly_increases(i as nat, 31);
                }
            }
            value = value * 2 + bit as u32;
            self.pos += 1;
            i += 1;
        }
        Ok(value)
    }
}

/// The number that the low `bits` bits of `value` spell in two's complement.
pub open spec fn twos_complement(value: nat, bits: nat) -> int {
    let low = value % pow2(bits);
    if 2 * low < pow2(bits) {
        low as int
    } else {
        low - pow2(bits)
    }
}

/// Reads the low `bits` bits of `value` as a two's complement number.
pub fn sign_extend(value: u32, bits: u8) -> (r: i32)
    requires
        1 <= bits <= 32,
    ensures
        r == twos_complement(value as nat, bits as nat),
{
    let modulus: u64 = 1u64 << bits;
    proof {
        vstd::arithmetic::power2::lemma2_to64();
        vstd::arithmetic::power2::lemma2_to64_rest();
        if bits < 32 {
            vstd::arithmetic::power2::lemma_pow2_strictly_increases(bits as nat, 32);
        }
        vstd::bits::lemma_u64_shl_is_mul(1, bits as u64);
        assert(1u64 << bits == 1u64 << (bits as u64)) by (bit_vector);
        vstd::arithmetic::power2::lemma_pow2_pos(bits as nat);
        vstd::arithmetic::power2::lemma_pow2_unfold(bits as nat);
        assert(modulus == pow2(bits as nat));
    }
    let low: u64 = value as u64 % modulus;
    if low < modulus / 2 {
        low as i32
    } else {
        (low as i64 - modulus as i64) as i32
    }
}

/// Where the first number of a report stands that `bit_len` bits do not
/// hold, and how many bits it has.
pub open spec fn first_missing(bit_len: nat) -> (nat, nat) {
    if bit_len < 10 {
        (8, 2)
    } else if bit_len < 12 {
        (10, 2)
    } else if bit_len < 37 {
        (12, 25)
    } else if bit_len < 61 {
        (37, 24)
    } else if bit_len < 64 {
        (61, 3)
    } else if bit_len < 71 {
        (64, 7)
    } else if bit_len < 75 {
        (71, 4)
    } else if bit_len < 76 {
        (75, 1)
    } else {
        (76, 8)
    }
}

/// What a report that is there in full says.
pub open spec fn short_report(data: Seq<u8>) -> LipPosition {
    LipPosition {
        latitude: (90 * twos_complement(bits_value(data, 37, 24), 24)) as i32,
        longitude: (90 * twos_complement(bits_value(data, 12, 25), 25)) as i32,
        position_error: bits_value(data, 61, 3) as u8,
        velocity_raw: bits_value(data, 64, 7) as u8,
        direction: (225 * bits_value(data, 71, 4)) as u16,
        additional_data_type: bits_value(data, 75, 1) as u8,
        additional_data: bits_value(data, 76, 8) as u8,
    }
}

/// What reading a payload of `length_bits` bits as a short location report gives.
pub open spec fn decoded(data: Seq<u8>, length_bits: u16) -> Result<LipPosition, LipError> {
    let bit_len = readable_bits(data.len(), length_bits as nat);
    let (pos, count) = first_missing(bit_len);
    let underrun = LipError::Underrun {
        pos: pos as usize,
        count: count as usize,
        bit_len: bit_len as usize,
    };
    if length_bits < SHORT_REPORT_BITS {
        Err(LipError::TooShort(length_bits))
    } else if data.len() == 0 {
        Err(LipError::UnexpectedProtocol(0))
    } else if data[0] != LIP_PROTOCOL {
        Err(LipError::UnexpectedProtocol(data[0]))
    } else if bit_len < 10 {
        Err(underrun)
    } else if bits_value(data, 8, 2) != 0 {
        Err(LipError::UnsupportedPduType(bits_value(data, 8, 2) as u8))
    } else if bit_len < SHORT_REPORT_BITS {
        Err(underrun)
    } else {
        Ok(short_report(data))
    }
}

/// Reads a short location report.
pub fn decode_short_lip(data: &[u8], length_bits: u16) -> (r: Result<LipPosition, LipError>)
    ensures
        r == decoded(data@, length_bits),
{
    if length_bits < SHORT_REPORT_BITS {
        return Err(LipError::TooShort(length_bits));
    }
    if data.len() == 0 {
        return Err(LipError::UnexpectedProtocol(0));
    }
    if data[0] != LIP_PROTOCOL {
        return Err(LipError::UnexpectedProtocol(data[0]));
    }
    proof {
        lemma_short_report_bounds(data@);
    }
    let mut bits = BitReader::new(data, length_bits as usize);
    let pid = bits.read_u32(8)?;
    assert(pid == LIP_PROTOCOL);
    let pdu_type = bits.read_u32(2)? as u8;
    if pdu_type != 0 {
        return Err(LipError::UnsupportedPduType(pdu_type));
    }
    let _time_elapsed = bits.read_u32(2)?;
    let lon_raw = bits.read_u32(25)?;
    let lat_raw = bits.read_u32(24)?;
    let position_error = bits.read_u32(3)? as u8;
    let velocity_raw = bits.read_u32(7)? as u8;
    let direction_raw = bits.read_u32(4)? as u16;
    let additional_data_type = bits.read_u32(1)? as u8;
    let additional_data = bits.read_u32(8)? as u8;
    Ok(
        LipPosition {
            latitude: sign_extend(lat_raw, 24) * 90,
            longitude: sign_extend(lon_raw, 25) * 90,
            position_error,
            velocity_raw,
            direction: direction_raw * 225,
            additional_data_type,
            additional_data,
        },
    )
}

/// Digit `i` of the bytes in hexadecimal.
pub open spec fn hex_digit_at(data: Seq<u8>, i: int) -> char {
    let byte = data[i / 2] as nat;
    upper_hex_digit(
        if i % 2 == 0 {
            byte / 16
        } else {
            byte % 16
        },
    )
}

/// The bytes in hexadecimal, two capital digits each.
pub open spec fn hex(data: Seq<u8>) -> Seq<char> {
    Seq::new(2 * data.len(), |i: int| hex_digit_at(data, i))
}

/// Writes bytes in hexadecimal.
pub fn to_hex(data: &[u8]) -> (r: String)
    ensures
        r@ == hex(data@),
{
    let mut out = String::new();
    let n = data.len();
    let mut i: usize = 0;
    while i < n
        invariant
            0 <= i <= n == data@.len(),
            out@ == hex(data@.take(i as int)),
        decreases n - i,
    {
        out.push(to_upper_hex_digit(data[i] / 16));
        out.push(to_upper_hex_digit(data[i] % 16));
        i += 1;
        assert(out@ =~= hex(data@.take(i as int)));
    }
    assert(data@.take(n as int) == data@);
    out
}

/// The numbers of a report fit the fields that they are kept in.
proof fn lemma_short_report_bounds(data: Seq<u8>)
    requires
        data.len() > 0,
    ensures
        bits_value(data, 0, 8) == data[0],
        bits_value(data, 8, 2) < 4,
        -0x80_0000 <= twos_complement(bits_value(data, 37, 24), 24) < 0x80_0000,
        -0x100_0000 <= twos_complement(bits_value(data, 12, 25), 25) < 0x100_0000,
        bits_value(data, 61, 3) < 8,
        bits_value(data, 64, 7) < 128,
        bits_value(data, 71, 4) < 16,
        bits_value(data, 75, 1) < 2,
        bits_value(data, 76, 8) < 256,
{
    vstd::arithmetic::power2::lemma2_to64();
    lemma_byte_front(data, 0, 8);
    vstd::arithmetic::div_mod::lemma_div_basics(data[0] as int);
    lemma_bits_bound(data, 8, 2);
    lemma_bits_bound(data, 37, 24);
    lemma_bits_bound(data, 12, 25);
    lemma_bits_bound(data, 61, 3);
    lemma_bits_bound(data, 64, 7);
    lemma_bits_bound(data, 71, 4);
    lemma_bits_bound(data, 75, 1);
    lemma_bits_bound(data, 76, 8);
}

/// Reading some bits and then some more spells the same number as reading
/// them all at once.
pub proof fn law_reads_join(data: Seq<u8>, from: nat, first: nat, then_more: nat)
    ensures
        bits_value(data, from, first + then_more) == bits_value(data, from, first) * pow2(then_more)
            + bits_value(data, from + first, then_more),
    decreases then_more,
{
    vstd::arithmetic::power2::lemma2_to64();
    if then_more > 0 {
        let less = (then_more - 1) as nat;
        law_reads_join(data, from, first, less);
        vstd::arithmetic::power2::lemma_pow2_unfold(then_more);
        let a = bits_value(data, from, first);
        let p = pow2(less);
        assert(2 * (a * p) == a * (2 * p)) by (nonlinear_arith);
        assert((first + then_more - 1) as nat == first + less);
    } else {
        vstd::arithmetic::mul::lemma_mul_basics(bits_value(data, from, first) as int);
    }
}

/// The coordinates of a report that can be read are within a quarter circle
/// north and south and within a half circle east and west.
pub proof fn law_decoded_in_range(data: Seq<u8>, length_bits: u16)
    requires
        decoded(data, length_bits) is Ok,
    ensures
        -90 * 8388608 <= decoded(data, length_bits)->Ok_0.latitude < 90 * 8388608,
        -180 * 8388608 <= decoded(data, length_bits)->Ok_0.longitude < 180 * 8388608,
        decoded(data, length_bits)->Ok_0.direction < 3600,
{
    lemma_short_report_bounds(data);
}

/// A report can be read exactly where it has all its bits, bears the protocol
/// identifier and is of the short type.
pub proof fn law_decoded_iff(data: Seq<u8>, length_bits: u16)
    ensures
        decoded(data, length_bits) is Ok <==> length_bits >= 84 && data.len() >= 11 && data[0] == 10
            && data[1] < 64,
{
    if data.len() >= 2 {
        lemma_in_byte(data, 1, 0, 2);
    }
}

/// What follows the bits of a report, and the length beyond them, does not
/// change what is read.
pub proof fn law_tail_ignored(data: Seq<u8>, length_bits: u16, other: Seq<u8>, other_bits: u16)
    requires
        decoded(data, length_bits) is Ok,
        other_bits >= SHORT_REPORT_BITS,
        other.len() >= 11,
        forall|i: int|
            0 <= i < SHORT_REPORT_BITS ==> #[trigger] bit_at(other, i) == bit_at(data, i),
    ensures
        decoded(other, other_bits) == decoded(data, length_bits),
{
    lemma_same_bits(data, other, 0, 8);
    lemma_same_bits(data, other, 8, 2);
    lemma_same_bits(data, other, 12, 25);
    lemma_same_bits(data, other, 37, 24);
    lemma_same_bits(data, other, 61, 3);
    lemma_same_bits(data, other, 64, 7);
    lemma_same_bits(data, other, 71, 4);
    lemma_same_bits(data, other, 75, 1);
    lemma_same_bits(data, other, 76, 8);
    lemma_short_report_bounds(data);
    lemma_short_report_bounds(other);
}

/// The same bits spell the same number.
proof fn lemma_same_bits(a: Seq<u8>, b: Seq<u8>, from: nat, count: nat)
    requires
        from + count <= SHORT_REPORT_BITS,
        forall|i: int| 0 <= i < SHORT_REPORT_BITS ==> #[trigger] bit_at(b, i) == bit_at(a, i),
    ensures
        bits_value(b, from, count) == bits_value(a, from, count),
    decreases count,
{
    if count > 0 {
        lemma_same_bits(a, b, from, (count - 1) as nat);
    }
}

/// Different bytes are written differently.
pub proof fn law_hex_tells_apart(a: Seq<u8>, b: Seq<u8>)
    requires
        hex(a) == hex(b),
    ensures
        a == b,
{
    assert(hex(a).len() == 2 * a.len());
    assert(hex(b).len() == 2 * b.len());
    assert forall|i: int| 0 <= i < a.len() implies a[i] == b[i] by {
        assert(hex(a)[2 * i] == hex_digit_at(a, 2 * i));
        assert(hex(b)[2 * i] == hex_digit_at(b, 2 * i));
        assert(hex(a)[2 * i + 1] == hex_digit_at(a, 2 * i + 1));
        assert(hex(b)[2 * i + 1] == hex_digit_at(b, 2 * i + 1));
    }
    assert(a =~= b);
}

/// Eight bits from the front of a byte on are that byte.
pub proof fn law_byte_bits(data: Seq<u8>, k: nat)
    requires
        k < data.len(),
    ensures
        bits_value(data, 8 * k, 8) == data[k as int],
{
    vstd::arithmetic::power2::lemma2_to64();
    lemma_byte_front(data, k, 8);
    vstd::arithmetic::div_mod::lemma_div_basics(data[k as int] as int);
}

/// Bits within a byte are what is left of it without those before and behind
/// them.
pub proof fn law_bits_in_byte(data: Seq<u8>, k: nat, skipped: nat, count: nat)
    requires
        k < data.len(),
        skipped + count <= 8,
    ensures
        bits_value(data, 8 * k + skipped, count) == (data[k as int] as nat / pow2(
            (8 - skipped - count) as nat,
        )) % pow2(count),
{
    lemma_byte_front(data, k, skipped);
    lemma_byte_front(data, k, skipped + count);
    law_reads_join(data, 8 * k, skipped, count);
    lemma_bits_bound(data, 8 * k + skipped, count);
    let x = bits_value(data, 8 * k, skipped + count) as int;
    let q = bits_value(data, 8 * k, skipped) as int;
    let r = bits_value(data, 8 * k + skipped, count) as int;
    let d = pow2(count) as int;
    vstd::arithmetic::div_mod::lemma_fundamental_div_mod_converse(x, d, q, r);
}

/// Fewer bits can be read than bytes hold only where fewer count.
pub proof fn law_readable_bits(len: nat, bit_len: nat)
    ensures
        readable_bits(len, bit_len) <= bit_len,
        readable_bits(len, bit_len) <= 8 * len,
        readable_bits(len, bit_len) == bit_len || readable_bits(len, bit_len) == 8 * len,
{
}

/// A two's complement number differs from its bits by a multiple of the number
/// of values, and lies within half of that number round zero.
pub proof fn law_twos_complement(value: nat, bits: nat)
    requires
        bits >= 1,
    ensures
        -pow2((bits - 1) as nat) <= twos_complement(value, bits) < pow2((bits - 1) as nat),
        (twos_complement(value, bits) - value) % pow2(bits) as int == 0,
{
    vstd::arithmetic::power2::lemma_pow2_pos((bits - 1) as nat);
    vstd::arithmetic::power2::lemma_pow2_unfold(bits);
    let m = pow2(bits) as int;
    let low = (value as int) % m;
    vstd::arithmetic::div_mod::lemma_fundamental_div_mod(value as int, m);
    vstd::arithmetic::div_mod::lemma_mod_bound(value as int, m);
    let q = (value as int) / m;
    let r = twos_complement(value, bits);
    if 2 * low < m {
        assert(r - value == (-q) * m) by (nonlinear_arith)
            requires
                value == m * q + low,
                r == low,
        ;
        vstd::arithmetic::div_mod::lemma_mod_multiples_basic(-q, m);
    } else {
        assert(r - value == (-q - 1) * m) by (nonlinear_arith)
            requires
                value == m * q + low,
                r == low - m,
        ;
        vstd::arithmetic::div_mod::lemma_mod_multiples_basic(-q - 1, m);
    }
}

/// The numbers of a report stand in its bytes one after the other: two bits of
/// type and two of time, 25 bits of longitude, 24 of latitude, three of error,
/// seven of velocity, four of direction, one of the sort of additional data
/// and eight of that data. Both coordinates are in units of 2^-23 degrees and
/// the direction in tenths of a degree.
pub proof fn law_report_bytes(data: Seq<u8>, length_bits: u16)
    requires
        decoded(data, length_bits) is Ok,
    ensures
        ({
            let p = decoded(data, length_bits)->Ok_0;
            let east = (data[1] % 16) * 0x20_0000 + data[2] * 0x2000 + data[3] * 0x20 + data[4] / 8;
            let north = (data[4] % 8) * 0x20_0000 + data[5] * 0x2000 + data[6] * 0x20 + data[7] / 8;
            &&& p.longitude == 90 * if east < 0x100_0000 {
                east
            } else {
                east - 0x200_0000
            }
            &&& p.latitude == 90 * if north < 0x80_0000 {
                north
            } else {
                north - 0x100_0000
            }
            &&& p.position_error == data[7] % 8
            &&& p.velocity_raw == data[8] / 2
            &&& p.direction == 225 * ((data[8] % 2) * 8 + data[9] / 32)
            &&& p.additional_data_type == (data[9] / 16) % 2
            &&& p.additional_data == (data[9] % 16) * 16 + data[10] / 16
        }),
{
    vstd::arithmetic::power2::lemma2_to64();
    lemma_short_report_bounds(data);
    law_byte_bits(data, 2);
    law_byte_bits(data, 3);
    law_byte_bits(data, 5);
    law_byte_bits(data, 6);
    law_reads_join(data, 12, 4, 21);
    law_reads_join(data, 16, 8, 13);
    law_reads_join(data, 24, 8, 5);
    law_reads_join(data, 37, 3, 21);
    law_reads_join(data, 40, 8, 13);
    law_reads_join(data, 48, 8, 5);
    law_reads_join(data, 71, 1, 3);
    law_reads_join(data, 76, 4, 4);
    lemma_report_divisions(data);
}

/// The bytes of a report, divided by powers of two.
proof fn lemma_report_divisions(data: Seq<u8>)
    requires
        data.len() >= 11,
    ensures
        bits_value(data, 12, 4) == data[1] % 16,
        bits_value(data, 32, 5) == data[4] / 8,
        bits_value(data, 37, 3) == data[4] % 8,
        bits_value(data, 56, 5) == data[7] / 8,
        bits_value(data, 61, 3) == data[7] % 8,
        bits_value(data, 64, 7) == data[8] / 2,
        bits_value(data, 71, 1) == data[8] % 2,
        bits_value(data, 72, 3) == data[9] / 32,
        bits_value(data, 75, 1) == (data[9] / 16) % 2,
        bits_value(data, 76, 4) == data[9] % 16,
        bits_value(data, 80, 4) == data[10] / 16,
{
    lemma_in_byte(data, 1, 4, 4);
    lemma_in_byte(data, 4, 0, 5);
    lemma_in_byte(data, 4, 5, 3);
    lemma_in_byte(data, 7, 0, 5);
    lemma_in_byte(data, 7, 5, 3);
    lemma_in_byte(data, 8, 0, 7);
    lemma_in_byte(data, 8, 7, 1);
    lemma_in_byte(data, 9, 0, 3);
    lemma_in_byte(data, 9, 3, 1);
    lemma_in_byte(data, 9, 4, 4);
    lemma_in_byte(data, 10, 0, 4);
}

/// Two to the power of up to eight.
spec fn small_power(e: nat) -> nat {
    if e == 0 {
        1
    } else if e == 1 {
        2
    } else if e == 2 {
        4
    } else if e == 3 {
        8
    } else if e == 4 {
        16
    } else if e == 5 {
        32
    } else if e == 6 {
        64
    } else if e == 7 {
        128
    } else {
        256
    }
}

proof fn lemma_in_byte(data: Seq<u8>, k: nat, skipped: nat, count: nat)
    requires
        k < data.len(),
        skipped + count <= 8,
    ensures
        bits_value(data, 8 * k + skipped, count) == (data[k as int] as nat / small_power(
            (8 - skipped - count) as nat,
        )) % small_power(count),
        skipped + count == 8 ==> bits_value(data, 8 * k + skipped, count) == data[k as int] as nat
            % small_power(count),
{
    vstd::arithmetic::div_mod::lemma_div_basics(data[k as int] as int);
    vstd::arithmetic::power2::lemma2_to64();
    law_bits_in_byte(data, k, skipped, count);
    assert(small_power(count) == pow2(count));
    assert(small_power((8 - skipped - count) as nat) == pow2((8 - skipped - count) as nat));
}

/// What is wrong with a report that cannot be read: too few bits are claimed
/// for it; its first byte is not that of the protocol; its type, the first two
/// bits of the second byte, is not zero; or bytes are missing, and then the
/// error tells which number they cut off.
pub proof fn law_decode_errors(data: Seq<u8>, length_bits: u16)
    ensures
        ({
            let r = decoded(data, length_bits);
            let n = data.len();
            &&& length_bits < 84 ==> r == Err::<LipPosition, LipError>(
                LipError::TooShort(length_bits),
            )
            &&& length_bits >= 84 && n == 0 ==> r == Err::<LipPosition, LipError>(
                LipError::UnexpectedProtocol(0),
            )
            &&& length_bits >= 84 && n > 0 && data[0] != 10 ==> r == Err::<LipPosition, LipError>(
                LipError::UnexpectedProtocol(data[0]),
            )
            &&& length_bits >= 84 && n == 1 && data[0] == 10 ==> r == Err::<LipPosition, LipError>(
                LipError::Underrun { pos: 8, count: 2, bit_len: 8 },
            )
            &&& length_bits >= 84 && n >= 2 && data[0] == 10 && data[1] / 64 != 0 ==> r == Err::<
                LipPosition,
                LipError,
            >(LipError::UnsupportedPduType((data[1] / 64) as u8))
            &&& length_bits >= 84 && 2 <= n <= 10 && data[0] == 10 && data[1] / 64 == 0 ==> r
                == Err::<LipPosition, LipError>(
                LipError::Underrun {
                    pos: if n <= 4 {
                        12
                    } else if n <= 7 {
                        37
                    } else if n == 8 {
                        64
                    } else if n == 9 {
                        71
                    } else {
                        76
                    },
                    count: if n <= 4 {
                        25
                    } else if n <= 7 {
                        24
                    } else if n == 8 {
                        7
                    } else if n == 9 {
                        4
                    } else {
                        8
                    },
                    bit_len: (8 * n) as usize,
                },
            )
            &&& length_bits >= 84 && n >= 11 && data[0] == 10 && data[1] / 64 == 0 ==> r is Ok
        }),
{
    if data.len() >= 2 {
        lemma_in_byte(data, 1, 0, 2);
    }
}

/// Each byte is written as two capital hexadecimal digits that spell its upper
/// and its lower half.
pub proof fn law_hex(data: Seq<u8>, k: int)
    requires
        0 <= k < data.len(),
    ensures
        hex(data).len() == 2 * data.len(),
        hex_value(hex(data)[2 * k]) == data[k] / 16,
        hex_value(hex(data)[2 * k + 1]) == data[k] % 16,
        !('a' <= hex(data)[2 * k] <= 'f'),
        !('a' <= hex(data)[2 * k + 1] <= 'f'),
{
    assert(hex(data)[2 * k] == hex_digit_at(data, 2 * k));
    assert(hex(data)[2 * k + 1] == hex_digit_at(data, 2 * k + 1));
    law_hex_digits(data[k] as nat / 16);
    law_hex_digits(data[k] as nat % 16);
}

/// The words for an error give its numbers, so that they read back.
pub proof fn law_lip_words(bits: u16, id: u8, kind: u8, pos: usize, count: usize, bit_len: usize)
    ensures
        exists|word: Seq<char>|
            all_digits(word) && #[trigger] digits_value(word) == bits && LipError::TooShort(
                bits,
            ).words() == "LIP payload too short: "@ + word + " bits (need at least 84)"@,
        ({
            let words = LipError::UnexpectedProtocol(id).words();
            let n = words.len() as int;
            &&& words.take(n - 2) == "unexpected SDS protocol identifier: 0x"@
            &&& hex_value(words[n - 2]) == id / 16 && !('a' <= words[n - 2] <= 'f')
            &&& hex_value(words[n - 1]) == id % 16 && !('a' <= words[n - 1] <= 'f')
        }),
        exists|word: Seq<char>|
            all_digits(word) && #[trigger] digits_value(word) == kind
                && LipError::UnsupportedPduType(kind).words() == "unsupported LIP PDU type "@ + word
                + " (only Short Location Report supported)"@,
        LipError::TooManyBits.words() == "cannot read more than 32 bits"@,
        exists|a: Seq<char>, b: Seq<char>, c: Seq<char>|
            all_digits(a) && all_digits(b) && all_digits(c) && #[trigger] digits_value(a) == pos
                && #[trigger] digits_value(b) == count && #[trigger] digits_value(c) == bit_len
                && (LipError::Underrun { pos, count, bit_len }).words()
                == "bitstream underrun at bit "@ + a + " reading "@ + b + " bits (length "@ + c
                + ")"@,
{
    law_decimal_reads_back(bits as nat);
    law_decimal_reads_back(kind as nat);
    law_decimal_reads_back(pos as nat);
    law_decimal_reads_back(count as nat);
    law_decimal_reads_back(bit_len as nat);
    law_hex_digits((id / 16) as nat);
    law_hex_digits((id % 16) as nat);
    let words = LipError::UnexpectedProtocol(id).words();
    assert(words.take(words.len() - 2) =~= "unexpected SDS protocol identifier: 0x"@);
    assert(digits_value(decimal(bits as nat)) == bits);
    assert(digits_value(decimal(kind as nat)) == kind);
}

} // verus!
