//! Byte, bit and CRC utilities and radio numerology helpers.
use vstd::prelude::*;

pub mod time;

verus! {

/// The byte buffer type handed between protocol layers.
#[verifier::external_type_specification]
#[verifier::external_body]
pub struct ExBytes(bytes::Bytes);

/// The bytes held by a `Bytes` buffer.
pub uninterp spec fn bytes_contents(b: bytes::Bytes) -> Seq<u8>;

/// Wraps `bytes::Bytes::from(Vec<u8>)`: the buffer takes over the vector
/// and holds exactly its bytes, in order.
#[verifier::external_body]
pub(crate) fn bytes_from_vec(v: Vec<u8>) -> (b: bytes::Bytes)
    ensures
        bytes_contents(b) == v@,
{
    bytes::Bytes::from(v)
}

/// Wraps `String::push`: appends one character.
#[verifier::external_body]
pub(crate) fn string_push(s: &mut String, c: char)
    ensures
        final(s)@ == old(s)@.push(c),
{
    s.push(c)
}

/// Lower-case hexadecimal digit for a nibble.
pub open spec fn hex_char(d: nat) -> char {
    if d < 10 {
        (48 + d) as char
    } else {
        (87 + d) as char
    }
}

/// Hex dump of `data`: two lower-case digits per byte, separated by spaces.
pub open spec fn hex_string(data: Seq<u8>) -> Seq<char>
    decreases data.len(),
{
    if data.len() == 0 {
        Seq::empty()
    } else {
        let prev = hex_string(data.drop_last());
        let b = data.last() as nat;
        (if data.len() > 1 {
            prev.push(' ')
        } else {
            prev
        }).push(hex_char(b / 16)).push(hex_char(b % 16))
    }
}

/// The hex digit character for `d` (< 16).
fn hex_digit(d: u8) -> (c: char)
    requires
        d < 16,
    ensures
        c == hex_char(d as nat),
{
    match d {
        0 => '0',
        1 => '1',
        2 => '2',
        3 => '3',
        4 => '4',
        5 => '5',
        6 => '6',
        7 => '7',
        8 => '8',
        9 => '9',
        10 => 'a',
        11 => 'b',
        12 => 'c',
        13 => 'd',
        14 => 'e',
        _ => 'f',
    }
}

/// Formats bytes as space-separated lower-case hex pairs.
pub fn bytes_to_hex(data: &[u8]) -> (s: String)
    ensures
        s@ == hex_string(data@),
{
    let mut s = String::new();
    let mut i: usize = 0;
    while i < data.len()
        invariant
            i <= data@.len(),
            s@ == hex_string(data@.take(i as int)),
        decreases data@.len() - i,
    {
        let b = data[i];
        if i > 0 {
            string_push(&mut s, ' ');
        }
        string_push(&mut s, hex_digit(b / 16));
        string_push(&mut s, hex_digit(b % 16));
        proof {
            assert(data@.take(i + 1).drop_last() =~= data@.take(i as int));
        }
        i = i + 1;
    }
    assert(data@.take(data@.len() as int) =~= data@);
    s
}

/// Eight register shifts of the CRC-24 division (generator 0x1864CFB).
pub open spec fn crc24_shift(crc: u32, n: nat) -> u32
    decreases n,
{
    if n == 0 {
        crc
    } else {
        let c = crc24_shift(crc, (n - 1) as nat);
        if c & 0x800000 != 0 {
            (c << 1u32) ^ 0x1864CFBu32
        } else {
            c << 1u32
        }
    }
}

/// CRC-24 register after the first `i` bytes.
pub open spec fn crc24_reg(data: Seq<u8>, i: nat) -> u32
    decreases i,
{
    if i == 0 {
        0
    } else {
        crc24_shift(crc24_reg(data, (i - 1) as nat) ^ ((data[i - 1] as u32) << 16u32), 8)
    }
}

/// CRC-24 (generator 0x1864CFB, zero initial value) of `data`.
pub open spec fn crc24_spec(data: Seq<u8>) -> u32 {
    crc24_reg(data, data.len()) & 0xFFFFFF
}

/// One register shift of the CRC-24 division.
spec fn crc24_step1(c: u32) -> u32 {
    if c & 0x800000 != 0 {
        (c << 1u32) ^ 0x1864CFBu32
    } else {
        c << 1u32
    }
}

/// Eight shifts, one at a time.
proof fn lemma_crc24_shift8(c: u32)
    ensures
        crc24_shift(c, 8) == crc24_step1(
            crc24_step1(crc24_step1(crc24_step1(crc24_step1(crc24_step1(crc24_step1(crc24_step1(c))))))),
        ),
{
    reveal_with_fuel(crc24_shift, 9);
}

/// Feeding the top byte of the register's low 24 bits clears it: the low 24
/// bits just move up a byte.
proof fn lemma_crc24_feed_top_byte(x: u32)
    ensures
        crc24_shift(x ^ ((((x & 0xFFFFFF) >> 16u32) & 0xFF) << 16u32), 8) & 0xFFFFFF == ((x & 0xFFFFFF) << 8u32)
            & 0xFFFFFF,
{
    let y = x ^ ((((x & 0xFFFFFF) >> 16u32) & 0xFF) << 16u32);
    lemma_crc24_shift8(y);
    assert(crc24_step1(
        crc24_step1(crc24_step1(crc24_step1(crc24_step1(crc24_step1(crc24_step1(crc24_step1(y))))))),
    ) & 0xFFFFFF == ((x & 0xFFFFFF) << 8u32) & 0xFFFFFF) by (bit_vector)
        requires
            y == x ^ ((((x & 0xFFFFFF) >> 16u32) & 0xFF) << 16u32),
    ;
}

/// The CRC bytes of `r`, most significant first.
pub open spec fn crc24_bytes(r: u32) -> Seq<u8> {
    seq![((r >> 16u32) & 0xFF) as u8, ((r >> 8u32) & 0xFF) as u8, (r & 0xFF) as u8]
}

/// Data followed by its CRC-24 (three bytes, most significant first) leaves
/// a zero remainder.
pub proof fn lemma_crc24_zero_remainder(data: Seq<u8>)
    ensures
        crc24_spec(data + crc24_bytes(crc24_spec(data))) == 0,
{
    let r = crc24_spec(data);
    let d = data + crc24_bytes(r);
    let n = data.len();
    assert(d.take(n as int) =~= data);
    assert forall|i: nat| i <= n implies crc24_reg(d, i) == crc24_reg(data, i) by {
        assert(d.take(i as int) =~= data.take(i as int));
        lemma_crc24_reg_prefix(d, data, i);
    }
    let x0 = crc24_reg(data, n);
    assert(r == x0 & 0xFFFFFF);
    let x1 = crc24_reg(d, n + 1);
    let x2 = crc24_reg(d, n + 2);
    let x3 = crc24_reg(d, n + 3);
    let b0 = d[n as int];
    let b1 = d[n + 1int];
    let b2 = d[n + 2int];
    assert(b0 == ((r >> 16u32) & 0xFF) as u8);
    assert(b1 == ((r >> 8u32) & 0xFF) as u8);
    assert(b2 == (r & 0xFF) as u8);
    assert(x1 == crc24_shift(x0 ^ ((b0 as u32) << 16u32), 8));
    assert(x2 == crc24_shift(x1 ^ ((b1 as u32) << 16u32), 8));
    assert(x3 == crc24_shift(x2 ^ ((b2 as u32) << 16u32), 8));
    assert((b0 as u32) << 16u32 == (((x0 & 0xFFFFFF) >> 16u32) & 0xFF) << 16u32) by (bit_vector)
        requires
            b0 == ((r >> 16u32) & 0xFF) as u8,
            r == x0 & 0xFFFFFF,
    ;
    lemma_crc24_feed_top_byte(x0);
    assert(x1 & 0xFFFFFF == (r << 8u32) & 0xFFFFFF) by (bit_vector)
        requires
            x1 & 0xFFFFFF == ((x0 & 0xFFFFFF) << 8u32) & 0xFFFFFF,
            r == x0 & 0xFFFFFF,
    ;
    assert((b1 as u32) << 16u32 == (((x1 & 0xFFFFFF) >> 16u32) & 0xFF) << 16u32) by (bit_vector)
        requires
            b1 == ((r >> 8u32) & 0xFF) as u8,
            x1 & 0xFFFFFF == (r << 8u32) & 0xFFFFFF,
    ;
    lemma_crc24_feed_top_byte(x1);
    assert(x2 & 0xFFFFFF == (r << 16u32) & 0xFFFFFF) by (bit_vector)
        requires
            x2 & 0xFFFFFF == ((x1 & 0xFFFFFF) << 8u32) & 0xFFFFFF,
            x1 & 0xFFFFFF == (r << 8u32) & 0xFFFFFF,
    ;
    assert((b2 as u32) << 16u32 == (((x2 & 0xFFFFFF) >> 16u32) & 0xFF) << 16u32) by (bit_vector)
        requires
            b2 == (r & 0xFF) as u8,
            x2 & 0xFFFFFF == (r << 16u32) & 0xFFFFFF,
    ;
    lemma_crc24_feed_top_byte(x2);
    assert(x3 & 0xFFFFFF == 0) by (bit_vector)
        requires
            x3 & 0xFFFFFF == ((x2 & 0xFFFFFF) << 8u32) & 0xFFFFFF,
            x2 & 0xFFFFFF == (r << 16u32) & 0xFFFFFF,
    ;
    assert(d.len() == n + 3);
}

/// The register over a prefix that two sequences share is the same.
proof fn lemma_crc24_reg_prefix(a: Seq<u8>, b: Seq<u8>, i: nat)
    requires
        i <= a.len(),
        i <= b.len(),
        a.take(i as int) == b.take(i as int),
    ensures
        crc24_reg(a, i) == crc24_reg(b, i),
    decreases i,
{
    if i > 0 {
        assert(a.take(i - 1) =~= a.take(i as int).take(i - 1));
        assert(b.take(i - 1) =~= b.take(i as int).take(i - 1));
        assert(a[i - 1] == a.take(i as int)[i - 1]);
        assert(b[i - 1] == b.take(i as int)[i - 1]);
        lemma_crc24_reg_prefix(a, b, (i - 1) as nat);
    }
}

/// Computes the 24-bit CRC of `data`.
pub fn crc24(data: &[u8]) -> (r: u32)
    ensures
        r == crc24_spec(data@),
        r <= 0xFFFFFF,
{
    let mut crc: u32 = 0;
    let mut i: usize = 0;
    while i < data.len()
        invariant
            i <= data@.len(),
            crc == crc24_reg(data@, i as nat),
        decreases data@.len() - i,
    {
        crc = crc ^ ((data[i] as u32) << 16u32);
        let ghost start = crc;
        let mut b: u32 = 0;
        while b < 8
            invariant
                b <= 8,
                crc == crc24_shift(start, b as nat),
            decreases 8 - b,
        {
            if crc & 0x800000 != 0 {
                crc = (crc << 1u32) ^ 0x1864CFBu32;
            } else {
                crc = crc << 1u32;
            }
            b = b + 1;
        }
        i = i + 1;
    }
    let r = crc & 0xFFFFFF;
    assert(r <= 0xFFFFFF) by (bit_vector)
        requires
            r == crc & 0xFFFFFF,
    ;
    r
}

/// Eight register shifts of the CRC-16 division (generator 0x1021).
pub open spec fn crc16_shift(crc: u16, n: nat) -> u16
    decreases n,
{
    if n == 0 {
        crc
    } else {
        let c = crc16_shift(crc, (n - 1) as nat);
        if c & 0x8000 != 0 {
            (c << 1u16) ^ 0x1021u16
        } else {
            c << 1u16
        }
    }
}

/// CRC-16 register after the first `i` bytes.
pub open spec fn crc16_reg(data: Seq<u8>, i: nat) -> u16
    decreases i,
{
    if i == 0 {
        0
    } else {
        crc16_shift(crc16_reg(data, (i - 1) as nat) ^ ((data[i - 1] as u16) << 8u16), 8)
    }
}

/// Computes the 16-bit CRC (generator 0x1021, zero initial value) of `data`.
pub fn crc16(data: &[u8]) -> (r: u16)
    ensures
        r == crc16_reg(data@, data@.len()),
{
    let mut crc: u16 = 0;
    let mut i: usize = 0;
    while i < data.len()
        invariant
            i <= data@.len(),
            crc == crc16_reg(data@, i as nat),
        decreases data@.len() - i,
    {
        crc = crc ^ ((data[i] as u16) << 8u16);
        let ghost start = crc;
        let mut b: u32 = 0;
        while b < 8
            invariant
                b <= 8,
                crc == crc16_shift(start, b as nat),
            decreases 8 - b,
        {
            if crc & 0x8000 != 0 {
                crc = (crc << 1u16) ^ 0x1021u16;
            } else {
                crc = crc << 1u16;
            }
            b = b + 1;
        }
        i = i + 1;
    }
    crc
}

/// Bit `p` of a bit sequence, false past its end.
pub open spec fn bit_at(bits: Seq<bool>, p: int) -> bool {
    0 <= p < bits.len() && bits[p]
}

/// Byte `j` of the packed bits with only its first `i` bits placed (MSB
/// first).
pub open spec fn packed_partial(bits: Seq<bool>, j: int, i: nat) -> u8
    decreases i,
{
    if i == 0 {
        0
    } else {
        let prev = packed_partial(bits, j, (i - 1) as nat);
        if bit_at(bits, 8 * j + i - 1) {
            prev | (1u8 << ((7 - (i - 1)) as u8))
        } else {
            prev
        }
    }
}

/// The bits packed into bytes, most significant bit first; a last partial
/// byte is padded with zeros.
pub open spec fn packed_bytes(bits: Seq<bool>) -> Seq<u8> {
    Seq::new(((bits.len() + 7) / 8) as nat, |j: int| packed_partial(bits, j, 8))
}

/// The bytes unpacked into bits, most significant bit first.
pub open spec fn unpacked_bits(bytes: Seq<u8>) -> Seq<bool> {
    Seq::new(8 * bytes.len(), |p: int| bytes[p / 8] & (1u8 << ((7 - p % 8) as u8)) != 0)
}

/// Packs bits into bytes, most significant bit first.
pub fn pack_bits(bits: &[bool]) -> (r: bytes::Bytes)
    ensures
        bytes_contents(r) == packed_bytes(bits@),
{
    let len = bits.len();
    let nbytes = len / 8 + if len % 8 == 0 { 0 } else { 1 };
    assert(nbytes == (len + 7) / 8);
    let mut out: Vec<u8> = Vec::new();
    let mut j: usize = 0;
    while j < nbytes
        invariant
            j <= nbytes,
            len == bits@.len(),
            nbytes == (len + 7) / 8,
            out@.len() == j,
            forall|m: int| 0 <= m < j ==> out@[m] == packed_partial(bits@, m, 8),
        decreases nbytes - j,
    {
        let mut byte: u8 = 0;
        let mut i: usize = 0;
        while i < 8
            invariant
                i <= 8,
                j < nbytes,
                len == bits@.len(),
                nbytes == (len + 7) / 8,
                byte == packed_partial(bits@, j as int, i as nat),
            decreases 8 - i,
        {
            let p = 8 * j + i;
            if p < len && bits[p] {
                byte = byte | (1u8 << ((7 - i) as u8));
            }
            i = i + 1;
        }
        out.push(byte);
        j = j + 1;
    }
    assert(out@ =~= packed_bytes(bits@));
    bytes_from_vec(out)
}

/// Unpacks bytes into bits, most significant bit first.
pub fn unpack_bits(bytes: &[u8]) -> (r: Vec<bool>)
    requires
        8 * bytes@.len() <= usize::MAX,
    ensures
        r@ == unpacked_bits(bytes@),
{
    let mut bits: Vec<bool> = Vec::new();
    let mut j: usize = 0;
    while j < bytes.len()
        invariant
            j <= bytes@.len(),
            8 * bytes@.len() <= usize::MAX,
            bits@.len() == 8 * j,
            forall|p: int| 0 <= p < 8 * j ==> bits@[p] == unpacked_bits(bytes@)[p],
        decreases bytes@.len() - j,
    {
        let byte = bytes[j];
        let mut i: usize = 0;
        while i < 8
            invariant
                i <= 8,
                j < bytes@.len(),
                byte == bytes@[j as int],
                bits@.len() == 8 * j + i,
                forall|p: int| 0 <= p < 8 * j + i ==> bits@[p] == unpacked_bits(bytes@)[p],
            decreases 8 - i,
        {
            proof {
                let p = (8 * j + i) as int;
                assert(p / 8 == j && p % 8 == i) by (nonlinear_arith)
                    requires
                        p == 8 * j + i,
                        i < 8,
                ;
            }
            bits.push((byte & (1u8 << ((7 - i) as u8))) != 0);
            i = i + 1;
        }
        j = j + 1;
    }
    assert(bits@ =~= unpacked_bits(bytes@));
    bits
}

/// Setting bit `a` of a byte leaves every other bit as it was.
proof fn lemma_or_bit(x: u8, a: u8, k: u8)
    requires
        a < 8,
        k < 8,
    ensures
        ((x | (1u8 << a)) & (1u8 << k)) != 0 <==> ((x & (1u8 << k)) != 0 || a == k),
{
    assert(((x | (1u8 << a)) & (1u8 << k)) != 0 <==> ((x & (1u8 << k)) != 0 || a == k)) by (bit_vector)
        requires
            a < 8,
            k < 8,
    ;
}

/// In byte `j` built from its first `i` bits, the bit of position `k`
/// (most significant first) is set exactly when `k < i` and bit `8j + k`
/// is set.
proof fn lemma_packed_partial_bit(bits: Seq<bool>, j: int, i: nat, k: int)
    requires
        i <= 8,
        0 <= k < 8,
    ensures
        (packed_partial(bits, j, i) & (1u8 << ((7 - k) as u8))) != 0 <==> (k < i && bit_at(bits, 8 * j + k)),
    decreases i,
{
    let kb = (7 - k) as u8;
    if i == 0 {
        assert((0u8 & (1u8 << kb)) == 0) by (bit_vector);
    } else {
        lemma_packed_partial_bit(bits, j, (i - 1) as nat, k);
        let prev = packed_partial(bits, j, (i - 1) as nat);
        if bit_at(bits, 8 * j + i - 1) {
            lemma_or_bit(prev, (7 - (i - 1)) as u8, kb);
        }
    }
}

/// Unpacking packed bits gives the bits back, followed by zero padding up
/// to a whole byte.
pub proof fn lemma_pack_unpack_roundtrip(bits: Seq<bool>)
    ensures
        unpacked_bits(packed_bytes(bits)).len() == 8 * ((bits.len() + 7) / 8),
        forall|p: int| 0 <= p < bits.len() ==> #[trigger] unpacked_bits(packed_bytes(bits))[p] == bits[p],
        forall|p: int|
            bits.len() <= p < 8 * ((bits.len() + 7) / 8) ==> !#[trigger] unpacked_bits(packed_bytes(bits))[p],
{
    let u = unpacked_bits(packed_bytes(bits));
    assert forall|p: int| 0 <= p < u.len() implies #[trigger] u[p] == bit_at(bits, p) by {
        let j = p / 8;
        let k = p % 8;
        assert(p == 8 * j + k && 0 <= k < 8 && 0 <= j < (bits.len() + 7) / 8) by (nonlinear_arith)
            requires
                j == p / 8,
                k == p % 8,
                0 <= p < 8 * ((bits.len() + 7) / 8),
        ;
        lemma_packed_partial_bit(bits, j, 8, k);
    }
}

/// Rounds up to the next power of two (1 for 0).
pub open spec fn is_power_of_two(r: u32) -> bool {
    r != 0 && r & ((r - 1) as u32) == 0
}

/// Rounds `n` up to a power of two: the unique power of two `r` with
/// n <= r < 2n (1 for n = 0).
pub fn next_power_of_2(n: u32) -> (r: u32)
    requires
        n <= 0x8000_0000,
    ensures
        is_power_of_two(r),
        n <= r,
        n == 0 ==> r == 1,
        n > 0 ==> r < 2 * n,
{
    if n == 0 {
        assert(is_power_of_two(1u32)) by (bit_vector);
        return 1;
    }
    let mut v = n;
    v = v - 1;
    v = v | (v >> 1u32);
    v = v | (v >> 2u32);
    v = v | (v >> 4u32);
    v = v | (v >> 8u32);
    v = v | (v >> 16u32);
    let m = n - 1;
    assert(v < 0xFFFF_FFFF && n <= v + 1 && v + 1 < 2 * n) by (bit_vector)
        requires
            1 <= n <= 0x8000_0000,
            m == n - 1,
            v == ({
                let a = m | (m >> 1u32);
                let b = a | (a >> 2u32);
                let c = b | (b >> 4u32);
                let d = c | (c >> 8u32);
                d | (d >> 16u32)
            }),
    ;
    let r = v + 1;
    assert(r != 0 && r & ((r - 1) as u32) == 0) by (bit_vector)
        requires
            r == v + 1,
            1 <= n <= 0x8000_0000,
            m == n - 1,
            v == ({
                let a = m | (m >> 1u32);
                let b = a | (a >> 2u32);
                let c = b | (b >> 4u32);
                let d = c | (c >> 8u32);
                d | (d >> 16u32)
            }),
    ;
    r
}

/// Number of whole resource blocks (12 subcarriers) in `bandwidth_hz` at
/// `scs_khz`, truncated to 16 bits.
pub open spec fn nrb_spec(bandwidth_hz: u32, scs_khz: u16) -> u16 {
    ((bandwidth_hz as int / (scs_khz as int * 1000)) / 12) as u16
}

/// Computes the number of resource blocks for a bandwidth and spacing.
pub fn calculate_nrb(bandwidth_hz: u32, scs_khz: u16) -> (r: u16)
    requires
        scs_khz > 0,
    ensures
        r == nrb_spec(bandwidth_hz, scs_khz),
{
    let scs_hz = scs_khz as u32 * 1000;
    let total_subcarriers = bandwidth_hz / scs_hz;
    let nrb = total_subcarriers / 12;
    nrb as u16
}

} // verus!
