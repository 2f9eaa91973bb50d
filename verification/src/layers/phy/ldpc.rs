//! LDPC coding for the shared channel: base graph and lifting size
//! selection, the (simplified) systematic encoder, and circular-buffer rate
//! matching.
use vstd::prelude::*;

verus! {

/// LDPC base graphs.
#[derive(Debug, Clone, Copy, PartialEq, Eq, Structural)]
pub enum LdpcBaseGraph {
    /// Base graph 1, for larger code blocks
    BaseGraph1,
    /// Base graph 2, for smaller code blocks
    BaseGraph2,
}

/// The lifting sizes Z, in increasing order.
pub open spec fn lifting_set() -> Seq<usize> {
    seq![
        2usize, 3, 4, 5, 6, 7, 8, 9, 10, 11, 12, 13, 14, 15, 16, 18, 20, 22, 24, 26, 28, 30, 32, 36,
        40, 44, 48, 52, 56, 60, 64, 72, 80, 88, 96, 104, 112, 120, 128, 144, 160, 176, 192, 208,
        224, 240, 256, 288, 320, 352, 384,
    ]
}

/// The first lifting size from entry `i` on that is at least `min_z`, or 384
/// when there is none.
pub open spec fn lifting_from(i: nat, min_z: nat) -> usize
    decreases 51 - i,
{
    if i >= 51 {
        384
    } else if lifting_set()[i as int] >= min_z {
        lifting_set()[i as int]
    } else {
        lifting_from(i + 1, min_z)
    }
}

/// Base graph for a code block of `cbs` bits: graph 1 above 308 bits.
pub open spec fn base_graph_spec(cbs: nat) -> LdpcBaseGraph {
    if cbs > 308 {
        LdpcBaseGraph::BaseGraph1
    } else {
        LdpcBaseGraph::BaseGraph2
    }
}

/// Systematic columns of a base graph: 22 for graph 1, 10 for graph 2.
pub open spec fn graph_kb(bg: LdpcBaseGraph) -> nat {
    match bg {
        LdpcBaseGraph::BaseGraph1 => 22,
        LdpcBaseGraph::BaseGraph2 => 10,
    }
}

/// Total columns of a base graph: 66 for graph 1, 50 for graph 2.
pub open spec fn graph_nb(bg: LdpcBaseGraph) -> nat {
    match bg {
        LdpcBaseGraph::BaseGraph1 => 66,
        LdpcBaseGraph::BaseGraph2 => 50,
    }
}

/// Lifting size for `cbs` bits: the smallest Z with kb * Z >= cbs (384 at
/// most).
pub open spec fn lifting_size_spec(cbs: nat) -> usize {
    let kb = graph_kb(base_graph_spec(cbs));
    lifting_from(0, ((cbs + kb - 1) as int / kb as int) as nat)
}

/// LDPC code parameters for a code block.
#[derive(Debug, Clone, Copy, PartialEq, Eq, Structural)]
pub struct LdpcConfig {
    /// Base graph
    pub base_graph: LdpcBaseGraph,
    /// Lifting size Z
    pub lifting_size: usize,
    /// Information bits K = kb * Z
    pub num_info_bits: usize,
    /// Encoded bits N = nb * Z
    pub num_encoded_bits: usize,
}

/// The configuration is the one built for some code block: Z is a lifting
/// size and K, N follow from the graph.
pub open spec fn ldpc_config_valid(c: LdpcConfig) -> bool {
    &&& 2 <= c.lifting_size <= 384
    &&& c.num_info_bits == graph_kb(c.base_graph) * c.lifting_size
    &&& c.num_encoded_bits == graph_nb(c.base_graph) * c.lifting_size
}

/// Every lifting size is between 2 and 384.
proof fn lemma_lifting_from_range(i: nat, min_z: nat)
    ensures
        2 <= lifting_from(i, min_z) <= 384,
    decreases 51 - i,
{
    if i < 51 {
        lemma_lifting_from_range(i + 1, min_z);
    }
}

impl LdpcConfig {
    /// The LDPC parameters for a code block of `code_block_size` bits.
    pub fn new(code_block_size: usize) -> (c: Self)
        requires
            code_block_size + 21 <= usize::MAX,
        ensures
            c.base_graph == base_graph_spec(code_block_size as nat),
            c.lifting_size == lifting_size_spec(code_block_size as nat),
            c.num_info_bits == graph_kb(c.base_graph) * c.lifting_size,
            c.num_encoded_bits == graph_nb(c.base_graph) * c.lifting_size,
            ldpc_config_valid(c),
    {
        let base_graph = if code_block_size > 308 {
            LdpcBaseGraph::BaseGraph1
        } else {
            LdpcBaseGraph::BaseGraph2
        };
        let k_b: usize = match base_graph {
            LdpcBaseGraph::BaseGraph1 => 22,
            LdpcBaseGraph::BaseGraph2 => 10,
        };
        let min_z = (code_block_size + (k_b - 1)) / k_b;
        let set: Vec<usize> = vec![
            2, 3, 4, 5, 6, 7, 8, 9, 10, 11, 12, 13, 14, 15, 16, 18, 20, 22, 24, 26, 28, 30, 32, 36,
            40, 44, 48, 52, 56, 60, 64, 72, 80, 88, 96, 104, 112, 120, 128, 144, 160, 176, 192, 208,
            224, 240, 256, 288, 320, 352, 384,
        ];
        assert(set@ =~= lifting_set());
        let mut i: usize = 0;
        while i < 51 && set[i] < min_z
            invariant
                i <= 51,
                set@ == lifting_set(),
                lifting_from(i as nat, min_z as nat) == lifting_from(0, min_z as nat),
            decreases 51 - i,
        {
            i = i + 1;
        }
        let lifting_size = if i < 51 {
            set[i]
        } else {
            384
        };
        proof {
            lemma_lifting_from_range(0, min_z as nat);
        }
        let num_info_bits = k_b * lifting_size;
        let num_encoded_bits = match base_graph {
            LdpcBaseGraph::BaseGraph1 => 66 * lifting_size,
            LdpcBaseGraph::BaseGraph2 => 50 * lifting_size,
        };
        LdpcConfig { base_graph, lifting_size, num_info_bits, num_encoded_bits }
    }
}

/// XOR of all entries.
pub open spec fn xor_all(s: Seq<u8>) -> u8
    decreases s.len(),
{
    if s.len() == 0 {
        0
    } else {
        xor_all(s.drop_last()) ^ s.last()
    }
}

/// The information bits of a code block: its bytes MSB first, cut or
/// zero-padded to `k` bits.
pub open spec fn ldpc_info_bits(input: Seq<u8>, k: nat) -> Seq<u8> {
    Seq::new(
        k,
        |p: int|
            if p < 8 * input.len() {
                (input[p / 8] >> ((7 - p % 8) as u8)) & 1u8
            } else {
                0u8
            },
    )
}

/// Graph-1 parity bit `i` (< 2Z) of the first group: XOR of information
/// bits j*Z + i%Z over the columns j < 22 with (i + j) divisible by 3.
pub open spec fn bg1_parity_head(info: Seq<u8>, z: nat, i: nat) -> u8 {
    xor_all(
        Seq::new(
            22,
            |j: int|
                if (i + j) % 3 == 0 {
                    info[j * z + (i % z) as int]
                } else {
                    0u8
                },
        ),
    )
}

/// Graph-2 parity bit `i` (< 4Z) of the first group: XOR of information
/// bits j*Z + i%Z over the columns j < 10 with (i + j) even.
pub open spec fn bg2_parity_head(info: Seq<u8>, z: nat, i: nat) -> u8 {
    xor_all(
        Seq::new(
            10,
            |j: int|
                if (i + j) % 2 == 0 {
                    info[j * z + (i % z) as int]
                } else {
                    0u8
                },
        ),
    )
}

/// The first `head` bits of the codeword: the K information bits followed
/// by the first parity group.
pub open spec fn ldpc_head(info: Seq<u8>, bg: LdpcBaseGraph, z: nat, p: int) -> u8 {
    let k = graph_kb(bg) * z;
    if p < k {
        info[p]
    } else {
        match bg {
            LdpcBaseGraph::BaseGraph1 => bg1_parity_head(info, z, (p - k) as nat),
            LdpcBaseGraph::BaseGraph2 => bg2_parity_head(info, z, (p - k) as nat),
        }
    }
}

/// Length of the head part: 24Z for graph 1, 14Z for graph 2.
pub open spec fn head_len(bg: LdpcBaseGraph, z: nat) -> nat {
    match bg {
        LdpcBaseGraph::BaseGraph1 => 24 * z,
        LdpcBaseGraph::BaseGraph2 => 14 * z,
    }
}

/// Parity bit at position `p` past the head: the XOR of 10 (graph 1, step
/// 7) or 8 (graph 2, step 5) head bits at (p + step*j) mod head length.
pub open spec fn ldpc_tail_bit(info: Seq<u8>, bg: LdpcBaseGraph, z: nat, p: int) -> u8 {
    let h = head_len(bg, z) as int;
    let (count, step): (int, int) = match bg {
        LdpcBaseGraph::BaseGraph1 => (10, 7),
        LdpcBaseGraph::BaseGraph2 => (8, 5),
    };
    xor_all(Seq::new(count as nat, |j: int| ldpc_head(info, bg, z, (p + step * j) % h)))
}

/// The codeword bits (one per byte) for the information bits.
pub open spec fn ldpc_codeword(info: Seq<u8>, bg: LdpcBaseGraph, z: nat) -> Seq<u8> {
    Seq::new(
        graph_nb(bg) * z,
        |p: int|
            if p < head_len(bg, z) {
                ldpc_head(info, bg, z, p)
            } else {
                ldpc_tail_bit(info, bg, z, p)
            },
    )
}

/// Byte `j` of the packed bit values with its first `i` values placed (MSB
/// first).
pub open spec fn pack_partial(bits: Seq<u8>, j: int, i: nat) -> u8
    decreases i,
{
    if i == 0 {
        0
    } else {
        let prev = pack_partial(bits, j, (i - 1) as nat);
        let p = 8 * j + i - 1;
        if 0 <= p < bits.len() {
            prev | (bits[p] << ((7 - (i - 1)) as u8))
        } else {
            prev
        }
    }
}

/// Bit values packed into bytes, MSB first, the last byte zero-padded.
pub open spec fn pack_bit_values(bits: Seq<u8>) -> Seq<u8> {
    Seq::new(((bits.len() + 7) / 8) as nat, |j: int| pack_partial(bits, j, 8))
}

/// Bytes unpacked into bit values, MSB first.
pub open spec fn unpack_bit_values(bytes: Seq<u8>) -> Seq<u8> {
    Seq::new(8 * bytes.len(), |p: int| (bytes[p / 8] >> ((7 - p % 8) as u8)) & 1u8)
}

/// The encoded code block: the codeword of the information bits, packed.
pub open spec fn ldpc_encode_spec(input: Seq<u8>, c: LdpcConfig) -> Seq<u8> {
    pack_bit_values(
        ldpc_codeword(
            ldpc_info_bits(input, c.num_info_bits as nat),
            c.base_graph,
            c.lifting_size as nat,
        ),
    )
}

/// Packs bit values into bytes, MSB first.
pub(crate) fn pack_values(bits: &Vec<u8>) -> (r: Vec<u8>)
    ensures
        r@ == pack_bit_values(bits@),
{
    let len = bits.len();
    let nbytes = len / 8 + if len % 8 == 0 { 0 } else { 1 };
    let mut out: Vec<u8> = Vec::new();
    let mut j: usize = 0;
    while j < nbytes
        invariant
            j <= nbytes,
            len == bits@.len(),
            nbytes == (len + 7) / 8,
            out@.len() == j,
            forall|m: int| 0 <= m < j ==> out@[m] == pack_partial(bits@, m, 8),
        decreases nbytes - j,
    {
        let mut byte: u8 = 0;
        let mut i: usize = 0;
        while i < 8
            invariant
                i <= 8,
                j < nbytes,
                len == bits@.len(),
                nbytes == (len + 7) / 8,
                byte == pack_partial(bits@, j as int, i as nat),
            decreases 8 - i,
        {
            let p = 8 * j + i;
            if p < len {
                byte = byte | (bits[p] << ((7 - i) as u8));
            }
            i = i + 1;
        }
        out.push(byte);
        j = j + 1;
    }
    assert(out@ =~= pack_bit_values(bits@));
    out
}

/// XOR of the first `j + 1` entries from the XOR of the first `j`.
proof fn lemma_xor_all_take(s: Seq<u8>, j: int)
    requires
        0 <= j < s.len(),
    ensures
        xor_all(s.take(j + 1)) == xor_all(s.take(j)) ^ s[j],
{
    assert(s.take(j + 1).drop_last() =~= s.take(j));
}

/// The LDPC encoder.
pub struct LdpcEncoder {}

impl LdpcEncoder {
    /// Creates the encoder.
    pub fn new() -> (r: Self) {
        LdpcEncoder {}
    }

    /// Encodes a code block: the bytes become K information bits (MSB
    /// first, cut or zero-padded), the systematic codeword of N bits is
    /// formed and packed back into bytes.
    pub fn encode(&self, input: &[u8], config: &LdpcConfig) -> (r: Vec<u8>)
        requires
            ldpc_config_valid(*config),
        ensures
            r@ == ldpc_encode_spec(input@, *config),
    {
        let k = config.num_info_bits;
        let mut info_bits: Vec<u8> = Vec::new();
        let mut bit_idx: usize = 0;
        let mut b: usize = 0;
        while b < input.len()
            invariant
                b <= input@.len(),
                k == config.num_info_bits,
                bit_idx == if 8 * b < k { 8 * b } else { k as int },
                info_bits@.len() == bit_idx,
                forall|p: int|
                    0 <= p < bit_idx ==> info_bits@[p] == ldpc_info_bits(input@, k as nat)[p],
            decreases input@.len() - b,
        {
            let byte = input[b];
            let mut i: usize = 0;
            while i < 8
                invariant
                    i <= 8,
                    b < input@.len(),
                    byte == input@[b as int],
                    k == config.num_info_bits,
                    bit_idx == if 8 * b + i < k { 8 * b + i } else { k as int },
                    info_bits@.len() == bit_idx,
                    forall|p: int|
                        0 <= p < bit_idx ==> info_bits@[p] == ldpc_info_bits(input@, k as nat)[p],
                decreases 8 - i,
            {
                if bit_idx < k {
                    proof {
                        let p = bit_idx as int;
                        assert(p / 8 == b && p % 8 == i) by (nonlinear_arith)
                            requires
                                p == 8 * b + i,
                                i < 8,
                        ;
                    }
                    let v = (byte >> ((7 - i) as u8)) & 1;
                    assert(v == ldpc_info_bits(input@, k as nat)[bit_idx as int]);
                    let ghost before = info_bits@;
                    info_bits.push(v);
                    bit_idx = bit_idx + 1;
                    assert forall|p: int| 0 <= p < bit_idx implies info_bits@[p] == ldpc_info_bits(
                        input@,
                        k as nat,
                    )[p] by {
                        if p < bit_idx - 1 {
                            assert(info_bits@[p] == before[p]);
                        }
                    }
                }
                i = i + 1;
            }
            b = b + 1;
        }
        while bit_idx < k
            invariant
                bit_idx <= k,
                k == config.num_info_bits,
                8 * input@.len() >= k ==> bit_idx == k,
                bit_idx == k || bit_idx >= 8 * input@.len(),
                info_bits@.len() == bit_idx,
                forall|p: int|
                    0 <= p < bit_idx ==> info_bits@[p] == ldpc_info_bits(input@, k as nat)[p],
            decreases k - bit_idx,
        {
            info_bits.push(0);
            bit_idx = bit_idx + 1;
        }
        assert(info_bits@ =~= ldpc_info_bits(input@, k as nat));
        let encoded = Self::encode_codeword(&info_bits, config);
        pack_values(&encoded)
    }

    /// The systematic codeword for K information bits.
    fn encode_codeword(info_bits: &Vec<u8>, config: &LdpcConfig) -> (r: Vec<u8>)
        requires
            ldpc_config_valid(*config),
            info_bits@.len() == config.num_info_bits,
        ensures
            r@ == ldpc_codeword(info_bits@, config.base_graph, config.lifting_size as nat),
    {
        let z = config.lifting_size;
        let bg = config.base_graph;
        let ghost info = info_bits@;
        let k = config.num_info_bits;
        let (head_groups, count, step, nb): (usize, usize, usize, usize) = match bg {
            LdpcBaseGraph::BaseGraph1 => (2, 22, 3, 66),
            LdpcBaseGraph::BaseGraph2 => (4, 10, 2, 50),
        };
        let h = k + head_groups * z;
        assert(h == head_len(bg, z as nat));
        let mut encoded: Vec<u8> = Vec::new();
        let mut p: usize = 0;
        while p < k
            invariant
                p <= k,
                k == info.len(),
                info == info_bits@,
                encoded@.len() == p,
                forall|q: int| 0 <= q < p ==> encoded@[q] == ldpc_head(info, bg, z as nat, q),
                k == graph_kb(bg) * z,
            decreases k - p,
        {
            encoded.push(info_bits[p]);
            p = p + 1;
        }
        let mut i: usize = 0;
        while i < head_groups * z
            invariant
                i <= head_groups * z,
                ldpc_config_valid(*config),
                bg == config.base_graph,
                z == config.lifting_size,
                k == info.len(),
                k == graph_kb(bg) * z,
                info == info_bits@,
                count == graph_kb(bg),
                (bg == LdpcBaseGraph::BaseGraph1 ==> step == 3 && head_groups == 2),
                (bg == LdpcBaseGraph::BaseGraph2 ==> step == 2 && head_groups == 4),
                encoded@.len() == k + i,
                forall|q: int| 0 <= q < k + i ==> encoded@[q] == ldpc_head(info, bg, z as nat, q),
            decreases head_groups * z - i,
        {
            let ghost terms = Seq::new(
                count as nat,
                |j: int|
                    if (i + j) % (step as int) == 0 {
                        info[j * z + (i % z) as int]
                    } else {
                        0u8
                    },
            );
            let mut parity: u8 = 0;
            let mut j: usize = 0;
            while j < count
                invariant
                    j <= count,
                    count == graph_kb(bg),
                    k == count * z,
                    z >= 2,
                    k == info.len(),
                    info == info_bits@,
                    step > 0,
                    i < 4 * 384,
                    terms == Seq::new(
                        count as nat,
                        |j: int|
                            if (i + j) % (step as int) == 0 {
                                info[j * z + (i % z) as int]
                            } else {
                                0u8
                            },
                    ),
                    parity == xor_all(terms.take(j as int)),
                decreases count - j,
            {
                proof {
                    lemma_xor_all_take(terms, j as int);
                    assert(j * z + i % z < count * z) by (nonlinear_arith)
                        requires
                            j < count,
                            i % z < z,
                    ;
                }
                if (i + j) % step == 0 {
                    parity = parity ^ info_bits[j * z + i % z];
                } else {
                    parity = parity ^ 0;
                }
                j = j + 1;
            }
            proof {
                assert(terms.take(count as int) =~= terms);
                let q = (k + i) as int;
                match bg {
                    LdpcBaseGraph::BaseGraph1 => {
                        assert(ldpc_head(info, bg, z as nat, q) == bg1_parity_head(info, z as nat, i as nat));
                        assert(terms =~= Seq::new(
                            22,
                            |j: int|
                                if (i + j) % 3 == 0 {
                                    info[j * z + (i % z) as int]
                                } else {
                                    0u8
                                },
                        ));
                    },
                    LdpcBaseGraph::BaseGraph2 => {
                        assert(terms =~= Seq::new(
                            10,
                            |j: int|
                                if (i + j) % 2 == 0 {
                                    info[j * z + (i % z) as int]
                                } else {
                                    0u8
                                },
                        ));
                    },
                }
            }
            encoded.push(parity);
            i = i + 1;
        }
        let n = nb * z;
        let (tcount, tstep): (usize, usize) = match bg {
            LdpcBaseGraph::BaseGraph1 => (10, 7),
            LdpcBaseGraph::BaseGraph2 => (8, 5),
        };
        let mut p: usize = h;
        while p < n
            invariant
                h <= p <= n,
                ldpc_config_valid(*config),
                bg == config.base_graph,
                z == config.lifting_size,
                h == head_len(bg, z as nat),
                n == graph_nb(bg) * z,
                n <= 66 * 384,
                h > 0,
                info == info_bits@,
                (bg == LdpcBaseGraph::BaseGraph1 ==> tcount == 10 && tstep == 7),
                (bg == LdpcBaseGraph::BaseGraph2 ==> tcount == 8 && tstep == 5),
                encoded@.len() == p,
                forall|q: int| 0 <= q < h ==> encoded@[q] == ldpc_head(info, bg, z as nat, q),
                forall|q: int|
                    h <= q < p ==> encoded@[q] == ldpc_tail_bit(info, bg, z as nat, q),
            decreases n - p,
        {
            let ghost terms = Seq::new(
                tcount as nat,
                |j: int| ldpc_head(info, bg, z as nat, (p + tstep * j) % (h as int)),
            );
            let mut parity: u8 = 0;
            let mut j: usize = 0;
            while j < tcount
                invariant
                    j <= tcount,
                    tcount <= 10,
                    tstep <= 7,
                    p < n,
                    n <= 66 * 384,
                    h > 0,
                    h <= encoded@.len(),
                    forall|q: int| 0 <= q < h ==> encoded@[q] == ldpc_head(info, bg, z as nat, q),
                    terms == Seq::new(
                        tcount as nat,
                        |j: int| ldpc_head(info, bg, z as nat, (p + tstep * j) % (h as int)),
                    ),
                    parity == xor_all(terms.take(j as int)),
                decreases tcount - j,
            {
                proof {
                    lemma_xor_all_take(terms, j as int);
                }
                assert(j * tstep <= 70 && j * tstep == tstep * j) by (nonlinear_arith)
                    requires
                        j < 10,
                        tstep <= 7,
                ;
                let idx = (p + j * tstep) % h;
                parity = parity ^ encoded[idx];
                j = j + 1;
            }
            proof {
                assert(terms.take(tcount as int) =~= terms);
                assert(ldpc_tail_bit(info, bg, z as nat, p as int) == xor_all(terms));
            }
            encoded.push(parity);
            p = p + 1;
        }
        assert(encoded@ =~= ldpc_codeword(info, bg, z as nat));
        encoded
    }
}

/// Start of the circular buffer read for a redundancy version.
pub open spec fn rv_start(bg: LdpcBaseGraph, rv: u8, n: nat) -> nat {
    match bg {
        LdpcBaseGraph::BaseGraph1 => if rv == 1 {
            17 * n / 66
        } else if rv == 2 {
            33 * n / 66
        } else if rv == 3 {
            56 * n / 66
        } else {
            0
        },
        LdpcBaseGraph::BaseGraph2 => if rv == 1 {
            13 * n / 50
        } else if rv == 2 {
            25 * n / 50
        } else if rv == 3 {
            43 * n / 50
        } else {
            0
        },
    }
}

/// Circular-buffer selection of `target` bits from the redundancy
/// version's start.
pub open spec fn ldpc_rate_match_spec(bits: Seq<u8>, target: nat, rv: u8, bg: LdpcBaseGraph) -> Seq<u8> {
    let n = bits.len();
    Seq::new(target, |i: int| bits[(rv_start(bg, rv, n) + i) % (n as int)])
}

/// LDPC rate matching.
pub struct LdpcRateMatcher;

impl LdpcRateMatcher {
    /// Reads `target_bits` bits from the circular buffer of encoded bits,
    /// starting at the redundancy version's position.
    pub fn rate_match(&self, encoded_bits: &[u8], target_bits: usize, rv: u8, config: &LdpcConfig) -> (r: Vec<u8>)
        requires
            encoded_bits@.len() > 0 || target_bits == 0,
            56 * encoded_bits@.len() <= usize::MAX,
            encoded_bits@.len() + target_bits <= usize::MAX,
        ensures
            r@ == ldpc_rate_match_spec(encoded_bits@, target_bits as nat, rv, config.base_graph),
    {
        let n = encoded_bits.len();
        let start_pos: usize = match config.base_graph {
            LdpcBaseGraph::BaseGraph1 => match rv {
                1 => (17 * n) / 66,
                2 => (33 * n) / 66,
                3 => (56 * n) / 66,
                _ => 0,
            },
            LdpcBaseGraph::BaseGraph2 => match rv {
                1 => (13 * n) / 50,
                2 => (25 * n) / 50,
                3 => (43 * n) / 50,
                _ => 0,
            },
        };
        assert(start_pos <= n) by (nonlinear_arith)
            requires
                start_pos == 0 || start_pos == (17 * n) / 66 || start_pos == (33 * n) / 66
                    || start_pos == (56 * n) / 66 || start_pos == (13 * n) / 50 || start_pos == (25
                    * n) / 50 || start_pos == (43 * n) / 50,
        ;
        let mut output: Vec<u8> = Vec::new();
        let mut i: usize = 0;
        while i < target_bits
            invariant
                i <= target_bits,
                n == encoded_bits@.len(),
                n > 0 || target_bits == 0,
                start_pos == rv_start(config.base_graph, rv, n as nat),
                start_pos <= n,
                n + target_bits <= usize::MAX,
                output@.len() == i,
                forall|m: int|
                    0 <= m < i ==> output@[m] == encoded_bits@[(start_pos + m) % (n as int)],
            decreases target_bits - i,
        {
            let idx = (start_pos + i) % n;
            output.push(encoded_bits[idx]);
            i = i + 1;
        }
        assert(output@ =~= ldpc_rate_match_spec(encoded_bits@, target_bits as nat, rv, config.base_graph));
        output
    }
}

/// The complete PDSCH LDPC encoding of a code block.
pub open spec fn pdsch_ldpc_encode_spec(code_block: Seq<u8>, target_bits: nat, rv: u8) -> Seq<u8> {
    let c = LdpcConfig {
        base_graph: base_graph_spec(8 * code_block.len()),
        lifting_size: lifting_size_spec(8 * code_block.len()),
        num_info_bits: (graph_kb(base_graph_spec(8 * code_block.len())) * lifting_size_spec(
            8 * code_block.len(),
        )) as usize,
        num_encoded_bits: (graph_nb(base_graph_spec(8 * code_block.len())) * lifting_size_spec(
            8 * code_block.len(),
        )) as usize,
    };
    pack_bit_values(
        ldpc_rate_match_spec(
            unpack_bit_values(ldpc_encode_spec(code_block, c)),
            target_bits,
            rv,
            c.base_graph,
        ),
    )
}

/// LDPC encoding and rate matching for the shared channel.
pub struct PdschLdpcEncoder {
    encoder: LdpcEncoder,
    rate_matcher: LdpcRateMatcher,
}

impl PdschLdpcEncoder {
    /// Creates the encoder chain.
    pub fn new() -> (r: Self) {
        PdschLdpcEncoder { encoder: LdpcEncoder::new(), rate_matcher: LdpcRateMatcher }
    }

    /// Encodes a code block and rate matches it to `target_bits` bits with
    /// redundancy version `rv`; the result is packed MSB first.
    pub fn encode(&self, code_block: &[u8], target_bits: usize, rv: u8) -> (r: Vec<u8>)
        requires
            8 * code_block@.len() + 21 <= usize::MAX,
            target_bits + 8 * 66 * 384 <= usize::MAX,
        ensures
            r@ == pdsch_ldpc_encode_spec(code_block@, target_bits as nat, rv),
    {
        let config = LdpcConfig::new(code_block.len() * 8);
        let encoded = self.encoder.encode(code_block, &config);
        let mut encoded_bits: Vec<u8> = Vec::new();
        let mut b: usize = 0;
        proof {
            assert(encoded@.len() <= 66 * 384) by (nonlinear_arith)
                requires
                    encoded@.len() == (config.num_encoded_bits + 7) / 8,
                    config.num_encoded_bits <= 66 * 384,
            ;
        }
        while b < encoded.len()
            invariant
                b <= encoded@.len(),
                encoded@.len() <= 66 * 384,
                encoded_bits@.len() == 8 * b,
                forall|p: int|
                    0 <= p < 8 * b ==> encoded_bits@[p] == unpack_bit_values(encoded@)[p],
            decreases encoded@.len() - b,
        {
            let byte = encoded[b];
            let mut i: usize = 0;
            while i < 8
                invariant
                    i <= 8,
                    b < encoded@.len(),
                    encoded@.len() <= 66 * 384,
                    byte == encoded@[b as int],
                    encoded_bits@.len() == 8 * b + i,
                    forall|p: int|
                        0 <= p < 8 * b + i ==> encoded_bits@[p] == unpack_bit_values(encoded@)[p],
                decreases 8 - i,
            {
                proof {
                    let p = (8 * b + i) as int;
                    assert(p / 8 == b && p % 8 == i) by (nonlinear_arith)
                        requires
                            p == 8 * b + i,
                            i < 8,
                    ;
                }
                encoded_bits.push((byte >> ((7 - i) as u8)) & 1);
                i = i + 1;
            }
            b = b + 1;
        }
        assert(encoded_bits@ =~= unpack_bit_values(encoded@));
        proof {
            assert(encoded@.len() > 0);
        }
        let rate_matched = self.rate_matcher.rate_match(encoded_bits.as_slice(), target_bits, rv, &config);
        pack_values(&rate_matched)
    }
}

} // verus!
