//! Primary and secondary synchronization sequences as BPSK values (+1/-1)
//! at unit amplitude; the caller scales them to the transmit amplitude.
use vstd::prelude::*;
use crate::common::types::Pci;
use crate::layers::LayerError;

verus! {

/// PSS sequence length
pub const PSS_LENGTH: usize = 127;

/// SSS sequence length
pub const SSS_LENGTH: usize = 127;

/// The PSS m-sequence: x(0..7) = 0,1,1,0,1,1,1 and
/// x(i + 7) = x(i + 4) + x(i) mod 2.
pub open spec fn pss_x(k: nat) -> u8
    decreases k,
{
    if k < 7 {
        if k == 0 || k == 3 {
            0
        } else {
            1
        }
    } else {
        ((pss_x((k - 3) as nat) + pss_x((k - 7) as nat)) % 2) as u8
    }
}

/// The first SSS m-sequence: x0(0..7) = 1,0,0,0,0,0,0 and
/// x0(i + 7) = x0(i + 4) + x0(i) mod 2.
pub open spec fn sss_x0(k: nat) -> u8
    decreases k,
{
    if k < 7 {
        if k == 0 {
            1
        } else {
            0
        }
    } else {
        ((sss_x0((k - 3) as nat) + sss_x0((k - 7) as nat)) % 2) as u8
    }
}

/// The second SSS m-sequence: x1(0..7) = 1,0,0,0,0,0,0 and
/// x1(i + 7) = x1(i + 1) + x1(i) mod 2.
pub open spec fn sss_x1(k: nat) -> u8
    decreases k,
{
    if k < 7 {
        if k == 0 {
            1
        } else {
            0
        }
    } else {
        ((sss_x1((k - 6) as nat) + sss_x1((k - 7) as nat)) % 2) as u8
    }
}

/// BPSK value of a bit: 0 -> +1, 1 -> -1.
pub open spec fn bpsk(b: u8) -> i8 {
    if b == 0 {
        1i8
    } else {
        -1i8
    }
}

/// The PSS of a sector `nid2`: d(n) = 1 - 2 x((n + 43 nid2) mod 127).
pub open spec fn pss_spec(nid2: u8) -> Seq<i8> {
    Seq::new(127, |n: int| bpsk(pss_x(((n + 43 * nid2) % 127) as nat)))
}

/// The SSS cyclic shifts: m0 = 15 floor(nid1 / 112) + 5 nid2 and
/// m1 = nid1 mod 112.
pub open spec fn sss_m0(nid1: u16, nid2: u8) -> int {
    15 * (nid1 / 112) + 5 * nid2
}

/// The SSS of cell group `nid1` and sector `nid2`:
/// d(n) = (1 - 2 x0((n + m0) mod 127)) (1 - 2 x1((n + m1) mod 127)).
pub open spec fn sss_spec(nid1: u16, nid2: u8) -> Seq<i8> {
    Seq::new(
        127,
        |n: int|
            (bpsk(sss_x0(((n + sss_m0(nid1, nid2)) % 127) as nat)) * bpsk(
                sss_x1(((n + nid1 % 112) % 127) as nat),
            )) as i8,
    )
}

/// The 134 bits x(0..134) of the PSS m-sequence.
fn pss_m_sequence() -> (x: Vec<u8>)
    ensures
        x@.len() == 134,
        forall|k: int| 0 <= k < 134 ==> x@[k] == pss_x(k as nat),
{
    let mut x: Vec<u8> = Vec::new();
    let mut k: usize = 0;
    while k < 134
        invariant
            k <= 134,
            x@.len() == k,
            forall|j: int| 0 <= j < k ==> x@[j] == pss_x(j as nat),
        decreases 134 - k,
    {
        let b: u8 = if k < 7 {
            if k == 0 || k == 3 {
                0
            } else {
                1
            }
        } else {
            (x[k - 3] + x[k - 7]) % 2
        };
        x.push(b);
        k = k + 1;
    }
    x
}

/// The PSS of a sector as BPSK values, the m-sequence read with the
/// cyclic shift 43 nid2.
pub fn generate_pss_sequence(nid2: u8) -> (s: Vec<i8>)
    ensures
        s@ == pss_spec(nid2),
{
    let x = pss_m_sequence();
    let m_shift = (43 * nid2 as usize) % PSS_LENGTH;
    let mut sequence: Vec<i8> = Vec::new();
    let mut n: usize = 0;
    while n < PSS_LENGTH
        invariant
            n <= 127,
            x@.len() == 134,
            forall|k: int| 0 <= k < 134 ==> x@[k] == pss_x(k as nat),
            m_shift == (43 * nid2) % 127,
            sequence@.len() == n,
            forall|j: int| 0 <= j < n ==> sequence@[j] == pss_spec(nid2)[j],
        decreases 127 - n,
    {
        let m = (n + m_shift) % PSS_LENGTH;
        assert(m == (n + 43 * nid2) % 127) by (nonlinear_arith)
            requires
                m == (n + m_shift) % 127,
                m_shift == (43 * nid2) % 127,
        ;
        let value: i8 = if x[m] == 0 {
            1
        } else {
            -1
        };
        sequence.push(value);
        n = n + 1;
    }
    assert(sequence@ =~= pss_spec(nid2));
    sequence
}

/// The two SSS m-sequences x0 and x1, as BPSK values (127 each).
pub fn generate_sss_base_sequences() -> (r: (Vec<i8>, Vec<i8>))
    ensures
        r.0@.len() == 127,
        r.1@.len() == 127,
        forall|k: int| 0 <= k < 127 ==> r.0@[k] == bpsk(sss_x0(k as nat)),
        forall|k: int| 0 <= k < 127 ==> r.1@[k] == bpsk(sss_x1(k as nat)),
{
    let mut x0: Vec<u8> = Vec::new();
    let mut x1: Vec<u8> = Vec::new();
    let mut k: usize = 0;
    while k < 134
        invariant
            k <= 134,
            x0@.len() == k,
            x1@.len() == k,
            forall|j: int| 0 <= j < k ==> x0@[j] == sss_x0(j as nat),
            forall|j: int| 0 <= j < k ==> x1@[j] == sss_x1(j as nat),
        decreases 134 - k,
    {
        if k < 7 {
            let b: u8 = if k == 0 {
                1
            } else {
                0
            };
            x0.push(b);
            x1.push(b);
        } else {
            let b0 = (x0[k - 3] + x0[k - 7]) % 2;
            let b1 = (x1[k - 6] + x1[k - 7]) % 2;
            x0.push(b0);
            x1.push(b1);
        }
        k = k + 1;
    }
    let mut sequence0: Vec<i8> = Vec::new();
    let mut sequence1: Vec<i8> = Vec::new();
    let mut i: usize = 0;
    while i < SSS_LENGTH
        invariant
            i <= 127,
            x0@.len() == 134,
            x1@.len() == 134,
            forall|j: int| 0 <= j < 134 ==> x0@[j] == sss_x0(j as nat),
            forall|j: int| 0 <= j < 134 ==> x1@[j] == sss_x1(j as nat),
            sequence0@.len() == i,
            sequence1@.len() == i,
            forall|j: int| 0 <= j < i ==> sequence0@[j] == bpsk(sss_x0(j as nat)),
            forall|j: int| 0 <= j < i ==> sequence1@[j] == bpsk(sss_x1(j as nat)),
        decreases 127 - i,
    {
        sequence0.push(
            if x0[i] == 0 {
                1
            } else {
                -1
            },
        );
        sequence1.push(
            if x1[i] == 0 {
                1
            } else {
                -1
            },
        );
        i = i + 1;
    }
    (sequence0, sequence1)
}

/// The SSS of a cell group and sector as BPSK values: the product of the
/// two base sequences shifted by m0 and m1.
pub fn generate_sss_sequence(nid1: u16, nid2: u8) -> (s: Vec<i8>)
    requires
        sss_m0(nid1, nid2) <= u16::MAX,
    ensures
        s@ == sss_spec(nid1, nid2),
{
    let (sequence0, sequence1) = generate_sss_base_sequences();
    let m0 = (15 * (nid1 / 112) + 5 * nid2 as u16) as usize;
    let m1 = (nid1 % 112) as usize;
    let mut sequence: Vec<i8> = Vec::new();
    let mut n: usize = 0;
    while n < SSS_LENGTH
        invariant
            n <= 127,
            m0 == sss_m0(nid1, nid2),
            m1 == nid1 % 112,
            sequence0@.len() == 127,
            sequence1@.len() == 127,
            forall|k: int| 0 <= k < 127 ==> sequence0@[k] == bpsk(sss_x0(k as nat)),
            forall|k: int| 0 <= k < 127 ==> sequence1@[k] == bpsk(sss_x1(k as nat)),
            sequence@.len() == n,
            forall|j: int| 0 <= j < n ==> sequence@[j] == sss_spec(nid1, nid2)[j],
        decreases 127 - n,
    {
        let idx0 = (n + m0) % SSS_LENGTH;
        let idx1 = (n + m1) % SSS_LENGTH;
        let d0 = sequence0[idx0];
        let d1 = sequence1[idx1];
        assert(d0 == 1 || d0 == -1);
        assert(d1 == 1 || d1 == -1);
        assert(idx0 == (n + sss_m0(nid1, nid2)) % 127);
        let value: i8 = if d0 == d1 {
            1
        } else {
            -1
        };
        assert(value == d0 * d1);
        sequence.push(value);
        n = n + 1;
    }
    assert(sequence@ =~= sss_spec(nid1, nid2));
    sequence
}

/// PSS generator of a cell.
#[derive(Debug)]
pub struct PssGenerator {
    pci: Pci,
    nid2: u8,
    sequence: Vec<i8>,
}

impl PssGenerator {
    /// The sector identity is that of the cell and the sequence its PSS.
    #[verifier::type_invariant]
    spec fn inv(&self) -> bool {
        &&& self.nid2 == self.pci.0 % 3
        &&& self.sequence@ == pss_spec(self.nid2)
    }

    /// Sector identity nid2.
    pub closed spec fn spec_nid2(&self) -> u8 {
        self.nid2
    }

    /// Physical cell identity.
    pub closed spec fn spec_pci(&self) -> Pci {
        self.pci
    }

    /// The generator of a cell: nid2 = pci mod 3 and its PSS.
    pub fn new(pci: Pci) -> (r: Result<Self, LayerError>)
        ensures
            r is Ok,
            r->Ok_0.spec_pci() == pci,
            r->Ok_0.spec_nid2() == pci.0 % 3,
    {
        let nid2 = (pci.0 % 3) as u8;
        let sequence = generate_pss_sequence(nid2);
        Ok(PssGenerator { pci, nid2, sequence })
    }

    /// The PSS at unit amplitude.
    pub fn generate(&self) -> (s: Vec<i8>)
        ensures
            s@ == pss_spec(self.spec_nid2()),
    {
        proof {
            use_type_invariant(self);
        }
        let mut out: Vec<i8> = Vec::new();
        let mut i: usize = 0;
        while i < self.sequence.len()
            invariant
                i <= self.sequence@.len(),
                out@ == self.sequence@.take(i as int),
            decreases self.sequence@.len() - i,
        {
            out.push(self.sequence[i]);
            i = i + 1;
            assert(out@ =~= self.sequence@.take(i as int));
        }
        assert(self.sequence@.take(self.sequence@.len() as int) =~= self.sequence@);
        out
    }

    /// Sector identity nid2.
    pub fn nid2(&self) -> (n: u8)
        ensures
            n == self.spec_nid2(),
    {
        self.nid2
    }
}

/// SSS generator of a cell.
#[derive(Debug, Clone, Copy)]
pub struct SssGenerator {
    pci: Pci,
    nid1: u16,
    nid2: u8,
}

impl SssGenerator {
    /// The identities are those of the cell.
    #[verifier::type_invariant]
    spec fn inv(&self) -> bool {
        &&& self.nid1 == self.pci.0 / 3
        &&& self.nid2 == self.pci.0 % 3
    }

    /// Cell group identity nid1.
    pub closed spec fn spec_nid1(&self) -> u16 {
        self.nid1
    }

    /// Sector identity nid2.
    pub closed spec fn spec_nid2(&self) -> u8 {
        self.nid2
    }

    /// The generator of a cell: nid1 = pci / 3, nid2 = pci mod 3.
    pub fn new(pci: Pci) -> (r: Result<Self, LayerError>)
        ensures
            r is Ok,
            r->Ok_0.spec_nid1() == pci.0 / 3,
            r->Ok_0.spec_nid2() == pci.0 % 3,
    {
        Ok(SssGenerator { pci, nid1: pci.0 / 3, nid2: (pci.0 % 3) as u8 })
    }

    /// The SSS at unit amplitude; the same sequence in every frame.
    pub fn generate(&self, frame_number: u32) -> (s: Vec<i8>)
        ensures
            s@ == sss_spec(self.spec_nid1(), self.spec_nid2()),
    {
        proof {
            use_type_invariant(self);
        }
        assert(sss_m0(self.nid1, self.nid2) <= u16::MAX) by {
            assert(self.nid1 / 112 <= 585);
        }
        generate_sss_sequence(self.nid1, self.nid2)
    }

    /// Cell group identity nid1.
    pub fn nid1(&self) -> (n: u16)
        ensures
            n == self.spec_nid1(),
    {
        self.nid1
    }
}

/// Reference sequences for PSS search: the PSS of each sector identity.
/// The correlation itself runs on received samples, outside this library.
pub struct PssCorrelator {
    pss_sequences: [Vec<i8>; 3],
}

impl PssCorrelator {
    /// Entry `nid2` is the PSS of sector `nid2`.
    #[verifier::type_invariant]
    spec fn inv(&self) -> bool {
        forall|i: int| 0 <= i < 3 ==> #[trigger] self.pss_sequences[i]@ == pss_spec(i as u8)
    }

    /// The reference sequence kept for sector `nid2`.
    pub closed spec fn spec_reference(&self, nid2: int) -> Seq<i8> {
        self.pss_sequences[nid2]@
    }

    /// The PSS of the three sector identities.
    pub fn new() -> (c: Self)
        ensures
            forall|i: int| 0 <= i < 3 ==> #[trigger] c.spec_reference(i) == pss_spec(i as u8),
    {
        let pss_sequences = [generate_pss_sequence(0), generate_pss_sequence(1), generate_pss_sequence(2)];
        assert(forall|i: int| 0 <= i < 3 ==> #[trigger] pss_sequences[i]@ == pss_spec(i as u8));
        PssCorrelator { pss_sequences }
    }

    /// The reference PSS of sector `nid2`.
    pub fn reference(&self, nid2: u8) -> (s: &[i8])
        requires
            nid2 < 3,
        ensures
            s@ == pss_spec(nid2),
            s@ == self.spec_reference(nid2 as int),
    {
        proof {
            use_type_invariant(self);
            assert(self.pss_sequences[nid2 as int]@ == pss_spec(nid2));
        }
        self.pss_sequences[nid2 as usize].as_slice()
    }
}

/// The range of cell group identities searched for the SSS.
pub struct SssCorrelator {
    max_nid1: u16,
}

impl SssCorrelator {
    /// Searches all 336 cell groups: nid1 from 0 to 335.
    pub fn new() -> (c: Self)
        ensures
            c.spec_max_nid1() == 335,
    {
        SssCorrelator { max_nid1: 335 }
    }

    /// Largest cell group identity searched.
    pub closed spec fn spec_max_nid1(&self) -> u16 {
        self.max_nid1
    }

    /// Largest cell group identity searched.
    pub fn max_nid1(&self) -> (n: u16)
        ensures
            n == self.spec_max_nid1(),
    {
        self.max_nid1
    }
}

} // verus!

