//! Timing of the polyphase sample-rate converter: for a rate change of
//! `L / M` (interpolation factor `L`, decimation factor `M`), which input
//! samples produce output samples and with which filter phase. The filter
//! arithmetic on the samples is done by the caller.
use vstd::prelude::*;

verus! {

/// Outputs produced by `n` successive input samples, starting from an
/// accumulated count `acc`: each input adds `l`, each output takes `m`.
pub open spec fn outputs_for_inputs(acc: int, l: int, m: int, n: nat) -> int
    decreases n,
{
    if n == 0 {
        0
    } else {
        (acc + l) / m + outputs_for_inputs((acc + l) % m, l, m, (n - 1) as nat)
    }
}

/// Rate-change clock of a polyphase resampler.
#[derive(Debug)]
pub struct Resampler {
    interp_factor: usize,
    decim_factor: usize,
    phase_index: usize,
    sample_accumulator: usize,
}

impl Resampler {
    /// Both factors at least one, the phase one of the `L` filter phases,
    /// and less than one output's worth accumulated.
    #[verifier::type_invariant]
    spec fn inv(&self) -> bool {
        &&& self.interp_factor >= 1
        &&& self.decim_factor >= 1
        &&& 2 * self.interp_factor + self.decim_factor <= usize::MAX
        &&& self.phase_index < self.interp_factor
        &&& self.sample_accumulator < self.decim_factor
    }

    /// Interpolation factor `L`.
    pub closed spec fn spec_interp_factor(&self) -> usize {
        self.interp_factor
    }

    /// Decimation factor `M`.
    pub closed spec fn spec_decim_factor(&self) -> usize {
        self.decim_factor
    }

    /// Filter phase of the next output.
    pub closed spec fn spec_phase_index(&self) -> usize {
        self.phase_index
    }

    /// Input accumulated towards the next output, in units of `1 / L`
    /// output.
    pub closed spec fn spec_sample_accumulator(&self) -> usize {
        self.sample_accumulator
    }

    /// A clock for the rate change `interp_factor / decim_factor`, at
    /// phase 0 with nothing accumulated.
    pub fn new(interp_factor: usize, decim_factor: usize) -> (r: Self)
        requires
            interp_factor >= 1,
            decim_factor >= 1,
            2 * interp_factor + decim_factor <= usize::MAX,
        ensures
            r.spec_interp_factor() == interp_factor,
            r.spec_decim_factor() == decim_factor,
            r.spec_phase_index() == 0,
            r.spec_sample_accumulator() == 0,
    {
        Resampler { interp_factor, decim_factor, phase_index: 0, sample_accumulator: 0 }
    }

    /// Interpolation factor `L`.
    pub fn interp_factor(&self) -> (n: usize)
        ensures
            n == self.spec_interp_factor(),
    {
        self.interp_factor
    }

    /// Decimation factor `M`.
    pub fn decim_factor(&self) -> (n: usize)
        ensures
            n == self.spec_decim_factor(),
    {
        self.decim_factor
    }

    /// Outputs that `input_size` more input samples produce:
    /// `(input_size * L + accumulated) / M`.
    pub fn get_output_size(&self, input_size: usize) -> (n: usize)
        requires
            input_size * self.spec_interp_factor() + self.spec_sample_accumulator() <= usize::MAX,
        ensures
            n == (input_size * self.spec_interp_factor() + self.spec_sample_accumulator())
                / self.spec_decim_factor() as int,
    {
        proof {
            use_type_invariant(self);
        }
        (input_size * self.interp_factor + self.sample_accumulator) / self.decim_factor
    }

    /// Back to phase 0 with nothing accumulated; the factors stay.
    pub fn reset(&mut self)
        ensures
            final(self).spec_interp_factor() == old(self).spec_interp_factor(),
            final(self).spec_decim_factor() == old(self).spec_decim_factor(),
            final(self).spec_phase_index() == 0,
            final(self).spec_sample_accumulator() == 0,
    {
        proof {
            use_type_invariant(&*self);
        }
        self.phase_index = 0;
        self.sample_accumulator = 0;
    }

    /// Takes one input sample: the filter phase of each output it produces
    /// (`(accumulated + L) / M` of them; the phase advances by `L` modulo
    /// `L` after each, so it stays), and what is left accumulated.
    pub fn next_input(&mut self) -> (phases: Vec<usize>)
        ensures
            final(self).spec_interp_factor() == old(self).spec_interp_factor(),
            final(self).spec_decim_factor() == old(self).spec_decim_factor(),
            phases@.len() == (old(self).spec_sample_accumulator() + old(self).spec_interp_factor())
                / old(self).spec_decim_factor() as int,
            forall|i: int| 0 <= i < phases@.len() ==> #[trigger] phases@[i] == old(self).spec_phase_index(),
            final(self).spec_phase_index() == old(self).spec_phase_index(),
            final(self).spec_sample_accumulator() == (old(self).spec_sample_accumulator()
                + old(self).spec_interp_factor()) % old(self).spec_decim_factor() as int,
    {
        proof {
            use_type_invariant(&*self);
        }
        let l = self.interp_factor;
        let m = self.decim_factor;
        let a0 = self.sample_accumulator;
        let mut acc = a0 + l;
        let mut phase = self.phase_index;
        let mut phases: Vec<usize> = Vec::new();
        assert(phases@.len() * m == 0);
        while acc >= m
            invariant
                l >= 1,
                m >= 1,
                2 * l + m <= usize::MAX,
                phase == old(self).spec_phase_index(),
                phase < l,
                acc <= a0 + l,
                acc + phases@.len() * m == a0 + l,
                forall|i: int| 0 <= i < phases@.len() ==> #[trigger] phases@[i] == phase,
            decreases acc,
        {
            assert((phases@.len() + 1) * m == phases@.len() * m + m) by (nonlinear_arith);
            phases.push(phase);
            phase = (phase + l) % l;
            assert(phase == old(self).spec_phase_index()) by {
                vstd::arithmetic::div_mod::lemma_mod_add_multiples_vanish(old(self).spec_phase_index() as int, l as int);
                vstd::arithmetic::div_mod::lemma_small_mod(old(self).spec_phase_index() as nat, l as nat);
            }
            acc = acc - m;
        }
        proof {
            let k = phases@.len() as int;
            vstd::arithmetic::div_mod::lemma_fundamental_div_mod_converse(
                (a0 + l) as int,
                m as int,
                k,
                acc as int,
            );
        }
        self.phase_index = phase;
        self.sample_accumulator = acc;
        phases
    }
}

/// What `get_output_size` promises of `next_input`: from any accumulated
/// count below `M`, the outputs of `n` successive input samples number
/// `(n * L + accumulated) / M`.
pub proof fn lemma_output_count(acc: int, l: int, m: int, n: nat)
    requires
        l >= 1,
        m >= 1,
        0 <= acc < m,
    ensures
        outputs_for_inputs(acc, l, m, n) == (n * l + acc) / m,
    decreases n,
{
    if n > 0 {
        let next = (acc + l) % m;
        let q = (acc + l) / m;
        vstd::arithmetic::div_mod::lemma_mod_bound(acc + l, m);
        vstd::arithmetic::div_mod::lemma_fundamental_div_mod(acc + l, m);
        lemma_output_count(next, l, m, (n - 1) as nat);
        let rest = (n - 1) * l + next;
        let q2 = rest / m;
        let r2 = rest % m;
        vstd::arithmetic::div_mod::lemma_mod_bound(rest, m);
        vstd::arithmetic::div_mod::lemma_fundamental_div_mod(rest, m);
        assert(n * l + acc == (q + q2) * m + r2) by (nonlinear_arith)
            requires
                acc + l == m * q + next,
                rest == (n - 1) * l + next,
                rest == m * q2 + r2,
        ;
        vstd::arithmetic::div_mod::lemma_fundamental_div_mod_converse(n * l + acc, m, q + q2, r2);
    } else {
        assert(n * l == 0) by (nonlinear_arith)
            requires
                n == 0,
        ;
        vstd::arithmetic::div_mod::lemma_fundamental_div_mod_converse(n * l + acc, m, 0, acc);
    }
}

} // verus!
