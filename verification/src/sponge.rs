//! The duplex sponge over the Monolith permutation.
//!
//! The state holds `capacity` lanes that absorb and squeeze never touch
//! directly, then `rate` lanes. A mode discriminant tracks whether the
//! sponge is absorbing or squeezing and how far into the rate region the
//! next operation lands; every mode switch, and every overflow of the rate
//! region, forces a permutation. Each operation's contract is the exact
//! transition function of this machine, so the sequence of permutations is
//! fully determined by the call history.

use crate::codec::word_bytes;
use crate::field::{all_wf, fadd, Fp};
use crate::params::{MonolithParams, ParamsModel};
use crate::permute::{permute_spec, MonolithPermute};
use vstd::prelude::*;

verus! {

/// Whether the sponge is absorbing or squeezing, and the position in the
/// rate region at which the next element lands.
#[derive(Clone, Copy, PartialEq, Eq, Structural, Debug)]
pub enum DuplexSpongeMode {
    /// Accepting input; the next element is added at this rate index.
    Absorbing { next_absorb_index: usize },
    /// Emitting output; the next element is read at this rate index.
    Squeezing { next_squeeze_index: usize },
}

/// The sponge configuration: rate, capacity and the permutation parameters.
pub struct SpongeConfig {
    /// The number of rate lanes.
    pub rate: usize,
    /// The number of capacity lanes.
    pub capacity: usize,
    /// The permutation parameters.
    pub params: MonolithParams,
}

/// The mathematical content of a sponge configuration.
#[verifier::ext_equal]
pub struct CfgV {
    /// The number of rate lanes.
    pub rate: int,
    /// The number of capacity lanes.
    pub capacity: int,
    /// The permutation parameters.
    pub params: ParamsModel,
}

impl CfgV {
    /// A usable configuration: sound parameters, at least one rate lane,
    /// and a state width that splits into rate and capacity.
    pub open spec fn wf(self) -> bool {
        &&& self.params.wf()
        &&& 1 <= self.rate
        &&& self.rate + self.capacity == self.params.state_size
    }
}

impl View for SpongeConfig {
    type V = CfgV;

    open spec fn view(&self) -> CfgV {
        CfgV { rate: self.rate as int, capacity: self.capacity as int, params: self.params@ }
    }
}

impl SpongeConfig {
    /// A usable configuration.
    pub open spec fn wf(self) -> bool {
        self@.wf()
    }

    /// Builds a configuration from a rate, a capacity and parameters.
    pub fn new(rate: usize, capacity: usize, params: &MonolithParams) -> (r: SpongeConfig)
        ensures
            r.rate == rate,
            r.capacity == capacity,
            r.params@ == params@,
    {
        SpongeConfig { rate, capacity, params: params.clone() }
    }
}

impl Clone for SpongeConfig {
    /// A deep copy with the same rate, capacity and parameters.
    fn clone(&self) -> (res: Self)
        ensures
            res.rate == self.rate,
            res.capacity == self.capacity,
            res.params@ == self.params@,
    {
        SpongeConfig { rate: self.rate, capacity: self.capacity, params: self.params.clone() }
    }
}

/// The absorbing mode at rate index `n`.
pub open spec fn absorbing(n: int) -> DuplexSpongeMode {
    DuplexSpongeMode::Absorbing { next_absorb_index: n as usize }
}

/// The squeezing mode at rate index `n`.
pub open spec fn squeezing(n: int) -> DuplexSpongeMode {
    DuplexSpongeMode::Squeezing { next_squeeze_index: n as usize }
}

/// The mode index stays within the rate region.
pub open spec fn mode_wf(m: DuplexSpongeMode, rate: int) -> bool {
    match m {
        DuplexSpongeMode::Absorbing { next_absorb_index } => next_absorb_index <= rate,
        DuplexSpongeMode::Squeezing { next_squeeze_index } => next_squeeze_index <= rate,
    }
}

/// The permutation of the configuration applied to a state.
pub open spec fn spec_perm(cfg: CfgV, s: Seq<Fp>) -> Seq<Fp> {
    permute_spec(cfg.params, s)
}

/// Field-adds `elems` into the state window starting at lane `pos`.
pub open spec fn add_into(s: Seq<Fp>, pos: int, elems: Seq<Fp>) -> Seq<Fp> {
    Seq::new(
        s.len(),
        |i: int|
            if pos <= i < pos + elems.len() {
                fadd(s[i], elems[i - pos])
            } else {
                s[i]
            },
    )
}

/// Absorbing `elems` into the rate region from rate index `start`:
/// fill to the end of the rate region, permute, and continue from the
/// start of the region until everything is absorbed. Returns the new
/// state and the next absorb index.
pub open spec fn spec_absorb_internal(cfg: CfgV, s: Seq<Fp>, start: int, elems: Seq<Fp>) -> (
    Seq<Fp>,
    int,
)
    decreases elems.len(),
{
    let rate = cfg.rate;
    let cap = cfg.capacity;
    if start + elems.len() <= rate {
        (add_into(s, cap + start, elems), start + elems.len())
    } else if start < rate {
        let n = rate - start;
        spec_absorb_internal(
            cfg,
            spec_perm(cfg, add_into(s, cap + start, elems.take(n))),
            0,
            elems.skip(n),
        )
    } else {
        (s, start)
    }
}

/// One `absorb` call: a no-op on empty input; a mode switch or a full rate
/// region first forces a permutation; then the input is absorbed.
pub open spec fn spec_absorb(
    cfg: CfgV,
    s: Seq<Fp>,
    mode: DuplexSpongeMode,
    elems: Seq<Fp>,
) -> (Seq<Fp>, DuplexSpongeMode) {
    if elems.len() == 0 {
        (s, mode)
    } else {
        match mode {
            DuplexSpongeMode::Absorbing { next_absorb_index } => {
                if next_absorb_index == cfg.rate {
                    let r = spec_absorb_internal(cfg, spec_perm(cfg, s), 0, elems);
                    (r.0, absorbing(r.1))
                } else {
                    let r = spec_absorb_internal(cfg, s, next_absorb_index as int, elems);
                    (r.0, absorbing(r.1))
                }
            },
            DuplexSpongeMode::Squeezing { .. } => {
                let r = spec_absorb_internal(cfg, spec_perm(cfg, s), 0, elems);
                (r.0, absorbing(r.1))
            },
        }
    }
}

/// Squeezing `n` elements from rate index `start`: copy to the end of the
/// rate region; unless the remaining output is exactly one full rate
/// region, permute; continue from the start of the region. Returns the
/// output, the new state and the next squeeze index.
pub open spec fn spec_squeeze_internal(cfg: CfgV, s: Seq<Fp>, start: int, n: int) -> (
    Seq<Fp>,
    Seq<Fp>,
    int,
)
    decreases n,
{
    let rate = cfg.rate;
    let cap = cfg.capacity;
    if start + n <= rate {
        (s.subrange(cap + start, cap + start + n), s, start + n)
    } else if start < rate {
        let k = rate - start;
        let first = s.subrange(cap + start, cap + rate);
        let s2 = if n != rate {
            spec_perm(cfg, s)
        } else {
            s
        };
        let r = spec_squeeze_internal(cfg, s2, 0, n - k);
        (first + r.0, r.1, r.2)
    } else {
        (Seq::empty(), s, start)
    }
}

/// One squeeze call for `n` elements: a mode switch or a full rate region
/// first forces a permutation; then the output is read.
pub open spec fn spec_squeeze(cfg: CfgV, s: Seq<Fp>, mode: DuplexSpongeMode, n: int) -> (
    Seq<Fp>,
    Seq<Fp>,
    DuplexSpongeMode,
) {
    match mode {
        DuplexSpongeMode::Absorbing { .. } => {
            let r = spec_squeeze_internal(cfg, spec_perm(cfg, s), 0, n);
            (r.0, r.1, squeezing(r.2))
        },
        DuplexSpongeMode::Squeezing { next_squeeze_index } => {
            if next_squeeze_index == cfg.rate {
                let r = spec_squeeze_internal(cfg, spec_perm(cfg, s), 0, n);
                (r.0, r.1, squeezing(r.2))
            } else {
                let r = spec_squeeze_internal(cfg, s, next_squeeze_index as int, n);
                (r.0, r.1, squeezing(r.2))
            }
        },
    }
}


/// The first seven little-endian bytes of each of the first `n` elements,
/// concatenated.
pub open spec fn le7_bytes(elems: Seq<Fp>, n: int) -> Seq<u8>
    decreases n,
{
    if n <= 0 {
        Seq::empty()
    } else {
        le7_bytes(elems, n - 1) + word_bytes(elems[n - 1].0).take(7)
    }
}

/// Whether bit `i` of the word is set.
pub open spec fn bit_of(v: u64, i: int) -> bool {
    (v >> (i as u64)) & 1 == 1
}

/// The low 63 bits of each of the first `n` elements, concatenated.
pub open spec fn low_bits(elems: Seq<Fp>, n: int) -> Seq<bool>
    decreases n,
{
    if n <= 0 {
        Seq::empty()
    } else {
        low_bits(elems, n - 1) + Seq::new(63, |b: int| bit_of(elems[n - 1].0, b))
    }
}

/// The all-zero state of width `t`.
pub open spec fn zero_state(t: int) -> Seq<Fp> {
    Seq::new(t as nat, |i: int| Fp(0))
}

/// The state and mode of a sponge, without its configuration.
pub struct MonolithSpongeState {
    /// The saved state lanes.
    pub state: Vec<Fp>,
    /// The saved mode.
    pub mode: DuplexSpongeMode,
}

/// A duplex sponge over the Monolith permutation.
pub struct MonolithSponge {
    /// The sponge configuration.
    pub parameters: SpongeConfig,
    /// The current state: capacity lanes first, then rate lanes.
    pub state: Vec<Fp>,
    /// The current mode.
    pub mode: DuplexSpongeMode,
}

impl MonolithSponge {
    /// A sound sponge: sound configuration, a state of the configured
    /// width with canonical lanes, and a mode index within the rate.
    pub open spec fn wf(self) -> bool {
        &&& self.parameters.wf()
        &&& self.state@.len() == self.parameters.params@.state_size
        &&& all_wf(self.state@)
        &&& mode_wf(self.mode, self.parameters.rate as int)
    }

    /// A fresh sponge: all-zero state, absorbing from rate index 0.
    pub fn new(parameters: &SpongeConfig) -> (r: MonolithSponge)
        requires
            parameters.wf(),
        ensures
            r.parameters.rate == parameters.rate,
            r.parameters.capacity == parameters.capacity,
            r.parameters.params@ == parameters.params@,
            r.state@ == zero_state(parameters.params@.state_size as int),
            r.mode == absorbing(0),
            r.wf(),
    {
        let width = parameters.rate + parameters.capacity;
        let mut state: Vec<Fp> = Vec::new();
        let mut i: usize = 0;
        while i < width
            invariant
                i <= width,
                state@ =~= zero_state(i as int),
            decreases width - i,
        {
            state.push(Fp(0));
            i = i + 1;
        }
        MonolithSponge {
            parameters: parameters.clone(),
            state,
            mode: DuplexSpongeMode::Absorbing { next_absorb_index: 0 },
        }
    }

    /// Applies the permutation to the whole state.
    fn permute(&mut self)
        requires
            old(self).wf(),
        ensures
            final(self).parameters == old(self).parameters,
            final(self).mode == old(self).mode,
            final(self).state@ == spec_perm(old(self).parameters@, old(self).state@),
            final(self).wf(),
    {
        MonolithPermute::permute(&mut self.state, &self.parameters.params);
    }

    /// Field-adds `count` input elements, starting at input index `from`,
    /// into the rate region starting at rate index `start`.
    fn add_block(&mut self, start: usize, elements: &Vec<Fp>, from: usize, count: usize)
        requires
            old(self).wf(),
            start + count <= old(self).parameters.rate,
            from + count <= elements@.len(),
            all_wf(elements@),
        ensures
            final(self).parameters == old(self).parameters,
            final(self).mode == old(self).mode,
            final(self).state@ == add_into(
                old(self).state@,
                old(self).parameters.capacity + start,
                elements@.subrange(from as int, (from + count) as int),
            ),
            final(self).wf(),
    {
        let ghost orig = self.state@;
        let cap = self.parameters.capacity;
        let elen = elements.len();
        let mut i: usize = 0;
        while i < count
            invariant
                elen == elements@.len(),
                self.parameters == old(self).parameters,
                self.mode == old(self).mode,
                self.parameters.wf(),
                self.state@.len() == orig.len(),
                orig.len() == self.parameters.params@.state_size,
                cap == self.parameters.capacity,
                start + count <= self.parameters.rate,
                from + count <= elements@.len(),
                all_wf(elements@),
                all_wf(self.state@),
                i <= count,
                forall|j: int|
                    0 <= j < orig.len() && !(cap + start <= j < cap + start + i)
                        ==> #[trigger] self.state@[j] == orig[j],
                forall|j: int|
                    cap + start <= j < cap + start + i ==> #[trigger] self.state@[j] == fadd(
                        orig[j],
                        elements@[from + j - cap - start],
                    ),
            decreases count - i,
        {
            let idx = cap + start + i;
            let v = self.state[idx].add(elements[from + i]);
            self.state.set(idx, v);
            i = i + 1;
        }
        proof {
            assert(self.state@ =~= add_into(
                orig,
                cap as int + start as int,
                elements@.subrange(from as int, (from + count) as int),
            ));
        }
    }

    /// Absorbs the input elements from `from` on, starting at rate index
    /// `rate_start_index`; does not end in a permutation.
    fn absorb_internal(&mut self, rate_start_index: usize, elements: &Vec<Fp>, from: usize)
        requires
            old(self).wf(),
            rate_start_index < old(self).parameters.rate,
            from <= elements@.len(),
            all_wf(elements@),
        ensures
            final(self).parameters == old(self).parameters,
            final(self).wf(),
            final(self).state@ == spec_absorb_internal(
                old(self).parameters@,
                old(self).state@,
                rate_start_index as int,
                elements@.skip(from as int),
            ).0,
            final(self).mode == absorbing(
                spec_absorb_internal(
                    old(self).parameters@,
                    old(self).state@,
                    rate_start_index as int,
                    elements@.skip(from as int),
                ).1,
            ),
        decreases elements@.len() - from,
    {
        let rate = self.parameters.rate;
        let remaining = elements.len() - from;
        if remaining <= rate - rate_start_index {
            self.add_block(rate_start_index, elements, from, remaining);
            self.mode = DuplexSpongeMode::Absorbing {
                next_absorb_index: rate_start_index + remaining,
            };
            proof {
                assert(elements@.subrange(from as int, (from + remaining) as int)
                    =~= elements@.skip(from as int));
            }
        } else {
            let num = rate - rate_start_index;
            self.add_block(rate_start_index, elements, from, num);
            self.permute();
            self.absorb_internal(0, elements, from + num);
            proof {
                assert(elements@.subrange(from as int, (from + num) as int) =~= elements@.skip(
                    from as int,
                ).take(num as int));
                assert(elements@.skip((from + num) as int) =~= elements@.skip(from as int).skip(
                    num as int,
                ));
            }
        }
    }

    /// Absorbs the input into the sponge. Empty input is a no-op; a sponge
    /// in squeezing mode, or one whose rate region is full, permutes first.
    pub fn absorb(&mut self, input: &Vec<Fp>)
        requires
            old(self).wf(),
            all_wf(input@),
        ensures
            final(self).parameters == old(self).parameters,
            final(self).wf(),
            final(self).state@ == spec_absorb(
                old(self).parameters@,
                old(self).state@,
                old(self).mode,
                input@,
            ).0,
            final(self).mode == spec_absorb(
                old(self).parameters@,
                old(self).state@,
                old(self).mode,
                input@,
            ).1,
    {
        if input.len() == 0 {
            return ;
        }
        proof {
            assert(input@.skip(0) =~= input@);
        }
        match self.mode {
            DuplexSpongeMode::Absorbing { next_absorb_index } => {
                if next_absorb_index == self.parameters.rate {
                    self.permute();
                    self.absorb_internal(0, input, 0);
                } else {
                    self.absorb_internal(next_absorb_index, input, 0);
                }
            },
            DuplexSpongeMode::Squeezing { .. } => {
                self.permute();
                self.absorb_internal(0, input, 0);
            },
        }
    }

    /// Squeezes `n` elements starting at rate index `rate_start_index`;
    /// does not end in a permutation.
    fn squeeze_internal(&mut self, rate_start_index: usize, n: usize) -> (out: Vec<Fp>)
        requires
            old(self).wf(),
            rate_start_index < old(self).parameters.rate,
        ensures
            final(self).parameters == old(self).parameters,
            final(self).wf(),
            out@ == spec_squeeze_internal(
                old(self).parameters@,
                old(self).state@,
                rate_start_index as int,
                n as int,
            ).0,
            final(self).state@ == spec_squeeze_internal(
                old(self).parameters@,
                old(self).state@,
                rate_start_index as int,
                n as int,
            ).1,
            final(self).mode == squeezing(
                spec_squeeze_internal(
                    old(self).parameters@,
                    old(self).state@,
                    rate_start_index as int,
                    n as int,
                ).2,
            ),
            out@.len() == n,
            all_wf(out@),
        decreases n,
    {
        let rate = self.parameters.rate;
        if n <= rate - rate_start_index {
            let out = self.copy_rate(rate_start_index, n);
            self.mode = DuplexSpongeMode::Squeezing { next_squeeze_index: rate_start_index + n };
            out
        } else {
            let k = rate - rate_start_index;
            let mut out = self.copy_rate(rate_start_index, k);
            if n != rate {
                self.permute();
            }
            let mut rest = self.squeeze_internal(0, n - k);
            let ghost head = out@;
            let ghost tail = rest@;
            out.append(&mut rest);
            proof {
                assert(out@ == head + tail);
            }
            out
        }
    }

    /// Copies `count` lanes of the rate region, starting at rate index
    /// `start`, without changing the sponge.
    fn copy_rate(&self, start: usize, count: usize) -> (out: Vec<Fp>)
        requires
            self.wf(),
            start + count <= self.parameters.rate,
        ensures
            out@ == self.state@.subrange(
                self.parameters.capacity + start,
                self.parameters.capacity + start + count,
            ),
            all_wf(out@),
    {
        let cap = self.parameters.capacity;
        let mut out: Vec<Fp> = Vec::new();
        let mut i: usize = 0;
        while i < count
            invariant
                self.wf(),
                cap == self.parameters.capacity,
                start + count <= self.parameters.rate,
                i <= count,
                out@ =~= self.state@.subrange(cap + start, cap as int + start as int + i as int),
            decreases count - i,
        {
            out.push(self.state[cap + start + i]);
            i = i + 1;
        }
        out
    }

    /// Squeezes `num_elements` field elements. A sponge in absorbing mode,
    /// or one whose rate region is exhausted, permutes first.
    pub fn squeeze_native_field_elements(&mut self, num_elements: usize) -> (out: Vec<Fp>)
        requires
            old(self).wf(),
        ensures
            final(self).parameters == old(self).parameters,
            final(self).wf(),
            out@ == spec_squeeze(
                old(self).parameters@,
                old(self).state@,
                old(self).mode,
                num_elements as int,
            ).0,
            final(self).state@ == spec_squeeze(
                old(self).parameters@,
                old(self).state@,
                old(self).mode,
                num_elements as int,
            ).1,
            final(self).mode == spec_squeeze(
                old(self).parameters@,
                old(self).state@,
                old(self).mode,
                num_elements as int,
            ).2,
            out@.len() == num_elements,
            all_wf(out@),
    {
        let out;
        match self.mode {
            DuplexSpongeMode::Absorbing { .. } => {
                self.permute();
                out = self.squeeze_internal(0, num_elements);
            },
            DuplexSpongeMode::Squeezing { next_squeeze_index } => {
                if next_squeeze_index == self.parameters.rate {
                    self.permute();
                    out = self.squeeze_internal(0, num_elements);
                } else {
                    out = self.squeeze_internal(next_squeeze_index, num_elements);
                }
            },
        }
        out
    }


    /// Squeezes `num_bytes` bytes: squeezes enough field elements to cover
    /// them at seven usable bytes per element, concatenates each element's
    /// first seven little-endian bytes, and truncates.
    pub fn squeeze_bytes(&mut self, num_bytes: usize) -> (out: Vec<u8>)
        requires
            old(self).wf(),
            num_bytes <= usize::MAX / 7,
        ensures
            final(self).parameters == old(self).parameters,
            final(self).wf(),
            ({
                let n = ((num_bytes + 6) / 7) as int;
                let sq = spec_squeeze(old(self).parameters@, old(self).state@, old(self).mode, n);
                &&& out@ == le7_bytes(sq.0, n).take(num_bytes as int)
                &&& final(self).state@ == sq.1
                &&& final(self).mode == sq.2
            }),
            out@.len() == num_bytes,
    {
        let num_elements = (num_bytes + 6) / 7;
        let src = self.squeeze_native_field_elements(num_elements);
        let mut bytes: Vec<u8> = Vec::new();
        let mut i: usize = 0;
        while i < num_elements
            invariant
                src@.len() == num_elements,
                i <= num_elements,
                bytes@ == le7_bytes(src@, i as int),
                bytes@.len() == 7 * i,
            decreases num_elements - i,
        {
            let eb = src[i].to_bytes_le();
            let mut k: usize = 0;
            while k < 7
                invariant
                    src@.len() == num_elements,
                    i < num_elements,
                    eb@ == word_bytes(src@[i as int].0),
                    k <= 7,
                    bytes@ == le7_bytes(src@, i as int) + word_bytes(src@[i as int].0).take(
                        k as int,
                    ),
                decreases 7 - k,
            {
                bytes.push(eb[k]);
                proof {
                    assert(word_bytes(src@[i as int].0).take(k + 1) =~= word_bytes(
                        src@[i as int].0,
                    ).take(k as int).push(eb@[k as int]));
                }
                k = k + 1;
            }
            i = i + 1;
        }
        proof {
            vstd::arithmetic::div_mod::lemma_fundamental_div_mod((num_bytes + 6) as int, 7);
        }
        let mut out: Vec<u8> = Vec::new();
        let mut j: usize = 0;
        while j < num_bytes
            invariant
                bytes@.len() >= num_bytes,
                j <= num_bytes,
                out@ =~= bytes@.take(j as int),
            decreases num_bytes - j,
        {
            out.push(bytes[j]);
            j = j + 1;
        }
        proof {
            assert(out@ =~= le7_bytes(src@, num_elements as int).take(num_bytes as int));
        }
        out
    }

    /// Squeezes `num_bits` bits: squeezes enough field elements to cover
    /// them at 63 usable bits per element, concatenates each element's low
    /// 63 bits, and truncates.
    pub fn squeeze_bits(&mut self, num_bits: usize) -> (out: Vec<bool>)
        requires
            old(self).wf(),
            num_bits <= usize::MAX / 63,
        ensures
            final(self).parameters == old(self).parameters,
            final(self).wf(),
            ({
                let n = ((num_bits + 62) / 63) as int;
                let sq = spec_squeeze(old(self).parameters@, old(self).state@, old(self).mode, n);
                &&& out@ == low_bits(sq.0, n).take(num_bits as int)
                &&& final(self).state@ == sq.1
                &&& final(self).mode == sq.2
            }),
            out@.len() == num_bits,
    {
        let num_elements = (num_bits + 62) / 63;
        let src = self.squeeze_native_field_elements(num_elements);
        let mut bits: Vec<bool> = Vec::new();
        let mut i: usize = 0;
        while i < num_elements
            invariant
                src@.len() == num_elements,
                i <= num_elements,
                bits@ == low_bits(src@, i as int),
                bits@.len() == 63 * i,
            decreases num_elements - i,
        {
            let w = src[i].0;
            let mut k: usize = 0;
            while k < 63
                invariant
                    src@.len() == num_elements,
                    i < num_elements,
                    w == src@[i as int].0,
                    k <= 63,
                    bits@ == low_bits(src@, i as int) + Seq::new(k as nat, |b: int| bit_of(w, b)),
                decreases 63 - k,
            {
                bits.push((w >> (k as u64)) & 1 == 1);
                proof {
                    assert(Seq::new((k + 1) as nat, |b: int| bit_of(w, b)) =~= Seq::new(
                        k as nat,
                        |b: int| bit_of(w, b),
                    ).push(bit_of(w, k as int)));
                }
                k = k + 1;
            }
            proof {
                assert(low_bits(src@, i as int + 1) == low_bits(src@, i as int) + Seq::new(
                    63,
                    |b: int| bit_of(src@[i as int].0, b),
                ));
            }
            i = i + 1;
        }
        proof {
            vstd::arithmetic::div_mod::lemma_fundamental_div_mod((num_bits + 62) as int, 63);
        }
        let mut out: Vec<bool> = Vec::new();
        let mut j: usize = 0;
        while j < num_bits
            invariant
                bits@.len() >= num_bits,
                j <= num_bits,
                out@ =~= bits@.take(j as int),
            decreases num_bits - j,
        {
            out.push(bits[j]);
            j = j + 1;
        }
        proof {
            assert(out@ =~= low_bits(src@, num_elements as int).take(num_bits as int));
        }
        out
    }

    /// Rebuilds a sponge from a saved state and a configuration.
    pub fn from_state(state: MonolithSpongeState, params: &SpongeConfig) -> (r: MonolithSponge)
        requires
            params.wf(),
            state.state@.len() == params@.params.state_size,
            all_wf(state.state@),
            mode_wf(state.mode, params@.rate),
        ensures
            r.parameters@ == params@,
            r.state@ == state.state@,
            r.mode == state.mode,
            r.wf(),
    {
        let mut sponge = Self::new(params);
        sponge.mode = state.mode;
        sponge.state = state.state;
        sponge
    }

    /// Saves the sponge's state and mode, dropping the configuration.
    pub fn into_state(self) -> (r: MonolithSpongeState)
        ensures
            r.state@ == self.state@,
            r.mode == self.mode,
    {
        MonolithSpongeState { state: self.state, mode: self.mode }
    }

    /// Squeezes `num_elements` field elements; the native path of the
    /// generic interface.
    pub fn squeeze_field_elements(&mut self, num_elements: usize) -> (out: Vec<Fp>)
        requires
            old(self).wf(),
        ensures
            final(self).parameters == old(self).parameters,
            final(self).wf(),
            out@ == spec_squeeze(
                old(self).parameters@,
                old(self).state@,
                old(self).mode,
                num_elements as int,
            ).0,
            final(self).state@ == spec_squeeze(
                old(self).parameters@,
                old(self).state@,
                old(self).mode,
                num_elements as int,
            ).1,
            final(self).mode == spec_squeeze(
                old(self).parameters@,
                old(self).state@,
                old(self).mode,
                num_elements as int,
            ).2,
            out@.len() == num_elements,
            all_wf(out@),
    {
        self.squeeze_native_field_elements(num_elements)
    }
}

/// Adding two blocks in sequence is adding their concatenation.
pub proof fn lemma_add_into_append(s: Seq<Fp>, pos: int, a: Seq<Fp>, b: Seq<Fp>)
    ensures
        add_into(s, pos, a + b) == add_into(add_into(s, pos, a), pos + a.len(), b),
{
    assert(add_into(s, pos, a + b) =~= add_into(add_into(s, pos, a), pos + a.len(), b));
}

/// The absorb index that `spec_absorb_internal` returns stays within the
/// rate region.
pub proof fn lemma_absorb_internal_index(cfg: CfgV, s: Seq<Fp>, start: int, elems: Seq<Fp>)
    requires
        0 <= start < cfg.rate,
    ensures
        0 <= spec_absorb_internal(cfg, s, start, elems).1 <= cfg.rate,
    decreases elems.len(),
{
    let rate = cfg.rate;
    let cap = cfg.capacity;
    if start + elems.len() <= rate {
    } else {
        let n = rate - start;
        lemma_absorb_internal_index(
            cfg,
            spec_perm(cfg, add_into(s, cap + start, elems.take(n))),
            0,
            elems.skip(n),
        );
    }
}

/// Absorbing a concatenation is absorbing its parts in sequence: after
/// `x1`, continuing with `x2` from the returned index (permuting first if
/// the rate region is exactly full) gives the same state and index as
/// absorbing `x1 + x2` at once.
pub proof fn lemma_absorb_internal_append(cfg: CfgV, s: Seq<Fp>, start: int, x1: Seq<Fp>, x2: Seq<Fp>)
    requires
        0 <= start < cfg.rate,
    ensures
        ({
            let r1 = spec_absorb_internal(cfg, s, start, x1);
            spec_absorb_internal(cfg, s, start, x1 + x2) == if x2.len() == 0 {
                r1
            } else if r1.1 == cfg.rate {
                spec_absorb_internal(cfg, spec_perm(cfg, r1.0), 0, x2)
            } else {
                spec_absorb_internal(cfg, r1.0, r1.1, x2)
            }
        }),
    decreases x1.len(),
{
    let rate = cfg.rate;
    let cap = cfg.capacity;
    let r1 = spec_absorb_internal(cfg, s, start, x1);
    if x2.len() == 0 {
        assert(x1 + x2 =~= x1);
    } else if start + x1.len() + x2.len() <= rate {
        lemma_add_into_append(s, cap + start, x1, x2);
    } else if start + x1.len() <= rate {
        let n = rate - start;
        if x1.len() < n {
            assert((x1 + x2).take(n) =~= x1 + x2.take(n - x1.len()));
            assert((x1 + x2).skip(n) =~= x2.skip(n - x1.len()));
            lemma_add_into_append(s, cap + start, x1, x2.take(n - x1.len()));
        } else {
            assert(x1.len() == n);
            assert((x1 + x2).take(n) =~= x1);
            assert((x1 + x2).skip(n) =~= x2);
        }
    } else {
        let n = rate - start;
        assert((x1 + x2).take(n) =~= x1.take(n));
        assert((x1 + x2).skip(n) =~= x1.skip(n) + x2);
        let s2 = spec_perm(cfg, add_into(s, cap + start, x1.take(n)));
        lemma_absorb_internal_append(cfg, s2, 0, x1.skip(n), x2);
    }
}

/// Absorbing streams: absorbing `x1` and then `x2` leaves the sponge in
/// exactly the state and mode of absorbing `x1 + x2` in one call, from any
/// starting state and mode.
pub proof fn lemma_absorb_streaming(
    cfg: CfgV,
    s: Seq<Fp>,
    mode: DuplexSpongeMode,
    x1: Seq<Fp>,
    x2: Seq<Fp>,
)
    requires
        1 <= cfg.rate <= usize::MAX,
        mode_wf(mode, cfg.rate),
    ensures
        ({
            let a1 = spec_absorb(cfg, s, mode, x1);
            spec_absorb(cfg, a1.0, a1.1, x2) == spec_absorb(cfg, s, mode, x1 + x2)
        }),
{
    if x1.len() == 0 {
        assert(x1 + x2 =~= x2);
    } else if x2.len() == 0 {
        assert(x1 + x2 =~= x1);
    } else {
        match mode {
            DuplexSpongeMode::Absorbing { next_absorb_index } => {
                if next_absorb_index == cfg.rate {
                    lemma_absorb_streaming_normalized(cfg, spec_perm(cfg, s), 0, x1, x2);
                } else {
                    lemma_absorb_streaming_normalized(cfg, s, next_absorb_index as int, x1, x2);
                }
            },
            DuplexSpongeMode::Squeezing { .. } => {
                lemma_absorb_streaming_normalized(cfg, spec_perm(cfg, s), 0, x1, x2);
            },
        }
    }
}

/// The streaming law after mode normalization: both inputs nonempty and a
/// starting index strictly inside the rate region.
proof fn lemma_absorb_streaming_normalized(
    cfg: CfgV,
    s0: Seq<Fp>,
    start: int,
    x1: Seq<Fp>,
    x2: Seq<Fp>,
)
    requires
        1 <= cfg.rate <= usize::MAX,
        0 <= start < cfg.rate,
        x1.len() > 0,
        x2.len() > 0,
    ensures
        ({
            let r1 = spec_absorb_internal(cfg, s0, start, x1);
            spec_absorb(cfg, r1.0, absorbing(r1.1), x2) == {
                let rc = spec_absorb_internal(cfg, s0, start, x1 + x2);
                (rc.0, absorbing(rc.1))
            }
        }),
{
    lemma_absorb_internal_index(cfg, s0, start, x1);
    lemma_absorb_internal_append(cfg, s0, start, x1, x2);
    let r1 = spec_absorb_internal(cfg, s0, start, x1);
    assert(absorbing(r1.1) matches DuplexSpongeMode::Absorbing { next_absorb_index } &&
        next_absorb_index as int == r1.1);
}

} // verus!
