//! System time from the time-stamp counter.
//!
//! The TSC's frequency is found by probing CPUID: leaf 15h gives it as a
//! ratio to the crystal clock; failing that, under a hypervisor, leaf
//! 4000_0010h gives it in kHz. The probe is a sequence of CPUID queries, each
//! chosen from the answers so far; the platform runs the queries. The result
//! is a multiplier `num / denom` that turns TSC ticks into nanoseconds.

use vstd::prelude::*;

verus! {

/// The registers that a CPUID query answers with.
#[derive(Debug, Clone, Copy, PartialEq, Eq, Structural)]
pub struct CpuidResult {
    pub eax: u32,
    pub ebx: u32,
    pub ecx: u32,
    pub edx: u32,
}

/// The largest numerator a multiplier can have: a billion times the largest
/// 32-bit register value.
pub open spec fn max_num() -> int {
    1_000_000_000int * 0xffff_ffff
}

/// Nanoseconds per TSC tick, as the fraction `num / denom`.
#[derive(Debug, Clone, Copy, PartialEq, Eq, Structural)]
pub struct TscMultiplier {
    num: u128,
    denom: u128,
}

impl TscMultiplier {
    /// The numerator is within what CPUID can give, and the denominator is
    /// not zero.
    #[verifier::type_invariant]
    pub closed spec fn bounded(&self) -> bool {
        self.num <= max_num() && self.denom > 0
    }

    /// The numerator.
    pub closed spec fn spec_num(&self) -> u128 {
        self.num
    }

    /// The denominator.
    pub closed spec fn spec_denom(&self) -> u128 {
        self.denom
    }

    /// The numerator.
    pub fn num(&self) -> (n: u128)
        ensures
            n == self.spec_num(),
            n <= max_num(),
    {
        proof {
            use_type_invariant(self);
        }
        self.num
    }

    /// The denominator.
    pub fn denom(&self) -> (d: u128)
        ensures
            d == self.spec_denom(),
            d > 0,
    {
        proof {
            use_type_invariant(self);
        }
        self.denom
    }
}

/// Where the probe for the TSC frequency stands.
#[derive(Debug, Clone, Copy, PartialEq, Eq, Structural)]
pub enum TscProbe {
    /// Ask leaf 0 for the highest basic leaf.
    ReadMaxLeaf,
    /// Ask leaf 15h for the TSC to crystal clock ratio.
    ReadTscLeaf,
    /// Ask leaf 1 whether a hypervisor is present.
    ReadFeatures,
    /// Ask leaf 4000_0000h for the highest hypervisor leaf.
    ReadHypervisorMaxLeaf,
    /// Ask leaf 4000_0010h for the TSC frequency in kHz.
    ReadHypervisorFrequency,
    /// The probe is over, with the multiplier found, if any.
    Done(Option<TscMultiplier>),
}

/// The probe before any query.
pub fn tsc_probe_start() -> (p: TscProbe)
    ensures
        p == TscProbe::ReadMaxLeaf,
{
    TscProbe::ReadMaxLeaf
}

/// The CPUID leaf that the probe asks next, or `None` when it is over.
pub fn tsc_probe_leaf(probe: TscProbe) -> (leaf: Option<u32>)
    ensures
        leaf == match probe {
            TscProbe::ReadMaxLeaf => Some(0u32),
            TscProbe::ReadTscLeaf => Some(0x15u32),
            TscProbe::ReadFeatures => Some(1u32),
            TscProbe::ReadHypervisorMaxLeaf => Some(0x4000_0000u32),
            TscProbe::ReadHypervisorFrequency => Some(0x4000_0010u32),
            TscProbe::Done(_) => None,
        },
{
    match probe {
        TscProbe::ReadMaxLeaf => Some(0),
        TscProbe::ReadTscLeaf => Some(0x15),
        TscProbe::ReadFeatures => Some(1),
        TscProbe::ReadHypervisorMaxLeaf => Some(0x4000_0000),
        TscProbe::ReadHypervisorFrequency => Some(0x4000_0010),
        TscProbe::Done(_) => None,
    }
}

/// Whether bit 31 of `ecx` of CPUID leaf 1, "hypervisor present", is set.
pub open spec fn hypervisor_bit(ecx: u32) -> bool {
    ecx >= 0x8000_0000
}

/// The hypervisor bit is bit 31 of `ecx` alone: it is set exactly when
/// masking `ecx` with `1 << 31` leaves something, whatever the other bits are.
pub proof fn lemma_hypervisor_bit(ecx: u32, others: u32)
    requires
        others < 0x8000_0000,
    ensures
        hypervisor_bit(ecx) <==> (ecx & 0x8000_0000u32) != 0,
        hypervisor_bit(ecx) == hypervisor_bit(ecx ^ others),
        hypervisor_bit(0x8000_0000u32 | others),
        !hypervisor_bit(others),
{
    assert(((ecx & 0x8000_0000u32) != 0) == (ecx >= 0x8000_0000u32)) by (bit_vector);
    assert((ecx >= 0x8000_0000u32) == ((ecx ^ others) >= 0x8000_0000u32)) by (bit_vector)
        requires
            others < 0x8000_0000u32,
    ;
    assert((0x8000_0000u32 | others) >= 0x8000_0000u32) by (bit_vector);
}

/// The next step of the probe, given the answer `regs` to the leaf it asked.
///
/// Leaf 0: leaf 15h is asked when the highest basic leaf is at least 15h,
/// else leaf 1. Leaf 15h: with non-zero `ebx` (numerator of the ratio) and
/// `ecx` (crystal frequency in Hz), the multiplier is
/// `10^9 * eax / (ebx * ecx)`; otherwise there is none. Leaf 1: with the
/// hypervisor bit set, leaf 4000_0000h is asked; otherwise there is no
/// multiplier. Leaf 4000_0000h: leaf 4000_0010h is asked when it is
/// available; otherwise there is no multiplier. Leaf 4000_0010h: with a
/// non-zero frequency `eax` in kHz, the multiplier is `10^6 / eax`.
pub fn tsc_probe_step(probe: TscProbe, regs: CpuidResult) -> (next: TscProbe)
    ensures
        match probe {
            TscProbe::ReadMaxLeaf => next == if regs.eax >= 0x15 {
                TscProbe::ReadTscLeaf
            } else {
                TscProbe::ReadFeatures
            },
            TscProbe::ReadTscLeaf => if regs.ebx != 0 && regs.ecx != 0 {
                next matches TscProbe::Done(Some(m)) && m.spec_num() == 1_000_000_000 * regs.eax
                    && m.spec_denom() == regs.ebx * regs.ecx
            } else {
                next == TscProbe::Done(None)
            },
            TscProbe::ReadFeatures => next == if hypervisor_bit(regs.ecx) {
                TscProbe::ReadHypervisorMaxLeaf
            } else {
                TscProbe::Done(None)
            },
            TscProbe::ReadHypervisorMaxLeaf => next == if regs.eax >= 0x4000_0010 {
                TscProbe::ReadHypervisorFrequency
            } else {
                TscProbe::Done(None)
            },
            TscProbe::ReadHypervisorFrequency => if regs.eax != 0 {
                next matches TscProbe::Done(Some(m)) && m.spec_num() == 1_000_000
                    && m.spec_denom() == regs.eax
            } else {
                next == TscProbe::Done(None)
            },
            TscProbe::Done(_) => next == probe,
        },
        probe == TscProbe::ReadFeatures ==> (next == TscProbe::ReadHypervisorMaxLeaf <==> (regs.ecx
            & 0x8000_0000u32) != 0),
{
    match probe {
        TscProbe::ReadMaxLeaf => {
            if regs.eax >= 0x15 {
                TscProbe::ReadTscLeaf
            } else {
                TscProbe::ReadFeatures
            }
        },
        TscProbe::ReadTscLeaf => {
            if regs.ebx != 0 && regs.ecx != 0 {
                let num: u128 = 1_000_000_000 * (regs.eax as u128);
                let ebx: u128 = regs.ebx as u128;
                let ecx: u128 = regs.ecx as u128;
                assert(ebx * ecx <= 0xffff_ffff * 0xffff_ffff) by (nonlinear_arith)
                    requires
                        ebx <= 0xffff_ffff,
                        ecx <= 0xffff_ffff,
                ;
                let denom: u128 = (regs.ebx as u128) * (regs.ecx as u128);
                assert(denom > 0) by (nonlinear_arith)
                    requires
                        denom == (regs.ebx as u128) * (regs.ecx as u128),
                        regs.ebx != 0,
                        regs.ecx != 0,
                ;
                TscProbe::Done(Some(TscMultiplier { num, denom }))
            } else {
                TscProbe::Done(None)
            }
        },
        TscProbe::ReadFeatures => {
            let ecx: u32 = regs.ecx;
            let bit: u32 = ecx & 0x8000_0000;
            assert((bit != 0) == (ecx >= 0x8000_0000)) by (bit_vector)
                requires
                    bit == ecx & 0x8000_0000u32,
            ;
            if bit != 0 {
                TscProbe::ReadHypervisorMaxLeaf
            } else {
                TscProbe::Done(None)
            }
        },
        TscProbe::ReadHypervisorMaxLeaf => {
            if regs.eax >= 0x4000_0010 {
                TscProbe::ReadHypervisorFrequency
            } else {
                TscProbe::Done(None)
            }
        },
        TscProbe::ReadHypervisorFrequency => {
            if regs.eax != 0 {
                TscProbe::Done(Some(TscMultiplier { num: 1_000_000, denom: regs.eax as u128 }))
            } else {
                TscProbe::Done(None)
            }
        },
        TscProbe::Done(_) => probe,
    }
}

/// The TSC value read as the halves `low` (`eax`) and `high` (`edx`) of
/// `rdtsc`.
pub fn tsc_value(low: u32, high: u32) -> (tsc: u128)
    ensures
        tsc == low + high * 0x1_0000_0000,
{
    let v: u128 = (low as u128) | ((high as u128) << 32u128);
    assert(v == low + high * 0x1_0000_0000) by (bit_vector)
        requires
            v == (low as u128) | ((high as u128) << 32u128),
    ;
    v
}

/// The system time in nanoseconds for the TSC value `tsc`: the ticks times
/// the multiplier, rounded down.
pub fn system_time(tsc: u128, multiplier: TscMultiplier) -> (nanos: u128)
    requires
        tsc <= u64::MAX,
    ensures
        nanos == tsc * multiplier.spec_num() / (multiplier.spec_denom() as int),
{
    let num = multiplier.num();
    let denom = multiplier.denom();
    assert(tsc * num <= u64::MAX * max_num()) by (nonlinear_arith)
        requires
            tsc <= u64::MAX,
            num <= max_num(),
    ;
    tsc * num / denom
}

/// Time never runs backwards: a later TSC value gives a system time no
/// earlier than an earlier one.
pub proof fn lemma_system_time_monotonic(tsc1: u128, tsc2: u128, multiplier: TscMultiplier)
    requires
        tsc1 <= tsc2,
        multiplier.spec_denom() > 0,
    ensures
        tsc1 * multiplier.spec_num() / (multiplier.spec_denom() as int) <= tsc2 * multiplier.spec_num()
            / (multiplier.spec_denom() as int),
{
    let num = multiplier.spec_num() as int;
    assert(tsc1 * num <= tsc2 * num) by (nonlinear_arith)
        requires
            tsc1 <= tsc2,
            num >= 0,
    ;
    vstd::arithmetic::div_mod::lemma_div_is_ordered(
        tsc1 * num,
        tsc2 * num,
        multiplier.spec_denom() as int,
    );
}

} // verus!
