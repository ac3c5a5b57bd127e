//! Feature bits that CPUID reports, and the names they are listed under.
use vstd::prelude::*;
use crate::text::{listing, list_names};

verus! {

/// A feature: the bit that holds it in its register.
pub trait Feature {
    fn bit(&self) -> u32;
}

/// A register of feature bits and the features it holds, in listing order.
pub trait FeatureSet {
    fn flags(&self) -> u32;
}

#[derive(Debug, Clone, Copy, PartialEq, Eq, Structural)]
pub enum StandardFeatureEdx {
    Fpu,
    Vme,
    De,
    Pse,
    Tsc,
    Msr,
    Pae,
    Mce,
    Cx8,
    Apic,
    Sep,
    Mtrr,
    Pge,
    Mca,
    Cmov,
    Pat,
    Pse36,
    Psn,
    Clfsh,
    Ds,
    Acpi,
    Mmx,
    Fxsr,
    Sse,
    Sse2,
    Ss,
    Ht,
    Tm,
    Ia64,
    Pbe,
}

impl StandardFeatureEdx {
    /// The bit that holds the feature.
    pub open spec fn spec_bit(self) -> u32 {
        match self {
            StandardFeatureEdx::Fpu => 0,
            StandardFeatureEdx::Vme => 1,
            StandardFeatureEdx::De => 2,
            StandardFeatureEdx::Pse => 3,
            StandardFeatureEdx::Tsc => 4,
            StandardFeatureEdx::Msr => 5,
            StandardFeatureEdx::Pae => 6,
            StandardFeatureEdx::Mce => 7,
            StandardFeatureEdx::Cx8 => 8,
            StandardFeatureEdx::Apic => 9,
            StandardFeatureEdx::Sep => 11,
            StandardFeatureEdx::Mtrr => 12,
            StandardFeatureEdx::Pge => 13,
            StandardFeatureEdx::Mca => 14,
            StandardFeatureEdx::Cmov => 15,
            StandardFeatureEdx::Pat => 16,
            StandardFeatureEdx::Pse36 => 17,
            StandardFeatureEdx::Psn => 18,
            StandardFeatureEdx::Clfsh => 19,
            StandardFeatureEdx::Ds => 21,
            StandardFeatureEdx::Acpi => 22,
            StandardFeatureEdx::Mmx => 23,
            StandardFeatureEdx::Fxsr => 24,
            StandardFeatureEdx::Sse => 25,
            StandardFeatureEdx::Sse2 => 26,
            StandardFeatureEdx::Ss => 27,
            StandardFeatureEdx::Ht => 28,
            StandardFeatureEdx::Tm => 29,
            StandardFeatureEdx::Ia64 => 30,
            StandardFeatureEdx::Pbe => 31,
        }
    }


    /// The name the feature is listed under.
    pub open spec fn spec_name(self) -> &'static str {
        match self {
            StandardFeatureEdx::Fpu => "FPU",
            StandardFeatureEdx::Vme => "VME",
            StandardFeatureEdx::De => "DE",
            StandardFeatureEdx::Pse => "PSE",
            StandardFeatureEdx::Tsc => "TSC",
            StandardFeatureEdx::Msr => "MSR",
            StandardFeatureEdx::Pae => "PAE",
            StandardFeatureEdx::Mce => "MCE",
            StandardFeatureEdx::Cx8 => "CX8",
            StandardFeatureEdx::Apic => "APIC",
            StandardFeatureEdx::Sep => "SEP",
            StandardFeatureEdx::Mtrr => "MTRR",
            StandardFeatureEdx::Pge => "PGE",
            StandardFeatureEdx::Mca => "MCA",
            StandardFeatureEdx::Cmov => "CMOV",
            StandardFeatureEdx::Pat => "PAT",
            StandardFeatureEdx::Pse36 => "PSE36",
            StandardFeatureEdx::Psn => "PSN",
            StandardFeatureEdx::Clfsh => "CLFSH",
            StandardFeatureEdx::Ds => "DS",
            StandardFeatureEdx::Acpi => "ACPI",
            StandardFeatureEdx::Mmx => "MMX",
            StandardFeatureEdx::Fxsr => "FXSR",
            StandardFeatureEdx::Sse => "SSE",
            StandardFeatureEdx::Sse2 => "SSE2",
            StandardFeatureEdx::Ss => "SS",
            StandardFeatureEdx::Ht => "HT",
            StandardFeatureEdx::Tm => "TM",
            StandardFeatureEdx::Ia64 => "IA64",
            StandardFeatureEdx::Pbe => "PBE",
        }
    }


    pub fn name(&self) -> (r: &'static str)
        ensures
            r == self.spec_name(),
    {
        match self {
            StandardFeatureEdx::Fpu => "FPU",
            StandardFeatureEdx::Vme => "VME",
            StandardFeatureEdx::De => "DE",
            StandardFeatureEdx::Pse => "PSE",
            StandardFeatureEdx::Tsc => "TSC",
            StandardFeatureEdx::Msr => "MSR",
            StandardFeatureEdx::Pae => "PAE",
            StandardFeatureEdx::Mce => "MCE",
            StandardFeatureEdx::Cx8 => "CX8",
            StandardFeatureEdx::Apic => "APIC",
            StandardFeatureEdx::Sep => "SEP",
            StandardFeatureEdx::Mtrr => "MTRR",
            StandardFeatureEdx::Pge => "PGE",
            StandardFeatureEdx::Mca => "MCA",
            StandardFeatureEdx::Cmov => "CMOV",
            StandardFeatureEdx::Pat => "PAT",
            StandardFeatureEdx::Pse36 => "PSE36",
            StandardFeatureEdx::Psn => "PSN",
            StandardFeatureEdx::Clfsh => "CLFSH",
            StandardFeatureEdx::Ds => "DS",
            StandardFeatureEdx::Acpi => "ACPI",
            StandardFeatureEdx::Mmx => "MMX",
            StandardFeatureEdx::Fxsr => "FXSR",
            StandardFeatureEdx::Sse => "SSE",
            StandardFeatureEdx::Sse2 => "SSE2",
            StandardFeatureEdx::Ss => "SS",
            StandardFeatureEdx::Ht => "HT",
            StandardFeatureEdx::Tm => "TM",
            StandardFeatureEdx::Ia64 => "IA64",
            StandardFeatureEdx::Pbe => "PBE",
        }
    }


    /// The features of the register, in listing order.
    pub open spec fn spec_all() -> Seq<StandardFeatureEdx> {
        seq![StandardFeatureEdx::Fpu, StandardFeatureEdx::Vme, StandardFeatureEdx::De, StandardFeatureEdx::Pse, StandardFeatureEdx::Tsc, StandardFeatureEdx::Msr, StandardFeatureEdx::Pae, StandardFeatureEdx::Mce, StandardFeatureEdx::Cx8, StandardFeatureEdx::Apic, StandardFeatureEdx::Sep, StandardFeatureEdx::Mtrr, StandardFeatureEdx::Pge, StandardFeatureEdx::Mca, StandardFeatureEdx::Cmov, StandardFeatureEdx::Pat, StandardFeatureEdx::Pse36, StandardFeatureEdx::Psn, StandardFeatureEdx::Clfsh, StandardFeatureEdx::Ds, StandardFeatureEdx::Acpi, StandardFeatureEdx::Mmx, StandardFeatureEdx::Fxsr, StandardFeatureEdx::Sse, StandardFeatureEdx::Sse2, StandardFeatureEdx::Ss, StandardFeatureEdx::Ht, StandardFeatureEdx::Tm, StandardFeatureEdx::Ia64, StandardFeatureEdx::Pbe]
    }


    pub fn all() -> (r: Vec<StandardFeatureEdx>)
        ensures
            r@ == Self::spec_all(),
    {
        vec![StandardFeatureEdx::Fpu, StandardFeatureEdx::Vme, StandardFeatureEdx::De, StandardFeatureEdx::Pse, StandardFeatureEdx::Tsc, StandardFeatureEdx::Msr, StandardFeatureEdx::Pae, StandardFeatureEdx::Mce, StandardFeatureEdx::Cx8, StandardFeatureEdx::Apic, StandardFeatureEdx::Sep, StandardFeatureEdx::Mtrr, StandardFeatureEdx::Pge, StandardFeatureEdx::Mca, StandardFeatureEdx::Cmov, StandardFeatureEdx::Pat, StandardFeatureEdx::Pse36, StandardFeatureEdx::Psn, StandardFeatureEdx::Clfsh, StandardFeatureEdx::Ds, StandardFeatureEdx::Acpi, StandardFeatureEdx::Mmx, StandardFeatureEdx::Fxsr, StandardFeatureEdx::Sse, StandardFeatureEdx::Sse2, StandardFeatureEdx::Ss, StandardFeatureEdx::Ht, StandardFeatureEdx::Tm, StandardFeatureEdx::Ia64, StandardFeatureEdx::Pbe]
    }
}

impl Feature for StandardFeatureEdx {
    fn bit(&self) -> (r: u32)
        ensures
            r == self.spec_bit(),
    {
        match self {
            StandardFeatureEdx::Fpu => 0,
            StandardFeatureEdx::Vme => 1,
            StandardFeatureEdx::De => 2,
            StandardFeatureEdx::Pse => 3,
            StandardFeatureEdx::Tsc => 4,
            StandardFeatureEdx::Msr => 5,
            StandardFeatureEdx::Pae => 6,
            StandardFeatureEdx::Mce => 7,
            StandardFeatureEdx::Cx8 => 8,
            StandardFeatureEdx::Apic => 9,
            StandardFeatureEdx::Sep => 11,
            StandardFeatureEdx::Mtrr => 12,
            StandardFeatureEdx::Pge => 13,
            StandardFeatureEdx::Mca => 14,
            StandardFeatureEdx::Cmov => 15,
            StandardFeatureEdx::Pat => 16,
            StandardFeatureEdx::Pse36 => 17,
            StandardFeatureEdx::Psn => 18,
            StandardFeatureEdx::Clfsh => 19,
            StandardFeatureEdx::Ds => 21,
            StandardFeatureEdx::Acpi => 22,
            StandardFeatureEdx::Mmx => 23,
            StandardFeatureEdx::Fxsr => 24,
            StandardFeatureEdx::Sse => 25,
            StandardFeatureEdx::Sse2 => 26,
            StandardFeatureEdx::Ss => 27,
            StandardFeatureEdx::Ht => 28,
            StandardFeatureEdx::Tm => 29,
            StandardFeatureEdx::Ia64 => 30,
            StandardFeatureEdx::Pbe => 31,
        }
    }
}

/// The register of StandardFeatureEdx bits.
pub struct StandardFeatures(pub u32);

impl FeatureSet for StandardFeatures {
    fn flags(&self) -> (r: u32)
        ensures
            r == self.0,
    {
        self.0
    }
}

impl StandardFeatures {
    /// The names of the set features joined by commas, or `(none)`.
    pub fn to_string(&self) -> (r: String)
        ensures
            r@ == listing(StandardFeatureEdx::spec_all().filter(|f: StandardFeatureEdx| self.0 & (1u32 << f.spec_bit()) != 0).map_values(|f: StandardFeatureEdx| f.spec_name())),
    {
        let names = self.names();
        list_names(&names)
    }

    /// Names of the features whose bits are set, in listing order.
    pub fn names(&self) -> (r: Vec<&'static str>)
        ensures
            r@ == StandardFeatureEdx::spec_all().filter(|f: StandardFeatureEdx| self.0 & (1u32 << f.spec_bit()) != 0).map_values(|f: StandardFeatureEdx| f.spec_name()),
    {
        let all = StandardFeatureEdx::all();
        let mut r: Vec<&'static str> = Vec::new();
        let mut i: usize = 0;
        while i < all.len()
            invariant
                i <= all@.len(),
                all@ == StandardFeatureEdx::spec_all(),
                forall|j: int| 0 <= j < all@.len() ==> #[trigger] all@[j].spec_bit() < 32,
                r@ == all@.take(i as int).filter(|f: StandardFeatureEdx| self.0 & (1u32 << f.spec_bit()) != 0).map_values(|f: StandardFeatureEdx| f.spec_name()),
            decreases all@.len() - i,
        {
            let f = all[i];
            let b = f.bit();
            proof {
                reveal_with_fuel(Seq::<StandardFeatureEdx>::filter, 1);
                assert(all@.take(i + 1).drop_last() =~= all@.take(i as int));
            }
            if self.0 & (1u32 << b) != 0 {
                r.push(f.name());
            }
            i = i + 1;
        }
        proof {
            assert(all@.take(all@.len() as int) =~= all@);
        }
        r
    }
}

#[derive(Debug, Clone, Copy, PartialEq, Eq, Structural)]
pub enum ExtendedFeatureEcx {
    Sse3,
    Pclmulqdq,
    Dtes64,
    Monitor,
    DsCpl,
    Vmx,
    Smx,
    Est,
    Tm2,
    Sss,
    CnxId,
    Fma,
    Cx16,
    Xtpr,
    Pdcm,
    Dca,
    Sse4_1,
    Sse4_2,
    X2Apic,
    Movbe,
    Popcnt,
    TscDeadline,
    Aes,
    Xsave,
    Osxsave,
    Avx,
    F16C,
    Rdrnd,
    Hypervisor,
}

impl ExtendedFeatureEcx {
    /// The bit that holds the feature.
    pub open spec fn spec_bit(self) -> u32 {
        match self {
            ExtendedFeatureEcx::Sse3 => 0,
            ExtendedFeatureEcx::Pclmulqdq => 1,
            ExtendedFeatureEcx::Dtes64 => 2,
            ExtendedFeatureEcx::Monitor => 3,
            ExtendedFeatureEcx::DsCpl => 4,
            ExtendedFeatureEcx::Vmx => 5,
            ExtendedFeatureEcx::Smx => 6,
            ExtendedFeatureEcx::Est => 7,
            ExtendedFeatureEcx::Tm2 => 8,
            ExtendedFeatureEcx::Sss => 9,
            ExtendedFeatureEcx::CnxId => 10,
            ExtendedFeatureEcx::Fma => 12,
            ExtendedFeatureEcx::Cx16 => 13,
            ExtendedFeatureEcx::Xtpr => 14,
            ExtendedFeatureEcx::Pdcm => 15,
            ExtendedFeatureEcx::Dca => 18,
            ExtendedFeatureEcx::Sse4_1 => 19,
            ExtendedFeatureEcx::Sse4_2 => 20,
            ExtendedFeatureEcx::X2Apic => 21,
            ExtendedFeatureEcx::Movbe => 22,
            ExtendedFeatureEcx::Popcnt => 23,
            ExtendedFeatureEcx::TscDeadline => 24,
            ExtendedFeatureEcx::Aes => 25,
            ExtendedFeatureEcx::Xsave => 26,
            ExtendedFeatureEcx::Osxsave => 27,
            ExtendedFeatureEcx::Avx => 28,
            ExtendedFeatureEcx::F16C => 29,
            ExtendedFeatureEcx::Rdrnd => 30,
            ExtendedFeatureEcx::Hypervisor => 31,
        }
    }


    /// The name the feature is listed under.
    pub open spec fn spec_name(self) -> &'static str {
        match self {
            ExtendedFeatureEcx::Sse3 => "SSE3",
            ExtendedFeatureEcx::Pclmulqdq => "PCLMULQDQ",
            ExtendedFeatureEcx::Dtes64 => "DTES64",
            ExtendedFeatureEcx::Monitor => "MONITOR",
            ExtendedFeatureEcx::DsCpl => "DS-CPL",
            ExtendedFeatureEcx::Vmx => "VMX",
            ExtendedFeatureEcx::Smx => "SMX",
            ExtendedFeatureEcx::Est => "EST",
            ExtendedFeatureEcx::Tm2 => "TM2",
            ExtendedFeatureEcx::Sss => "SSSE3",
            ExtendedFeatureEcx::CnxId => "CNXID",
            ExtendedFeatureEcx::Fma => "FMA",
            ExtendedFeatureEcx::Cx16 => "CX16",
            ExtendedFeatureEcx::Xtpr => "XTPR",
            ExtendedFeatureEcx::Pdcm => "PDCM",
            ExtendedFeatureEcx::Dca => "DCA",
            ExtendedFeatureEcx::Sse4_1 => "SSE4.1",
            ExtendedFeatureEcx::Sse4_2 => "SSE4.2",
            ExtendedFeatureEcx::X2Apic => "X2APIC",
            ExtendedFeatureEcx::Movbe => "MOVBE",
            ExtendedFeatureEcx::Popcnt => "POPCNT",
            ExtendedFeatureEcx::TscDeadline => "TSC-DEADLINE",
            ExtendedFeatureEcx::Aes => "AES-NI",
            ExtendedFeatureEcx::Xsave => "XSAVE",
            ExtendedFeatureEcx::Osxsave => "OSXSAVE",
            ExtendedFeatureEcx::Avx => "AVX",
            ExtendedFeatureEcx::F16C => "F16C",
            ExtendedFeatureEcx::Rdrnd => "RDRAND",
            ExtendedFeatureEcx::Hypervisor => "HYPERVISOR",
        }
    }


    pub fn name(&self) -> (r: &'static str)
        ensures
            r == self.spec_name(),
    {
        match self {
            ExtendedFeatureEcx::Sse3 => "SSE3",
            ExtendedFeatureEcx::Pclmulqdq => "PCLMULQDQ",
            ExtendedFeatureEcx::Dtes64 => "DTES64",
            ExtendedFeatureEcx::Monitor => "MONITOR",
            ExtendedFeatureEcx::DsCpl => "DS-CPL",
            ExtendedFeatureEcx::Vmx => "VMX",
            ExtendedFeatureEcx::Smx => "SMX",
            ExtendedFeatureEcx::Est => "EST",
            ExtendedFeatureEcx::Tm2 => "TM2",
            ExtendedFeatureEcx::Sss => "SSSE3",
            ExtendedFeatureEcx::CnxId => "CNXID",
            ExtendedFeatureEcx::Fma => "FMA",
            ExtendedFeatureEcx::Cx16 => "CX16",
            ExtendedFeatureEcx::Xtpr => "XTPR",
            ExtendedFeatureEcx::Pdcm => "PDCM",
            ExtendedFeatureEcx::Dca => "DCA",
            ExtendedFeatureEcx::Sse4_1 => "SSE4.1",
            ExtendedFeatureEcx::Sse4_2 => "SSE4.2",
            ExtendedFeatureEcx::X2Apic => "X2APIC",
            ExtendedFeatureEcx::Movbe => "MOVBE",
            ExtendedFeatureEcx::Popcnt => "POPCNT",
            ExtendedFeatureEcx::TscDeadline => "TSC-DEADLINE",
            ExtendedFeatureEcx::Aes => "AES-NI",
            ExtendedFeatureEcx::Xsave => "XSAVE",
            ExtendedFeatureEcx::Osxsave => "OSXSAVE",
            ExtendedFeatureEcx::Avx => "AVX",
            ExtendedFeatureEcx::F16C => "F16C",
            ExtendedFeatureEcx::Rdrnd => "RDRAND",
            ExtendedFeatureEcx::Hypervisor => "HYPERVISOR",
        }
    }


    /// The features of the register, in listing order.
    pub open spec fn spec_all() -> Seq<ExtendedFeatureEcx> {
        seq![ExtendedFeatureEcx::Sse3, ExtendedFeatureEcx::Pclmulqdq, ExtendedFeatureEcx::Dtes64, ExtendedFeatureEcx::Monitor, ExtendedFeatureEcx::DsCpl, ExtendedFeatureEcx::Vmx, ExtendedFeatureEcx::Smx, ExtendedFeatureEcx::Est, ExtendedFeatureEcx::Tm2, ExtendedFeatureEcx::Sss, ExtendedFeatureEcx::CnxId, ExtendedFeatureEcx::Fma, ExtendedFeatureEcx::Cx16, ExtendedFeatureEcx::Xtpr, ExtendedFeatureEcx::Pdcm, ExtendedFeatureEcx::Dca, ExtendedFeatureEcx::Sse4_1, ExtendedFeatureEcx::Sse4_2, ExtendedFeatureEcx::X2Apic, ExtendedFeatureEcx::Movbe, ExtendedFeatureEcx::Popcnt, ExtendedFeatureEcx::TscDeadline, ExtendedFeatureEcx::Aes, ExtendedFeatureEcx::Xsave, ExtendedFeatureEcx::Osxsave, ExtendedFeatureEcx::Avx, ExtendedFeatureEcx::F16C, ExtendedFeatureEcx::Rdrnd, ExtendedFeatureEcx::Hypervisor]
    }


    pub fn all() -> (r: Vec<ExtendedFeatureEcx>)
        ensures
            r@ == Self::spec_all(),
    {
        vec![ExtendedFeatureEcx::Sse3, ExtendedFeatureEcx::Pclmulqdq, ExtendedFeatureEcx::Dtes64, ExtendedFeatureEcx::Monitor, ExtendedFeatureEcx::DsCpl, ExtendedFeatureEcx::Vmx, ExtendedFeatureEcx::Smx, ExtendedFeatureEcx::Est, ExtendedFeatureEcx::Tm2, ExtendedFeatureEcx::Sss, ExtendedFeatureEcx::CnxId, ExtendedFeatureEcx::Fma, ExtendedFeatureEcx::Cx16, ExtendedFeatureEcx::Xtpr, ExtendedFeatureEcx::Pdcm, ExtendedFeatureEcx::Dca, ExtendedFeatureEcx::Sse4_1, ExtendedFeatureEcx::Sse4_2, ExtendedFeatureEcx::X2Apic, ExtendedFeatureEcx::Movbe, ExtendedFeatureEcx::Popcnt, ExtendedFeatureEcx::TscDeadline, ExtendedFeatureEcx::Aes, ExtendedFeatureEcx::Xsave, ExtendedFeatureEcx::Osxsave, ExtendedFeatureEcx::Avx, ExtendedFeatureEcx::F16C, ExtendedFeatureEcx::Rdrnd, ExtendedFeatureEcx::Hypervisor]
    }
}

impl Feature for ExtendedFeatureEcx {
    fn bit(&self) -> (r: u32)
        ensures
            r == self.spec_bit(),
    {
        match self {
            ExtendedFeatureEcx::Sse3 => 0,
            ExtendedFeatureEcx::Pclmulqdq => 1,
            ExtendedFeatureEcx::Dtes64 => 2,
            ExtendedFeatureEcx::Monitor => 3,
            ExtendedFeatureEcx::DsCpl => 4,
            ExtendedFeatureEcx::Vmx => 5,
            ExtendedFeatureEcx::Smx => 6,
            ExtendedFeatureEcx::Est => 7,
            ExtendedFeatureEcx::Tm2 => 8,
            ExtendedFeatureEcx::Sss => 9,
            ExtendedFeatureEcx::CnxId => 10,
            ExtendedFeatureEcx::Fma => 12,
            ExtendedFeatureEcx::Cx16 => 13,
            ExtendedFeatureEcx::Xtpr => 14,
            ExtendedFeatureEcx::Pdcm => 15,
            ExtendedFeatureEcx::Dca => 18,
            ExtendedFeatureEcx::Sse4_1 => 19,
            ExtendedFeatureEcx::Sse4_2 => 20,
            ExtendedFeatureEcx::X2Apic => 21,
            ExtendedFeatureEcx::Movbe => 22,
            ExtendedFeatureEcx::Popcnt => 23,
            ExtendedFeatureEcx::TscDeadline => 24,
            ExtendedFeatureEcx::Aes => 25,
            ExtendedFeatureEcx::Xsave => 26,
            ExtendedFeatureEcx::Osxsave => 27,
            ExtendedFeatureEcx::Avx => 28,
            ExtendedFeatureEcx::F16C => 29,
            ExtendedFeatureEcx::Rdrnd => 30,
            ExtendedFeatureEcx::Hypervisor => 31,
        }
    }
}

/// The register of ExtendedFeatureEcx bits.
pub struct ExtendedFeatures(pub u32);

impl FeatureSet for ExtendedFeatures {
    fn flags(&self) -> (r: u32)
        ensures
            r == self.0,
    {
        self.0
    }
}

impl ExtendedFeatures {
    /// The names of the set features joined by commas, or `(none)`.
    pub fn to_string(&self) -> (r: String)
        ensures
            r@ == listing(ExtendedFeatureEcx::spec_all().filter(|f: ExtendedFeatureEcx| self.0 & (1u32 << f.spec_bit()) != 0).map_values(|f: ExtendedFeatureEcx| f.spec_name())),
    {
        let names = self.names();
        list_names(&names)
    }

    /// Names of the features whose bits are set, in listing order.
    pub fn names(&self) -> (r: Vec<&'static str>)
        ensures
            r@ == ExtendedFeatureEcx::spec_all().filter(|f: ExtendedFeatureEcx| self.0 & (1u32 << f.spec_bit()) != 0).map_values(|f: ExtendedFeatureEcx| f.spec_name()),
    {
        let all = ExtendedFeatureEcx::all();
        let mut r: Vec<&'static str> = Vec::new();
        let mut i: usize = 0;
        while i < all.len()
            invariant
                i <= all@.len(),
                all@ == ExtendedFeatureEcx::spec_all(),
                forall|j: int| 0 <= j < all@.len() ==> #[trigger] all@[j].spec_bit() < 32,
                r@ == all@.take(i as int).filter(|f: ExtendedFeatureEcx| self.0 & (1u32 << f.spec_bit()) != 0).map_values(|f: ExtendedFeatureEcx| f.spec_name()),
            decreases all@.len() - i,
        {
            let f = all[i];
            let b = f.bit();
            proof {
                reveal_with_fuel(Seq::<ExtendedFeatureEcx>::filter, 1);
                assert(all@.take(i + 1).drop_last() =~= all@.take(i as int));
            }
            if self.0 & (1u32 << b) != 0 {
                r.push(f.name());
            }
            i = i + 1;
        }
        proof {
            assert(all@.take(all@.len() as int) =~= all@);
        }
        r
    }
}

#[derive(Debug, Clone, Copy, PartialEq, Eq, Structural)]
pub enum ExtendedFeature7Eb {
    Fsgsbase,
    Ia32TsxAdjust,
    Sgx,
    Bmi1,
    Hle,
    Avx2,
    FdpEx,
    Smep,
    Bmi2,
    Erms,
    Invpcid,
    Rtm,
    Pqm,
    Mpx,
    Pqe,
    Avx512f,
    Avx512dq,
    Rdseed,
    Adx,
    Smap,
    Avx512ifma,
    Pcommit,
    Clflushopt,
    Clwb,
    IntelPt,
    Avx512pf,
    Avx512er,
    Avx512cd,
    Sha,
    Avx512bw,
    Avx512vl,
}

impl ExtendedFeature7Eb {
    /// The bit that holds the feature.
    pub open spec fn spec_bit(self) -> u32 {
        match self {
            ExtendedFeature7Eb::Fsgsbase => 0,
            ExtendedFeature7Eb::Ia32TsxAdjust => 1,
            ExtendedFeature7Eb::Sgx => 2,
            ExtendedFeature7Eb::Bmi1 => 3,
            ExtendedFeature7Eb::Hle => 4,
            ExtendedFeature7Eb::Avx2 => 5,
            ExtendedFeature7Eb::FdpEx => 6,
            ExtendedFeature7Eb::Smep => 7,
            ExtendedFeature7Eb::Bmi2 => 8,
            ExtendedFeature7Eb::Erms => 9,
            ExtendedFeature7Eb::Invpcid => 10,
            ExtendedFeature7Eb::Rtm => 11,
            ExtendedFeature7Eb::Pqm => 12,
            ExtendedFeature7Eb::Mpx => 14,
            ExtendedFeature7Eb::Pqe => 15,
            ExtendedFeature7Eb::Avx512f => 16,
            ExtendedFeature7Eb::Avx512dq => 17,
            ExtendedFeature7Eb::Rdseed => 18,
            ExtendedFeature7Eb::Adx => 19,
            ExtendedFeature7Eb::Smap => 20,
            ExtendedFeature7Eb::Avx512ifma => 21,
            ExtendedFeature7Eb::Pcommit => 22,
            ExtendedFeature7Eb::Clflushopt => 23,
            ExtendedFeature7Eb::Clwb => 24,
            ExtendedFeature7Eb::IntelPt => 25,
            ExtendedFeature7Eb::Avx512pf => 26,
            ExtendedFeature7Eb::Avx512er => 27,
            ExtendedFeature7Eb::Avx512cd => 28,
            ExtendedFeature7Eb::Sha => 29,
            ExtendedFeature7Eb::Avx512bw => 30,
            ExtendedFeature7Eb::Avx512vl => 31,
        }
    }


    /// The name the feature is listed under.
    pub open spec fn spec_name(self) -> &'static str {
        match self {
            ExtendedFeature7Eb::Fsgsbase => "FSGSBASE",
            ExtendedFeature7Eb::Ia32TsxAdjust => "TSX-ADJUST",
            ExtendedFeature7Eb::Sgx => "SGX",
            ExtendedFeature7Eb::Bmi1 => "BMI1",
            ExtendedFeature7Eb::Hle => "HLE",
            ExtendedFeature7Eb::Avx2 => "AVX2",
            ExtendedFeature7Eb::FdpEx => "FDP-EX",
            ExtendedFeature7Eb::Smep => "SMEP",
            ExtendedFeature7Eb::Bmi2 => "BMI2",
            ExtendedFeature7Eb::Erms => "ERMS",
            ExtendedFeature7Eb::Invpcid => "INVPCID",
            ExtendedFeature7Eb::Rtm => "RTM",
            ExtendedFeature7Eb::Pqm => "PQM",
            ExtendedFeature7Eb::Mpx => "MPX",
            ExtendedFeature7Eb::Pqe => "PQE",
            ExtendedFeature7Eb::Avx512f => "AVX512F",
            ExtendedFeature7Eb::Avx512dq => "AVX512DQ",
            ExtendedFeature7Eb::Rdseed => "RDSEED",
            ExtendedFeature7Eb::Adx => "ADX",
            ExtendedFeature7Eb::Smap => "SMAP",
            ExtendedFeature7Eb::Avx512ifma => "AVX512IFMA",
            ExtendedFeature7Eb::Pcommit => "PCOMMIT",
            ExtendedFeature7Eb::Clflushopt => "CLFLUSHOPT",
            ExtendedFeature7Eb::Clwb => "CLWB",
            ExtendedFeature7Eb::IntelPt => "INTEL-PT",
            ExtendedFeature7Eb::Avx512pf => "AVX512PF",
            ExtendedFeature7Eb::Avx512er => "AVX512ER",
            ExtendedFeature7Eb::Avx512cd => "AVX512CD",
            ExtendedFeature7Eb::Sha => "SHA",
            ExtendedFeature7Eb::Avx512bw => "AVX512BW",
            ExtendedFeature7Eb::Avx512vl => "AVX512VL",
        }
    }


    pub fn name(&self) -> (r: &'static str)
        ensures
            r == self.spec_name(),
    {
        match self {
            ExtendedFeature7Eb::Fsgsbase => "FSGSBASE",
            ExtendedFeature7Eb::Ia32TsxAdjust => "TSX-ADJUST",
            ExtendedFeature7Eb::Sgx => "SGX",
            ExtendedFeature7Eb::Bmi1 => "BMI1",
            ExtendedFeature7Eb::Hle => "HLE",
            ExtendedFeature7Eb::Avx2 => "AVX2",
            ExtendedFeature7Eb::FdpEx => "FDP-EX",
            ExtendedFeature7Eb::Smep => "SMEP",
            ExtendedFeature7Eb::Bmi2 => "BMI2",
            ExtendedFeature7Eb::Erms => "ERMS",
            ExtendedFeature7Eb::Invpcid => "INVPCID",
            ExtendedFeature7Eb::Rtm => "RTM",
            ExtendedFeature7Eb::Pqm => "PQM",
            ExtendedFeature7Eb::Mpx => "MPX",
            ExtendedFeature7Eb::Pqe => "PQE",
            ExtendedFeature7Eb::Avx512f => "AVX512F",
            ExtendedFeature7Eb::Avx512dq => "AVX512DQ",
            ExtendedFeature7Eb::Rdseed => "RDSEED",
            ExtendedFeature7Eb::Adx => "ADX",
            ExtendedFeature7Eb::Smap => "SMAP",
            ExtendedFeature7Eb::Avx512ifma => "AVX512IFMA",
            ExtendedFeature7Eb::Pcommit => "PCOMMIT",
            ExtendedFeature7Eb::Clflushopt => "CLFLUSHOPT",
            ExtendedFeature7Eb::Clwb => "CLWB",
            ExtendedFeature7Eb::IntelPt => "INTEL-PT",
            ExtendedFeature7Eb::Avx512pf => "AVX512PF",
            ExtendedFeature7Eb::Avx512er => "AVX512ER",
            ExtendedFeature7Eb::Avx512cd => "AVX512CD",
            ExtendedFeature7Eb::Sha => "SHA",
            ExtendedFeature7Eb::Avx512bw => "AVX512BW",
            ExtendedFeature7Eb::Avx512vl => "AVX512VL",
        }
    }


    /// The features of the register, in listing order.
    pub open spec fn spec_all() -> Seq<ExtendedFeature7Eb> {
        seq![ExtendedFeature7Eb::Fsgsbase, ExtendedFeature7Eb::Ia32TsxAdjust, ExtendedFeature7Eb::Sgx, ExtendedFeature7Eb::Bmi1, ExtendedFeature7Eb::Hle, ExtendedFeature7Eb::Avx2, ExtendedFeature7Eb::FdpEx, ExtendedFeature7Eb::Smep, ExtendedFeature7Eb::Bmi2, ExtendedFeature7Eb::Erms, ExtendedFeature7Eb::Invpcid, ExtendedFeature7Eb::Rtm, ExtendedFeature7Eb::Pqm, ExtendedFeature7Eb::Mpx, ExtendedFeature7Eb::Pqe, ExtendedFeature7Eb::Avx512f, ExtendedFeature7Eb::Avx512dq, ExtendedFeature7Eb::Rdseed, ExtendedFeature7Eb::Adx, ExtendedFeature7Eb::Smap, ExtendedFeature7Eb::Avx512ifma, ExtendedFeature7Eb::Pcommit, ExtendedFeature7Eb::Clflushopt, ExtendedFeature7Eb::Clwb, ExtendedFeature7Eb::IntelPt, ExtendedFeature7Eb::Avx512pf, ExtendedFeature7Eb::Avx512er, ExtendedFeature7Eb::Avx512cd, ExtendedFeature7Eb::Sha, ExtendedFeature7Eb::Avx512bw, ExtendedFeature7Eb::Avx512vl]
    }


    pub fn all() -> (r: Vec<ExtendedFeature7Eb>)
        ensures
            r@ == Self::spec_all(),
    {
        vec![ExtendedFeature7Eb::Fsgsbase, ExtendedFeature7Eb::Ia32TsxAdjust, ExtendedFeature7Eb::Sgx, ExtendedFeature7Eb::Bmi1, ExtendedFeature7Eb::Hle, ExtendedFeature7Eb::Avx2, ExtendedFeature7Eb::FdpEx, ExtendedFeature7Eb::Smep, ExtendedFeature7Eb::Bmi2, ExtendedFeature7Eb::Erms, ExtendedFeature7Eb::Invpcid, ExtendedFeature7Eb::Rtm, ExtendedFeature7Eb::Pqm, ExtendedFeature7Eb::Mpx, ExtendedFeature7Eb::Pqe, ExtendedFeature7Eb::Avx512f, ExtendedFeature7Eb::Avx512dq, ExtendedFeature7Eb::Rdseed, ExtendedFeature7Eb::Adx, ExtendedFeature7Eb::Smap, ExtendedFeature7Eb::Avx512ifma, ExtendedFeature7Eb::Pcommit, ExtendedFeature7Eb::Clflushopt, ExtendedFeature7Eb::Clwb, ExtendedFeature7Eb::IntelPt, ExtendedFeature7Eb::Avx512pf, ExtendedFeature7Eb::Avx512er, ExtendedFeature7Eb::Avx512cd, ExtendedFeature7Eb::Sha, ExtendedFeature7Eb::Avx512bw, ExtendedFeature7Eb::Avx512vl]
    }
}

impl Feature for ExtendedFeature7Eb {
    fn bit(&self) -> (r: u32)
        ensures
            r == self.spec_bit(),
    {
        match self {
            ExtendedFeature7Eb::Fsgsbase => 0,
            ExtendedFeature7Eb::Ia32TsxAdjust => 1,
            ExtendedFeature7Eb::Sgx => 2,
            ExtendedFeature7Eb::Bmi1 => 3,
            ExtendedFeature7Eb::Hle => 4,
            ExtendedFeature7Eb::Avx2 => 5,
            ExtendedFeature7Eb::FdpEx => 6,
            ExtendedFeature7Eb::Smep => 7,
            ExtendedFeature7Eb::Bmi2 => 8,
            ExtendedFeature7Eb::Erms => 9,
            ExtendedFeature7Eb::Invpcid => 10,
            ExtendedFeature7Eb::Rtm => 11,
            ExtendedFeature7Eb::Pqm => 12,
            ExtendedFeature7Eb::Mpx => 14,
            ExtendedFeature7Eb::Pqe => 15,
            ExtendedFeature7Eb::Avx512f => 16,
            ExtendedFeature7Eb::Avx512dq => 17,
            ExtendedFeature7Eb::Rdseed => 18,
            ExtendedFeature7Eb::Adx => 19,
            ExtendedFeature7Eb::Smap => 20,
            ExtendedFeature7Eb::Avx512ifma => 21,
            ExtendedFeature7Eb::Pcommit => 22,
            ExtendedFeature7Eb::Clflushopt => 23,
            ExtendedFeature7Eb::Clwb => 24,
            ExtendedFeature7Eb::IntelPt => 25,
            ExtendedFeature7Eb::Avx512pf => 26,
            ExtendedFeature7Eb::Avx512er => 27,
            ExtendedFeature7Eb::Avx512cd => 28,
            ExtendedFeature7Eb::Sha => 29,
            ExtendedFeature7Eb::Avx512bw => 30,
            ExtendedFeature7Eb::Avx512vl => 31,
        }
    }
}

/// The register of ExtendedFeature7Eb bits.
pub struct Extended7EbFeatures(pub u32);

impl FeatureSet for Extended7EbFeatures {
    fn flags(&self) -> (r: u32)
        ensures
            r == self.0,
    {
        self.0
    }
}

impl Extended7EbFeatures {
    /// The names of the set features joined by commas, or `(none)`.
    pub fn to_string(&self) -> (r: String)
        ensures
            r@ == listing(ExtendedFeature7Eb::spec_all().filter(|f: ExtendedFeature7Eb| self.0 & (1u32 << f.spec_bit()) != 0).map_values(|f: ExtendedFeature7Eb| f.spec_name())),
    {
        let names = self.names();
        list_names(&names)
    }

    /// Names of the features whose bits are set, in listing order.
    pub fn names(&self) -> (r: Vec<&'static str>)
        ensures
            r@ == ExtendedFeature7Eb::spec_all().filter(|f: ExtendedFeature7Eb| self.0 & (1u32 << f.spec_bit()) != 0).map_values(|f: ExtendedFeature7Eb| f.spec_name()),
    {
        let all = ExtendedFeature7Eb::all();
        let mut r: Vec<&'static str> = Vec::new();
        let mut i: usize = 0;
        while i < all.len()
            invariant
                i <= all@.len(),
                all@ == ExtendedFeature7Eb::spec_all(),
                forall|j: int| 0 <= j < all@.len() ==> #[trigger] all@[j].spec_bit() < 32,
                r@ == all@.take(i as int).filter(|f: ExtendedFeature7Eb| self.0 & (1u32 << f.spec_bit()) != 0).map_values(|f: ExtendedFeature7Eb| f.spec_name()),
            decreases all@.len() - i,
        {
            let f = all[i];
            let b = f.bit();
            proof {
                reveal_with_fuel(Seq::<ExtendedFeature7Eb>::filter, 1);
                assert(all@.take(i + 1).drop_last() =~= all@.take(i as int));
            }
            if self.0 & (1u32 << b) != 0 {
                r.push(f.name());
            }
            i = i + 1;
        }
        proof {
            assert(all@.take(all@.len() as int) =~= all@);
        }
        r
    }
}

#[derive(Debug, Clone, Copy, PartialEq, Eq, Structural)]
pub enum ExtendedFeature7Ec {
    Prefetchwt1,
    Avx512vbmi,
    Umip,
    Pku,
    Ospke,
    Waitpkg,
    Avx512vbmi2,
    CetSs,
    Gfni,
    Vaes,
    Vpclmulqdq,
    Avx512bitalg,
    Avx512vpopcntdq,
    Rdpid,
}

impl ExtendedFeature7Ec {
    /// The bit that holds the feature.
    pub open spec fn spec_bit(self) -> u32 {
        match self {
            ExtendedFeature7Ec::Prefetchwt1 => 0,
            ExtendedFeature7Ec::Avx512vbmi => 1,
            ExtendedFeature7Ec::Umip => 2,
            ExtendedFeature7Ec::Pku => 3,
            ExtendedFeature7Ec::Ospke => 4,
            ExtendedFeature7Ec::Waitpkg => 5,
            ExtendedFeature7Ec::Avx512vbmi2 => 6,
            ExtendedFeature7Ec::CetSs => 7,
            ExtendedFeature7Ec::Gfni => 8,
            ExtendedFeature7Ec::Vaes => 9,
            ExtendedFeature7Ec::Vpclmulqdq => 10,
            ExtendedFeature7Ec::Avx512bitalg => 12,
            ExtendedFeature7Ec::Avx512vpopcntdq => 14,
            ExtendedFeature7Ec::Rdpid => 22,
        }
    }


    /// The name the feature is listed under.
    pub open spec fn spec_name(self) -> &'static str {
        match self {
            ExtendedFeature7Ec::Prefetchwt1 => "PREFETCHWT1",
            ExtendedFeature7Ec::Avx512vbmi => "AVX512VBMI",
            ExtendedFeature7Ec::Umip => "UMIP",
            ExtendedFeature7Ec::Pku => "PKU",
            ExtendedFeature7Ec::Ospke => "OSPKU",
            ExtendedFeature7Ec::Waitpkg => "WAITPKG",
            ExtendedFeature7Ec::Avx512vbmi2 => "AVX512VBMI2",
            ExtendedFeature7Ec::CetSs => "CET-SS",
            ExtendedFeature7Ec::Gfni => "GFNI",
            ExtendedFeature7Ec::Vaes => "VAES",
            ExtendedFeature7Ec::Vpclmulqdq => "VPCLMULQDQ",
            ExtendedFeature7Ec::Avx512bitalg => "AVX512BITALG",
            ExtendedFeature7Ec::Avx512vpopcntdq => "AVX512VPOPCNTDQ",
            ExtendedFeature7Ec::Rdpid => "RDPID",
        }
    }


    pub fn name(&self) -> (r: &'static str)
        ensures
            r == self.spec_name(),
    {
        match self {
            ExtendedFeature7Ec::Prefetchwt1 => "PREFETCHWT1",
            ExtendedFeature7Ec::Avx512vbmi => "AVX512VBMI",
            ExtendedFeature7Ec::Umip => "UMIP",
            ExtendedFeature7Ec::Pku => "PKU",
            ExtendedFeature7Ec::Ospke => "OSPKU",
            ExtendedFeature7Ec::Waitpkg => "WAITPKG",
            ExtendedFeature7Ec::Avx512vbmi2 => "AVX512VBMI2",
            ExtendedFeature7Ec::CetSs => "CET-SS",
            ExtendedFeature7Ec::Gfni => "GFNI",
            ExtendedFeature7Ec::Vaes => "VAES",
            ExtendedFeature7Ec::Vpclmulqdq => "VPCLMULQDQ",
            ExtendedFeature7Ec::Avx512bitalg => "AVX512BITALG",
            ExtendedFeature7Ec::Avx512vpopcntdq => "AVX512VPOPCNTDQ",
            ExtendedFeature7Ec::Rdpid => "RDPID",
        }
    }


    /// The features of the register, in listing order.
    pub open spec fn spec_all() -> Seq<ExtendedFeature7Ec> {
        seq![ExtendedFeature7Ec::Prefetchwt1, ExtendedFeature7Ec::Avx512vbmi, ExtendedFeature7Ec::Umip, ExtendedFeature7Ec::Pku, ExtendedFeature7Ec::Ospke, ExtendedFeature7Ec::Waitpkg, ExtendedFeature7Ec::Avx512vbmi2, ExtendedFeature7Ec::CetSs, ExtendedFeature7Ec::Gfni, ExtendedFeature7Ec::Vaes, ExtendedFeature7Ec::Vpclmulqdq, ExtendedFeature7Ec::Avx512bitalg, ExtendedFeature7Ec::Avx512vpopcntdq, ExtendedFeature7Ec::Rdpid]
    }


    pub fn all() -> (r: Vec<ExtendedFeature7Ec>)
        ensures
            r@ == Self::spec_all(),
    {
        vec![ExtendedFeature7Ec::Prefetchwt1, ExtendedFeature7Ec::Avx512vbmi, ExtendedFeature7Ec::Umip, ExtendedFeature7Ec::Pku, ExtendedFeature7Ec::Ospke, ExtendedFeature7Ec::Waitpkg, ExtendedFeature7Ec::Avx512vbmi2, ExtendedFeature7Ec::CetSs, ExtendedFeature7Ec::Gfni, ExtendedFeature7Ec::Vaes, ExtendedFeature7Ec::Vpclmulqdq, ExtendedFeature7Ec::Avx512bitalg, ExtendedFeature7Ec::Avx512vpopcntdq, ExtendedFeature7Ec::Rdpid]
    }
}

impl Feature for ExtendedFeature7Ec {
    fn bit(&self) -> (r: u32)
        ensures
            r == self.spec_bit(),
    {
        match self {
            ExtendedFeature7Ec::Prefetchwt1 => 0,
            ExtendedFeature7Ec::Avx512vbmi => 1,
            ExtendedFeature7Ec::Umip => 2,
            ExtendedFeature7Ec::Pku => 3,
            ExtendedFeature7Ec::Ospke => 4,
            ExtendedFeature7Ec::Waitpkg => 5,
            ExtendedFeature7Ec::Avx512vbmi2 => 6,
            ExtendedFeature7Ec::CetSs => 7,
            ExtendedFeature7Ec::Gfni => 8,
            ExtendedFeature7Ec::Vaes => 9,
            ExtendedFeature7Ec::Vpclmulqdq => 10,
            ExtendedFeature7Ec::Avx512bitalg => 12,
            ExtendedFeature7Ec::Avx512vpopcntdq => 14,
            ExtendedFeature7Ec::Rdpid => 22,
        }
    }
}

/// The register of ExtendedFeature7Ec bits.
pub struct Extended7EcFeatures(pub u32);

impl FeatureSet for Extended7EcFeatures {
    fn flags(&self) -> (r: u32)
        ensures
            r == self.0,
    {
        self.0
    }
}

impl Extended7EcFeatures {
    /// The names of the set features joined by commas, or `(none)`.
    pub fn to_string(&self) -> (r: String)
        ensures
            r@ == listing(ExtendedFeature7Ec::spec_all().filter(|f: ExtendedFeature7Ec| self.0 & (1u32 << f.spec_bit()) != 0).map_values(|f: ExtendedFeature7Ec| f.spec_name())),
    {
        let names = self.names();
        list_names(&names)
    }

    /// Names of the features whose bits are set, in listing order.
    pub fn names(&self) -> (r: Vec<&'static str>)
        ensures
            r@ == ExtendedFeature7Ec::spec_all().filter(|f: ExtendedFeature7Ec| self.0 & (1u32 << f.spec_bit()) != 0).map_values(|f: ExtendedFeature7Ec| f.spec_name()),
    {
        let all = ExtendedFeature7Ec::all();
        let mut r: Vec<&'static str> = Vec::new();
        let mut i: usize = 0;
        while i < all.len()
            invariant
                i <= all@.len(),
                all@ == ExtendedFeature7Ec::spec_all(),
                forall|j: int| 0 <= j < all@.len() ==> #[trigger] all@[j].spec_bit() < 32,
                r@ == all@.take(i as int).filter(|f: ExtendedFeature7Ec| self.0 & (1u32 << f.spec_bit()) != 0).map_values(|f: ExtendedFeature7Ec| f.spec_name()),
            decreases all@.len() - i,
        {
            let f = all[i];
            let b = f.bit();
            proof {
                reveal_with_fuel(Seq::<ExtendedFeature7Ec>::filter, 1);
                assert(all@.take(i + 1).drop_last() =~= all@.take(i as int));
            }
            if self.0 & (1u32 << b) != 0 {
                r.push(f.name());
            }
            i = i + 1;
        }
        proof {
            assert(all@.take(all@.len() as int) =~= all@);
        }
        r
    }
}

#[derive(Debug, Clone, Copy, PartialEq, Eq, Structural)]
pub enum ExtendedFeature7Ed {
    Lbrs,
    Cldemote,
    Mwaitu,
}

impl ExtendedFeature7Ed {
    /// The bit that holds the feature.
    pub open spec fn spec_bit(self) -> u32 {
        match self {
            ExtendedFeature7Ed::Lbrs => 0,
            ExtendedFeature7Ed::Cldemote => 1,
            ExtendedFeature7Ed::Mwaitu => 14,
        }
    }


    /// The name the feature is listed under.
    pub open spec fn spec_name(self) -> &'static str {
        match self {
            ExtendedFeature7Ed::Lbrs => "LBRS",
            ExtendedFeature7Ed::Cldemote => "CLDEMOTE",
            ExtendedFeature7Ed::Mwaitu => "MWAITU",
        }
    }


    pub fn name(&self) -> (r: &'static str)
        ensures
            r == self.spec_name(),
    {
        match self {
            ExtendedFeature7Ed::Lbrs => "LBRS",
            ExtendedFeature7Ed::Cldemote => "CLDEMOTE",
            ExtendedFeature7Ed::Mwaitu => "MWAITU",
        }
    }


    /// The features of the register, in listing order.
    pub open spec fn spec_all() -> Seq<ExtendedFeature7Ed> {
        seq![ExtendedFeature7Ed::Lbrs, ExtendedFeature7Ed::Cldemote, ExtendedFeature7Ed::Mwaitu]
    }


    pub fn all() -> (r: Vec<ExtendedFeature7Ed>)
        ensures
            r@ == Self::spec_all(),
    {
        vec![ExtendedFeature7Ed::Lbrs, ExtendedFeature7Ed::Cldemote, ExtendedFeature7Ed::Mwaitu]
    }
}

impl Feature for ExtendedFeature7Ed {
    fn bit(&self) -> (r: u32)
        ensures
            r == self.spec_bit(),
    {
        match self {
            ExtendedFeature7Ed::Lbrs => 0,
            ExtendedFeature7Ed::Cldemote => 1,
            ExtendedFeature7Ed::Mwaitu => 14,
        }
    }
}

/// The register of ExtendedFeature7Ed bits.
pub struct Extended7EdFeatures(pub u32);

impl FeatureSet for Extended7EdFeatures {
    fn flags(&self) -> (r: u32)
        ensures
            r == self.0,
    {
        self.0
    }
}

impl Extended7EdFeatures {
    /// The names of the set features joined by commas, or `(none)`.
    pub fn to_string(&self) -> (r: String)
        ensures
            r@ == listing(ExtendedFeature7Ed::spec_all().filter(|f: ExtendedFeature7Ed| self.0 & (1u32 << f.spec_bit()) != 0).map_values(|f: ExtendedFeature7Ed| f.spec_name())),
    {
        let names = self.names();
        list_names(&names)
    }

    /// Names of the features whose bits are set, in listing order.
    pub fn names(&self) -> (r: Vec<&'static str>)
        ensures
            r@ == ExtendedFeature7Ed::spec_all().filter(|f: ExtendedFeature7Ed| self.0 & (1u32 << f.spec_bit()) != 0).map_values(|f: ExtendedFeature7Ed| f.spec_name()),
    {
        let all = ExtendedFeature7Ed::all();
        let mut r: Vec<&'static str> = Vec::new();
        let mut i: usize = 0;
        while i < all.len()
            invariant
                i <= all@.len(),
                all@ == ExtendedFeature7Ed::spec_all(),
                forall|j: int| 0 <= j < all@.len() ==> #[trigger] all@[j].spec_bit() < 32,
                r@ == all@.take(i as int).filter(|f: ExtendedFeature7Ed| self.0 & (1u32 << f.spec_bit()) != 0).map_values(|f: ExtendedFeature7Ed| f.spec_name()),
            decreases all@.len() - i,
        {
            let f = all[i];
            let b = f.bit();
            proof {
                reveal_with_fuel(Seq::<ExtendedFeature7Ed>::filter, 1);
                assert(all@.take(i + 1).drop_last() =~= all@.take(i as int));
            }
            if self.0 & (1u32 << b) != 0 {
                r.push(f.name());
            }
            i = i + 1;
        }
        proof {
            assert(all@.take(all@.len() as int) =~= all@);
        }
        r
    }
}

#[derive(Debug, Clone, Copy, PartialEq, Eq, Structural)]
pub enum ExtendedFeature80000001Ecx {
    LahfSahf,
    CmpLegacy,
    Svmm,
    ExtApicSpace,
    Cr8Legacy,
    Abm,
    Sse4a,
    MisalignSse,
    ThreeDNowPrefetch,
    OsVw,
    Ibs,
    Xop,
    Skinit,
    Wdt,
    Lwp,
    Fma4,
    Tce,
    NodeId,
    Tbm,
    TopologyExtensions,
    PerfCtrExtCore,
    PerfCtrExtNb,
    BpExt,
    Mwaitx,
    XSaveOpt,
}

impl ExtendedFeature80000001Ecx {
    /// The bit that holds the feature.
    pub open spec fn spec_bit(self) -> u32 {
        match self {
            ExtendedFeature80000001Ecx::LahfSahf => 0,
            ExtendedFeature80000001Ecx::CmpLegacy => 1,
            ExtendedFeature80000001Ecx::Svmm => 2,
            ExtendedFeature80000001Ecx::ExtApicSpace => 3,
            ExtendedFeature80000001Ecx::Cr8Legacy => 4,
            ExtendedFeature80000001Ecx::Abm => 5,
            ExtendedFeature80000001Ecx::Sse4a => 6,
            ExtendedFeature80000001Ecx::MisalignSse => 7,
            ExtendedFeature80000001Ecx::ThreeDNowPrefetch => 8,
            ExtendedFeature80000001Ecx::OsVw => 9,
            ExtendedFeature80000001Ecx::Ibs => 10,
            ExtendedFeature80000001Ecx::Xop => 11,
            ExtendedFeature80000001Ecx::Skinit => 12,
            ExtendedFeature80000001Ecx::Wdt => 13,
            ExtendedFeature80000001Ecx::Lwp => 15,
            ExtendedFeature80000001Ecx::Fma4 => 16,
            ExtendedFeature80000001Ecx::Tce => 17,
            ExtendedFeature80000001Ecx::NodeId => 19,
            ExtendedFeature80000001Ecx::Tbm => 21,
            ExtendedFeature80000001Ecx::TopologyExtensions => 22,
            ExtendedFeature80000001Ecx::PerfCtrExtCore => 23,
            ExtendedFeature80000001Ecx::PerfCtrExtNb => 24,
            ExtendedFeature80000001Ecx::BpExt => 26,
            ExtendedFeature80000001Ecx::Mwaitx => 29,
            ExtendedFeature80000001Ecx::XSaveOpt => 31,
        }
    }


    /// The name the feature is listed under.
    pub open spec fn spec_name(self) -> &'static str {
        match self {
            ExtendedFeature80000001Ecx::LahfSahf => "LAHF-SAHF",
            ExtendedFeature80000001Ecx::CmpLegacy => "CMP-LEGACY",
            ExtendedFeature80000001Ecx::Svmm => "SVMM",
            ExtendedFeature80000001Ecx::ExtApicSpace => "EXT-APIC-SPACE",
            ExtendedFeature80000001Ecx::Cr8Legacy => "CR8-LEGACY",
            ExtendedFeature80000001Ecx::Abm => "ABM",
            ExtendedFeature80000001Ecx::Sse4a => "SSE4A",
            ExtendedFeature80000001Ecx::MisalignSse => "MISALIGN-SSE",
            ExtendedFeature80000001Ecx::ThreeDNowPrefetch => "3DNOW-PREFETCH",
            ExtendedFeature80000001Ecx::OsVw => "OS-VW",
            ExtendedFeature80000001Ecx::Ibs => "IBS",
            ExtendedFeature80000001Ecx::Xop => "XOP",
            ExtendedFeature80000001Ecx::Skinit => "SKINIT",
            ExtendedFeature80000001Ecx::Wdt => "WDT",
            ExtendedFeature80000001Ecx::Lwp => "LWP",
            ExtendedFeature80000001Ecx::Fma4 => "FMA4",
            ExtendedFeature80000001Ecx::Tce => "TCE",
            ExtendedFeature80000001Ecx::NodeId => "NODE-ID",
            ExtendedFeature80000001Ecx::Tbm => "TBM",
            ExtendedFeature80000001Ecx::TopologyExtensions => "TOPOLOGY-EXT",
            ExtendedFeature80000001Ecx::PerfCtrExtCore => "PERF-CTR-EXT-CORE",
            ExtendedFeature80000001Ecx::PerfCtrExtNb => "PERF-CTR-EXT-NB",
            ExtendedFeature80000001Ecx::BpExt => "BP-EXT",
            ExtendedFeature80000001Ecx::Mwaitx => "MWAITX",
            ExtendedFeature80000001Ecx::XSaveOpt => "XSAVE-OPT",
        }
    }


    pub fn name(&self) -> (r: &'static str)
        ensures
            r == self.spec_name(),
    {
        match self {
            ExtendedFeature80000001Ecx::LahfSahf => "LAHF-SAHF",
            ExtendedFeature80000001Ecx::CmpLegacy => "CMP-LEGACY",
            ExtendedFeature80000001Ecx::Svmm => "SVMM",
            ExtendedFeature80000001Ecx::ExtApicSpace => "EXT-APIC-SPACE",
            ExtendedFeature80000001Ecx::Cr8Legacy => "CR8-LEGACY",
            ExtendedFeature80000001Ecx::Abm => "ABM",
            ExtendedFeature80000001Ecx::Sse4a => "SSE4A",
            ExtendedFeature80000001Ecx::MisalignSse => "MISALIGN-SSE",
            ExtendedFeature80000001Ecx::ThreeDNowPrefetch => "3DNOW-PREFETCH",
            ExtendedFeature80000001Ecx::OsVw => "OS-VW",
            ExtendedFeature80000001Ecx::Ibs => "IBS",
            ExtendedFeature80000001Ecx::Xop => "XOP",
            ExtendedFeature80000001Ecx::Skinit => "SKINIT",
            ExtendedFeature80000001Ecx::Wdt => "WDT",
            ExtendedFeature80000001Ecx::Lwp => "LWP",
            ExtendedFeature80000001Ecx::Fma4 => "FMA4",
            ExtendedFeature80000001Ecx::Tce => "TCE",
            ExtendedFeature80000001Ecx::NodeId => "NODE-ID",
            ExtendedFeature80000001Ecx::Tbm => "TBM",
            ExtendedFeature80000001Ecx::TopologyExtensions => "TOPOLOGY-EXT",
            ExtendedFeature80000001Ecx::PerfCtrExtCore => "PERF-CTR-EXT-CORE",
            ExtendedFeature80000001Ecx::PerfCtrExtNb => "PERF-CTR-EXT-NB",
            ExtendedFeature80000001Ecx::BpExt => "BP-EXT",
            ExtendedFeature80000001Ecx::Mwaitx => "MWAITX",
            ExtendedFeature80000001Ecx::XSaveOpt => "XSAVE-OPT",
        }
    }


    /// The features of the register, in listing order.
    pub open spec fn spec_all() -> Seq<ExtendedFeature80000001Ecx> {
        seq![ExtendedFeature80000001Ecx::LahfSahf, ExtendedFeature80000001Ecx::CmpLegacy, ExtendedFeature80000001Ecx::Svmm, ExtendedFeature80000001Ecx::ExtApicSpace, ExtendedFeature80000001Ecx::Cr8Legacy, ExtendedFeature80000001Ecx::Abm, ExtendedFeature80000001Ecx::Sse4a, ExtendedFeature80000001Ecx::MisalignSse, ExtendedFeature80000001Ecx::ThreeDNowPrefetch, ExtendedFeature80000001Ecx::OsVw, ExtendedFeature80000001Ecx::Ibs, ExtendedFeature80000001Ecx::Xop, ExtendedFeature80000001Ecx::Skinit, ExtendedFeature80000001Ecx::Wdt, ExtendedFeature80000001Ecx::Lwp, ExtendedFeature80000001Ecx::Fma4, ExtendedFeature80000001Ecx::Tce, ExtendedFeature80000001Ecx::NodeId, ExtendedFeature80000001Ecx::Tbm, ExtendedFeature80000001Ecx::TopologyExtensions, ExtendedFeature80000001Ecx::PerfCtrExtCore, ExtendedFeature80000001Ecx::PerfCtrExtNb, ExtendedFeature80000001Ecx::BpExt, ExtendedFeature80000001Ecx::Mwaitx, ExtendedFeature80000001Ecx::XSaveOpt]
    }


    pub fn all() -> (r: Vec<ExtendedFeature80000001Ecx>)
        ensures
            r@ == Self::spec_all(),
    {
        vec![ExtendedFeature80000001Ecx::LahfSahf, ExtendedFeature80000001Ecx::CmpLegacy, ExtendedFeature80000001Ecx::Svmm, ExtendedFeature80000001Ecx::ExtApicSpace, ExtendedFeature80000001Ecx::Cr8Legacy, ExtendedFeature80000001Ecx::Abm, ExtendedFeature80000001Ecx::Sse4a, ExtendedFeature80000001Ecx::MisalignSse, ExtendedFeature80000001Ecx::ThreeDNowPrefetch, ExtendedFeature80000001Ecx::OsVw, ExtendedFeature80000001Ecx::Ibs, ExtendedFeature80000001Ecx::Xop, ExtendedFeature80000001Ecx::Skinit, ExtendedFeature80000001Ecx::Wdt, ExtendedFeature80000001Ecx::Lwp, ExtendedFeature80000001Ecx::Fma4, ExtendedFeature80000001Ecx::Tce, ExtendedFeature80000001Ecx::NodeId, ExtendedFeature80000001Ecx::Tbm, ExtendedFeature80000001Ecx::TopologyExtensions, ExtendedFeature80000001Ecx::PerfCtrExtCore, ExtendedFeature80000001Ecx::PerfCtrExtNb, ExtendedFeature80000001Ecx::BpExt, ExtendedFeature80000001Ecx::Mwaitx, ExtendedFeature80000001Ecx::XSaveOpt]
    }
}

impl Feature for ExtendedFeature80000001Ecx {
    fn bit(&self) -> (r: u32)
        ensures
            r == self.spec_bit(),
    {
        match self {
            ExtendedFeature80000001Ecx::LahfSahf => 0,
            ExtendedFeature80000001Ecx::CmpLegacy => 1,
            ExtendedFeature80000001Ecx::Svmm => 2,
            ExtendedFeature80000001Ecx::ExtApicSpace => 3,
            ExtendedFeature80000001Ecx::Cr8Legacy => 4,
            ExtendedFeature80000001Ecx::Abm => 5,
            ExtendedFeature80000001Ecx::Sse4a => 6,
            ExtendedFeature80000001Ecx::MisalignSse => 7,
            ExtendedFeature80000001Ecx::ThreeDNowPrefetch => 8,
            ExtendedFeature80000001Ecx::OsVw => 9,
            ExtendedFeature80000001Ecx::Ibs => 10,
            ExtendedFeature80000001Ecx::Xop => 11,
            ExtendedFeature80000001Ecx::Skinit => 12,
            ExtendedFeature80000001Ecx::Wdt => 13,
            ExtendedFeature80000001Ecx::Lwp => 15,
            ExtendedFeature80000001Ecx::Fma4 => 16,
            ExtendedFeature80000001Ecx::Tce => 17,
            ExtendedFeature80000001Ecx::NodeId => 19,
            ExtendedFeature80000001Ecx::Tbm => 21,
            ExtendedFeature80000001Ecx::TopologyExtensions => 22,
            ExtendedFeature80000001Ecx::PerfCtrExtCore => 23,
            ExtendedFeature80000001Ecx::PerfCtrExtNb => 24,
            ExtendedFeature80000001Ecx::BpExt => 26,
            ExtendedFeature80000001Ecx::Mwaitx => 29,
            ExtendedFeature80000001Ecx::XSaveOpt => 31,
        }
    }
}

/// The register of ExtendedFeature80000001Ecx bits.
pub struct Extended80000001EcxFeatures(pub u32);

impl FeatureSet for Extended80000001EcxFeatures {
    fn flags(&self) -> (r: u32)
        ensures
            r == self.0,
    {
        self.0
    }
}

impl Extended80000001EcxFeatures {
    /// The names of the set features joined by commas, or `(none)`.
    pub fn to_string(&self) -> (r: String)
        ensures
            r@ == listing(ExtendedFeature80000001Ecx::spec_all().filter(|f: ExtendedFeature80000001Ecx| self.0 & (1u32 << f.spec_bit()) != 0).map_values(|f: ExtendedFeature80000001Ecx| f.spec_name())),
    {
        let names = self.names();
        list_names(&names)
    }

    /// Names of the features whose bits are set, in listing order.
    pub fn names(&self) -> (r: Vec<&'static str>)
        ensures
            r@ == ExtendedFeature80000001Ecx::spec_all().filter(|f: ExtendedFeature80000001Ecx| self.0 & (1u32 << f.spec_bit()) != 0).map_values(|f: ExtendedFeature80000001Ecx| f.spec_name()),
    {
        let all = ExtendedFeature80000001Ecx::all();
        let mut r: Vec<&'static str> = Vec::new();
        let mut i: usize = 0;
        while i < all.len()
            invariant
                i <= all@.len(),
                all@ == ExtendedFeature80000001Ecx::spec_all(),
                forall|j: int| 0 <= j < all@.len() ==> #[trigger] all@[j].spec_bit() < 32,
                r@ == all@.take(i as int).filter(|f: ExtendedFeature80000001Ecx| self.0 & (1u32 << f.spec_bit()) != 0).map_values(|f: ExtendedFeature80000001Ecx| f.spec_name()),
            decreases all@.len() - i,
        {
            let f = all[i];
            let b = f.bit();
            proof {
                reveal_with_fuel(Seq::<ExtendedFeature80000001Ecx>::filter, 1);
                assert(all@.take(i + 1).drop_last() =~= all@.take(i as int));
            }
            if self.0 & (1u32 << b) != 0 {
                r.push(f.name());
            }
            i = i + 1;
        }
        proof {
            assert(all@.take(all@.len() as int) =~= all@);
        }
        r
    }
}

#[derive(Debug, Clone, Copy, PartialEq, Eq, Structural)]
pub enum ExtendedFeature80000001Edx {
    Fpu,
    Vme,
    De,
    Pse,
    Tsc,
    Msr,
    Pae,
    Mce,
    Cx8,
    Apic,
    Syscall,
    Mtrr,
    Pge,
    Mca,
    Cmov,
    Pat,
    Pse36,
    Mmu,
    Fxsr,
    Mmx,
    MmxExt,
    Sse,
    Sse2,
    Sse3,
    ThreeDNowExt,
}

impl ExtendedFeature80000001Edx {
    /// The bit that holds the feature.
    pub open spec fn spec_bit(self) -> u32 {
        match self {
            ExtendedFeature80000001Edx::Fpu => 0,
            ExtendedFeature80000001Edx::Vme => 1,
            ExtendedFeature80000001Edx::De => 2,
            ExtendedFeature80000001Edx::Pse => 3,
            ExtendedFeature80000001Edx::Tsc => 4,
            ExtendedFeature80000001Edx::Msr => 5,
            ExtendedFeature80000001Edx::Pae => 6,
            ExtendedFeature80000001Edx::Mce => 7,
            ExtendedFeature80000001Edx::Cx8 => 8,
            ExtendedFeature80000001Edx::Apic => 9,
            ExtendedFeature80000001Edx::Syscall => 11,
            ExtendedFeature80000001Edx::Mtrr => 12,
            ExtendedFeature80000001Edx::Pge => 13,
            ExtendedFeature80000001Edx::Mca => 14,
            ExtendedFeature80000001Edx::Cmov => 15,
            ExtendedFeature80000001Edx::Pat => 16,
            ExtendedFeature80000001Edx::Pse36 => 17,
            ExtendedFeature80000001Edx::Mmu => 20,
            ExtendedFeature80000001Edx::Fxsr => 24,
            ExtendedFeature80000001Edx::Mmx => 25,
            ExtendedFeature80000001Edx::MmxExt => 26,
            ExtendedFeature80000001Edx::Sse => 28,
            ExtendedFeature80000001Edx::Sse2 => 29,
            ExtendedFeature80000001Edx::Sse3 => 30,
            ExtendedFeature80000001Edx::ThreeDNowExt => 31,
        }
    }


    /// The name the feature is listed under.
    pub open spec fn spec_name(self) -> &'static str {
        match self {
            ExtendedFeature80000001Edx::Fpu => "FPU",
            ExtendedFeature80000001Edx::Vme => "VME",
            ExtendedFeature80000001Edx::De => "DE",
            ExtendedFeature80000001Edx::Pse => "PSE",
            ExtendedFeature80000001Edx::Tsc => "TSC",
            ExtendedFeature80000001Edx::Msr => "MSR",
            ExtendedFeature80000001Edx::Pae => "PAE",
            ExtendedFeature80000001Edx::Mce => "MCE",
            ExtendedFeature80000001Edx::Cx8 => "CX8",
            ExtendedFeature80000001Edx::Apic => "APIC",
            ExtendedFeature80000001Edx::Syscall => "SYSCALL",
            ExtendedFeature80000001Edx::Mtrr => "MTRR",
            ExtendedFeature80000001Edx::Pge => "PGE",
            ExtendedFeature80000001Edx::Mca => "MCA",
            ExtendedFeature80000001Edx::Cmov => "CMOV",
            ExtendedFeature80000001Edx::Pat => "PAT",
            ExtendedFeature80000001Edx::Pse36 => "PSE36",
            ExtendedFeature80000001Edx::Mmu => "MMU",
            ExtendedFeature80000001Edx::Fxsr => "FXSR",
            ExtendedFeature80000001Edx::Mmx => "MMX",
            ExtendedFeature80000001Edx::MmxExt => "MMX-EXT",
            ExtendedFeature80000001Edx::Sse => "SSE",
            ExtendedFeature80000001Edx::Sse2 => "SSE2",
            ExtendedFeature80000001Edx::Sse3 => "SSE3",
            ExtendedFeature80000001Edx::ThreeDNowExt => "3DNOW-EXT",
        }
    }


    pub fn name(&self) -> (r: &'static str)
        ensures
            r == self.spec_name(),
    {
        match self {
            ExtendedFeature80000001Edx::Fpu => "FPU",
            ExtendedFeature80000001Edx::Vme => "VME",
            ExtendedFeature80000001Edx::De => "DE",
            ExtendedFeature80000001Edx::Pse => "PSE",
            ExtendedFeature80000001Edx::Tsc => "TSC",
            ExtendedFeature80000001Edx::Msr => "MSR",
            ExtendedFeature80000001Edx::Pae => "PAE",
            ExtendedFeature80000001Edx::Mce => "MCE",
            ExtendedFeature80000001Edx::Cx8 => "CX8",
            ExtendedFeature80000001Edx::Apic => "APIC",
            ExtendedFeature80000001Edx::Syscall => "SYSCALL",
            ExtendedFeature80000001Edx::Mtrr => "MTRR",
            ExtendedFeature80000001Edx::Pge => "PGE",
            ExtendedFeature80000001Edx::Mca => "MCA",
            ExtendedFeature80000001Edx::Cmov => "CMOV",
            ExtendedFeature80000001Edx::Pat => "PAT",
            ExtendedFeature80000001Edx::Pse36 => "PSE36",
            ExtendedFeature80000001Edx::Mmu => "MMU",
            ExtendedFeature80000001Edx::Fxsr => "FXSR",
            ExtendedFeature80000001Edx::Mmx => "MMX",
            ExtendedFeature80000001Edx::MmxExt => "MMX-EXT",
            ExtendedFeature80000001Edx::Sse => "SSE",
            ExtendedFeature80000001Edx::Sse2 => "SSE2",
            ExtendedFeature80000001Edx::Sse3 => "SSE3",
            ExtendedFeature80000001Edx::ThreeDNowExt => "3DNOW-EXT",
        }
    }


    /// The features of the register, in listing order.
    pub open spec fn spec_all() -> Seq<ExtendedFeature80000001Edx> {
        seq![ExtendedFeature80000001Edx::Fpu, ExtendedFeature80000001Edx::Vme, ExtendedFeature80000001Edx::De, ExtendedFeature80000001Edx::Pse, ExtendedFeature80000001Edx::Tsc, ExtendedFeature80000001Edx::Msr, ExtendedFeature80000001Edx::Pae, ExtendedFeature80000001Edx::Mce, ExtendedFeature80000001Edx::Cx8, ExtendedFeature80000001Edx::Apic, ExtendedFeature80000001Edx::Syscall, ExtendedFeature80000001Edx::Mtrr, ExtendedFeature80000001Edx::Pge, ExtendedFeature80000001Edx::Mca, ExtendedFeature80000001Edx::Cmov, ExtendedFeature80000001Edx::Pat, ExtendedFeature80000001Edx::Pse36, ExtendedFeature80000001Edx::Mmu, ExtendedFeature80000001Edx::Fxsr, ExtendedFeature80000001Edx::Mmx, ExtendedFeature80000001Edx::MmxExt, ExtendedFeature80000001Edx::Sse, ExtendedFeature80000001Edx::Sse2, ExtendedFeature80000001Edx::Sse3, ExtendedFeature80000001Edx::ThreeDNowExt]
    }


    pub fn all() -> (r: Vec<ExtendedFeature80000001Edx>)
        ensures
            r@ == Self::spec_all(),
    {
        vec![ExtendedFeature80000001Edx::Fpu, ExtendedFeature80000001Edx::Vme, ExtendedFeature80000001Edx::De, ExtendedFeature80000001Edx::Pse, ExtendedFeature80000001Edx::Tsc, ExtendedFeature80000001Edx::Msr, ExtendedFeature80000001Edx::Pae, ExtendedFeature80000001Edx::Mce, ExtendedFeature80000001Edx::Cx8, ExtendedFeature80000001Edx::Apic, ExtendedFeature80000001Edx::Syscall, ExtendedFeature80000001Edx::Mtrr, ExtendedFeature80000001Edx::Pge, ExtendedFeature80000001Edx::Mca, ExtendedFeature80000001Edx::Cmov, ExtendedFeature80000001Edx::Pat, ExtendedFeature80000001Edx::Pse36, ExtendedFeature80000001Edx::Mmu, ExtendedFeature80000001Edx::Fxsr, ExtendedFeature80000001Edx::Mmx, ExtendedFeature80000001Edx::MmxExt, ExtendedFeature80000001Edx::Sse, ExtendedFeature80000001Edx::Sse2, ExtendedFeature80000001Edx::Sse3, ExtendedFeature80000001Edx::ThreeDNowExt]
    }
}

impl Feature for ExtendedFeature80000001Edx {
    fn bit(&self) -> (r: u32)
        ensures
            r == self.spec_bit(),
    {
        match self {
            ExtendedFeature80000001Edx::Fpu => 0,
            ExtendedFeature80000001Edx::Vme => 1,
            ExtendedFeature80000001Edx::De => 2,
            ExtendedFeature80000001Edx::Pse => 3,
            ExtendedFeature80000001Edx::Tsc => 4,
            ExtendedFeature80000001Edx::Msr => 5,
            ExtendedFeature80000001Edx::Pae => 6,
            ExtendedFeature80000001Edx::Mce => 7,
            ExtendedFeature80000001Edx::Cx8 => 8,
            ExtendedFeature80000001Edx::Apic => 9,
            ExtendedFeature80000001Edx::Syscall => 11,
            ExtendedFeature80000001Edx::Mtrr => 12,
            ExtendedFeature80000001Edx::Pge => 13,
            ExtendedFeature80000001Edx::Mca => 14,
            ExtendedFeature80000001Edx::Cmov => 15,
            ExtendedFeature80000001Edx::Pat => 16,
            ExtendedFeature80000001Edx::Pse36 => 17,
            ExtendedFeature80000001Edx::Mmu => 20,
            ExtendedFeature80000001Edx::Fxsr => 24,
            ExtendedFeature80000001Edx::Mmx => 25,
            ExtendedFeature80000001Edx::MmxExt => 26,
            ExtendedFeature80000001Edx::Sse => 28,
            ExtendedFeature80000001Edx::Sse2 => 29,
            ExtendedFeature80000001Edx::Sse3 => 30,
            ExtendedFeature80000001Edx::ThreeDNowExt => 31,
        }
    }
}

/// The register of ExtendedFeature80000001Edx bits.
pub struct Extended80000001EdxFeatures(pub u32);

impl FeatureSet for Extended80000001EdxFeatures {
    fn flags(&self) -> (r: u32)
        ensures
            r == self.0,
    {
        self.0
    }
}

impl Extended80000001EdxFeatures {
    /// The names of the set features joined by commas, or `(none)`.
    pub fn to_string(&self) -> (r: String)
        ensures
            r@ == listing(ExtendedFeature80000001Edx::spec_all().filter(|f: ExtendedFeature80000001Edx| self.0 & (1u32 << f.spec_bit()) != 0).map_values(|f: ExtendedFeature80000001Edx| f.spec_name())),
    {
        let names = self.names();
        list_names(&names)
    }

    /// Names of the features whose bits are set, in listing order.
    pub fn names(&self) -> (r: Vec<&'static str>)
        ensures
            r@ == ExtendedFeature80000001Edx::spec_all().filter(|f: ExtendedFeature80000001Edx| self.0 & (1u32 << f.spec_bit()) != 0).map_values(|f: ExtendedFeature80000001Edx| f.spec_name()),
    {
        let all = ExtendedFeature80000001Edx::all();
        let mut r: Vec<&'static str> = Vec::new();
        let mut i: usize = 0;
        while i < all.len()
            invariant
                i <= all@.len(),
                all@ == ExtendedFeature80000001Edx::spec_all(),
                forall|j: int| 0 <= j < all@.len() ==> #[trigger] all@[j].spec_bit() < 32,
                r@ == all@.take(i as int).filter(|f: ExtendedFeature80000001Edx| self.0 & (1u32 << f.spec_bit()) != 0).map_values(|f: ExtendedFeature80000001Edx| f.spec_name()),
            decreases all@.len() - i,
        {
            let f = all[i];
            let b = f.bit();
            proof {
                reveal_with_fuel(Seq::<ExtendedFeature80000001Edx>::filter, 1);
                assert(all@.take(i + 1).drop_last() =~= all@.take(i as int));
            }
            if self.0 & (1u32 << b) != 0 {
                r.push(f.name());
            }
            i = i + 1;
        }
        proof {
            assert(all@.take(all@.len() as int) =~= all@);
        }
        r
    }
}

/// The CPUID leaf 1 EDX table: the name of the feature at bit `b`, or none where
/// the bit is reserved (bits 10, 20).
pub open spec fn standard_edx_name_at(b: u32) -> Option<&'static str> {
    if b == 0 {
        Some("FPU")
    } else if b == 1 {
        Some("VME")
    } else if b == 2 {
        Some("DE")
    } else if b == 3 {
        Some("PSE")
    } else if b == 4 {
        Some("TSC")
    } else if b == 5 {
        Some("MSR")
    } else if b == 6 {
        Some("PAE")
    } else if b == 7 {
        Some("MCE")
    } else if b == 8 {
        Some("CX8")
    } else if b == 9 {
        Some("APIC")
    } else if b == 11 {
        Some("SEP")
    } else if b == 12 {
        Some("MTRR")
    } else if b == 13 {
        Some("PGE")
    } else if b == 14 {
        Some("MCA")
    } else if b == 15 {
        Some("CMOV")
    } else if b == 16 {
        Some("PAT")
    } else if b == 17 {
        Some("PSE36")
    } else if b == 18 {
        Some("PSN")
    } else if b == 19 {
        Some("CLFSH")
    } else if b == 21 {
        Some("DS")
    } else if b == 22 {
        Some("ACPI")
    } else if b == 23 {
        Some("MMX")
    } else if b == 24 {
        Some("FXSR")
    } else if b == 25 {
        Some("SSE")
    } else if b == 26 {
        Some("SSE2")
    } else if b == 27 {
        Some("SS")
    } else if b == 28 {
        Some("HT")
    } else if b == 29 {
        Some("TM")
    } else if b == 30 {
        Some("IA64")
    } else if b == 31 {
        Some("PBE")
    } else {
        None
    }
}

/// Every leaf 1 EDX feature sits below bit 32, at the bit where the leaf 1 EDX table
/// lists its name.
pub proof fn law_standard_edx_bits(f: StandardFeatureEdx)
    ensures
        f.spec_bit() < 32,
        standard_edx_name_at(f.spec_bit()) == Some(f.spec_name()),
{
}

/// No two leaf 1 EDX features share a bit.
pub proof fn law_standard_edx_bits_distinct(f: StandardFeatureEdx, g: StandardFeatureEdx)
    requires
        f != g,
    ensures
        f.spec_bit() != g.spec_bit(),
{
}

/// The CPUID leaf 1 ECX table: the name of the feature at bit `b`, or none where
/// the bit is reserved (bits 11, 16, 17).
pub open spec fn standard_ecx_name_at(b: u32) -> Option<&'static str> {
    if b == 0 {
        Some("SSE3")
    } else if b == 1 {
        Some("PCLMULQDQ")
    } else if b == 2 {
        Some("DTES64")
    } else if b == 3 {
        Some("MONITOR")
    } else if b == 4 {
        Some("DS-CPL")
    } else if b == 5 {
        Some("VMX")
    } else if b == 6 {
        Some("SMX")
    } else if b == 7 {
        Some("EST")
    } else if b == 8 {
        Some("TM2")
    } else if b == 9 {
        Some("SSSE3")
    } else if b == 10 {
        Some("CNXID")
    } else if b == 12 {
        Some("FMA")
    } else if b == 13 {
        Some("CX16")
    } else if b == 14 {
        Some("XTPR")
    } else if b == 15 {
        Some("PDCM")
    } else if b == 18 {
        Some("DCA")
    } else if b == 19 {
        Some("SSE4.1")
    } else if b == 20 {
        Some("SSE4.2")
    } else if b == 21 {
        Some("X2APIC")
    } else if b == 22 {
        Some("MOVBE")
    } else if b == 23 {
        Some("POPCNT")
    } else if b == 24 {
        Some("TSC-DEADLINE")
    } else if b == 25 {
        Some("AES-NI")
    } else if b == 26 {
        Some("XSAVE")
    } else if b == 27 {
        Some("OSXSAVE")
    } else if b == 28 {
        Some("AVX")
    } else if b == 29 {
        Some("F16C")
    } else if b == 30 {
        Some("RDRAND")
    } else if b == 31 {
        Some("HYPERVISOR")
    } else {
        None
    }
}

/// Every leaf 1 ECX feature sits below bit 32, at the bit where the leaf 1 ECX table
/// lists its name.
pub proof fn law_standard_ecx_bits(f: ExtendedFeatureEcx)
    ensures
        f.spec_bit() < 32,
        standard_ecx_name_at(f.spec_bit()) == Some(f.spec_name()),
{
}

/// No two leaf 1 ECX features share a bit.
pub proof fn law_standard_ecx_bits_distinct(f: ExtendedFeatureEcx, g: ExtendedFeatureEcx)
    requires
        f != g,
    ensures
        f.spec_bit() != g.spec_bit(),
{
}

/// The CPUID leaf 7 EBX table: the name of the feature at bit `b`, or none where
/// the bit is reserved (bits 13).
pub open spec fn leaf7_ebx_name_at(b: u32) -> Option<&'static str> {
    if b == 0 {
        Some("FSGSBASE")
    } else if b == 1 {
        Some("TSX-ADJUST")
    } else if b == 2 {
        Some("SGX")
    } else if b == 3 {
        Some("BMI1")
    } else if b == 4 {
        Some("HLE")
    } else if b == 5 {
        Some("AVX2")
    } else if b == 6 {
        Some("FDP-EX")
    } else if b == 7 {
        Some("SMEP")
    } else if b == 8 {
        Some("BMI2")
    } else if b == 9 {
        Some("ERMS")
    } else if b == 10 {
        Some("INVPCID")
    } else if b == 11 {
        Some("RTM")
    } else if b == 12 {
        Some("PQM")
    } else if b == 14 {
        Some("MPX")
    } else if b == 15 {
        Some("PQE")
    } else if b == 16 {
        Some("AVX512F")
    } else if b == 17 {
        Some("AVX512DQ")
    } else if b == 18 {
        Some("RDSEED")
    } else if b == 19 {
        Some("ADX")
    } else if b == 20 {
        Some("SMAP")
    } else if b == 21 {
        Some("AVX512IFMA")
    } else if b == 22 {
        Some("PCOMMIT")
    } else if b == 23 {
        Some("CLFLUSHOPT")
    } else if b == 24 {
        Some("CLWB")
    } else if b == 25 {
        Some("INTEL-PT")
    } else if b == 26 {
        Some("AVX512PF")
    } else if b == 27 {
        Some("AVX512ER")
    } else if b == 28 {
        Some("AVX512CD")
    } else if b == 29 {
        Some("SHA")
    } else if b == 30 {
        Some("AVX512BW")
    } else if b == 31 {
        Some("AVX512VL")
    } else {
        None
    }
}

/// Every leaf 7 EBX feature sits below bit 32, at the bit where the leaf 7 EBX table
/// lists its name.
pub proof fn law_leaf7_ebx_bits(f: ExtendedFeature7Eb)
    ensures
        f.spec_bit() < 32,
        leaf7_ebx_name_at(f.spec_bit()) == Some(f.spec_name()),
{
}

/// No two leaf 7 EBX features share a bit.
pub proof fn law_leaf7_ebx_bits_distinct(f: ExtendedFeature7Eb, g: ExtendedFeature7Eb)
    requires
        f != g,
    ensures
        f.spec_bit() != g.spec_bit(),
{
}

/// The CPUID leaf 7 ECX table: the name of the feature at bit `b`, or none where
/// the bit is reserved.
pub open spec fn leaf7_ecx_name_at(b: u32) -> Option<&'static str> {
    if b == 0 {
        Some("PREFETCHWT1")
    } else if b == 1 {
        Some("AVX512VBMI")
    } else if b == 2 {
        Some("UMIP")
    } else if b == 3 {
        Some("PKU")
    } else if b == 4 {
        Some("OSPKU")
    } else if b == 5 {
        Some("WAITPKG")
    } else if b == 6 {
        Some("AVX512VBMI2")
    } else if b == 7 {
        Some("CET-SS")
    } else if b == 8 {
        Some("GFNI")
    } else if b == 9 {
        Some("VAES")
    } else if b == 10 {
        Some("VPCLMULQDQ")
    } else if b == 12 {
        Some("AVX512BITALG")
    } else if b == 14 {
        Some("AVX512VPOPCNTDQ")
    } else if b == 22 {
        Some("RDPID")
    } else {
        None
    }
}

/// Every leaf 7 ECX feature sits below bit 32, at the bit where the leaf 7 ECX table
/// lists its name.
pub proof fn law_leaf7_ecx_bits(f: ExtendedFeature7Ec)
    ensures
        f.spec_bit() < 32,
        leaf7_ecx_name_at(f.spec_bit()) == Some(f.spec_name()),
{
}

/// No two leaf 7 ECX features share a bit.
pub proof fn law_leaf7_ecx_bits_distinct(f: ExtendedFeature7Ec, g: ExtendedFeature7Ec)
    requires
        f != g,
    ensures
        f.spec_bit() != g.spec_bit(),
{
}

/// The CPUID leaf 7 EDX table: the name of the feature at bit `b`, or none where
/// the bit is reserved.
pub open spec fn leaf7_edx_name_at(b: u32) -> Option<&'static str> {
    if b == 0 {
        Some("LBRS")
    } else if b == 1 {
        Some("CLDEMOTE")
    } else if b == 14 {
        Some("MWAITU")
    } else {
        None
    }
}

/// Every leaf 7 EDX feature sits below bit 32, at the bit where the leaf 7 EDX table
/// lists its name.
pub proof fn law_leaf7_edx_bits(f: ExtendedFeature7Ed)
    ensures
        f.spec_bit() < 32,
        leaf7_edx_name_at(f.spec_bit()) == Some(f.spec_name()),
{
}

/// No two leaf 7 EDX features share a bit.
pub proof fn law_leaf7_edx_bits_distinct(f: ExtendedFeature7Ed, g: ExtendedFeature7Ed)
    requires
        f != g,
    ensures
        f.spec_bit() != g.spec_bit(),
{
}

/// The CPUID leaf 0x80000001 ECX table: the name of the feature at bit `b`, or none where
/// the bit is reserved.
pub open spec fn ext_ecx_name_at(b: u32) -> Option<&'static str> {
    if b == 0 {
        Some("LAHF-SAHF")
    } else if b == 1 {
        Some("CMP-LEGACY")
    } else if b == 2 {
        Some("SVMM")
    } else if b == 3 {
        Some("EXT-APIC-SPACE")
    } else if b == 4 {
        Some("CR8-LEGACY")
    } else if b == 5 {
        Some("ABM")
    } else if b == 6 {
        Some("SSE4A")
    } else if b == 7 {
        Some("MISALIGN-SSE")
    } else if b == 8 {
        Some("3DNOW-PREFETCH")
    } else if b == 9 {
        Some("OS-VW")
    } else if b == 10 {
        Some("IBS")
    } else if b == 11 {
        Some("XOP")
    } else if b == 12 {
        Some("SKINIT")
    } else if b == 13 {
        Some("WDT")
    } else if b == 15 {
        Some("LWP")
    } else if b == 16 {
        Some("FMA4")
    } else if b == 17 {
        Some("TCE")
    } else if b == 19 {
        Some("NODE-ID")
    } else if b == 21 {
        Some("TBM")
    } else if b == 22 {
        Some("TOPOLOGY-EXT")
    } else if b == 23 {
        Some("PERF-CTR-EXT-CORE")
    } else if b == 24 {
        Some("PERF-CTR-EXT-NB")
    } else if b == 26 {
        Some("BP-EXT")
    } else if b == 29 {
        Some("MWAITX")
    } else if b == 31 {
        Some("XSAVE-OPT")
    } else {
        None
    }
}

/// Every leaf 0x80000001 ECX feature sits below bit 32, at the bit where the leaf 0x80000001 ECX table
/// lists its name.
pub proof fn law_ext_ecx_bits(f: ExtendedFeature80000001Ecx)
    ensures
        f.spec_bit() < 32,
        ext_ecx_name_at(f.spec_bit()) == Some(f.spec_name()),
{
}

/// No two leaf 0x80000001 ECX features share a bit.
pub proof fn law_ext_ecx_bits_distinct(f: ExtendedFeature80000001Ecx, g: ExtendedFeature80000001Ecx)
    requires
        f != g,
    ensures
        f.spec_bit() != g.spec_bit(),
{
}

/// The CPUID leaf 0x80000001 EDX table: the name of the feature at bit `b`, or none where
/// the bit is reserved.
pub open spec fn ext_edx_name_at(b: u32) -> Option<&'static str> {
    if b == 0 {
        Some("FPU")
    } else if b == 1 {
        Some("VME")
    } else if b == 2 {
        Some("DE")
    } else if b == 3 {
        Some("PSE")
    } else if b == 4 {
        Some("TSC")
    } else if b == 5 {
        Some("MSR")
    } else if b == 6 {
        Some("PAE")
    } else if b == 7 {
        Some("MCE")
    } else if b == 8 {
        Some("CX8")
    } else if b == 9 {
        Some("APIC")
    } else if b == 11 {
        Some("SYSCALL")
    } else if b == 12 {
        Some("MTRR")
    } else if b == 13 {
        Some("PGE")
    } else if b == 14 {
        Some("MCA")
    } else if b == 15 {
        Some("CMOV")
    } else if b == 16 {
        Some("PAT")
    } else if b == 17 {
        Some("PSE36")
    } else if b == 20 {
        Some("MMU")
    } else if b == 24 {
        Some("FXSR")
    } else if b == 25 {
        Some("MMX")
    } else if b == 26 {
        Some("MMX-EXT")
    } else if b == 28 {
        Some("SSE")
    } else if b == 29 {
        Some("SSE2")
    } else if b == 30 {
        Some("SSE3")
    } else if b == 31 {
        Some("3DNOW-EXT")
    } else {
        None
    }
}

/// Every leaf 0x80000001 EDX feature sits below bit 32, at the bit where the leaf 0x80000001 EDX table
/// lists its name.
pub proof fn law_ext_edx_bits(f: ExtendedFeature80000001Edx)
    ensures
        f.spec_bit() < 32,
        ext_edx_name_at(f.spec_bit()) == Some(f.spec_name()),
{
}

/// No two leaf 0x80000001 EDX features share a bit.
pub proof fn law_ext_edx_bits_distinct(f: ExtendedFeature80000001Edx, g: ExtendedFeature80000001Edx)
    requires
        f != g,
    ensures
        f.spec_bit() != g.spec_bit(),
{
}

} // verus!
