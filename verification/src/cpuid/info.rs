//! The brand string, the assembled report and the queries on it.
use vstd::prelude::*;
use vstd::utf8::valid_utf8;
use vstd::string::StringSliceAdditionalSpecFns;
use crate::text::str_from_utf8;
use crate::chacha::word_bytes;
use crate::cpuid::leaves::{
    le_bytes, CpuidResult, CpuidBasicInfo, CpuidProcessorInfo, CpuidFeatures, CpuidCacheInfo,
    CpuidTopologyInfo, CpuidAddressInfo, CpuidPowerInfo, CpuidFrequencyInfo, CpuidTscInfo,
    cache_bytes,
};
use crate::cpuid::extended::{CpuidExtendedInfo, ExtendedLeaves};
use crate::cpuid::features::{ExtendedFeature7Eb, ExtendedFeatureEcx, StandardFeatureEdx};

verus! {

/// The sixteen bytes of a leaf, EAX first, each register little-endian.
pub open spec fn leaf_bytes(l: CpuidResult) -> Seq<u8> {
    word_bytes(l.eax) + word_bytes(l.ebx) + word_bytes(l.ecx) + word_bytes(l.edx)
}

/// The sixteen bytes from `16 * k` on.
pub open spec fn chunk(s: Seq<u8>, k: int) -> Seq<u8> {
    s.subrange(16 * k, 16 * k + 16)
}

/// The index of the first zero byte, or the length when there is none.
pub open spec fn nul_index(b: Seq<u8>) -> int
    decreases b.len(),
{
    if b.len() == 0 {
        0
    } else if b[0] == 0 {
        0
    } else {
        1 + nul_index(b.drop_first())
    }
}

proof fn lemma_nul_index(b: Seq<u8>, i: int)
    requires
        0 <= i <= b.len(),
        forall|j: int| 0 <= j < i ==> b[j] != 0,
        i == b.len() || b[i] == 0,
    ensures
        nul_index(b) == i,
    decreases i,
{
    if i > 0 {
        lemma_nul_index(b.drop_first(), i - 1);
    }
}

#[derive(Debug, Clone)]
pub struct CpuidBrandString {
    pub brand: [u8; 48],
}

impl CpuidBrandString {
    /// The brand up to its first zero byte, as text.
    pub fn as_str(&self) -> (r: Result<&str, core::str::Utf8Error>)
        ensures
            r is Ok <==> valid_utf8(self.brand@.take(nul_index(self.brand@))),
            r matches Ok(s) ==> s.spec_bytes() == self.brand@.take(nul_index(self.brand@)),
    {
        let mut len: usize = 0;
        while len < 48 && self.brand[len] != 0
            invariant
                len <= 48,
                forall|j: int| 0 <= j < len ==> self.brand@[j] != 0,
            decreases 48 - len,
        {
            len = len + 1;
        }
        proof {
            lemma_nul_index(self.brand@, len as int);
        }
        let (text, _) = self.brand.as_slice().split_at(len);
        str_from_utf8(text)
    }

    /// Leaves 0x80000002 to 0x80000004 laid end to end.
    pub fn from_leaves(leaves: [CpuidResult; 3]) -> (r: CpuidBrandString)
        ensures
            r.brand@ == leaf_bytes(leaves[0]) + leaf_bytes(leaves[1]) + leaf_bytes(leaves[2]),
    {
        let mut brand = [0u8; 48];
        let mut i: usize = 0;
        while i < 3
            invariant
                i <= 3,
                forall|k: int| 0 <= k < i ==> #[trigger] chunk(brand@, k) == leaf_bytes(leaves[k]),
            decreases 3 - i,
        {
            let leaf = leaves[i];
            let offset = i * 16;
            let regs = [leaf.eax, leaf.ebx, leaf.ecx, leaf.edx];
            let ghost before = brand@;
            let mut r: usize = 0;
            while r < 4
                invariant
                    i < 3,
                    offset == i * 16,
                    r <= 4,
                    regs@ == seq![leaf.eax, leaf.ebx, leaf.ecx, leaf.edx],
                    brand@.len() == 48,
                    forall|p: int| 0 <= p < 48 && !(offset <= p < offset + 4 * r) ==> brand@[p]
                        == before[p],
                    forall|q: int, t: int| 0 <= q < r && 0 <= t < 4 ==> brand@[offset + 4 * q + t]
                        == #[trigger] word_bytes(regs@[q])[t],
                decreases 4 - r,
            {
                let bytes = le_bytes(regs[r]);
                let base = offset + 4 * r;
                brand[base] = bytes[0];
                brand[base + 1] = bytes[1];
                brand[base + 2] = bytes[2];
                brand[base + 3] = bytes[3];
                r = r + 1;
            }
            proof {
                assert forall|k: int| 0 <= k < i + 1 implies #[trigger] chunk(brand@, k)
                    == leaf_bytes(leaves[k]) by {
                    if k < i {
                        assert(chunk(brand@, k) =~= chunk(before, k));
                    } else {
                        assert forall|t: int| 0 <= t < 16 implies chunk(brand@, k)[t]
                            == leaf_bytes(leaves[k])[t] by {
                            let q = t / 4;
                            let u = t % 4;
                            assert(brand@[offset + 4 * q + u] == word_bytes(regs@[q])[u]);
                        }
                        assert(chunk(brand@, k) =~= leaf_bytes(leaves[k]));
                    }
                }
            }
            i = i + 1;
        }
        proof {
            assert(chunk(brand@, 0) == leaf_bytes(leaves[0]));
            assert(chunk(brand@, 1) == leaf_bytes(leaves[1]));
            assert(chunk(brand@, 2) == leaf_bytes(leaves[2]));
            assert(brand@ =~= leaf_bytes(leaves[0]) + leaf_bytes(leaves[1]) + leaf_bytes(
                leaves[2],
            ));
        }
        CpuidBrandString { brand }
    }
}

#[derive(Debug, Clone)]
pub struct FullCpuidInfo {
    pub basic: CpuidBasicInfo,
    pub processor: CpuidProcessorInfo,
    pub features: CpuidFeatures,
    pub brand: CpuidBrandString,
    pub cache: [Option<CpuidCacheInfo>; 10],
    pub topology: Option<CpuidTopologyInfo>,
    pub address: Option<CpuidAddressInfo>,
    pub power: Option<CpuidPowerInfo>,
    pub frequency: Option<CpuidFrequencyInfo>,
    pub tsc: Option<CpuidTscInfo>,
    pub extended: CpuidExtendedInfo,
}

/// Whether slot `i` of the cache list describes a cache of `level`.
pub open spec fn is_level(cache: Seq<Option<CpuidCacheInfo>>, i: int, level: u8) -> bool {
    cache[i] matches Some(info) && info.cache_level == level
}

/// The logical processors the topology levels multiply to.
pub open spec fn logical_cores(top: CpuidTopologyInfo) -> int {
    (top.smt_mask + 1) * (top.core_mask + 1)
}

impl FullCpuidInfo {
    pub fn has_avx2(&self) -> (r: bool)
        ensures
            r == (self.features.extended_7_ebx & 0x20 != 0),
            r == ((self.features.extended_7_ebx >> ExtendedFeature7Eb::Avx2.spec_bit()) & 1 == 1),
    {
        let x = self.features.extended_7_ebx;
        assert((x & 0x20 != 0) == ((x >> 5u32) & 1 == 1)) by (bit_vector);
        (x & 0x20) != 0
    }

    pub fn has_avx512f(&self) -> (r: bool)
        ensures
            r == (self.features.extended_7_ebx & 0x1_0000 != 0),
            r == ((self.features.extended_7_ebx >> ExtendedFeature7Eb::Avx512f.spec_bit()) & 1 == 1),
    {
        let x = self.features.extended_7_ebx;
        assert((x & 0x1_0000 != 0) == ((x >> 16u32) & 1 == 1)) by (bit_vector);
        (x & 0x1_0000) != 0
    }

    pub fn has_sse4_2(&self) -> (r: bool)
        ensures
            r == (self.features.extended_ecx & 0x10_0000 != 0),
            r == ((self.features.extended_ecx >> ExtendedFeatureEcx::Sse4_2.spec_bit()) & 1 == 1),
    {
        let x = self.features.extended_ecx;
        assert((x & 0x10_0000 != 0) == ((x >> 20u32) & 1 == 1)) by (bit_vector);
        (x & 0x10_0000) != 0
    }

    pub fn has_aes_ni(&self) -> (r: bool)
        ensures
            r == (self.features.extended_ecx & 0x200_0000 != 0),
            r == ((self.features.extended_ecx >> ExtendedFeatureEcx::Aes.spec_bit()) & 1 == 1),
    {
        let x = self.features.extended_ecx;
        assert((x & 0x200_0000 != 0) == ((x >> 25u32) & 1 == 1)) by (bit_vector);
        (x & 0x200_0000) != 0
    }

    pub fn has_rdrand(&self) -> (r: bool)
        ensures
            r == (self.features.extended_ecx & 0x4000_0000 != 0),
            r == ((self.features.extended_ecx >> ExtendedFeatureEcx::Rdrnd.spec_bit()) & 1 == 1),
    {
        let x = self.features.extended_ecx;
        assert((x & 0x4000_0000 != 0) == ((x >> 30u32) & 1 == 1)) by (bit_vector);
        (x & 0x4000_0000) != 0
    }

    /// The hypervisor-present bit.
    pub fn is_virtualized(&self) -> (r: bool)
        ensures
            r == (self.features.extended_ecx & 0x8000_0000 != 0),
            r == ((self.features.extended_ecx >> ExtendedFeatureEcx::Hypervisor.spec_bit()) & 1 == 1),
    {
        let x = self.features.extended_ecx;
        assert((x & 0x8000_0000 != 0) == ((x >> 31u32) & 1 == 1)) by (bit_vector);
        (x & 0x8000_0000) != 0
    }

    pub fn has_hyperthreading(&self) -> (r: bool)
        ensures
            r == (self.features.standard_edx & 0x1000_0000 != 0),
            r == ((self.features.standard_edx >> StandardFeatureEdx::Ht.spec_bit()) & 1 == 1),
    {
        let x = self.features.standard_edx;
        assert((x & 0x1000_0000 != 0) == ((x >> 28u32) & 1 == 1)) by (bit_vector);
        (x & 0x1000_0000) != 0
    }

    /// Whether the virtual address width is known and at least 48 bits.
    pub fn supports_64bit(&self) -> (r: bool)
        ensures
            r == (self.address matches Some(a) && a.virtual_addr_bits >= 48),
    {
        match &self.address {
            Some(addr) => addr.virtual_addr_bits >= 48,
            None => false,
        }
    }

    /// Threads per core times cores, when the topology is known.
    pub fn get_total_logical_cores(&self) -> (r: Option<u32>)
        requires
            self.topology matches Some(top) ==> logical_cores(top) <= u32::MAX,
        ensures
            r is Some <==> self.topology is Some,
            r matches Some(n) ==> n == logical_cores(self.topology->0),
    {
        match self.topology {
            Some(top) => {
                proof {
                    assert(top.smt_mask + 1 <= logical_cores(top)) by (nonlinear_arith)
                        requires
                            top.core_mask + 1 >= 1,
                            logical_cores(top) == (top.smt_mask + 1) * (top.core_mask + 1),
                    ;
                    assert(top.core_mask + 1 <= logical_cores(top)) by (nonlinear_arith)
                        requires
                            top.smt_mask + 1 >= 1,
                            logical_cores(top) == (top.smt_mask + 1) * (top.core_mask + 1),
                    ;
                }
                let smt = top.smt_mask + 1;
                let cores = top.core_mask + 1;
                Some(smt * cores)
            },
            None => None,
        }
    }

    /// The first cache in the list at `level`.
    fn find_cache(&self, level: u8) -> (r: Option<&CpuidCacheInfo>)
        ensures
            r is None <==> forall|i: int| 0 <= i < 10 ==> !is_level(self.cache@, i, level),
            r matches Some(info) ==> exists|i: int|
                0 <= i < 10 && self.cache@[i] == Some(*info) && info.cache_level == level && (
                forall|j: int| 0 <= j < i ==> !is_level(self.cache@, j, level)),
    {
        let mut i: usize = 0;
        while i < 10
            invariant
                i <= 10,
                forall|j: int| 0 <= j < i ==> !is_level(self.cache@, j, level),
            decreases 10 - i,
        {
            match &self.cache[i] {
                Some(info) => {
                    if info.cache_level == level {
                        assert(is_level(self.cache@, i as int, level));
                        return Some(info);
                    }
                },
                None => {},
            }
            i = i + 1;
        }
        None
    }

    /// The first level-1 cache in the list.
    pub fn get_l1_cache(&self) -> (r: Option<&CpuidCacheInfo>)
        ensures
            r is None <==> forall|i: int| 0 <= i < 10 ==> !is_level(self.cache@, i, 1),
            r matches Some(info) ==> exists|i: int|
                0 <= i < 10 && self.cache@[i] == Some(*info) && info.cache_level == 1 && (forall|
                    j: int,
                | 0 <= j < i ==> !is_level(self.cache@, j, 1)),
    {
        self.find_cache(1)
    }

    /// The first level-2 cache in the list.
    pub fn get_l2_cache(&self) -> (r: Option<&CpuidCacheInfo>)
        ensures
            r is None <==> forall|i: int| 0 <= i < 10 ==> !is_level(self.cache@, i, 2),
            r matches Some(info) ==> exists|i: int|
                0 <= i < 10 && self.cache@[i] == Some(*info) && info.cache_level == 2 && (forall|
                    j: int,
                | 0 <= j < i ==> !is_level(self.cache@, j, 2)),
    {
        self.find_cache(2)
    }

    /// The first level-3 cache in the list.
    pub fn get_l3_cache(&self) -> (r: Option<&CpuidCacheInfo>)
        ensures
            r is None <==> forall|i: int| 0 <= i < 10 ==> !is_level(self.cache@, i, 3),
            r matches Some(info) ==> exists|i: int|
                0 <= i < 10 && self.cache@[i] == Some(*info) && info.cache_level == 3 && (forall|
                    j: int,
                | 0 <= j < i ==> !is_level(self.cache@, j, 3)),
    {
        self.find_cache(3)
    }
}

/// The raw leaves one pass over the processor reads, every one of them,
/// whatever the largest leaf numbers say.
#[derive(Debug, Clone, Copy)]
pub struct CpuidSnapshot {
    pub leaf0: CpuidResult,
    pub leaf1: CpuidResult,
    pub leaf7_0: CpuidResult,
    pub leaf7_1: CpuidResult,
    pub brand: [CpuidResult; 3],
    pub cache: [CpuidResult; 10],
    pub topology_1f: [CpuidResult; 2],
    pub topology_b: [CpuidResult; 2],
    pub address: CpuidResult,
    pub power: CpuidResult,
    pub frequency: CpuidResult,
    pub tsc: CpuidResult,
    pub max_extended_leaf: u32,
    pub extended: ExtendedLeaves,
}

/// A leaf-4 description whose sizes add up without overflow.
pub open spec fn cache_leaf_fits(l: CpuidResult) -> bool {
    l.ecx < u32::MAX && cache_bytes(l) <= u32::MAX
}

/// Whether a leaf-4 subleaf describes a cache at all.
pub open spec fn is_cache_leaf(l: CpuidResult) -> bool {
    l.eax & 0x1F != 0
}

/// Whether any of EAX, EBX, ECX is nonzero.
pub open spec fn reports(l: CpuidResult) -> bool {
    l.eax != 0 || l.ebx != 0 || l.ecx != 0
}

pub struct CpuidExtractor;

impl CpuidExtractor {
    /// The report that a snapshot of the leaves describes: each leaf is
    /// used only where the largest leaf number admits it.
    pub fn assemble(s: &CpuidSnapshot) -> (r: FullCpuidInfo)
        requires
            forall|i: int| 0 <= i < 10 && is_cache_leaf(#[trigger] s.cache@[i]) ==> cache_leaf_fits(
                s.cache@[i],
            ),
        ensures
            r.basic.reads(s.leaf0),
            r.processor.reads(s.leaf1),
            r.features.reads(
                s.leaf1,
                s.leaf7_0,
                if s.leaf0.eax >= 7 {
                    s.leaf7_1
                } else {
                    CpuidResult { eax: 0, ebx: 0, ecx: 0, edx: 0 }
                },
            ),
            r.brand.brand@ == leaf_bytes(s.brand[0]) + leaf_bytes(s.brand[1]) + leaf_bytes(
                s.brand[2],
            ),
            forall|i: int|
                0 <= i < 10 ==> match #[trigger] r.cache@[i] {
                    Some(c) => is_cache_leaf(s.cache@[i]) && c.reads(s.cache@[i]),
                    None => !is_cache_leaf(s.cache@[i]),
                },
            s.leaf0.eax >= 0x1F ==> (r.topology matches Some(t) && t.reads(
                s.topology_1f[0],
                s.topology_1f[1],
            )),
            0xB <= s.leaf0.eax < 0x1F ==> (r.topology matches Some(t) && t.reads(
                s.topology_b[0],
                s.topology_b[1],
            )),
            s.leaf0.eax < 0xB ==> r.topology is None,
            r.address is Some <==> s.leaf0.eax >= 0x8000_0008,
            r.address matches Some(a) ==> a.reads(s.address),
            r.power is Some <==> s.leaf0.eax >= 6,
            r.power matches Some(p) ==> p.reads(s.power),
            r.frequency is Some <==> s.leaf0.eax >= 0x16 && reports(s.frequency),
            r.frequency matches Some(f) ==> f.reads(s.frequency),
            r.tsc is Some <==> s.leaf0.eax >= 0x15 && reports(s.tsc),
            r.tsc matches Some(t) ==> t.reads(s.tsc),
            r.extended.reads(s.max_extended_leaf, s.extended),
    {
        let leaf0 = s.leaf0;
        let max_leaf = leaf0.eax;
        let basic = CpuidBasicInfo::from_leaf0(leaf0);
        let processor = CpuidProcessorInfo::from(s.leaf1);
        let leaf7_1 = if max_leaf >= 7 {
            s.leaf7_1
        } else {
            CpuidResult { eax: 0, ebx: 0, ecx: 0, edx: 0 }
        };
        let features = CpuidFeatures::from_leaves(s.leaf1, s.leaf7_0, leaf7_1);
        let brand = CpuidBrandString::from_leaves(s.brand);
        let mut cache: [Option<CpuidCacheInfo>; 10] = [None; 10];
        let mut i: usize = 0;
        while i < 10
            invariant
                i <= 10,
                forall|k: int| 0 <= k < 10 && is_cache_leaf(#[trigger] s.cache@[k]) ==> cache_leaf_fits(
                    s.cache@[k],
                ),
                forall|k: int|
                    0 <= k < i ==> match #[trigger] cache@[k] {
                        Some(c) => is_cache_leaf(s.cache@[k]) && c.reads(s.cache@[k]),
                        None => !is_cache_leaf(s.cache@[k]),
                    },
            decreases 10 - i,
        {
            let cache_leaf = s.cache[i];
            assert(cache_leaf == s.cache@[i as int]);
            if cache_leaf.eax & 0x1F != 0 {
                cache[i] = Some(CpuidCacheInfo::from(cache_leaf));
            } else {
                cache[i] = None;
            }
            i = i + 1;
        }
        let topology = if max_leaf >= 0x1F {
            Some(CpuidTopologyInfo::from_leaves(s.topology_1f[0], s.topology_1f[1]))
        } else if max_leaf >= 0xB {
            Some(CpuidTopologyInfo::from_leaves(s.topology_b[0], s.topology_b[1]))
        } else {
            None
        };
        let address = if max_leaf >= 0x8000_0008 {
            Some(CpuidAddressInfo::from(s.address))
        } else {
            None
        };
        let power = if max_leaf >= 6 {
            Some(CpuidPowerInfo::from(s.power))
        } else {
            None
        };
        let freq_leaf = s.frequency;
        let frequency = if max_leaf >= 0x16 {
            if freq_leaf.eax != 0 || freq_leaf.ebx != 0 || freq_leaf.ecx != 0 {
                Some(CpuidFrequencyInfo::from(freq_leaf))
            } else {
                None
            }
        } else {
            None
        };
        let tsc_leaf = s.tsc;
        let tsc = if max_leaf >= 0x15 {
            if tsc_leaf.eax != 0 || tsc_leaf.ebx != 0 || tsc_leaf.ecx != 0 {
                Some(CpuidTscInfo::from(tsc_leaf))
            } else {
                None
            }
        } else {
            None
        };
        let extended = CpuidExtendedInfo::from_max_leaf(s.max_extended_leaf, &s.extended);
        FullCpuidInfo {
            basic,
            processor,
            features,
            brand,
            cache,
            topology,
            address,
            power,
            frequency,
            tsc,
            extended,
        }
    }
}

/// The name of a leaf-4 cache type.
pub fn cache_type_name(cache_type: u8) -> (r: &'static str)
    ensures
        cache_type == 1 ==> r == "Data",
        cache_type == 2 ==> r == "Instruction",
        cache_type == 3 ==> r == "Unified",
        cache_type == 0 || cache_type > 3 ==> r == "Unknown",
{
    if cache_type == 1 {
        "Data"
    } else if cache_type == 2 {
        "Instruction"
    } else if cache_type == 3 {
        "Unified"
    } else {
        "Unknown"
    }
}

#[derive(Debug, Clone, Copy, PartialEq, Eq, Structural)]
pub enum RamUnit {
    Terabytes,
    Gigabytes,
    Megabytes,
    Kilobytes,
    Bytes,
}

/// The memory that `bits` address bits reach, in the largest decimal unit
/// it fills at least once, rounded down.
pub fn max_ram(bits: u32) -> (r: (u64, RamUnit))
    requires
        bits < 64,
    ensures
        ({
            let ram = vstd::arithmetic::power2::pow2(bits as nat);
            if ram >= 1_000_000_000_000 {
                r.0 == ram / 1_000_000_000_000 && r.1 == RamUnit::Terabytes
            } else if ram >= 1_000_000_000 {
                r.0 == ram / 1_000_000_000 && r.1 == RamUnit::Gigabytes
            } else if ram >= 1_000_000 {
                r.0 == ram / 1_000_000 && r.1 == RamUnit::Megabytes
            } else if ram >= 1_000 {
                r.0 == ram / 1_000 && r.1 == RamUnit::Kilobytes
            } else {
                r.0 == ram && r.1 == RamUnit::Bytes
            }
        }),
{
    let mut ram: u64 = 1;
    let mut i: u32 = 0;
    proof {
        vstd::arithmetic::power2::lemma2_to64();
    }
    while i < bits
        invariant
            i <= bits < 64,
            ram == vstd::arithmetic::power2::pow2(i as nat),
        decreases bits - i,
    {
        proof {
            crate::arith::lemma_pow2_double(i as nat);
            crate::arith::lemma_pow2_mono(i as nat + 1, 63);
            vstd::arithmetic::power2::lemma2_to64_rest();
        }
        ram = ram * 2;
        i = i + 1;
    }
    if ram >= 1_000_000_000_000 {
        (ram / 1_000_000_000_000, RamUnit::Terabytes)
    } else if ram >= 1_000_000_000 {
        (ram / 1_000_000_000, RamUnit::Gigabytes)
    } else if ram >= 1_000_000 {
        (ram / 1_000_000, RamUnit::Megabytes)
    } else if ram >= 1_000 {
        (ram / 1_000, RamUnit::Kilobytes)
    } else {
        (ram, RamUnit::Bytes)
    }
}

} // verus!
