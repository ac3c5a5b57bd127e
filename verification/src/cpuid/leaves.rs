//! Decoding of the registers that CPUID leaves return.
use vstd::prelude::*;
use crate::chacha::word_bytes;

verus! {

/// The four registers one CPUID leaf returns.
#[derive(Debug, Clone, Copy, PartialEq, Eq, Structural)]
pub struct CpuidResult {
    pub eax: u32,
    pub ebx: u32,
    pub ecx: u32,
    pub edx: u32,
}

impl CpuidResult {
    /// All registers zero.
    pub fn zero() -> (r: CpuidResult)
        ensures
            r.eax == 0 && r.ebx == 0 && r.ecx == 0 && r.edx == 0,
    {
        CpuidResult { eax: 0, ebx: 0, ecx: 0, edx: 0 }
    }
}

/// The little-endian bytes of a register.
pub fn le_bytes(x: u32) -> (r: [u8; 4])
    ensures
        r@ == word_bytes(x),
{
    let r = [x as u8, (x >> 8u32) as u8, (x >> 16u32) as u8, (x >> 24u32) as u8];
    proof {
        assert(r@ =~= word_bytes(x));
    }
    r
}

#[derive(Debug, Clone, Copy, PartialEq, Eq, Structural)]
pub enum ProcessorType {
    OriginalOEM,
    Overdrive,
    DualCapable,
    Reserved,
}

impl ProcessorType {
    pub open spec fn spec_as_str(self) -> &'static str {
        match self {
            ProcessorType::OriginalOEM => "Original OEM",
            ProcessorType::Overdrive => "Overdrive",
            ProcessorType::DualCapable => "Dual Capable",
            ProcessorType::Reserved => "Reserved",
        }
    }

    pub fn as_str(&self) -> (r: &'static str)
        ensures
            r == self.spec_as_str(),
    {
        match self {
            ProcessorType::OriginalOEM => "Original OEM",
            ProcessorType::Overdrive => "Overdrive",
            ProcessorType::DualCapable => "Dual Capable",
            ProcessorType::Reserved => "Reserved",
        }
    }

    /// The type that a two-bit field encodes.
    pub open spec fn spec_from_bits(bits: u32) -> ProcessorType {
        if bits == 0 {
            ProcessorType::OriginalOEM
        } else if bits == 1 {
            ProcessorType::Overdrive
        } else if bits == 2 {
            ProcessorType::DualCapable
        } else {
            ProcessorType::Reserved
        }
    }
}

#[derive(Debug, Clone, Copy, PartialEq, Eq, Structural)]
pub enum VendorID {
    Intel,
    AMD,
    Cyrix,
    Centaur,
    Unknown,
}

/// The twelve bytes of a vendor identification: EBX, EDX, ECX.
pub open spec fn vendor_bytes(ebx: u32, edx: u32, ecx: u32) -> Seq<u8> {
    word_bytes(ebx) + word_bytes(edx) + word_bytes(ecx)
}

/// "GenuineIntel"
pub open spec fn genuine_intel() -> Seq<u8> {
    seq![71u8, 101, 110, 117, 105, 110, 101, 73, 110, 116, 101, 108]
}

/// "AuthenticAMD"
pub open spec fn authentic_amd() -> Seq<u8> {
    seq![65u8, 117, 116, 104, 101, 110, 116, 105, 99, 65, 77, 68]
}

/// "CyrixInstead"
pub open spec fn cyrix_instead() -> Seq<u8> {
    seq![67u8, 121, 114, 105, 120, 73, 110, 115, 116, 101, 97, 100]
}

/// "CentaurHauls"
pub open spec fn centaur_hauls() -> Seq<u8> {
    seq![67u8, 101, 110, 116, 97, 117, 114, 72, 97, 117, 108, 115]
}

pub open spec fn spec_vendor(bytes: Seq<u8>) -> VendorID {
    if bytes == genuine_intel() {
        VendorID::Intel
    } else if bytes == authentic_amd() {
        VendorID::AMD
    } else if bytes == cyrix_instead() {
        VendorID::Cyrix
    } else if bytes == centaur_hauls() {
        VendorID::Centaur
    } else {
        VendorID::Unknown
    }
}

/// Whether two byte strings are equal.
fn bytes_equal(a: &[u8], b: &[u8]) -> (r: bool)
    ensures
        r == (a@ == b@),
{
    if a.len() != b.len() {
        return false;
    }
    let mut i: usize = 0;
    while i < a.len()
        invariant
            i <= a@.len(),
            a@.len() == b@.len(),
            forall|j: int| 0 <= j < i ==> a@[j] == b@[j],
        decreases a@.len() - i,
    {
        if a[i] != b[i] {
            return false;
        }
        i = i + 1;
    }
    proof {
        assert(a@ =~= b@);
    }
    true
}

impl VendorID {
    pub open spec fn spec_as_str(self) -> &'static str {
        match self {
            VendorID::Intel => "Intel",
            VendorID::AMD => "AMD",
            VendorID::Cyrix => "Cyrix",
            VendorID::Centaur => "Centaur",
            VendorID::Unknown => "Unknown",
        }
    }

    pub fn as_str(&self) -> (r: &'static str)
        ensures
            r == self.spec_as_str(),
    {
        match self {
            VendorID::Intel => "Intel",
            VendorID::AMD => "AMD",
            VendorID::Cyrix => "Cyrix",
            VendorID::Centaur => "Centaur",
            VendorID::Unknown => "Unknown",
        }
    }

    /// The vendor that the identification in EBX, EDX, ECX names.
    pub fn from(regs: (u32, u32, u32)) -> (r: VendorID)
        ensures
            r == spec_vendor(vendor_bytes(regs.0, regs.1, regs.2)),
    {
        let (ebx, edx, ecx) = regs;
        let bytes = CpuidBasicInfo::get_vendor_string(ebx, edx, ecx);
        let intel: [u8; 12] = [71, 101, 110, 117, 105, 110, 101, 73, 110, 116, 101, 108];
        let amd: [u8; 12] = [65, 117, 116, 104, 101, 110, 116, 105, 99, 65, 77, 68];
        let cyrix: [u8; 12] = [67, 121, 114, 105, 120, 73, 110, 115, 116, 101, 97, 100];
        let centaur: [u8; 12] = [67, 101, 110, 116, 97, 117, 114, 72, 97, 117, 108, 115];
        proof {
            assert(intel@ =~= genuine_intel());
            assert(amd@ =~= authentic_amd());
            assert(cyrix@ =~= cyrix_instead());
            assert(centaur@ =~= centaur_hauls());
        }
        if bytes_equal(bytes.as_slice(), intel.as_slice()) {
            VendorID::Intel
        } else if bytes_equal(bytes.as_slice(), amd.as_slice()) {
            VendorID::AMD
        } else if bytes_equal(bytes.as_slice(), cyrix.as_slice()) {
            VendorID::Cyrix
        } else if bytes_equal(bytes.as_slice(), centaur.as_slice()) {
            VendorID::Centaur
        } else {
            VendorID::Unknown
        }
    }

    /// The vendor that the registers `[EBX, EDX, ECX]` name.
    pub fn from_array(regs: [u32; 3]) -> (r: VendorID)
        ensures
            r == spec_vendor(vendor_bytes(regs@[0], regs@[1], regs@[2])),
    {
        VendorID::from((regs[0], regs[1], regs[2]))
    }
}

#[derive(Debug, Clone, Copy)]
pub struct CpuidBasicInfo {
    pub max_leaf: u32,
    pub vendor_id: VendorID,
    pub vendor_string: [u8; 12],
}

impl CpuidBasicInfo {
    /// What a decode of these registers holds.
    pub open spec fn reads(self, leaf: CpuidResult) -> bool {
        &&& self.max_leaf == leaf.eax
        &&& self.vendor_string@ == vendor_bytes(leaf.ebx, leaf.edx, leaf.ecx)
        &&& self.vendor_id == spec_vendor(vendor_bytes(leaf.ebx, leaf.edx, leaf.ecx))
    }

    /// Leaf 0: the largest standard leaf and the vendor.
    pub fn from_leaf0(leaf: CpuidResult) -> (r: CpuidBasicInfo)
        ensures
            r.reads(leaf),
    {
        let vendor_id = VendorID::from((leaf.ebx, leaf.edx, leaf.ecx));
        let vendor_string = Self::get_vendor_string(leaf.ebx, leaf.edx, leaf.ecx);
        CpuidBasicInfo { max_leaf: leaf.eax, vendor_id, vendor_string }
    }

    /// The bytes of EBX, EDX and ECX in turn.
    pub fn get_vendor_string(ebx: u32, edx: u32, ecx: u32) -> (r: [u8; 12])
        ensures
            r@ == vendor_bytes(ebx, edx, ecx),
    {
        let a = le_bytes(ebx);
        let b = le_bytes(edx);
        let c = le_bytes(ecx);
        let r = [a[0], a[1], a[2], a[3], b[0], b[1], b[2], b[3], c[0], c[1], c[2], c[3]];
        proof {
            assert(r@ =~= vendor_bytes(ebx, edx, ecx));
        }
        r
    }
}

#[derive(Debug, Clone, Copy)]
pub struct CpuidProcessorInfo {
    pub family: u32,
    pub model: u32,
    pub stepping: u32,
    pub processor_type: ProcessorType,
    pub extended_family: u32,
    pub extended_model: u32,
    pub brand_index: u32,
}

impl CpuidProcessorInfo {
    /// What a decode of these registers holds.
    pub open spec fn reads(self, leaf: CpuidResult) -> bool {
        &&& self.stepping == leaf.eax & 0xF
        &&& self.model == (leaf.eax >> 4u32) & 0xF
        &&& self.family == (leaf.eax >> 8u32) & 0xF
        &&& self.processor_type == ProcessorType::spec_from_bits((leaf.eax >> 12u32) & 0x3)
        &&& self.extended_model == (leaf.eax >> 16u32) & 0xF
        &&& self.extended_family == (leaf.eax >> 20u32) & 0xFF
        &&& self.brand_index == (leaf.eax >> 24u32) & 0xFF
    }

    /// Leaf 1, EAX: stepping, model, family, type and their extensions.
    pub fn from(leaf: CpuidResult) -> (r: CpuidProcessorInfo)
        ensures
            r.reads(leaf),
    {
        let eax = leaf.eax;
        let bits = (eax >> 12u32) & 0x3;
        let processor_type = if bits == 0 {
            ProcessorType::OriginalOEM
        } else if bits == 1 {
            ProcessorType::Overdrive
        } else if bits == 2 {
            ProcessorType::DualCapable
        } else {
            ProcessorType::Reserved
        };
        CpuidProcessorInfo {
            stepping: eax & 0xF,
            model: (eax >> 4u32) & 0xF,
            family: (eax >> 8u32) & 0xF,
            processor_type,
            extended_model: (eax >> 16u32) & 0xF,
            extended_family: (eax >> 20u32) & 0xFF,
            brand_index: (eax >> 24u32) & 0xFF,
        }
    }
}

#[derive(Debug, Clone, Copy)]
pub struct CpuidFeatures {
    pub standard_edx: u32,
    pub extended_ecx: u32,
    pub extended_7_ebx: u32,
    pub extended_7_ecx: u32,
    pub extended_7_edx: u32,
    pub extended_7_1_eax: u32,
    pub extended_7_1_ebx: u32,
    pub extended_7_1_ecx: u32,
    pub extended_7_1_edx: u32,
}

impl CpuidFeatures {
    /// What a decode of these registers holds.
    pub open spec fn reads(self, leaf1: CpuidResult, leaf7_0: CpuidResult, leaf7_1: CpuidResult) -> bool {
        &&& self.standard_edx == leaf1.edx
        &&& self.extended_ecx == leaf1.ecx
        &&& self.extended_7_ebx == leaf7_0.ebx
        &&& self.extended_7_ecx == leaf7_0.ecx
        &&& self.extended_7_edx == leaf7_0.edx
        &&& self.extended_7_1_eax == leaf7_1.eax
        &&& self.extended_7_1_ebx == leaf7_1.ebx
        &&& self.extended_7_1_ecx == leaf7_1.ecx
        &&& self.extended_7_1_edx == leaf7_1.edx
    }

    /// The feature registers of leaves 1, 7.0 and 7.1.
    pub fn from_leaves(leaf1: CpuidResult, leaf7_0: CpuidResult, leaf7_1: CpuidResult) -> (r: CpuidFeatures)
        ensures
            r.reads(leaf1, leaf7_0, leaf7_1),
    {
        CpuidFeatures {
            standard_edx: leaf1.edx,
            extended_ecx: leaf1.ecx,
            extended_7_ebx: leaf7_0.ebx,
            extended_7_ecx: leaf7_0.ecx,
            extended_7_edx: leaf7_0.edx,
            extended_7_1_eax: leaf7_1.eax,
            extended_7_1_ebx: leaf7_1.ebx,
            extended_7_1_ecx: leaf7_1.ecx,
            extended_7_1_edx: leaf7_1.edx,
        }
    }
}

#[derive(Debug, Clone, Copy)]
pub struct CpuidCacheInfo {
    pub cache_type: u8,
    pub cache_level: u8,
    pub cache_size_kb: u32,
    pub ways_of_associativity: u32,
    pub line_size_bytes: u32,
    pub sets: u32,
    pub partitions: u32,
}

/// Ways times partitions times line size times sets, the bytes a leaf-4
/// cache description adds up to.
pub open spec fn cache_bytes(leaf: CpuidResult) -> int {
    let line = (leaf.ebx & 0xFFF) + 1;
    let partitions = ((leaf.ebx >> 12u32) & 0x3FF) + 1;
    let ways = ((leaf.ebx >> 22u32) & 0x3FF) + 1;
    let sets = leaf.ecx + 1;
    ways * partitions * line * sets
}

impl CpuidCacheInfo {
    /// What a decode of these registers holds.
    pub open spec fn reads(self, leaf: CpuidResult) -> bool {
        &&& self.cache_type == leaf.eax & 0x1F
        &&& self.cache_level == (leaf.eax >> 5u32) & 0x7
        &&& self.line_size_bytes == (leaf.ebx & 0xFFF) + 1
        &&& self.partitions == ((leaf.ebx >> 12u32) & 0x3FF) + 1
        &&& self.ways_of_associativity == ((leaf.ebx >> 22u32) & 0x3FF) + 1
        &&& self.sets == leaf.ecx + 1
        &&& self.cache_size_kb == cache_bytes(leaf) / 1024
    }

    /// A leaf-4 cache description; the size is in KiB.
    pub fn from(leaf: CpuidResult) -> (r: CpuidCacheInfo)
        requires
            leaf.ecx < u32::MAX,
            cache_bytes(leaf) <= u32::MAX,
        ensures
            r.reads(leaf),
    {
        let cache_type = leaf.eax & 0x1F;
        let cache_level = (leaf.eax >> 5u32) & 0x7;
        proof {
            crate::arith::lemma_and_le(leaf.ebx, 0xFFF);
            crate::arith::lemma_and_le(leaf.ebx >> 12u32, 0x3FF);
            crate::arith::lemma_and_le(leaf.ebx >> 22u32, 0x3FF);
            crate::arith::lemma_and_le(leaf.eax, 0x1F);
            crate::arith::lemma_and_le(leaf.eax >> 5u32, 0x7);
        }
        let line_size = (leaf.ebx & 0xFFF) + 1;
        let partitions = ((leaf.ebx >> 12u32) & 0x3FF) + 1;
        let ways = ((leaf.ebx >> 22u32) & 0x3FF) + 1;
        let sets = leaf.ecx + 1;
        proof {
            assert(ways * partitions <= ways * partitions * line_size) by (nonlinear_arith)
                requires
                    line_size >= 1,
                    ways >= 1,
                    partitions >= 1,
            ;
            assert(ways * partitions * line_size <= ways * partitions * line_size * sets) by (nonlinear_arith)
                requires
                    line_size >= 1,
                    ways >= 1,
                    partitions >= 1,
                    sets >= 1,
            ;
        }
        let cache_size_kb = (ways * partitions * line_size * sets) / 1024;
        CpuidCacheInfo {
            cache_type: cache_type as u8,
            cache_level: cache_level as u8,
            cache_size_kb,
            ways_of_associativity: ways,
            line_size_bytes: line_size,
            sets,
            partitions,
        }
    }
}

#[derive(Debug, Clone, Copy)]
pub struct CpuidTopologyInfo {
    pub smt_mask: u32,
    pub core_mask: u32,
    pub smt_shift: u32,
    pub core_shift: u32,
}

impl CpuidTopologyInfo {
    /// What a decode of these registers holds.
    pub open spec fn reads(self, leaf0: CpuidResult, leaf1: CpuidResult) -> bool {
        &&& self.smt_shift == leaf0.eax & 0x1F
        &&& self.core_shift == leaf1.eax & 0x1F
        &&& self.smt_mask == ((1u32 << (leaf0.eax & 0x1F)) - 1) as u32
        &&& self.core_mask == ((1u32 << (leaf1.eax & 0x1F)) - 1) as u32
    }

    /// The SMT and core levels of leaf 0xB or 0x1F: shifts and the masks
    /// below them.
    pub fn from_leaves(leaf0: CpuidResult, leaf1: CpuidResult) -> (r: CpuidTopologyInfo)
        ensures
            r.reads(leaf0, leaf1),
    {
        let s0 = leaf0.eax & 0x1F;
        let s1 = leaf1.eax & 0x1F;
        proof {
            crate::arith::lemma_and_le(leaf0.eax, 0x1F);
            crate::arith::lemma_and_le(leaf1.eax, 0x1F);
            crate::arith::lemma_one_shl_pos(s0);
            crate::arith::lemma_one_shl_pos(s1);
        }
        CpuidTopologyInfo {
            smt_mask: (1u32 << s0) - 1,
            core_mask: (1u32 << s1) - 1,
            smt_shift: s0,
            core_shift: s1,
        }
    }
}

#[derive(Debug, Clone, Copy)]
pub struct CpuidAddressInfo {
    pub physical_addr_bits: u32,
    pub virtual_addr_bits: u32,
}

impl CpuidAddressInfo {
    /// What a decode of these registers holds.
    pub open spec fn reads(self, leaf: CpuidResult) -> bool {
        &&& self.physical_addr_bits == leaf.eax & 0xFF
        &&& self.virtual_addr_bits == (leaf.eax >> 8u32) & 0xFF
    }

    /// Leaf 0x80000008: physical and virtual address widths.
    pub fn from(leaf: CpuidResult) -> (r: CpuidAddressInfo)
        ensures
            r.reads(leaf),
    {
        CpuidAddressInfo { physical_addr_bits: leaf.eax & 0xFF, virtual_addr_bits: (leaf.eax >> 8u32) & 0xFF }
    }
}

#[derive(Debug, Clone, Copy)]
pub struct CpuidPowerInfo {
    pub digital_thermal_sensor: bool,
    pub intel_thermal_monitor: bool,
    pub performance_bias: bool,
    pub hardware_coordination: bool,
    pub energy_performance_preference: bool,
    pub turbo_boost_max_3: bool,
    pub hardware_p_states: bool,
    pub hardware_p_states_guaranteed: bool,
}

impl CpuidPowerInfo {
    /// What a decode of these registers holds.
    pub open spec fn reads(self, leaf: CpuidResult) -> bool {
        &&& self.digital_thermal_sensor == (leaf.eax & 0x1 != 0)
        &&& self.intel_thermal_monitor == (leaf.eax & 0x2 != 0)
        &&& self.performance_bias == (leaf.eax & 0x8 != 0)
        &&& self.hardware_coordination == (leaf.ecx & 0x1 != 0)
        &&& self.energy_performance_preference == (leaf.ecx & 0x2 != 0)
        &&& self.turbo_boost_max_3 == (leaf.ecx & 0x4 != 0)
        &&& self.hardware_p_states == (leaf.ecx & 0x8 != 0)
        &&& self.hardware_p_states_guaranteed == (leaf.ecx & 0x10 != 0)
    }

    /// Leaf 6: thermal and power management flags.
    pub fn from(leaf: CpuidResult) -> (r: CpuidPowerInfo)
        ensures
            r.reads(leaf),
    {
        CpuidPowerInfo {
            digital_thermal_sensor: (leaf.eax & 0x1) != 0,
            intel_thermal_monitor: (leaf.eax & 0x2) != 0,
            performance_bias: (leaf.eax & 0x8) != 0,
            hardware_coordination: (leaf.ecx & 0x1) != 0,
            energy_performance_preference: (leaf.ecx & 0x2) != 0,
            turbo_boost_max_3: (leaf.ecx & 0x4) != 0,
            hardware_p_states: (leaf.ecx & 0x8) != 0,
            hardware_p_states_guaranteed: (leaf.ecx & 0x10) != 0,
        }
    }
}

#[derive(Debug, Clone, Copy)]
pub struct CpuidFrequencyInfo {
    pub base_mhz: u32,
    pub max_mhz: u32,
    pub bus_mhz: u32,
    pub edx: u32,
}

impl CpuidFrequencyInfo {
    /// What a decode of these registers holds.
    pub open spec fn reads(self, leaf: CpuidResult) -> bool {
        &&& self.base_mhz == leaf.eax & 0xFFFF
        &&& self.max_mhz == leaf.ebx & 0xFFFF
        &&& self.bus_mhz == leaf.ecx & 0xFFFF
        &&& self.edx == leaf.edx
    }

    /// Leaf 0x16: base, maximum and bus frequencies in MHz.
    pub fn from(leaf: CpuidResult) -> (r: CpuidFrequencyInfo)
        ensures
            r.reads(leaf),
    {
        CpuidFrequencyInfo {
            base_mhz: leaf.eax & 0xFFFF,
            max_mhz: leaf.ebx & 0xFFFF,
            bus_mhz: leaf.ecx & 0xFFFF,
            edx: leaf.edx,
        }
    }

    /// Whether any of the frequencies is reported.
    pub fn is_valid(&self) -> (r: bool)
        ensures
            r == (self.base_mhz != 0 || self.max_mhz != 0 || self.bus_mhz != 0),
    {
        self.base_mhz != 0 || self.max_mhz != 0 || self.bus_mhz != 0
    }
}

#[derive(Debug, Clone, Copy)]
pub struct CpuidTscInfo {
    pub denominator: u32,
    pub numerator: u32,
    pub nominal_frequency: u32,
}

impl CpuidTscInfo {
    /// What a decode of these registers holds.
    pub open spec fn reads(self, leaf: CpuidResult) -> bool {
        &&& self.denominator == leaf.eax
        &&& self.numerator == leaf.ebx
        &&& self.nominal_frequency == leaf.ecx
    }

    /// Leaf 0x15: the TSC to crystal clock ratio and the crystal frequency.
    pub fn from(leaf: CpuidResult) -> (r: CpuidTscInfo)
        ensures
            r.reads(leaf),
    {
        CpuidTscInfo { denominator: leaf.eax, numerator: leaf.ebx, nominal_frequency: leaf.ecx }
    }
}


/// Leaf 1's EAX, from bit 0 up: the stepping in 4 bits, the model in 4, the
/// family in 4, the type in 2 (0 original OEM, 1 overdrive, 2 dual
/// capable, 3 reserved), 2 bits unread, the extended model in 4, the
/// extended family in 8; the brand index is the top byte.
pub proof fn law_processor_info_fields(info: CpuidProcessorInfo, leaf: CpuidResult)
    requires
        info.reads(leaf),
    ensures
        info.stepping == leaf.eax % 0x10,
        info.model == (leaf.eax / 0x10) % 0x10,
        info.family == (leaf.eax / 0x100) % 0x10,
        info.extended_model == (leaf.eax / 0x1_0000) % 0x10,
        info.extended_family == (leaf.eax / 0x10_0000) % 0x100,
        info.brand_index == leaf.eax / 0x100_0000,
        leaf.eax % 0x1000 == info.family * 0x100 + info.model * 0x10 + info.stepping,
        ((leaf.eax / 0x1000) % 4 == 0) == (info.processor_type == ProcessorType::OriginalOEM),
        ((leaf.eax / 0x1000) % 4 == 1) == (info.processor_type == ProcessorType::Overdrive),
        ((leaf.eax / 0x1000) % 4 == 2) == (info.processor_type == ProcessorType::DualCapable),
        ((leaf.eax / 0x1000) % 4 == 3) == (info.processor_type == ProcessorType::Reserved),
{
    let x = leaf.eax;
    assert({
        &&& x & 0xF == x % 0x10
        &&& (x >> 4u32) & 0xF == (x / 0x10) % 0x10
        &&& (x >> 8u32) & 0xF == (x / 0x100) % 0x10
        &&& (x >> 12u32) & 0x3 == (x / 0x1000) % 4
        &&& (x >> 16u32) & 0xF == (x / 0x1_0000) % 0x10
        &&& (x >> 20u32) & 0xFF == (x / 0x10_0000) % 0x100
        &&& (x >> 24u32) & 0xFF == x / 0x100_0000
        &&& x % 0x1000 == ((x / 0x100) % 0x10) * 0x100 + ((x / 0x10) % 0x10) * 0x10 + x % 0x10
    }) by (bit_vector);
}

/// A leaf-4 cache description: EAX holds the type in its low 5 bits and the
/// level in the next 3; EBX holds, each less one, the line size in its low
/// 12 bits, the partitions in the next 10 and the ways in the top 10; ECX
/// holds the sets less one; the size in KiB is ways times partitions times
/// line size times sets, over 1024.
pub proof fn law_cache_info_fields(info: CpuidCacheInfo, leaf: CpuidResult)
    requires
        info.reads(leaf),
    ensures
        info.cache_type == leaf.eax % 0x20,
        info.cache_level == (leaf.eax / 0x20) % 8,
        1 <= info.line_size_bytes <= 0x1000,
        1 <= info.partitions <= 0x400,
        1 <= info.ways_of_associativity <= 0x400,
        leaf.ebx == (info.ways_of_associativity - 1) * 0x40_0000 + (info.partitions - 1) * 0x1000 + (
        info.line_size_bytes - 1),
        info.sets == leaf.ecx + 1,
        info.cache_size_kb == (info.ways_of_associativity * info.partitions * info.line_size_bytes
            * info.sets) / 1024,
{
    let a = leaf.eax;
    let b = leaf.ebx;
    assert({
        &&& a & 0x1F == a % 0x20
        &&& (a >> 5u32) & 0x7 == (a / 0x20) % 8
        &&& b & 0xFFF < 0x1000
        &&& (b >> 12u32) & 0x3FF < 0x400
        &&& (b >> 22u32) & 0x3FF < 0x400
        &&& b == ((b >> 22u32) & 0x3FF) * 0x40_0000 + ((b >> 12u32) & 0x3FF) * 0x1000 + (b & 0xFFF)
    }) by (bit_vector);
}

/// A topology level's shift is the low 5 bits of its EAX, and its mask has
/// exactly the bits below the shift set: one less than two to the shift.
pub proof fn law_topology_masks(info: CpuidTopologyInfo, leaf0: CpuidResult, leaf1: CpuidResult)
    requires
        info.reads(leaf0, leaf1),
    ensures
        info.smt_shift == leaf0.eax % 0x20,
        info.core_shift == leaf1.eax % 0x20,
        info.smt_mask + 1 == vstd::arithmetic::power2::pow2(info.smt_shift as nat),
        info.core_mask + 1 == vstd::arithmetic::power2::pow2(info.core_shift as nat),
{
    let a0 = leaf0.eax;
    let a1 = leaf1.eax;
    assert(a0 & 0x1F == a0 % 0x20 && a1 & 0x1F == a1 % 0x20 && a0 & 0x1F < 32 && a1 & 0x1F < 32)
        by (bit_vector);
    let s0 = a0 & 0x1F;
    let s1 = a1 & 0x1F;
    vstd::bits::lemma_u32_pow2_no_overflow(s0 as nat);
    vstd::bits::lemma_u32_pow2_no_overflow(s1 as nat);
    vstd::bits::lemma_u32_shl_is_mul(1, s0);
    vstd::bits::lemma_u32_shl_is_mul(1, s1);
}

/// Leaf 0x80000008's EAX: the physical address width is its low byte and the
/// virtual address width the byte above it.
pub proof fn law_address_widths(info: CpuidAddressInfo, leaf: CpuidResult)
    requires
        info.reads(leaf),
    ensures
        info.physical_addr_bits == leaf.eax % 0x100,
        info.virtual_addr_bits == (leaf.eax / 0x100) % 0x100,
{
    let x = leaf.eax;
    assert(x & 0xFF == x % 0x100 && (x >> 8u32) & 0xFF == (x / 0x100) % 0x100) by (bit_vector);
}

/// Leaf 6's flags are single bits: the digital thermal sensor EAX bit 0, the
/// thermal monitor EAX bit 1, the performance bias EAX bit 3; hardware
/// coordination ECX bit 0, energy-performance preference ECX bit 1, turbo
/// boost max 3.0 ECX bit 2, hardware P-states ECX bit 3 and their guarantee
/// ECX bit 4.
pub proof fn law_power_info_bits(info: CpuidPowerInfo, leaf: CpuidResult)
    requires
        info.reads(leaf),
    ensures
        info.digital_thermal_sensor == (leaf.eax % 2 == 1),
        info.intel_thermal_monitor == ((leaf.eax / 2) % 2 == 1),
        info.performance_bias == ((leaf.eax / 8) % 2 == 1),
        info.hardware_coordination == (leaf.ecx % 2 == 1),
        info.energy_performance_preference == ((leaf.ecx / 2) % 2 == 1),
        info.turbo_boost_max_3 == ((leaf.ecx / 4) % 2 == 1),
        info.hardware_p_states == ((leaf.ecx / 8) % 2 == 1),
        info.hardware_p_states_guaranteed == ((leaf.ecx / 0x10) % 2 == 1),
{
    let a = leaf.eax;
    let c = leaf.ecx;
    assert({
        &&& (a & 0x1 != 0) == (a % 2 == 1)
        &&& (a & 0x2 != 0) == ((a / 2) % 2 == 1)
        &&& (a & 0x8 != 0) == ((a / 8) % 2 == 1)
        &&& (c & 0x1 != 0) == (c % 2 == 1)
        &&& (c & 0x2 != 0) == ((c / 2) % 2 == 1)
        &&& (c & 0x4 != 0) == ((c / 4) % 2 == 1)
        &&& (c & 0x8 != 0) == ((c / 8) % 2 == 1)
        &&& (c & 0x10 != 0) == ((c / 0x10) % 2 == 1)
    }) by (bit_vector);
}

/// Leaf 0x16: each frequency in MHz is the low 16 bits of its register,
/// EAX the base, EBX the maximum, ECX the bus.
pub proof fn law_frequency_fields(info: CpuidFrequencyInfo, leaf: CpuidResult)
    requires
        info.reads(leaf),
    ensures
        info.base_mhz == leaf.eax % 0x1_0000,
        info.max_mhz == leaf.ebx % 0x1_0000,
        info.bus_mhz == leaf.ecx % 0x1_0000,
{
    let a = leaf.eax;
    let b = leaf.ebx;
    let c = leaf.ecx;
    assert(a & 0xFFFF == a % 0x1_0000 && b & 0xFFFF == b % 0x1_0000 && c & 0xFFFF == c % 0x1_0000)
        by (bit_vector);
}


/// The twelve bytes of a vendor identification are EBX, then EDX, then ECX,
/// each from its lowest byte up.
pub proof fn law_vendor_bytes_order(ebx: u32, edx: u32, ecx: u32)
    ensures
        vendor_bytes(ebx, edx, ecx).len() == 12,
        vendor_bytes(ebx, edx, ecx)[0] == ebx % 0x100,
        vendor_bytes(ebx, edx, ecx)[1] == (ebx / 0x100) % 0x100,
        vendor_bytes(ebx, edx, ecx)[2] == (ebx / 0x1_0000) % 0x100,
        vendor_bytes(ebx, edx, ecx)[3] == ebx / 0x100_0000,
        vendor_bytes(ebx, edx, ecx)[4] == edx % 0x100,
        vendor_bytes(ebx, edx, ecx)[5] == (edx / 0x100) % 0x100,
        vendor_bytes(ebx, edx, ecx)[6] == (edx / 0x1_0000) % 0x100,
        vendor_bytes(ebx, edx, ecx)[7] == edx / 0x100_0000,
        vendor_bytes(ebx, edx, ecx)[8] == ecx % 0x100,
        vendor_bytes(ebx, edx, ecx)[9] == (ecx / 0x100) % 0x100,
        vendor_bytes(ebx, edx, ecx)[10] == (ecx / 0x1_0000) % 0x100,
        vendor_bytes(ebx, edx, ecx)[11] == ecx / 0x100_0000,
{
    lemma_le_bytes_of(ebx);
    lemma_le_bytes_of(edx);
    lemma_le_bytes_of(ecx);
}

proof fn lemma_le_bytes_of(x: u32)
    ensures
        (x as u8) == x % 0x100,
        ((x >> 8u32) as u8) == (x / 0x100) % 0x100,
        ((x >> 16u32) as u8) == (x / 0x1_0000) % 0x100,
        ((x >> 24u32) as u8) == x / 0x100_0000,
{
    assert((x as u8) == x % 0x100) by (bit_vector);
    assert(((x >> 8u32) as u8) == (x / 0x100) % 0x100) by (bit_vector);
    assert(((x >> 16u32) as u8) == (x / 0x1_0000) % 0x100) by (bit_vector);
    assert(((x >> 24u32) as u8) == x / 0x100_0000) by (bit_vector);
}

/// A vendor is named only by its own twelve bytes: the identification
/// reads as Intel exactly when it spells "GenuineIntel", as AMD exactly
/// when it spells "AuthenticAMD", and as one of the four known vendors only
/// when it spells that vendor's name.
pub proof fn law_vendor_named_by_its_bytes(bytes: Seq<u8>)
    ensures
        (spec_vendor(bytes) == VendorID::Intel) == (bytes == genuine_intel()),
        (spec_vendor(bytes) == VendorID::AMD) == (bytes == authentic_amd()),
        (spec_vendor(bytes) == VendorID::Cyrix) == (bytes == cyrix_instead()),
        (spec_vendor(bytes) == VendorID::Centaur) == (bytes == centaur_hauls()),
{
    assert(genuine_intel()[0] != authentic_amd()[0]);
    assert(genuine_intel()[0] != cyrix_instead()[0]);
    assert(genuine_intel()[0] != centaur_hauls()[0]);
    assert(authentic_amd()[0] != cyrix_instead()[0]);
    assert(authentic_amd()[0] != centaur_hauls()[0]);
    assert(cyrix_instead()[1] != centaur_hauls()[1]);
}

} // verus!
