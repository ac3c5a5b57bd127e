//! The extended leaves, 0x80000000 and above.
use vstd::prelude::*;
use crate::cpuid::leaves::CpuidResult;

verus! {

#[derive(Debug, Clone, Copy)]
pub struct CpuidExtendedFeatures {
    pub eax: u32,
    pub ebx: u32,
    pub ecx: u32,
    pub edx: u32,
}

impl CpuidExtendedFeatures {
    /// What a decode of these registers holds.
    pub open spec fn reads(self, leaf: CpuidResult) -> bool {
        &&& self.eax == leaf.eax && self.ebx == leaf.ebx && self.ecx == leaf.ecx && self.edx == leaf.edx
    }

    /// Leaf 0x80000001, kept as its four registers.
    pub fn from(leaf: CpuidResult) -> (r: CpuidExtendedFeatures)
        ensures
            r.reads(leaf),
    {
        CpuidExtendedFeatures { eax: leaf.eax, ebx: leaf.ebx, ecx: leaf.ecx, edx: leaf.edx }
    }
}

/// Leaf 0x80000005: the L1 data cache (ECX) and instruction cache (EDX).
#[derive(Debug, Clone, Copy)]
pub struct CpuidL1CacheTlbInfo {
    pub eax: u32,
    pub ebx: u32,
    pub ecx: u32,
    pub edx: u32,
    pub l1_data_cache_size: u32,
    pub l1_data_cache_associativity: u32,
    pub l1_data_cache_lines_per_tag: u32,
    pub l1_data_cache_line_size: u32,
    pub l1_instruction_cache_size: u32,
    pub l1_instruction_cache_associativity: u32,
    pub l1_instruction_cache_lines_per_tag: u32,
    pub l1_instruction_cache_line_size: u32,
}

impl CpuidL1CacheTlbInfo {
    /// What a decode of these registers holds.
    pub open spec fn reads(self, leaf: CpuidResult) -> bool {
        &&& self.eax == leaf.eax && self.ebx == leaf.ebx && self.ecx == leaf.ecx && self.edx == leaf.edx
        &&& self.l1_data_cache_size == (leaf.ecx >> 24u32) & 0xFF
        &&& self.l1_data_cache_associativity == (leaf.ecx >> 16u32) & 0xFF
        &&& self.l1_data_cache_lines_per_tag == (leaf.ecx >> 8u32) & 0xFF
        &&& self.l1_data_cache_line_size == leaf.ecx & 0xFF
        &&& self.l1_instruction_cache_size == (leaf.edx >> 24u32) & 0xFF
        &&& self.l1_instruction_cache_associativity == (leaf.edx >> 16u32) & 0xFF
        &&& self.l1_instruction_cache_lines_per_tag == (leaf.edx >> 8u32) & 0xFF
        &&& self.l1_instruction_cache_line_size == leaf.edx & 0xFF
    }

    /// Each register holds, from the top byte down: size in KiB,
    /// associativity, lines per tag and line size.
    pub fn from(leaf: CpuidResult) -> (r: CpuidL1CacheTlbInfo)
        ensures
            r.reads(leaf),
    {
        proof {
            crate::arith::lemma_and_le(leaf.ecx >> 24u32, 0xFF);
            crate::arith::lemma_and_le(leaf.edx >> 24u32, 0xFF);
        }
        let data_cache_size = ((leaf.ecx >> 24u32) & 0xFF) * 1024 / 1024;
        let inst_cache_size = ((leaf.edx >> 24u32) & 0xFF) * 1024 / 1024;
        CpuidL1CacheTlbInfo {
            eax: leaf.eax,
            ebx: leaf.ebx,
            ecx: leaf.ecx,
            edx: leaf.edx,
            l1_data_cache_size: data_cache_size,
            l1_data_cache_associativity: (leaf.ecx >> 16u32) & 0xFF,
            l1_data_cache_lines_per_tag: (leaf.ecx >> 8u32) & 0xFF,
            l1_data_cache_line_size: leaf.ecx & 0xFF,
            l1_instruction_cache_size: inst_cache_size,
            l1_instruction_cache_associativity: (leaf.edx >> 16u32) & 0xFF,
            l1_instruction_cache_lines_per_tag: (leaf.edx >> 8u32) & 0xFF,
            l1_instruction_cache_line_size: leaf.edx & 0xFF,
        }
    }
}

/// A register is its four bytes, from the top down.
proof fn lemma_four_bytes(x: u32)
    ensures
        x == ((x >> 24u32) & 0xFF) * 0x100_0000 + ((x >> 16u32) & 0xFF) * 0x1_0000 + ((x >> 8u32)
            & 0xFF) * 0x100 + (x & 0xFF),
        (x >> 24u32) & 0xFF < 0x100,
        (x >> 16u32) & 0xFF < 0x100,
        (x >> 8u32) & 0xFF < 0x100,
        x & 0xFF < 0x100,
{
    assert({
        &&& x == ((x >> 24u32) & 0xFF) * 0x100_0000 + ((x >> 16u32) & 0xFF) * 0x1_0000 + ((x >> 8u32)
            & 0xFF) * 0x100 + (x & 0xFF)
        &&& (x >> 24u32) & 0xFF < 0x100
        &&& (x >> 16u32) & 0xFF < 0x100
        &&& (x >> 8u32) & 0xFF < 0x100
        &&& x & 0xFF < 0x100
    }) by (bit_vector);
}

/// The L1 fields are the bytes of their registers: ECX, from its top byte
/// down, is the data cache's size in KiB, associativity, lines per tag and
/// line size, and EDX holds the instruction cache's four fields in the same
/// places.
pub proof fn law_l1_fields_are_register_bytes(info: CpuidL1CacheTlbInfo, leaf: CpuidResult)
    requires
        info.reads(leaf),
    ensures
        info.l1_data_cache_size < 0x100,
        info.l1_data_cache_associativity < 0x100,
        info.l1_data_cache_lines_per_tag < 0x100,
        info.l1_data_cache_line_size < 0x100,
        info.l1_instruction_cache_size < 0x100,
        info.l1_instruction_cache_associativity < 0x100,
        info.l1_instruction_cache_lines_per_tag < 0x100,
        info.l1_instruction_cache_line_size < 0x100,
        leaf.ecx == info.l1_data_cache_size * 0x100_0000 + info.l1_data_cache_associativity * 0x1_0000
            + info.l1_data_cache_lines_per_tag * 0x100 + info.l1_data_cache_line_size,
        leaf.edx == info.l1_instruction_cache_size * 0x100_0000 + info.l1_instruction_cache_associativity
            * 0x1_0000 + info.l1_instruction_cache_lines_per_tag * 0x100
            + info.l1_instruction_cache_line_size,
{
    lemma_four_bytes(leaf.ecx);
    lemma_four_bytes(leaf.edx);
}

/// The instruction cache is read from EDX just as the data cache is read
/// from ECX: where the two registers agree, so do the two caches' fields.
pub proof fn law_l1_caches_read_alike(a: CpuidL1CacheTlbInfo, leaf: CpuidResult)
    requires
        a.reads(leaf),
        leaf.ecx == leaf.edx,
    ensures
        a.l1_instruction_cache_size == a.l1_data_cache_size,
        a.l1_instruction_cache_associativity == a.l1_data_cache_associativity,
        a.l1_instruction_cache_lines_per_tag == a.l1_data_cache_lines_per_tag,
        a.l1_instruction_cache_line_size == a.l1_data_cache_line_size,
{
}

/// Leaf 0x80000006: the L2 cache (ECX) and the L2 TLBs (EAX, EBX).
#[derive(Debug, Clone, Copy)]
pub struct CpuidL2CacheTlbInfo {
    pub eax: u32,
    pub ebx: u32,
    pub ecx: u32,
    pub edx: u32,
    pub l2_cache_size: u32,
    pub l2_cache_associativity: u32,
    pub l2_cache_line_size: u32,
    pub l2_tlb_2m_4m_associativity: u32,
    pub l2_tlb_2m_4m_entries: u32,
    pub l2_tlb_4k_associativity: u32,
    pub l2_tlb_4k_entries: u32,
}

impl CpuidL2CacheTlbInfo {
    /// What a decode of these registers holds.
    pub open spec fn reads(self, leaf: CpuidResult) -> bool {
        &&& self.eax == leaf.eax && self.ebx == leaf.ebx && self.ecx == leaf.ecx && self.edx == leaf.edx
        &&& self.l2_cache_size == (leaf.ecx >> 16u32) & 0xFFFF
        &&& self.l2_cache_associativity == (leaf.ecx >> 12u32) & 0xF
        &&& self.l2_cache_line_size == leaf.ecx & 0xFF
        &&& self.l2_tlb_2m_4m_associativity == (leaf.eax >> 16u32) & 0xFF
        &&& self.l2_tlb_2m_4m_entries == leaf.eax & 0xFFFF
        &&& self.l2_tlb_4k_associativity == (leaf.ebx >> 16u32) & 0xFF
        &&& self.l2_tlb_4k_entries == leaf.ebx & 0xFFFF
    }

    pub fn from(leaf: CpuidResult) -> (r: CpuidL2CacheTlbInfo)
        ensures
            r.reads(leaf),
    {
        proof {
            crate::arith::lemma_and_le(leaf.ecx >> 16u32, 0xFFFF);
        }
        let cache_size = ((leaf.ecx >> 16u32) & 0xFFFF) * 1024 / 1024;
        CpuidL2CacheTlbInfo {
            eax: leaf.eax,
            ebx: leaf.ebx,
            ecx: leaf.ecx,
            edx: leaf.edx,
            l2_cache_size: cache_size,
            l2_cache_associativity: (leaf.ecx >> 12u32) & 0xF,
            l2_cache_line_size: leaf.ecx & 0xFF,
            l2_tlb_2m_4m_associativity: (leaf.eax >> 16u32) & 0xFF,
            l2_tlb_2m_4m_entries: leaf.eax & 0xFFFF,
            l2_tlb_4k_associativity: (leaf.ebx >> 16u32) & 0xFF,
            l2_tlb_4k_entries: leaf.ebx & 0xFFFF,
        }
    }
}

/// The L2 fields are the bit fields of their registers: ECX holds, from the
/// top down, the cache size in KiB in 16 bits, the associativity in 4, 4
/// bits not decoded and the line size in 8; EAX and EBX each hold a TLB's
/// associativity in bits 16 to 23 and its entries in the low 16 bits.
pub proof fn law_l2_fields_are_register_bits(info: CpuidL2CacheTlbInfo, leaf: CpuidResult)
    requires
        info.reads(leaf),
    ensures
        info.l2_cache_size < 0x1_0000,
        info.l2_cache_associativity < 0x10,
        info.l2_cache_line_size < 0x100,
        leaf.ecx == info.l2_cache_size * 0x1_0000 + info.l2_cache_associativity * 0x1000 + ((leaf.ecx
            / 0x100) % 0x10) * 0x100 + info.l2_cache_line_size,
        info.l2_tlb_2m_4m_associativity < 0x100,
        info.l2_tlb_2m_4m_entries < 0x1_0000,
        leaf.eax % 0x100_0000 == info.l2_tlb_2m_4m_associativity * 0x1_0000 + info.l2_tlb_2m_4m_entries,
        info.l2_tlb_4k_associativity < 0x100,
        info.l2_tlb_4k_entries < 0x1_0000,
        leaf.ebx % 0x100_0000 == info.l2_tlb_4k_associativity * 0x1_0000 + info.l2_tlb_4k_entries,
{
    let c = leaf.ecx;
    let a = leaf.eax;
    let b = leaf.ebx;
    assert(c == ((c >> 16u32) & 0xFFFF) * 0x1_0000 + ((c >> 12u32) & 0xF) * 0x1000 + ((c / 0x100)
        % 0x10) * 0x100 + (c & 0xFF)) by (bit_vector);
    assert((c >> 16u32) & 0xFFFF < 0x1_0000 && (c >> 12u32) & 0xF < 0x10 && c & 0xFF < 0x100)
        by (bit_vector);
    assert(a % 0x100_0000 == ((a >> 16u32) & 0xFF) * 0x1_0000 + (a & 0xFFFF)) by (bit_vector);
    assert((a >> 16u32) & 0xFF < 0x100 && a & 0xFFFF < 0x1_0000) by (bit_vector);
    assert(b % 0x100_0000 == ((b >> 16u32) & 0xFF) * 0x1_0000 + (b & 0xFFFF)) by (bit_vector);
    assert((b >> 16u32) & 0xFF < 0x100 && b & 0xFFFF < 0x1_0000) by (bit_vector);
}

/// Leaf 0x80000007: advanced power management, decoded from EDX.
#[derive(Debug, Clone, Copy)]
pub struct CpuidExtendedPowerMgmt {
    pub eax: u32,
    pub ebx: u32,
    pub ecx: u32,
    pub edx: u32,
    pub invariant_tsc: bool,
    pub thermal_monitor: bool,
    pub software_thermal_control: bool,
    pub hardware_thermal_control: bool,
    pub performance_status: bool,
    pub hardware_p_state: bool,
    pub software_p_state: bool,
    pub tsc_scale: bool,
}

impl CpuidExtendedPowerMgmt {
    /// What a decode of these registers holds.
    pub open spec fn reads(self, leaf: CpuidResult) -> bool {
        &&& self.eax == leaf.eax && self.ebx == leaf.ebx && self.ecx == leaf.ecx && self.edx == leaf.edx
        &&& self.invariant_tsc == (leaf.edx & 0x100 != 0)
        &&& self.thermal_monitor == (leaf.edx & 0x1 != 0)
        &&& self.software_thermal_control == (leaf.edx & 0x2 != 0)
        &&& self.hardware_thermal_control == (leaf.edx & 0x4 != 0)
        &&& self.performance_status == (leaf.edx & 0x8 != 0)
        &&& self.hardware_p_state == (leaf.edx & 0x10 != 0)
        &&& self.software_p_state == (leaf.edx & 0x20 != 0)
        &&& self.tsc_scale == (leaf.edx & 0x40 != 0)
    }

    pub fn from(leaf: CpuidResult) -> (r: CpuidExtendedPowerMgmt)
        ensures
            r.reads(leaf),
    {
        let edx = leaf.edx;
        CpuidExtendedPowerMgmt {
            eax: leaf.eax,
            ebx: leaf.ebx,
            ecx: leaf.ecx,
            edx: leaf.edx,
            invariant_tsc: (edx & 0x100) != 0,
            thermal_monitor: (edx & 0x1) != 0,
            software_thermal_control: (edx & 0x2) != 0,
            hardware_thermal_control: (edx & 0x4) != 0,
            performance_status: (edx & 0x8) != 0,
            hardware_p_state: (edx & 0x10) != 0,
            software_p_state: (edx & 0x20) != 0,
            tsc_scale: (edx & 0x40) != 0,
        }
    }
}

/// Each power-management flag is one bit of EDX: thermal monitoring bit 0,
/// software thermal control bit 1, hardware thermal control bit 2,
/// performance status bit 3, hardware P-states bit 4, software P-states
/// bit 5, TSC scaling bit 6 and the invariant TSC bit 8.
pub proof fn law_power_flags_are_edx_bits(info: CpuidExtendedPowerMgmt, leaf: CpuidResult)
    requires
        info.reads(leaf),
    ensures
        info.thermal_monitor == (leaf.edx % 2 == 1),
        info.software_thermal_control == ((leaf.edx / 2) % 2 == 1),
        info.hardware_thermal_control == ((leaf.edx / 4) % 2 == 1),
        info.performance_status == ((leaf.edx / 8) % 2 == 1),
        info.hardware_p_state == ((leaf.edx / 0x10) % 2 == 1),
        info.software_p_state == ((leaf.edx / 0x20) % 2 == 1),
        info.tsc_scale == ((leaf.edx / 0x40) % 2 == 1),
        info.invariant_tsc == ((leaf.edx / 0x100) % 2 == 1),
{
    let x = leaf.edx;
    assert({
        &&& (x & 0x1 != 0) == (x % 2 == 1)
        &&& (x & 0x2 != 0) == ((x / 2) % 2 == 1)
        &&& (x & 0x4 != 0) == ((x / 4) % 2 == 1)
        &&& (x & 0x8 != 0) == ((x / 8) % 2 == 1)
        &&& (x & 0x10 != 0) == ((x / 0x10) % 2 == 1)
        &&& (x & 0x20 != 0) == ((x / 0x20) % 2 == 1)
        &&& (x & 0x40 != 0) == ((x / 0x40) % 2 == 1)
        &&& (x & 0x100 != 0) == ((x / 0x100) % 2 == 1)
    }) by (bit_vector);
}

/// Leaf 0x8000001F, kept as its four registers.
#[derive(Debug, Clone, Copy)]
pub struct CpuidMemEncryptionInfo {
    pub eax: u32,
    pub ebx: u32,
    pub ecx: u32,
    pub edx: u32,
}

impl CpuidMemEncryptionInfo {
    /// What a decode of these registers holds.
    pub open spec fn reads(self, leaf: CpuidResult) -> bool {
        &&& self.eax == leaf.eax && self.ebx == leaf.ebx && self.ecx == leaf.ecx && self.edx == leaf.edx
    }

    pub fn from(leaf: CpuidResult) -> (r: CpuidMemEncryptionInfo)
        ensures
            r.reads(leaf),
    {
        CpuidMemEncryptionInfo { eax: leaf.eax, ebx: leaf.ebx, ecx: leaf.ecx, edx: leaf.edx }
    }
}

/// The extended leaves as read from the processor.
#[derive(Debug, Clone, Copy)]
pub struct ExtendedLeaves {
    pub features: CpuidResult,
    pub l1_cache_tlb: CpuidResult,
    pub l2_cache_tlb: CpuidResult,
    pub power_management: CpuidResult,
    pub memory_encryption: CpuidResult,
}

pub const EXT_FEATURES_LEAF: u32 = 0x8000_0001;
pub const EXT_L1_LEAF: u32 = 0x8000_0005;
pub const EXT_L2_LEAF: u32 = 0x8000_0006;
pub const EXT_POWER_LEAF: u32 = 0x8000_0007;
pub const EXT_ENCRYPTION_LEAF: u32 = 0x8000_001F;

#[derive(Debug, Clone, Copy)]
pub struct CpuidExtendedInfo {
    pub max_extended_leaf: u32,
    pub extended_features: Option<CpuidExtendedFeatures>,
    pub l1_cache_tlb: Option<CpuidL1CacheTlbInfo>,
    pub l2_cache_tlb: Option<CpuidL2CacheTlbInfo>,
    pub power_management: Option<CpuidExtendedPowerMgmt>,
    pub memory_encryption: Option<CpuidMemEncryptionInfo>,
}

impl CpuidExtendedInfo {
    /// What the decode of the extended leaves holds.
    pub open spec fn reads(self, max_ext: u32, leaves: ExtendedLeaves) -> bool {
        &&& self.max_extended_leaf == max_ext
        &&& self.extended_features is Some <==> max_ext >= EXT_FEATURES_LEAF
        &&& self.l1_cache_tlb is Some <==> max_ext >= EXT_L1_LEAF
        &&& self.l2_cache_tlb is Some <==> max_ext >= EXT_L2_LEAF
        &&& self.power_management is Some <==> max_ext >= EXT_POWER_LEAF
        &&& self.memory_encryption is Some <==> max_ext >= EXT_ENCRYPTION_LEAF
        &&& self.extended_features matches Some(f) ==> f.reads(leaves.features)
        &&& self.l1_cache_tlb matches Some(l1) ==> l1.reads(leaves.l1_cache_tlb)
        &&& self.l2_cache_tlb matches Some(l2) ==> l2.reads(leaves.l2_cache_tlb)
        &&& self.power_management matches Some(p) ==> p.reads(leaves.power_management)
        &&& self.memory_encryption matches Some(m) ==> m.reads(leaves.memory_encryption)
    }

    /// Decodes each extended leaf that the largest extended leaf number
    /// `max_ext` admits; the others are absent.
    pub fn from_max_leaf(max_ext: u32, leaves: &ExtendedLeaves) -> (r: CpuidExtendedInfo)
        ensures
            r.reads(max_ext, *leaves),
    {
        let mut info = CpuidExtendedInfo {
            max_extended_leaf: max_ext,
            extended_features: None,
            l1_cache_tlb: None,
            l2_cache_tlb: None,
            power_management: None,
            memory_encryption: None,
        };
        if max_ext >= EXT_FEATURES_LEAF {
            info.extended_features = Some(CpuidExtendedFeatures::from(leaves.features));
        }
        if max_ext >= EXT_L1_LEAF {
            info.l1_cache_tlb = Some(CpuidL1CacheTlbInfo::from(leaves.l1_cache_tlb));
        }
        if max_ext >= EXT_L2_LEAF {
            info.l2_cache_tlb = Some(CpuidL2CacheTlbInfo::from(leaves.l2_cache_tlb));
        }
        if max_ext >= EXT_POWER_LEAF {
            info.power_management = Some(CpuidExtendedPowerMgmt::from(leaves.power_management));
        }
        if max_ext >= EXT_ENCRYPTION_LEAF {
            info.memory_encryption = Some(CpuidMemEncryptionInfo::from(leaves.memory_encryption));
        }
        info
    }
}

} // verus!
