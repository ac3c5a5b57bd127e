use sysplay::cpuid::extended::{
    CpuidExtendedInfo, CpuidExtendedPowerMgmt, CpuidL1CacheTlbInfo, CpuidL2CacheTlbInfo,
    ExtendedLeaves,
};
use sysplay::cpuid::features::{ExtendedFeatures, StandardFeatures};
use sysplay::cpuid::info::{cache_type_name, max_ram, CpuidBrandString, CpuidExtractor, CpuidSnapshot, RamUnit};
use sysplay::cpuid::leaves::{
    CpuidAddressInfo, CpuidBasicInfo, CpuidCacheInfo, CpuidFeatures, CpuidFrequencyInfo,
    CpuidPowerInfo, CpuidProcessorInfo, CpuidResult, CpuidTopologyInfo, CpuidTscInfo,
    ProcessorType, VendorID,
};

fn leaf(eax: u32, ebx: u32, ecx: u32, edx: u32) -> CpuidResult {
    CpuidResult { eax, ebx, ecx, edx }
}

fn brand_leaves() -> [CpuidResult; 3] {
    [
        leaf(0x65746e49, 0x2952286c, 0x726f4320, 0x4d542865),
        leaf(0x37692029, 0x3037382d, 0x43204b30, 0x40205550),
        leaf(0x372e3320, 0x7a484730, 0, 0),
    ]
}

#[test]
fn vendor_from_registers() {
    assert_eq!(VendorID::from((0x756e6547, 0x49656e69, 0x6c65746e)), VendorID::Intel);
    assert_eq!(VendorID::from((0x68747541, 0x69746e65, 0x444d4163)), VendorID::AMD);
    assert_eq!(VendorID::from((1, 2, 3)), VendorID::Unknown);
    assert_eq!(VendorID::Intel.as_str(), "Intel");
    let basic = CpuidBasicInfo::from_leaf0(leaf(0x16, 0x756e6547, 0x6c65746e, 0x49656e69));
    assert_eq!(basic.max_leaf, 0x16);
    assert_eq!(&basic.vendor_string, b"GenuineIntel");
    assert_eq!(basic.vendor_id, VendorID::Intel);
}

#[test]
fn processor_fields() {
    let p = CpuidProcessorInfo::from(leaf(0x000906EA, 0, 0, 0));
    assert_eq!(p.stepping, 0xA);
    assert_eq!(p.model, 0xE);
    assert_eq!(p.family, 6);
    assert_eq!(p.processor_type, ProcessorType::OriginalOEM);
    assert_eq!(p.extended_model, 9);
    assert_eq!(p.extended_family, 0);
    assert_eq!(p.brand_index, 0);
    let q = CpuidProcessorInfo::from(leaf(0x2000, 0, 0, 0));
    assert_eq!(q.processor_type, ProcessorType::DualCapable);
    assert_eq!(q.processor_type.as_str(), "Dual Capable");
}

#[test]
fn cache_size_formula() {
    let c = CpuidCacheInfo::from(leaf(0x21, 0x01C0003F, 63, 0));
    assert_eq!(c.cache_type, 1);
    assert_eq!(c.cache_level, 1);
    assert_eq!(c.line_size_bytes, 64);
    assert_eq!(c.partitions, 1);
    assert_eq!(c.ways_of_associativity, 8);
    assert_eq!(c.sets, 64);
    assert_eq!(c.cache_size_kb, 32);
}

#[test]
fn topology_masks() {
    let t = CpuidTopologyInfo::from_leaves(leaf(1, 0, 0, 0), leaf(4, 0, 0, 0));
    assert_eq!(t.smt_shift, 1);
    assert_eq!(t.smt_mask, 1);
    assert_eq!(t.core_shift, 4);
    assert_eq!(t.core_mask, 15);
}

#[test]
fn small_leaves() {
    let a = CpuidAddressInfo::from(leaf(0x3027, 0, 0, 0));
    assert_eq!(a.physical_addr_bits, 39);
    assert_eq!(a.virtual_addr_bits, 48);
    let p = CpuidPowerInfo::from(leaf(0x9, 0, 0x12, 0));
    assert!(p.digital_thermal_sensor);
    assert!(!p.intel_thermal_monitor);
    assert!(p.performance_bias);
    assert!(!p.hardware_coordination);
    assert!(p.energy_performance_preference);
    assert!(p.hardware_p_states_guaranteed);
    let f = CpuidFrequencyInfo::from(leaf(0x1_0E74, 4700, 100, 7));
    assert_eq!(f.base_mhz, 0x0E74);
    assert_eq!(f.max_mhz, 4700);
    assert_eq!(f.bus_mhz, 100);
    assert_eq!(f.edx, 7);
    assert!(f.is_valid());
    assert!(!CpuidFrequencyInfo::from(leaf(0, 0, 0, 9)).is_valid());
    let t = CpuidTscInfo::from(leaf(2, 188, 24_000_000, 0));
    assert_eq!(t.denominator, 2);
    assert_eq!(t.numerator, 188);
    assert_eq!(t.nominal_frequency, 24_000_000);
}

#[test]
fn feature_words() {
    let f = CpuidFeatures::from_leaves(leaf(1, 2, 3, 4), leaf(5, 6, 7, 8), leaf(9, 10, 11, 12));
    assert_eq!(f.standard_edx, 4);
    assert_eq!(f.extended_ecx, 3);
    assert_eq!(f.extended_7_ebx, 6);
    assert_eq!(f.extended_7_ecx, 7);
    assert_eq!(f.extended_7_edx, 8);
    assert_eq!(f.extended_7_1_eax, 9);
    assert_eq!(f.extended_7_1_edx, 12);
    assert_eq!(StandardFeatures(0b11).names(), vec!["FPU", "VME"]);
    assert_eq!(ExtendedFeatures(1).names(), vec!["SSE3"]);
    assert!(StandardFeatures(0).names().is_empty());
}

#[test]
fn brand_string_round_trip() {
    let b = CpuidBrandString::from_leaves(brand_leaves());
    assert_eq!(&b.brand[0..4], b"Inte");
    assert_eq!(b.as_str().unwrap(), "Intel(R) Core(TM) i7-8700K CPU @ 3.70GHz");
    let mut bad = b.clone();
    bad.brand[0] = 0xFF;
    assert!(bad.as_str().is_err());
    let empty = CpuidBrandString { brand: [0u8; 48] };
    assert_eq!(empty.as_str().unwrap(), "");
}

#[test]
fn extended_decodes() {
    let l1 = CpuidL1CacheTlbInfo::from(leaf(0, 0, 0x2008_0140, 0x2004_0140));
    assert_eq!(l1.l1_data_cache_size, 32);
    assert_eq!(l1.l1_data_cache_associativity, 8);
    assert_eq!(l1.l1_data_cache_lines_per_tag, 1);
    assert_eq!(l1.l1_data_cache_line_size, 64);
    assert_eq!(l1.l1_instruction_cache_associativity, 4);
    let l2 = CpuidL2CacheTlbInfo::from(leaf(0x0044_2200, 0x0066_0400, 0x0200_6140, 0));
    assert_eq!(l2.l2_cache_size, 512);
    assert_eq!(l2.l2_cache_associativity, 6);
    assert_eq!(l2.l2_cache_line_size, 64);
    assert_eq!(l2.l2_tlb_2m_4m_associativity, 0x44);
    assert_eq!(l2.l2_tlb_2m_4m_entries, 0x2200);
    assert_eq!(l2.l2_tlb_4k_associativity, 0x66);
    assert_eq!(l2.l2_tlb_4k_entries, 0x400);
    let pm = CpuidExtendedPowerMgmt::from(leaf(0, 0, 0, 0x100));
    assert!(pm.invariant_tsc);
    assert!(!pm.thermal_monitor);
    assert!(!pm.tsc_scale);
}

fn ext_leaves() -> ExtendedLeaves {
    ExtendedLeaves {
        features: leaf(0, 0, 0x121, 0x2C10_0800),
        l1_cache_tlb: leaf(0, 0, 0x2008_0140, 0x2004_0140),
        l2_cache_tlb: leaf(0, 0, 0x0200_6140, 0),
        power_management: leaf(0, 0, 0, 0x100),
        memory_encryption: leaf(1, 2, 3, 4),
    }
}

#[test]
fn extended_present_by_max_leaf() {
    let info = CpuidExtendedInfo::from_max_leaf(0x8000_0008, &ext_leaves());
    assert_eq!(info.max_extended_leaf, 0x8000_0008);
    assert_eq!(info.extended_features.unwrap().ecx, 0x121);
    assert!(info.l1_cache_tlb.is_some());
    assert!(info.l2_cache_tlb.is_some());
    assert!(info.power_management.unwrap().invariant_tsc);
    assert!(info.memory_encryption.is_none());
    let low = CpuidExtendedInfo::from_max_leaf(0x8000_0004, &ext_leaves());
    assert!(low.extended_features.is_some());
    assert!(low.l1_cache_tlb.is_none());
    let all = CpuidExtendedInfo::from_max_leaf(0x8000_001F, &ext_leaves());
    assert_eq!(all.memory_encryption.unwrap().edx, 4);
}

fn snapshot(max_leaf: u32) -> CpuidSnapshot {
    let mut cache = [leaf(0, 0, 0, 0); 10];
    cache[0] = leaf(0x21, 0x01C0003F, 63, 0);
    cache[2] = leaf(0x43, 0x00C0003F, 1023, 0);
    CpuidSnapshot {
        leaf0: leaf(max_leaf, 0x756e6547, 0x6c65746e, 0x49656e69),
        leaf1: leaf(0x000906EA, 0, 0x8010_0000, 0x1000_0000),
        leaf7_0: leaf(0, 0x0001_0020, 0, 0),
        leaf7_1: leaf(0x77, 0, 0, 0),
        brand: brand_leaves(),
        cache,
        topology_1f: [leaf(2, 0, 0, 0), leaf(5, 0, 0, 0)],
        topology_b: [leaf(1, 0, 0, 0), leaf(4, 0, 0, 0)],
        address: leaf(0x3027, 0, 0, 0),
        power: leaf(1, 0, 0, 0),
        frequency: leaf(3700, 4700, 100, 0),
        tsc: leaf(0, 0, 0, 0),
        max_extended_leaf: 0x8000_0008,
        extended: ext_leaves(),
    }
}

#[test]
fn assemble_report() {
    let info = CpuidExtractor::assemble(&snapshot(0x16));
    assert_eq!(info.basic.vendor_id, VendorID::Intel);
    assert_eq!(info.features.extended_7_1_eax, 0x77);
    assert!(info.cache[0].is_some());
    assert!(info.cache[1].is_none());
    assert_eq!(info.cache[2].unwrap().cache_level, 2);
    assert_eq!(info.topology.unwrap().core_mask, 15);
    assert!(info.address.is_none());
    assert!(!info.supports_64bit());
    assert!(info.power.is_some());
    assert_eq!(info.frequency.unwrap().base_mhz, 3700);
    assert!(info.tsc.is_none());
    assert!(info.extended.l2_cache_tlb.is_some());
    assert_eq!(info.get_total_logical_cores(), Some(32));
    assert_eq!(info.get_l1_cache().unwrap().cache_size_kb, 32);
    assert_eq!(info.get_l2_cache().unwrap().sets, 1024);
    assert!(info.get_l3_cache().is_none());
    assert!(info.has_avx2());
    assert!(info.has_avx512f());
    assert!(info.has_sse4_2());
    assert!(!info.has_aes_ni());
    assert!(!info.has_rdrand());
    assert!(info.is_virtualized());
    assert!(info.has_hyperthreading());
    assert_eq!(info.brand.as_str().unwrap(), "Intel(R) Core(TM) i7-8700K CPU @ 3.70GHz");
}

#[test]
fn assemble_by_max_leaf() {
    let old = CpuidExtractor::assemble(&snapshot(5));
    assert_eq!(old.features.extended_7_1_eax, 0);
    assert!(old.topology.is_none());
    assert!(old.power.is_none());
    assert!(old.frequency.is_none());
    assert_eq!(old.get_total_logical_cores(), None);
    let new = CpuidExtractor::assemble(&snapshot(0x20));
    assert_eq!(new.topology.unwrap().core_shift, 5);
    assert_eq!(new.get_total_logical_cores(), Some(4 * 32));
    let huge = CpuidExtractor::assemble(&snapshot(0x8000_0008));
    assert!(huge.supports_64bit());
}

#[test]
fn dump_helpers() {
    assert_eq!(cache_type_name(1), "Data");
    assert_eq!(cache_type_name(2), "Instruction");
    assert_eq!(cache_type_name(3), "Unified");
    assert_eq!(cache_type_name(9), "Unknown");
    assert_eq!(max_ram(39), (549, RamUnit::Gigabytes));
    assert_eq!(max_ram(46), (70, RamUnit::Terabytes));
    assert_eq!(max_ram(20), (1, RamUnit::Megabytes));
    assert_eq!(max_ram(10), (1, RamUnit::Kilobytes));
    assert_eq!(max_ram(3), (8, RamUnit::Bytes));
}
