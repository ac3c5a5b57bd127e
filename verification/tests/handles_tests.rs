use sysplay::handles::error::NtApiError;
use sysplay::handles::handle::{HandleInfo, SystemHandleIterator, STATUS_INFO_LENGTH_MISMATCH};
use sysplay::handles::modules::{SystemModuleInfo, SystemModuleIterator};
use sysplay::handles::utils::{
    dos_drive_letter, dos_full_path, is_unmapped_device, parse_file_name_information, unicode_to_string,
    FileName,
};

#[test]
fn handle_entry_fields() {
    let h = HandleInfo {
        object: 0xffff_8000_1234_0000,
        unique_process_id: 0x1_0000_0005,
        handle_value: 0x44,
        granted_access: 0x1f_ffff,
        creator_back_trace_index: 0,
        object_type_index: 37,
        handle_attributes: 2,
    };
    assert_eq!(h.process_id(), 5);
    assert_eq!(h.object(), 0xffff_8000_1234_0000);
    assert_eq!(h.handle_value(), 0x44);
    assert_eq!(h.object_type_index(), 37);
    assert_eq!(h.handle_attributes(), 2);
    assert_eq!(h.granted_access(), 0x1f_ffff);
    assert!(h.is_valid());
    assert!(!HandleInfo { handle_value: 0, ..h }.is_valid());
}

#[test]
fn handle_query_answers() {
    assert_eq!(
        SystemHandleIterator::new(STATUS_INFO_LENGTH_MISMATCH, 9_000_000, 0).err(),
        Some(NtApiError::BufferTooSmall { needed: 9_000_000, available: 7_500_000 })
    );
    assert_eq!(SystemHandleIterator::new(-1, 0, 0).err(), Some(NtApiError::QueryFailed(-1)));
    assert_eq!(
        SystemHandleIterator::new(0, 0, 200_000).err(),
        Some(NtApiError::BufferTooSmall { needed: 8_000_016, available: 7_500_000 })
    );
    let mut it = SystemHandleIterator::new(0, 0, 2).unwrap();
    assert_eq!(it.total_count(), 2);
    assert_eq!(it.next_index(), Some(0));
    assert_eq!(it.next_index(), Some(1));
    assert_eq!(it.next_index(), None);
}

#[test]
fn module_query_and_paths() {
    assert_eq!(SystemModuleIterator::new(-5, 3).err(), Some(-5));
    let mut it = SystemModuleIterator::new(0, 1).unwrap();
    assert_eq!(it.total_count(), 1);
    assert_eq!(it.next_index(), Some(0));
    assert_eq!(it.next_index(), None);

    let path = b"\\SystemRoot\\system32\\ntoskrnl.exe";
    let mut field = [0u8; 256];
    field[..path.len()].copy_from_slice(path);
    let m = SystemModuleInfo::new(0xfffff800_00000000, 0x1000, field, 21);
    assert_eq!(m.image_base(), 0xfffff800_00000000);
    assert_eq!(m.image_size(), 0x1000);
    let p = m.file_path();
    assert_eq!(p.full_path(), "\\SystemRoot\\system32\\ntoskrnl.exe");
    assert_eq!(p.file_name(), "ntoskrnl.exe");
    let far = SystemModuleInfo::new(0, 0, field, 200).file_path();
    assert_eq!(far.file_name(), "");
    let full = SystemModuleInfo::new(0, 0, [b'a'; 256], 250).file_path();
    assert_eq!(full.full_path().len(), 256);
    assert_eq!(full.file_name(), "aaaaaa");
}

#[test]
fn drive_letter_of_a_link() {
    assert_eq!(
        dos_drive_letter("C:", "\\Device\\HarddiskVolume3\\", "\\device\\harddiskvolume3"),
        Some('C')
    );
    assert_eq!(dos_drive_letter("Global", "\\Device\\HarddiskVolume3", "\\Device\\HarddiskVolume3"), None);
    assert_eq!(dos_drive_letter("D:", "\\Device\\HarddiskVolume4", "\\Device\\HarddiskVolume3"), None);
    assert_eq!(dos_drive_letter("E:", "\\Device\\Cdrom0\\\\", "\\Device\\CDROM0"), Some('E'));
    assert_eq!(dos_drive_letter("", "", ""), None);
}

#[test]
fn devices_without_letters() {
    assert!(is_unmapped_device("\\Device\\ConDrv\\Connect"));
    assert!(is_unmapped_device("\\Device\\Null"));
    assert!(is_unmapped_device("\\Device\\NamedPipe\\x"));
    assert!(!is_unmapped_device("\\Device\\HarddiskVolume3\\x"));
    assert!(!is_unmapped_device("\\Device\\Nul"));
}

#[test]
fn full_dos_path() {
    assert_eq!(dos_full_path('D', "\\\\Users\\x.txt").as_str(), "D:\\Users\\x.txt");
    assert_eq!(dos_full_path('C', "").as_str(), "C:\\");
    let long = "a".repeat(300);
    assert_eq!(dos_full_path('C', &long).as_str().len(), 256);
}

#[test]
fn counted_strings() {
    assert_eq!(unicode_to_string(6, Some(&[0x61, 0x62, 0x63, 0x64])), "abc");
    assert_eq!(unicode_to_string(7, Some(&[0x61, 0x62, 0x63, 0x64])), "abc");
    assert_eq!(unicode_to_string(0, Some(&[0x61])), "");
    assert_eq!(unicode_to_string(4, None), "");
    assert_eq!(unicode_to_string(4, Some(&[0xD800, 0x62])), "b");
}

#[test]
fn file_name_records() {
    let rec = [6u8, 0, 0, 0, b'a', 0, b'b', 0, b'c', 0, 9, 9];
    assert_eq!(parse_file_name_information(&rec), Some("abc".to_string()));
    assert_eq!(parse_file_name_information(&[7, 0, 0, 0, b'x', 0, b'y', 0, b'z', 0]), Some("xyz".to_string()));
    assert_eq!(parse_file_name_information(&[8, 0, 0, 0, b'x', 0]), None);
    assert_eq!(parse_file_name_information(&[0, 0, 0]), None);
    assert_eq!(parse_file_name_information(&[0, 0, 0, 0]), Some(String::new()));
}

#[test]
fn names_from_utf16_keep_whole_characters() {
    let units: Vec<u16> = "€".repeat(100).encode_utf16().collect();
    let n = FileName::from_units(&units);
    assert_eq!(n.as_str(), "€".repeat(85));
    assert_eq!(FileName::from_units(&[0x43, 0x3A, 0xDC00, 0x5C]).as_str(), "C:\\");
}
