use sysplay::handles::error::NtApiError;
use sysplay::handles::handle::SystemHandleIterator;
use sysplay::handles::object_type::{ObjectType, ObjectTypeIterator};
use sysplay::handles::types::FileName as ImageName;
use sysplay::handles::utils::{extract_device, FileName};
use sysplay::text::wide_to_utf8;

fn units(s: &str) -> Vec<u16> {
    s.encode_utf16().collect()
}

#[test]
fn wide_decoding_drops_what_does_not_decode() {
    assert_eq!(wide_to_utf8(&units("Hi")), "Hi");
    assert_eq!(wide_to_utf8(&[0xD83D, 0xDE00]), "\u{1F600}");
    assert_eq!(wide_to_utf8(&[0xD800, 0x41]), "A");
    assert_eq!(wide_to_utf8(&[0xDC00]), "");
    assert_eq!(wide_to_utf8(&[]), "");
    assert_eq!(wide_to_utf8(&units("h\u{e9}llo")), "h\u{e9}llo");
}

#[test]
fn file_name_keeps_256_bytes() {
    assert_eq!(FileName::from_str("abc").as_str(), "abc");
    let long = "x".repeat(300);
    assert_eq!(FileName::from_str(&long).as_str().len(), 256);
}

#[test]
fn device_of_an_nt_path() {
    assert_eq!(
        extract_device("\\Device\\HarddiskVolume3\\Windows"),
        Some("\\Device\\HarddiskVolume3")
    );
    assert_eq!(extract_device("\\Device\\Null"), Some("\\Device\\Null"));
    assert_eq!(extract_device("\\Dev"), None);
}

#[test]
fn image_name_keeps_whole_characters() {
    assert_eq!(ImageName::from_units(&units("notepad.exe")).as_str(), "notepad.exe");
    let long = "A".repeat(600);
    assert_eq!(ImageName::from_units(&units(&long)).as_str().len(), 512);
    let mut s = "a".repeat(511);
    s.push('\u{20AC}');
    assert_eq!(ImageName::from_units(&units(&s)).as_str().len(), 511);
}

#[test]
fn object_type_names() {
    let t = ObjectType::from_units(5, &units("File"));
    assert_eq!(t.id, 5);
    assert_eq!(t.name(), "File");
    let long = ObjectType::from_units(1, &units(&"x".repeat(70)));
    assert_eq!(long.name().len(), 63);
}

#[test]
fn object_type_walk() {
    let mut it = ObjectTypeIterator::new(0, 0, 8, &[20, 30], 1000).unwrap();
    let first = it.next_type(&units("Type"), 20).unwrap();
    assert_eq!(first.id, 2);
    assert_eq!(first.name(), "Type");
    let second = it.next_type(&units("Directory"), 30).unwrap();
    assert_eq!(second.id, 3);
    assert!(it.next_type(&units("x"), 2).is_none());
    match ObjectTypeIterator::new(0, 0, 8, &[2000], 1000) {
        Err(e) => assert_eq!(e, NtApiError::BufferTooSmall { needed: 2112, available: 1000 }),
        Ok(_) => panic!("expected an error"),
    }
}

#[test]
fn handle_walk() {
    let mut it = SystemHandleIterator::from_count(2);
    assert_eq!(it.total_count(), 2);
    assert_eq!(it.next_index(), Some(0));
    assert_eq!(it.next_index(), Some(1));
    assert_eq!(it.next_index(), None);
    assert_eq!(NtApiError::QueryFailed(-5), NtApiError::QueryFailed(-5));
}
