use sysplay::process::environment::{EnvironmentBuilder, EnvironmentBuilderError};
use sysplay::process::error::ProcessBuilderError;

fn used(b: &EnvironmentBuilder<64>) -> Vec<u8> {
    b.as_ptr()[..b.len()].to_vec()
}

#[test]
fn new_builder_is_empty() {
    let b = EnvironmentBuilder::<64>::new();
    assert!(b.is_empty());
    assert_eq!(b.len(), 0);
    assert_eq!(b.as_ptr().len(), 64);
    assert!(b.as_ptr().iter().all(|&x| x == 0));
    let d: EnvironmentBuilder<64> = Default::default();
    assert!(d.is_empty());
}

#[test]
fn set_appends_utf16_entries() {
    let mut b = EnvironmentBuilder::<64>::new();
    assert_eq!(b.set("A", "1"), Ok(()));
    assert_eq!(used(&b), vec![65, 0, 61, 0, 49, 0, 0, 0]);
    assert_eq!(b.set("B", "22"), Ok(()));
    assert_eq!(b.len(), 18);
    assert_eq!(&used(&b)[8..], &[66, 0, 61, 0, 50, 0, 50, 0, 0, 0]);
}

#[test]
fn set_replaces_an_existing_key() {
    let mut b = EnvironmentBuilder::<64>::new();
    b.set("A", "1").unwrap();
    b.set("B", "22").unwrap();
    b.set("A", "3").unwrap();
    assert_eq!(
        used(&b),
        vec![66, 0, 61, 0, 50, 0, 50, 0, 0, 0, 65, 0, 61, 0, 51, 0, 0, 0]
    );
}

#[test]
fn remove_takes_out_the_entry() {
    let mut b = EnvironmentBuilder::<64>::new();
    b.set("A", "1").unwrap();
    b.set("B", "22").unwrap();
    assert_eq!(b.remove("A"), Ok(()));
    assert_eq!(used(&b), vec![66, 0, 61, 0, 50, 0, 50, 0, 0, 0]);
    assert_eq!(b.remove("A"), Err(EnvironmentBuilderError::KeyNotFound));
    assert_eq!(b.remove("B"), Ok(()));
    assert!(b.is_empty());
}

#[test]
fn keys_with_equals_never_match() {
    let mut b = EnvironmentBuilder::<64>::new();
    b.set("A=B", "1").unwrap();
    b.set("A=B", "2").unwrap();
    assert_eq!(b.len(), 24);
    assert_eq!(b.remove("A=B"), Err(EnvironmentBuilderError::KeyNotFound));
}

#[test]
fn astral_characters_take_two_units() {
    let mut b = EnvironmentBuilder::<64>::new();
    b.set("E", "\u{1F600}").unwrap();
    assert_eq!(used(&b), vec![69, 0, 61, 0, 0x3D, 0xD8, 0x00, 0xDE, 0, 0]);
}

#[test]
fn too_long_strings_are_refused() {
    let mut b = EnvironmentBuilder::<64>::new();
    let long = "k".repeat(129);
    assert_eq!(b.set(&long, "v"), Err(EnvironmentBuilderError::StringTooLong));
    assert_eq!(b.set("k", &long), Err(EnvironmentBuilderError::StringTooLong));
    assert_eq!(b.remove(&long), Err(EnvironmentBuilderError::StringTooLong));
    assert!(b.is_empty());
    let fits = "k".repeat(128);
    let mut big = EnvironmentBuilder::<1024>::new();
    assert_eq!(big.set(&fits, "v"), Ok(()));
}

#[test]
fn full_buffer_is_refused() {
    let mut b = EnvironmentBuilder::<16>::new();
    assert_eq!(b.set("KEY", "VALUE"), Err(EnvironmentBuilderError::BufferOverflow));
    assert!(b.is_empty());
    assert_eq!(b.set("K", "V"), Ok(()));
    assert_eq!(b.set("K", "VALUE1"), Err(EnvironmentBuilderError::BufferOverflow));
    assert!(b.is_empty());
}

#[test]
fn raw_parts_copy() {
    let r = EnvironmentBuilder::<8>::from_raw_parts(None, 0);
    assert_eq!(r.err(), Some(EnvironmentBuilderError::NullPointer));
    let data = [1u8, 2, 3];
    let r = EnvironmentBuilder::<2>::from_raw_parts(Some(&data), 3);
    assert_eq!(r.err(), Some(EnvironmentBuilderError::BufferOverflow));
    let b = EnvironmentBuilder::<8>::from_raw_parts(Some(&data), 3).unwrap();
    assert_eq!(b.len(), 3);
    assert_eq!(b.as_ptr(), &[1, 2, 3, 0, 0, 0, 0, 0]);
}

#[test]
fn from_ptr_stops_at_double_null() {
    assert_eq!(
        EnvironmentBuilder::<64>::from_ptr(None).err(),
        Some(EnvironmentBuilderError::NullPointer)
    );
    let units = [65u16, 61, 49, 0, 0, 7];
    let b = EnvironmentBuilder::<64>::from_ptr(Some(&units)).unwrap();
    assert_eq!(b.len(), 10);
    assert_eq!(used(&b), vec![65, 0, 61, 0, 49, 0, 0, 0, 0, 0]);
    let small = EnvironmentBuilder::<8>::from_ptr(Some(&units));
    assert_eq!(small.err(), Some(EnvironmentBuilderError::BufferOverflow));
}

#[test]
fn finalize_and_build() {
    let mut b = EnvironmentBuilder::<64>::new();
    b.set("A", "1").unwrap();
    assert_eq!(b.finalize(), Ok(()));
    assert_eq!(b.len(), 10);
    assert_eq!(&b.as_ptr()[8..12], &[0, 0, 0, 0]);
    let built = b.build().unwrap();
    assert_eq!(built.len(), 64);
    let mut tight = EnvironmentBuilder::<9>::new();
    tight.set("A", "1").unwrap();
    assert_eq!(tight.finalize(), Err(EnvironmentBuilderError::BufferOverflow));
    assert!(tight.build().is_err());
    assert_eq!(tight.len(), 8);
}

#[test]
fn clear_zeroes_everything() {
    let mut b = EnvironmentBuilder::<64>::new();
    b.set("A", "1").unwrap();
    b.clear();
    assert!(b.is_empty());
    assert!(b.as_ptr().iter().all(|&x| x == 0));
}

#[test]
fn process_errors() {
    assert_eq!(
        ProcessBuilderError::from_ntstatus(-1073741790),
        ProcessBuilderError::NtCreateUserProcessFailed(-1073741790)
    );
    let e: ProcessBuilderError = 7.into();
    assert_eq!(e, ProcessBuilderError::NtCreateUserProcessFailed(7));
    assert_eq!(e.status(), Some(7));
    assert_eq!(ProcessBuilderError::ImagePathEmpty.status(), None);
    assert_eq!(ProcessBuilderError::ImagePathEmpty.message(), "Image path is empty");
    assert_eq!(
        ProcessBuilderError::BufferOverflow.message(),
        "Buffer overflow: insufficient buffer size"
    );
}

#[test]
fn remove_undoes_the_first_set() {
    let mut b = EnvironmentBuilder::<64>::new();
    b.set("PATH", "x").unwrap();
    assert_eq!(b.remove("PATH"), Ok(()));
    assert!(b.is_empty());
}
