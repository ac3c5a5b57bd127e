use sysplay::buddy::allocator::BuddyAllocatorImpl;
use sysplay::buddy::types::{BuddyBlock, Layout};
use sysplay::sync::mutex::{was_state, MutexState};
use sysplay::sync::rwlock::{AtomicState, READ_LOCKED, WRITERS_WAITING, WRITE_LOCKED};
use sysplay::cert::{key_info, CertStoreError, KeyType, UnsupportedKeyTypeReason};
use sysplay::chacha::ChaChaRng;
use sysplay::handles::error::NtApiError;
use sysplay::handles::handle::{SystemHandleIterator, STATUS_INFO_LENGTH_MISMATCH};
use sysplay::handles::object_type::ObjectTypeIterator;
use sysplay::handles::utils::{dir_query_step, link_entry_step, DirQueryStep, LinkEntryStep, STATUS_MORE_ENTRIES};
use sysplay::process::environment::EnvironmentBuilder;

fn units(s: &str) -> Vec<u16> {
    s.encode_utf16().collect()
}

#[test]
fn resize_in_place_grows_to_the_block_that_holds_the_new_size() {
    let mut a = BuddyAllocatorImpl::new(4096, 1024, 32);
    let l = Layout::from_size_align(64, 8).unwrap();
    let p = a.allocate(l);
    assert!(p != 0);
    let q = a.realloc_inplace(p, l, 900);
    assert_eq!(q, p);
    let blocks = a.free_blocks();
    assert_eq!(blocks.len(), 1);
    assert_eq!(blocks[0].order(), 5);
    assert!(!blocks[0].free());
    assert!(blocks[0].size() - 16 >= 900);
}

#[test]
fn resize_keeps_the_bytes() {
    let mut a = BuddyAllocatorImpl::new(4096, 1024, 32);
    let l = Layout::from_size_align(64, 8).unwrap();
    let p = a.allocate(l);
    let other = a.allocate(l);
    assert!(other != 0);
    for i in 0..64 {
        a.write(p + i, i as u8);
    }
    let q = a.realloc(p, l, 400);
    assert!(q != 0);
    for i in 0..64 {
        assert_eq!(a.read(q + i), i as u8);
    }
}

#[test]
fn two_live_allocations_do_not_share_a_byte() {
    let mut a = BuddyAllocatorImpl::new(4096, 1024, 32);
    let l1 = Layout::from_size_align(100, 8).unwrap();
    let l2 = Layout::from_size_align(40, 8).unwrap();
    let p = a.allocate(l1);
    let q = a.allocate(l2);
    assert!(p != 0 && q != 0);
    assert!(p + 100 <= q || q + 40 <= p);
    assert!(p >= 4096 && q + 40 <= 4096 + 1024);
}

#[test]
fn key_info_kinds() {
    let rsa = key_info(true, 0, &units("RSA"), 2048).unwrap();
    assert_eq!(rsa.algorithm, "RSA");
    assert_eq!(rsa.key_size, 2048);
    assert_eq!(rsa.key_type, KeyType::Rsa);
    let ecdsa = key_info(true, 0, &units("ECDSA_P256"), 256).unwrap();
    assert_eq!(ecdsa.key_type, KeyType::Ecdsa);
    let ecdh = key_info(true, 0, &units("ECDH_P384"), 384).unwrap();
    assert_eq!(ecdh.key_type, KeyType::Ecdh);
    let other = key_info(true, 0, &units("DSA"), 1024).unwrap();
    assert_eq!(other.key_type, KeyType::Unknown);
}

#[test]
fn key_info_without_a_name() {
    let k = key_info(true, -1, &units("RSA"), 2048).unwrap();
    assert_eq!(k.algorithm, "Unknown");
    assert_eq!(k.key_type, KeyType::Unknown);
    let bad = key_info(true, 0, &[0x52, 0xD800, 0x41], 8).unwrap();
    assert_eq!(bad.algorithm, "R\u{FFFD}A");
    let empty = key_info(true, 0, &[], 256).unwrap();
    assert_eq!(empty.algorithm, "Unknown");
    assert_eq!(empty.key_type, KeyType::Unknown);
}

#[test]
fn key_info_refuses_a_legacy_key() {
    match key_info(false, 0, &units("RSA"), 2048) {
        Err(CertStoreError::UnsupportedKeyType(UnsupportedKeyTypeReason::NotCng)) => {}
        _ => panic!("expected NotCng"),
    }
}

#[test]
fn object_type_query_failures() {
    match ObjectTypeIterator::new(STATUS_INFO_LENGTH_MISMATCH, 5000, 8, &[20], 1000) {
        Err(e) => assert_eq!(e, NtApiError::BufferTooSmall { needed: 5000, available: 1000 }),
        Ok(_) => panic!("expected an error"),
    }
    match ObjectTypeIterator::new(-7, 0, 8, &[20], 1000) {
        Err(e) => assert_eq!(e, NtApiError::QueryFailed(-7)),
        Ok(_) => panic!("expected an error"),
    }
}

#[test]
fn handle_walk_hands_out_exactly_the_count() {
    let mut it = SystemHandleIterator::from_count(3);
    assert_eq!(it.next_index(), Some(0));
    assert_eq!(it.next_index(), Some(1));
    assert_eq!(it.next_index(), Some(2));
    assert_eq!(it.next_index(), None);
    assert_eq!(it.next_index(), None);
    assert_eq!(it.total_count(), 3);
}

#[test]
fn same_seed_same_calls_same_outputs() {
    let seed = [7u8; 32];
    let mut a = ChaChaRng::from_seed(&seed);
    let mut b = ChaChaRng::from_seed(&seed);
    let mut ba = [0u8; 13];
    let mut bb = [0u8; 13];
    assert_eq!(a.next_u32(), b.next_u32());
    a.fill_bytes(&mut ba);
    b.fill_bytes(&mut bb);
    assert_eq!(ba, bb);
    assert_eq!(a.next_u64(), b.next_u64());
}

#[test]
fn filling_in_two_parts_is_filling_once() {
    let mut a = ChaChaRng::from_seed(&[3u8; 32]);
    let mut b = ChaChaRng::from_seed(&[3u8; 32]);
    let mut whole = [0u8; 150];
    a.fill_bytes(&mut whole);
    let mut first = [0u8; 10];
    let mut second = [0u8; 140];
    b.fill_bytes(&mut first);
    b.fill_bytes(&mut second);
    assert_eq!(&whole[..10], &first[..]);
    assert_eq!(&whole[10..], &second[..]);
    assert_eq!(a.next_u32(), b.next_u32());
}

#[test]
fn environment_stays_terminated() {
    let mut e = EnvironmentBuilder::<256>::new();
    assert!(e.terminated());
    assert!(e.key_fits("A"));
    e.set("A", "1").unwrap();
    e.set("B", "2").unwrap();
    assert!(e.terminated());
    assert!(e.key_fits("A"));
    e.remove("A").unwrap();
    assert!(e.terminated());
    let odd = EnvironmentBuilder::<256>::from_raw_parts(Some(&[0x41, 0, 0x3D, 0, 0x42, 0][..]), 6).unwrap();
    assert!(!odd.terminated());
    assert!(!odd.key_fits("A"));
}

#[test]
fn dos_link_walk_steps() {
    assert_eq!(dir_query_step(0), DirQueryStep::ReadLast);
    assert_eq!(dir_query_step(STATUS_MORE_ENTRIES), DirQueryStep::ReadMore);
    assert_eq!(dir_query_step(-1073741772), DirQueryStep::Stop);
    assert_eq!(link_entry_step(0, &units("SymbolicLink")), LinkEntryStep::EndOfBatch);
    assert_eq!(link_entry_step(4, &units("SymbolicLink")), LinkEntryStep::Follow);
    assert_eq!(link_entry_step(4, &units("Device")), LinkEntryStep::Skip);
    assert_eq!(link_entry_step(4, &units("symbolicLink")), LinkEntryStep::Skip);
}

#[test]
fn mutex_swap_results() {
    assert!(was_state(0, MutexState::Unlocked));
    assert!(!was_state(1, MutexState::Unlocked));
    assert!(was_state(2, MutexState::Contended));
    assert!(!was_state(1, MutexState::Contended));
}

#[test]
fn lock_word_fast_paths() {
    let st = AtomicState::new();
    assert!(st.try_acquire_read());
    assert_eq!(st.load(), READ_LOCKED);
    assert!(!st.try_acquire_write());
    assert_eq!(st.release_read(), READ_LOCKED);
    assert!(st.try_acquire_write());
    assert_eq!(st.load(), WRITE_LOCKED);
    assert!(!st.try_acquire_read());
    assert_eq!(st.release_write(), WRITE_LOCKED);
    st.store(WRITERS_WAITING);
    assert!(!st.try_acquire_read());
    assert_eq!(st.spin_until(|s: usize| s == WRITERS_WAITING), WRITERS_WAITING);
    assert_eq!(st.spin_until(|_s: usize| false), WRITERS_WAITING);
}

#[test]
fn buddy_pairs() {
    assert_eq!(BuddyBlock::buddy(4096, 32, 2), 4096 + 128);
    assert_eq!(BuddyBlock::buddy(4096 + 128, 32, 2), 4096);
    assert_eq!(BuddyBlock::buddy(4096 + 256, 32, 3), 4096);
}
