use sysplay::arena::ThreadError;
use sysplay::buddy::types::BuddyBlockInfo;
use sysplay::cert::{CertStoreError, KeyInfo, KeyType, SigningFailedReason, Thumbprint, UnsupportedKeyTypeReason};
use sysplay::cpuid::features::{ExtendedFeatures, StandardFeatures};
use sysplay::process::error::ProcessBuilderError;

#[test]
fn process_errors_as_text() {
    assert_eq!(ProcessBuilderError::BufferOverflow.to_string(), "Buffer overflow: insufficient buffer size");
    assert_eq!(
        ProcessBuilderError::NtCreateUserProcessFailed(0xC0000022u32 as i32).to_string(),
        "NtCreateUserProcess failed with status: 0xC0000022"
    );
    assert_eq!(
        ProcessBuilderError::NtOpenProcessFailed(5).to_string(),
        "NtOpenProcess failed with status: 0x00000005"
    );
}

#[test]
fn certificate_errors_as_text() {
    assert_eq!(SigningFailedReason::Unknown(0x1234).to_string(), "Unknown error: 0x00001234");
    assert_eq!(SigningFailedReason::InvalidKey.to_string(), "Invalid key handle");
    assert_eq!(
        CertStoreError::StoreOpenFailed { store_name: "MY".to_string(), error_code: 5 }.to_string(),
        "Failed to open certificate store 'MY': error 5"
    );
    assert_eq!(
        CertStoreError::UnsupportedKeyType(UnsupportedKeyTypeReason::NotCng).to_string(),
        "Unsupported key type: NotCng"
    );
    assert_eq!(
        CertStoreError::SigningFailed(SigningFailedReason::InvalidKey).to_string(),
        "Signing failed: Invalid key handle"
    );
    let tp = Thumbprint::from_bytes([0xAB; 20]).unwrap();
    assert_eq!(tp.to_string(), "AB".repeat(20));
    assert_eq!(
        CertStoreError::ThumbprintNotFound(tp, 2).to_string(),
        format!("Certificate with thumbprint '{}' not found: error 2", "AB".repeat(20))
    );
    assert_eq!(
        CertStoreError::InvalidThumbprint { thumbprint: "xy".to_string(), reason: "bad".to_string() }.to_string(),
        "Invalid thumbprint 'xy': bad"
    );
    assert_eq!(CertStoreError::PrivateKeyAcquisitionFailed { error_code: 4294967295 }.to_string(), "Failed to acquire private key: error 4294967295");
}

#[test]
fn key_info_as_text() {
    let k = KeyInfo { algorithm: "RSA".to_string(), key_size: 2048, key_type: KeyType::Rsa };
    assert_eq!(k.to_string(), "Algorithm: RSA, Key Size: 2048 bits, Type: RSA");
    assert_eq!(KeyType::Ecdh.to_string(), "ECDH");
}

#[test]
fn feature_sets_as_text() {
    assert_eq!(StandardFeatures(0b1001).to_string(), "FPU, PSE");
    assert_eq!(StandardFeatures(0).to_string(), "(none)");
    assert_eq!(StandardFeatures(1 << 10).to_string(), "(none)");
    assert_eq!(ExtendedFeatures(1 << 28).to_string(), "AVX");
}

#[test]
fn block_and_thread_as_text() {
    let b = BuddyBlockInfo { ptr: 0x1000, order: 3, size: 256, free: true };
    assert_eq!(b.to_string(), "0x1000 order=3 size=256 free");
    let u = BuddyBlockInfo { ptr: 0xabc0, order: 0, size: 32, free: false };
    assert_eq!(u.to_string(), "0xabc0 order=0 size=32 used");
    assert_eq!(ThreadError::CreationFailed(-5).to_string(), "Thread creation failed: -5");
    assert_eq!(ThreadError::WaitFailed(i32::MIN).to_string(), "Thread wait failed: -2147483648");
    assert_eq!(ThreadError::Timeout.to_string(), "Thread timed out");
}
