use sysplay::cert::{CertData, CertStoreError, SigningFailedReason, Thumbprint};
use sysplay::child::{wait_result, ClientError, ClientStatus};

#[test]
fn thumbprint_from_hex() {
    let t = Thumbprint::new("  00112233445566778899aabbccddEEFF00112233\n").unwrap();
    assert_eq!(
        t.as_bytes(),
        &[0x00, 0x11, 0x22, 0x33, 0x44, 0x55, 0x66, 0x77, 0x88, 0x99, 0xAA, 0xBB, 0xCC, 0xDD, 0xEE, 0xFF, 0x00, 0x11, 0x22, 0x33]
    );
    assert_eq!(t.to_hex_string(), "00112233445566778899AABBCCDDEEFF00112233");
    let u = Thumbprint::from_bytes([0xAB; 20]).unwrap();
    assert_eq!(u.to_hex_string(), "AB".repeat(20));
}

#[test]
fn thumbprint_errors() {
    match Thumbprint::new(" abc ") {
        Err(CertStoreError::InvalidThumbprint { thumbprint, reason }) => {
            assert_eq!(thumbprint, "abc");
            assert_eq!(reason, "must be 40 hex characters");
        }
        _ => panic!("expected an invalid thumbprint"),
    }
    match Thumbprint::new(&"zz".repeat(20)) {
        Err(CertStoreError::InvalidThumbprint { reason, .. }) => {
            assert_eq!(reason, "invalid hex characters");
        }
        _ => panic!("expected an invalid thumbprint"),
    }
}

#[test]
fn signing_failure_codes() {
    assert_eq!(SigningFailedReason::from(0x8009_0027u32 as i32), SigningFailedReason::InvalidParameter);
    assert_eq!(SigningFailedReason::from(0x8009_0029u32 as i32), SigningFailedReason::NotSupported);
    assert_eq!(SigningFailedReason::from(0x8009_0003u32 as i32), SigningFailedReason::InvalidKey);
    assert_eq!(SigningFailedReason::from(0x8009_001Au32 as i32), SigningFailedReason::InternalError);
    assert_eq!(SigningFailedReason::from(5), SigningFailedReason::Unknown(5));
}

#[test]
fn cert_data() {
    let d = CertData(vec![1, 2, 3]);
    assert_eq!(d.len(), 3);
    assert_eq!(d.as_slice(), &[1, 2, 3]);
}

#[test]
fn child_status_and_waits() {
    assert_eq!(ClientStatus::from_query(0, 259), ClientStatus::Alive);
    assert_eq!(ClientStatus::from_query(0, 0), ClientStatus::Dead);
    assert_eq!(ClientStatus::from_query(-1, 259), ClientStatus::Unknown);
    assert!(ClientStatus::Alive.is_alive());
    assert!(!ClientStatus::Dead.is_alive());
    assert_eq!(wait_result(0), Ok(()));
    assert_eq!(wait_result(0x102), Err(ClientError::WaitTimeout));
    assert_eq!(wait_result(5), Err(ClientError::WaitFailed));
}
