use reattach::status::{read_status, OsError};

#[test]
fn zero_status_is_success() {
    assert_eq!(read_status(0), Ok(()));
}

#[test]
fn win32_status_gets_facility_and_failure_bit() {
    // ERROR_FILE_NOT_FOUND, as 0x80070002.
    assert_eq!(read_status(2), Err(OsError { code: -2147024894 }));
    // WAIT_TIMEOUT, as 0x80070102.
    assert_eq!(read_status(0x102), Err(OsError { code: -2147024638 }));
    // WAIT_ABANDONED, as 0x80070080.
    assert_eq!(read_status(0x80), Err(OsError { code: -2147024768 }));
}

#[test]
fn win32_status_keeps_its_low_sixteen_bits_only() {
    assert_eq!(read_status(0x0001_0002), Err(OsError { code: -2147024894 }));
    assert_eq!(read_status(0x7FFF_FFFF), Err(OsError { code: 0x8007_FFFFu32 as i32 }));
    assert_eq!(read_status(0x0001_0000), Err(OsError { code: 0x8007_0000u32 as i32 }));
}

#[test]
fn status_with_top_bit_is_kept() {
    // WAIT_FAILED.
    assert_eq!(read_status(0xFFFF_FFFF), Err(OsError { code: -1 }));
    // E_FAIL.
    assert_eq!(read_status(0x8000_4005), Err(OsError { code: -2147467259 }));
    assert_eq!(read_status(0x8000_0000), Err(OsError { code: i32::MIN }));
}

#[test]
fn every_error_is_a_failure_code() {
    for status in [1u32, 5, 0x80, 0x102, 0xFFFF, 0x1_0000, 0x7FFF_FFFF, 0x8000_0000, 0xFFFF_FFFF] {
        match read_status(status) {
            Ok(()) => panic!("status {status} read as success"),
            Err(error) => assert!(error.code < 0),
        }
    }
}
