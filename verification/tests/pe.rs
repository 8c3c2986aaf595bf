use cs2_dumper::pe::{module_address, scan_code, ScanError};

#[test]
fn bad_pattern_is_reported_before_the_image() {
    assert_eq!(scan_code(&[0u8; 4], "48 }"), Err(ScanError::BadPattern));
    assert_eq!(scan_code(&[0u8; 4], "48 8b"), Err(ScanError::BadImage));
    assert_eq!(scan_code(&[0u8; 4], "48 @2"), Err(ScanError::Unsupported));
}

#[test]
fn module_addresses() {
    assert_eq!(module_address(0x7ff6_0000_0000, 0x1234), 0x7ff6_0000_1234);
}
