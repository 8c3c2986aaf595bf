use cs2_dumper::analysis::convars::locate_cvar_system;
use cs2_dumper::analysis::game_events::locate_event_manager;
use cs2_dumper::analysis::resources::locate_map_name;
use cs2_dumper::analysis::schemas::{locate_schema_system, LocateError, SchemaError};
use cs2_dumper::pe::{code_range_in_bounds, scan_code, ScanError};

fn put16(b: &mut [u8], at: usize, v: u16) {
    b[at..at + 2].copy_from_slice(&v.to_le_bytes());
}

fn put32(b: &mut [u8], at: usize, v: u32) {
    b[at..at + 4].copy_from_slice(&v.to_le_bytes());
}

// A mapped 64-bit PE image of 0x2000 bytes whose code section (at 0x1000)
// starts with `code`.
fn image_with_code(code: &[u8]) -> Vec<u8> {
    let mut b = vec![0u8; 0x2000];
    put16(&mut b, 0, 0x5A4D);
    put32(&mut b, 0x3C, 0x40);
    put32(&mut b, 0x40, 0x0000_4550);
    let fh = 0x44;
    put16(&mut b, fh, 0x8664);
    put16(&mut b, fh + 2, 1);
    put16(&mut b, fh + 16, 0xF0);
    put16(&mut b, fh + 18, 0x22);
    let oh = 0x58;
    put16(&mut b, oh, 0x20B);
    put32(&mut b, oh + 4, 0x1000);
    put32(&mut b, oh + 20, 0x1000);
    put32(&mut b, oh + 32, 0x1000);
    put32(&mut b, oh + 36, 0x200);
    put32(&mut b, oh + 56, 0x2000);
    put32(&mut b, oh + 60, 0x200);
    put32(&mut b, oh + 108, 16);
    let sh = oh + 0xF0;
    b[sh..sh + 5].copy_from_slice(b".text");
    put32(&mut b, sh + 8, 0x1000);
    put32(&mut b, sh + 12, 0x1000);
    put32(&mut b, sh + 16, 0x1000);
    put32(&mut b, sh + 20, 0x1000);
    put32(&mut b, sh + 36, 0x6000_0020);
    b[0x1000..0x1000 + code.len()].copy_from_slice(code);
    b
}

// `prefix`, a 32-bit displacement and `suffix`, as an instruction sequence.
fn rip_relative(prefix: &[u8], disp: u32, suffix: &[u8]) -> Vec<u8> {
    let mut v = prefix.to_vec();
    v.extend_from_slice(&disp.to_le_bytes());
    v.extend_from_slice(suffix);
    v
}

#[test]
fn scan_finds_the_referenced_address() {
    let code = rip_relative(&[0x48, 0x8b, 0x0d], 0x100, &[0x48, 0x8b, 0x01, 0xff, 0x50, 0x20, 0x48, 0x85, 0xc0]);
    let img = image_with_code(&code);
    assert_eq!(locate_event_manager(&img), Ok(Some(0x1003 + 4 + 0x100)));
    assert_eq!(scan_code(&img, "48 8b 0d ${'} 48 8b 01 ff 50 20 48 85 c0"), Ok(Some(0x1107)));
    assert_eq!(scan_code(&img, "48 8b 0d ${'} 11 22 33"), Ok(None));
}

#[test]
fn cvar_scan_falls_back_to_the_second_pattern() {
    let primary = rip_relative(&[0x48, 0x8b, 0x0d], 0x20, &[0x48, 0x85, 0xc9, 0x74, 0x1d, 0x48, 0x8b, 0x01, 0xff, 0x50, 0x10]);
    assert_eq!(locate_cvar_system(&image_with_code(&primary)), Ok(Some(0x1003 + 4 + 0x20)));
    let fallback = rip_relative(
        &[0x48, 0x8b, 0x0d],
        0x40,
        &[0x48, 0x85, 0xc9, 0x0f, 0x84, 1, 2, 3, 4, 0x48, 0x8b, 0x01, 0xff, 0x50, 0x10],
    );
    assert_eq!(locate_cvar_system(&image_with_code(&fallback)), Ok(Some(0x1003 + 4 + 0x40)));
    assert_eq!(locate_cvar_system(&image_with_code(&[0x90; 16])), Ok(None));
}

#[test]
fn schema_system_scan_reports_an_outdated_pattern() {
    let code = rip_relative(&[0x4c, 0x8d, 0x35], 0x80, &[0x0f, 0x28, 0x45]);
    assert_eq!(locate_schema_system(&image_with_code(&code)), Ok(0x1003 + 4 + 0x80));
    assert_eq!(
        locate_schema_system(&image_with_code(&[0xcc; 8])),
        Err(LocateError::Schema(SchemaError::OutdatedPattern))
    );
}

#[test]
fn map_name_scan() {
    let code = rip_relative(
        &[0x48, 0x8d, 0x0d],
        0x10,
        &[0xe8, 0, 0, 0, 0, 0x48, 0x8b, 0x0d, 9, 9, 9, 9, 0x48, 0x85, 0xc9, 0x74, 0x13],
    );
    assert_eq!(locate_map_name(&image_with_code(&code)), Ok(Some(0x1003 + 4 + 0x10)));
}

#[test]
fn primary_cvar_match_wins_over_the_fallback() {
    let mut code = rip_relative(&[0x48, 0x8b, 0x0d], 0x20, &[0x48, 0x85, 0xc9, 0x74, 0x1d, 0x48, 0x8b, 0x01, 0xff, 0x50, 0x10]);
    let second = rip_relative(
        &[0x48, 0x8b, 0x0d],
        0x40,
        &[0x48, 0x85, 0xc9, 0x0f, 0x84, 1, 2, 3, 4, 0x48, 0x8b, 0x01, 0xff, 0x50, 0x10],
    );
    code.extend_from_slice(&second);
    assert_eq!(locate_cvar_system(&image_with_code(&code)), Ok(Some(0x1003 + 4 + 0x20)));
}

#[test]
fn scan_refuses_patterns_the_scanner_cannot_run() {
    let img = image_with_code(&[0x90; 16]);
    assert_eq!(scan_code(&img, "90 @4 90"), Err(ScanError::Unsupported));
    assert_eq!(scan_code(&img, &"${".repeat(256)), Err(ScanError::Unsupported));
    assert_eq!(scan_code(&img, &"${".repeat(3)), Err(ScanError::BadPattern));
    assert_eq!(scan_code(&img, &" ".repeat(513)), Err(ScanError::Unsupported));
    assert_eq!(scan_code(&img, "90 90"), Ok(None));
}

#[test]
fn scan_of_a_non_pe_image_is_an_image_error() {
    let mut img = image_with_code(&[0x90; 16]);
    img[0] = b'X';
    assert_eq!(scan_code(&img, "90 90"), Err(ScanError::BadImage));
    assert_eq!(locate_event_manager(&img), Err(ScanError::BadImage));
    assert_eq!(locate_map_name(&img), Err(ScanError::BadImage));
}

#[test]
fn code_range_bounds() {
    let img = image_with_code(&[0x90; 16]);
    assert!(code_range_in_bounds(&img));
    assert!(code_range_in_bounds(&[0u8; 16]));
    let mut outside = img.clone();
    put32(&mut outside, 0x58 + 20, 0x3000);
    assert!(!code_range_in_bounds(&outside));
    let mut wrapped = img.clone();
    put32(&mut wrapped, 0x58 + 4, 0xFFFF_F000);
    assert!(!code_range_in_bounds(&wrapped));
}
