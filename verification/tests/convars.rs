use cs2_dumper::analysis::convars::{
    list_head_address, locate_cvar_system, value_pointer_address, ConVarWalk, CONVAR_WALK_LIMIT,
};
use cs2_dumper::output::convars::render_hpp;
use cs2_dumper::pe::ScanError;

#[test]
fn walk_records_nodes_until_an_empty_name() {
    let mut w = ConVarWalk::new(false);
    assert!(w.continues(0x1000));
    assert!(!w.continues(0));
    assert!(!w.reads_values());
    assert!(w.visit("sv_cheats".into(), "Allow cheats".into(), 0x4000, None));
    assert!(w.visit("fps_max".into(), "Frame cap".into(), 0x80, Some("300".into())));
    assert!(!w.visit(String::new(), "ignored".into(), 1, None));
    let m = w.finish();
    assert_eq!(m.len(), 2);
    assert_eq!(m.key_at(0), "fps_max");
    let cv = m.get("sv_cheats").unwrap();
    assert_eq!(cv.name, "sv_cheats");
    assert_eq!(cv.description, "Allow cheats");
    assert_eq!(cv.flags, 0x4000);
    assert_eq!(cv.default_value, "");
    assert_eq!(cv.current_value, None);
}

#[test]
fn walk_keeps_values_when_shown() {
    let mut w = ConVarWalk::new(true);
    assert!(w.reads_values());
    w.visit("a".into(), "".into(), 0, Some("1".into()));
    w.visit("b".into(), "".into(), 0, None);
    w.visit("a".into(), "second".into(), 2, Some("2".into()));
    let m = w.finish();
    assert_eq!(m.len(), 2);
    assert_eq!(m.get("a").unwrap().current_value.as_deref(), Some("2"));
    assert_eq!(m.get("a").unwrap().description, "second");
    assert_eq!(m.get("b").unwrap().current_value.as_deref(), Some(""));
}

#[test]
fn walk_stops_at_the_node_limit() {
    let mut w = ConVarWalk::new(false);
    let mut visited = 0usize;
    while w.continues(0x10) {
        w.visit(format!("v{}", visited), String::new(), 0, None);
        visited += 1;
    }
    assert_eq!(visited, CONVAR_WALK_LIMIT);
    assert_eq!(w.finish().len(), CONVAR_WALK_LIMIT);
}

#[test]
fn walk_addresses() {
    assert_eq!(list_head_address(0x7ff0_0000_1000), 0x7ff0_0000_1040);
    assert_eq!(value_pointer_address(0x2000), 0x2040);
}

#[test]
fn locating_cvars_in_junk_fails() {
    let junk = vec![0u8; 64];
    assert_eq!(locate_cvar_system(&junk), Err(ScanError::BadImage));
}

#[test]
fn header_exact_text() {
    let mut w = ConVarWalk::new(true);
    w.visit("sv_cheats".into(), "Allow\ncheats".into(), 0x4000, Some("0".into()));
    w.visit("cl_x".into(), "x".into(), -1, None);
    let m = w.finish();
    let expected = "// generated - do not edit!\n#pragma once\n#include <cstdint>\n\nnamespace CS2 {\n    namespace ConVars {\n        // x\n        constexpr int32_t cl_x_flags = 0xFFFFFFFF; // Value: \n        // Allow cheats\n        constexpr int32_t sv_cheats_flags = 0x4000; // Value: 0\n    }\n}\n";
    assert_eq!(render_hpp(&m, true), expected);
    let no_values = "// generated - do not edit!\n#pragma once\n#include <cstdint>\n\nnamespace CS2 {\n    namespace ConVars {\n        // x\n        constexpr int32_t cl_x_flags = 0xFFFFFFFF;\n        // Allow cheats\n        constexpr int32_t sv_cheats_flags = 0x4000;\n    }\n}\n";
    assert_eq!(render_hpp(&m, false), no_values);
}

#[test]
fn header_shows_question_mark_without_value() {
    let mut w = ConVarWalk::new(false);
    w.visit("a".into(), "d".into(), 1, Some("ignored".into()));
    let m = w.finish();
    assert!(render_hpp(&m, true).contains("constexpr int32_t a_flags = 0x1; // Value: ?\n"));
}

#[test]
fn header_has_eight_lines_and_two_per_variable() {
    let mut w = ConVarWalk::new(true);
    w.visit("a".into(), "multi\nline\ndescription".into(), 1, Some("v".into()));
    w.visit("b".into(), "d".into(), 2, None);
    w.visit("c".into(), "".into(), 3, Some("".into()));
    let m = w.finish();
    for show in [true, false] {
        let text = render_hpp(&m, show);
        assert_eq!(text.matches('\n').count(), 8 + 2 * 3);
        assert_eq!(text.contains("// Value:"), show);
    }
}
