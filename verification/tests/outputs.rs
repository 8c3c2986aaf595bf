use cs2_dumper::analysis::schemas::{schemas_from_scopes, Class, TypeScope};
use cs2_dumper::output::hierarchy::{render_dot, render_html};
use cs2_dumper::output::llm::{count_classes, render_llm_instructions, sum_counts};
use cs2_dumper::output::reports::{render_html_report, render_markdown_report};

fn cls(name: &str, parent: Option<&str>) -> Class {
    Class {
        name: name.into(),
        module_name: "m.dll".into(),
        parent_name: parent.map(|p| p.into()),
        metadata: vec![],
        fields: vec![],
        size: 0,
    }
}

fn sample() -> cs2_dumper::analysis::schemas::SchemaMap {
    schemas_from_scopes(vec![
        TypeScope {
            module_name: "server.dll".into(),
            classes: vec![cls("CBaseEntity", Some("CEntityInstance")), cls("CEntityInstance", None)],
            enums: vec![],
        },
        TypeScope { module_name: "client.dll".into(), classes: vec![cls("C_Player", Some("C_BaseEntity"))], enums: vec![] },
    ])
}

#[test]
fn dot_graph_exact_text() {
    let expected = "digraph CS2Hierarchy {\n  node [shape=box, style=filled, fillcolor=lightblue];\n  rankdir=LR;\n  \"C_BaseEntity\" -> \"C_Player\";\n  \"CEntityInstance\" -> \"CBaseEntity\";\n}\n";
    assert_eq!(render_dot(&sample()), expected);
}

#[test]
fn html_page_exact_text() {
    let expected = "<!DOCTYPE html><html><head><title>CS2 Entity Hierarchy</title></head><body><h1>CS2 Entity Hierarchy</h1><ul><li><b>client.dll</b><ul><li>C_Player (parent: C_BaseEntity)</li></ul></li><li><b>server.dll</b><ul><li>CBaseEntity (parent: CEntityInstance)</li><li>CEntityInstance</li></ul></li></ul></body></html>";
    assert_eq!(render_html(&sample()), expected);
}

#[test]
fn reports_exact_text() {
    assert_eq!(render_markdown_report(&sample()), "# CS2 SDK Dump Report\n\n- Modules: 2\n");
    assert_eq!(
        render_html_report(&sample()),
        "<!DOCTYPE html>\n<html>\n<head><title>CS2 SDK Report</title></head>\n<body>\n    <h1>CS2 SDK Dump Report</h1>\n    <p>Modules found: 2</p>\n</body>\n</html>"
    );
}

#[test]
fn llm_guide_counts() {
    assert_eq!(count_classes(&sample()), Some(3));
    assert_eq!(sum_counts(&vec![3, 4, 5]), Some(12));
    assert_eq!(sum_counts(&vec![]), Some(0));
    assert_eq!(sum_counts(&vec![usize::MAX, 1]), None);
    let text = render_llm_instructions(3, 1234, 12);
    assert!(text.starts_with("# LLM Instruction Set for CS2 SDK Consumption\n\n## Core System Overview\n"));
    assert!(text.ends_with("## Engine Stats\n- Classes: 3\n- ConVars: 1234\n- Interfaces: 12\n"));
    assert!(text.contains("- All pointers are **64-bit** (`uintptr_t` or `void*`).\n"));
}
