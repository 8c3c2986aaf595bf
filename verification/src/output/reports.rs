use vstd::prelude::*;

use crate::analysis::schemas::SchemaMap;
use crate::text::{dec_digits, append_dec};

verus! {

/// The Markdown report.
pub open spec fn markdown_report_text(module_count: nat) -> Seq<char> {
    "# CS2 SDK Dump Report\n\n"@ + "- Modules: "@ + dec_digits(module_count) + "\n"@
}

/// The HTML report.
pub open spec fn html_report_text(module_count: nat) -> Seq<char> {
    "<!DOCTYPE html>\n<html>\n<head><title>CS2 SDK Report</title></head>\n<body>\n    <h1>CS2 SDK Dump Report</h1>\n    <p>Modules found: "@
        + dec_digits(module_count) + "</p>\n</body>\n</html>"@
}

/// Renders the Markdown report: the number of modules with schema data.
pub fn render_markdown_report(schemas: &SchemaMap) -> (s: String)
    ensures
        s@ == markdown_report_text(schemas@.len()),
{
    let mut s = String::new();
    s.append("# CS2 SDK Dump Report\n\n");
    s.append("- Modules: ");
    append_dec(&mut s, schemas.len());
    s.append("\n");
    proof {
        assert(s@ =~= markdown_report_text(schemas@.len()));
    }
    s
}

/// Renders the HTML report: the number of modules with schema data.
pub fn render_html_report(schemas: &SchemaMap) -> (s: String)
    ensures
        s@ == html_report_text(schemas@.len()),
{
    let mut s = String::new();
    s.append(
        "<!DOCTYPE html>\n<html>\n<head><title>CS2 SDK Report</title></head>\n<body>\n    <h1>CS2 SDK Dump Report</h1>\n    <p>Modules found: ",
    );
    append_dec(&mut s, schemas.len());
    s.append("</p>\n</body>\n</html>");
    proof {
        assert(s@ =~= html_report_text(schemas@.len()));
    }
    s
}

} // verus!
