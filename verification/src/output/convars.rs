use vstd::prelude::*;

use crate::analysis::convars::{ConVarMap, ConVarView};
use crate::text::{hex_i32, replace_char, replace_char_text, append_hex_i32};

verus! {

/// The value shown for a console variable: its current value, or `?`.
pub open spec fn shown_value(v: Option<Seq<char>>) -> Seq<char> {
    match v {
        Some(s) => s,
        None => "?"@,
    }
}

/// The two lines written for one console variable: its description (line
/// breaks turned into spaces) and a constant holding its flags, with the
/// value in a trailing comment when values are shown.
pub open spec fn convar_lines(name: Seq<char>, cv: ConVarView, show_values: bool) -> Seq<char> {
    "        // "@ + replace_char(cv.description, '\n', " "@) + "\n"@ + "        constexpr int32_t "@
        + name + "_flags = "@ + hex_i32(cv.flags as int) + ";"@ + (if show_values {
        " // Value: "@ + shown_value(cv.current_value)
    } else {
        Seq::empty()
    }) + "\n"@
}

/// The lines of all console variables, in name order.
pub open spec fn convars_lines(entries: Seq<(Seq<char>, ConVarView)>, show_values: bool) -> Seq<
    char,
>
    decreases entries.len(),
{
    if entries.len() == 0 {
        Seq::empty()
    } else {
        convars_lines(entries.drop_last(), show_values) + convar_lines(
            entries.last().0,
            entries.last().1,
            show_values,
        )
    }
}

/// The console variable header.
pub open spec fn convars_hpp_text(entries: Seq<(Seq<char>, ConVarView)>, show_values: bool) -> Seq<
    char,
> {
    "// generated - do not edit!\n"@ + "#pragma once\n"@ + "#include <cstdint>\n"@ + "\n"@
        + "namespace CS2 {\n"@ + "    namespace ConVars {\n"@ + convars_lines(entries, show_values)
        + "    }\n"@ + "}\n"@
}

/// Renders the C++ header of console variable flags.
pub fn render_hpp(convars: &ConVarMap, show_values: bool) -> (s: String)
    ensures
        s@ == convars_hpp_text(convars@, show_values),
{
    let mut s = String::new();
    s.append("// generated - do not edit!\n");
    s.append("#pragma once\n");
    s.append("#include <cstdint>\n");
    s.append("\n");
    s.append("namespace CS2 {\n");
    s.append("    namespace ConVars {\n");
    let ghost start = s@;
    let mut i: usize = 0;
    while i < convars.len()
        invariant
            i <= convars@.len(),
            s@ == start + convars_lines(convars@.take(i as int), show_values),
        decreases convars@.len() - i,
    {
        let name = convars.key_at(i);
        let cv = convars.value_at(i);
        let ghost before = s@;
        s.append("        // ");
        let desc = replace_char_text(cv.description.as_str(), '\n', " ");
        s.append(desc.as_str());
        s.append("\n");
        s.append("        constexpr int32_t ");
        s.append(name.as_str());
        s.append("_flags = ");
        append_hex_i32(&mut s, cv.flags);
        s.append(";");
        if show_values {
            s.append(" // Value: ");
            match &cv.current_value {
                Some(v) => s.append(v.as_str()),
                None => s.append("?"),
            }
        }
        s.append("\n");
        proof {
            assert(s@ =~= before + convar_lines(name@, cv@, show_values));
            let t = convars@.take(i + 1);
            assert(t.drop_last() =~= convars@.take(i as int));
            assert(t.last() == convars@[i as int]);
            assert(s@ =~= start + convars_lines(t, show_values));
        }
        i = i + 1;
    }
    proof {
        assert(convars@.take(i as int) =~= convars@);
    }
    s.append("    }\n");
    s.append("}\n");
    proof {
        assert(s@ =~= convars_hpp_text(convars@, show_values));
    }
    s
}

} // verus!
