//! How many lines the console variable header has.

use vstd::prelude::*;

use crate::analysis::convars::ConVarView;
use crate::output::convars::{convar_lines, convars_hpp_text, convars_lines, shown_value};
use crate::pe::char_count;
use crate::text::{hex_digit_table, hex_digits, hex_i32, hex_text, replace_char};

verus! {

proof fn lemma_count_concat(a: Seq<char>, b: Seq<char>, c: char)
    ensures
        char_count(a + b, c) == char_count(a, c) + char_count(b, c),
    decreases b.len(),
{
    if b.len() > 0 {
        lemma_count_concat(a, b.drop_last(), c);
        assert((a + b).drop_last() =~= a + b.drop_last());
        assert((a + b).last() == b.last());
    } else {
        assert(a + b =~= a);
    }
}

proof fn lemma_count_absent(s: Seq<char>, c: char)
    requires
        !s.contains(c),
    ensures
        char_count(s, c) == 0,
    decreases s.len(),
{
    if s.len() > 0 {
        assert(s.last() == s[s.len() - 1]);
        assert(!s.drop_last().contains(c)) by {
            if s.drop_last().contains(c) {
                let i = choose|i: int| 0 <= i < s.drop_last().len() && s.drop_last()[i] == c;
                assert(s[i] == c);
            }
        }
        lemma_count_absent(s.drop_last(), c);
    }
}

proof fn lemma_count_single(x: char, c: char)
    ensures
        char_count(seq![x], c) == if x == c {
            1int
        } else {
            0int
        },
{
    reveal_with_fuel(char_count, 2);
    assert(seq![x].drop_last() =~= Seq::<char>::empty());
}

proof fn lemma_hex_digits_no_newline(n: nat)
    ensures
        char_count(hex_digits(n), '\n') == 0,
    decreases n,
{
    reveal_strlit("0123456789ABCDEF");
    let k = (n % 16) as int;
    assert(hex_digit_table()[k] != '\n') by {
        assert(k == 0 || k == 1 || k == 2 || k == 3 || k == 4 || k == 5 || k == 6 || k == 7 || k
            == 8 || k == 9 || k == 10 || k == 11 || k == 12 || k == 13 || k == 14 || k == 15);
    }
    if n < 16 {
        lemma_count_single(hex_digit_table()[n as int], '\n');
    } else {
        lemma_hex_digits_no_newline(n / 16);
        let d = hex_digits(n / 16);
        let x = hex_digit_table()[k];
        assert(d.push(x).drop_last() =~= d);
    }
}

proof fn lemma_hex_i32_no_newline(x: int)
    ensures
        char_count(hex_i32(x), '\n') == 0,
{
    reveal_strlit("0x");
    reveal_with_fuel(char_count, 3);
    assert(char_count("0x"@, '\n') == 0);
    lemma_count_concat("0x"@, hex_digits(crate::text::i32_bits(x)), '\n');
    lemma_hex_digits_no_newline(crate::text::i32_bits(x));
}

proof fn lemma_no_newline_after_replacing(s: Seq<char>)
    ensures
        char_count(replace_char(s, '\n', " "@), '\n') == 0,
    decreases s.len(),
{
    reveal_strlit(" ");
    reveal_with_fuel(char_count, 2);
    assert(char_count(" "@, '\n') == 0);
    if s.len() > 0 {
        lemma_no_newline_after_replacing(s.drop_last());
        let p = replace_char(s.drop_last(), '\n', " "@);
        if s.last() == '\n' {
            lemma_count_concat(p, " "@, '\n');
        } else {
            lemma_count_single(s.last(), '\n');
            lemma_count_concat(p, seq![s.last()], '\n');
        }
    }
}

proof fn lemma_entry_literal_counts()
    ensures
        char_count("        // "@, '\n') == 0,
        char_count("\n"@, '\n') == 1,
        char_count("        constexpr int32_t "@, '\n') == 0,
        char_count("_flags = "@, '\n') == 0,
        char_count(";"@, '\n') == 0,
        char_count(" // Value: "@, '\n') == 0,
        char_count("?"@, '\n') == 0,
{
    reveal_strlit("        // ");
    reveal_strlit("\n");
    reveal_strlit("        constexpr int32_t ");
    reveal_strlit("_flags = ");
    reveal_strlit(";");
    reveal_strlit(" // Value: ");
    reveal_strlit("?");
    reveal_with_fuel(char_count, 27);
}

/// A key and current value of a console variable hold no line break.
pub open spec fn single_line_entry(e: (Seq<char>, ConVarView)) -> bool {
    &&& !e.0.contains('\n')
    &&& e.1.current_value matches Some(v) ==> !v.contains('\n')
}

proof fn lemma_convar_lines_two(name: Seq<char>, cv: ConVarView, show_values: bool)
    requires
        single_line_entry((name, cv)),
    ensures
        char_count(convar_lines(name, cv, show_values), '\n') == 2,
{
    lemma_entry_literal_counts();
    let c = '\n';
    let desc = replace_char(cv.description, '\n', " "@);
    let tail = if show_values {
        " // Value: "@ + shown_value(cv.current_value)
    } else {
        Seq::empty()
    };
    lemma_no_newline_after_replacing(cv.description);
    lemma_hex_i32_no_newline(cv.flags as int);
    lemma_count_absent(name, c);
    assert(char_count(" // Value: "@, c) == 0);
    assert(char_count("?"@, c) == 0);
    assert(char_count(tail, c) == 0) by {
        if show_values {
            match cv.current_value {
                Some(v) => lemma_count_absent(v, c),
                None => {},
            }
            lemma_count_concat(" // Value: "@, shown_value(cv.current_value), c);
        }
    }
    let a = "        // "@ + desc;
    lemma_count_concat("        // "@, desc, c);
    let h = hex_i32(cv.flags as int);
    let b1 = "        constexpr int32_t "@ + name;
    lemma_count_concat("        constexpr int32_t "@, name, c);
    let b2 = b1 + "_flags = "@;
    lemma_count_concat(b1, "_flags = "@, c);
    let b3 = b2 + h;
    lemma_count_concat(b2, h, c);
    let b4 = b3 + ";"@;
    lemma_count_concat(b3, ";"@, c);
    let b = b4 + tail;
    lemma_count_concat(b4, tail, c);
    assert(char_count("\n"@, c) == 1);
    lemma_count_concat(a, "\n"@, c);
    lemma_count_concat(a + "\n"@, b, c);
    lemma_count_concat(a + "\n"@ + b, "\n"@, c);
    assert(convar_lines(name, cv, show_values) =~= a + "\n"@ + b + "\n"@);
}

proof fn lemma_convars_lines_count(entries: Seq<(Seq<char>, ConVarView)>, show_values: bool)
    requires
        forall|i: int| 0 <= i < entries.len() ==> single_line_entry(#[trigger] entries[i]),
    ensures
        char_count(convars_lines(entries, show_values), '\n') == 2 * entries.len(),
    decreases entries.len(),
{
    if entries.len() > 0 {
        let t = entries.drop_last();
        assert forall|i: int| 0 <= i < t.len() implies single_line_entry(#[trigger] t[i]) by {
            assert(t[i] == entries[i]);
        }
        lemma_convars_lines_count(t, show_values);
        assert(single_line_entry(entries[entries.len() - 1]));
        lemma_convar_lines_two(entries.last().0, entries.last().1, show_values);
        lemma_count_concat(
            convars_lines(t, show_values),
            convar_lines(entries.last().0, entries.last().1, show_values),
            '\n',
        );
    }
}

/// When no key and no current value holds a line break, the console variable
/// header has exactly eight lines of its own and two per variable: the
/// description line and the flags line.
pub proof fn law_convar_header_lines(entries: Seq<(Seq<char>, ConVarView)>, show_values: bool)
    requires
        forall|i: int| 0 <= i < entries.len() ==> single_line_entry(#[trigger] entries[i]),
    ensures
        char_count(convars_hpp_text(entries, show_values), '\n') == 8 + 2 * entries.len(),
{
    let c = '\n';
    reveal_strlit("// generated - do not edit!\n");
    reveal_strlit("#pragma once\n");
    reveal_strlit("#include <cstdint>\n");
    reveal_strlit("\n");
    reveal_strlit("namespace CS2 {\n");
    reveal_strlit("    namespace ConVars {\n");
    reveal_strlit("    }\n");
    reveal_strlit("}\n");
    reveal_with_fuel(char_count, 30);
    let l1 = "// generated - do not edit!\n"@;
    let l2 = "#pragma once\n"@;
    let l3 = "#include <cstdint>\n"@;
    let l4 = "\n"@;
    let l5 = "namespace CS2 {\n"@;
    let l6 = "    namespace ConVars {\n"@;
    let l7 = "    }\n"@;
    let l8 = "}\n"@;
    assert(char_count(l1, c) == 1);
    assert(char_count(l2, c) == 1);
    assert(char_count(l3, c) == 1);
    assert(char_count(l4, c) == 1);
    assert(char_count(l5, c) == 1);
    assert(char_count(l6, c) == 1);
    assert(char_count(l7, c) == 1);
    assert(char_count(l8, c) == 1);
    let body = convars_lines(entries, show_values);
    lemma_convars_lines_count(entries, show_values);
    lemma_count_concat(l1, l2, c);
    lemma_count_concat(l1 + l2, l3, c);
    lemma_count_concat(l1 + l2 + l3, l4, c);
    lemma_count_concat(l1 + l2 + l3 + l4, l5, c);
    lemma_count_concat(l1 + l2 + l3 + l4 + l5, l6, c);
    lemma_count_concat(l1 + l2 + l3 + l4 + l5 + l6, body, c);
    lemma_count_concat(l1 + l2 + l3 + l4 + l5 + l6 + body, l7, c);
    lemma_count_concat(l1 + l2 + l3 + l4 + l5 + l6 + body + l7, l8, c);
}

} // verus!
