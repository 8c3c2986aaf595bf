use vstd::prelude::*;

use crate::analysis::schemas::{Class, Enum, SchemaMap};
use crate::text::{dec_digits, append_dec};

verus! {

/// The number of classes over all modules.
pub open spec fn class_count(modules: Seq<(Seq<char>, (Seq<Class>, Seq<Enum>))>) -> nat
    decreases modules.len(),
{
    if modules.len() == 0 {
        0
    } else {
        class_count(modules.drop_last()) + modules.last().1.0.len()
    }
}

/// The sum of a list of counts.
pub open spec fn total(counts: Seq<usize>) -> nat
    decreases counts.len(),
{
    if counts.len() == 0 {
        0
    } else {
        total(counts.drop_last()) + counts.last() as nat
    }
}

/// The number of classes over all modules, or `None` when it does not fit in
/// a `usize`.
pub fn count_classes(schemas: &SchemaMap) -> (r: Option<usize>)
    ensures
        match r {
            Some(n) => n == class_count(schemas@),
            None => class_count(schemas@) > usize::MAX,
        },
{
    let mut n: usize = 0;
    let mut i: usize = 0;
    while i < schemas.len()
        invariant
            i <= schemas@.len(),
            n == class_count(schemas@.take(i as int)),
        decreases schemas@.len() - i,
    {
        let k = schemas.value_at(i).0.len();
        proof {
            let t = schemas@.take(i + 1);
            assert(t.drop_last() =~= schemas@.take(i as int));
            assert(t.last() == schemas@[i as int]);
        }
        if n > usize::MAX - k {
            proof {
                lemma_class_count_prefix(schemas@, i + 1);
            }
            return None;
        }
        n = n + k;
        i = i + 1;
    }
    proof {
        assert(schemas@.take(i as int) =~= schemas@);
    }
    Some(n)
}

/// The class count depends on the class lists alone: two lists of modules
/// with the same class lists, whatever their enums and names, count the same.
pub proof fn law_class_count_ignores_enums(
    a: Seq<(Seq<char>, (Seq<Class>, Seq<Enum>))>,
    b: Seq<(Seq<char>, (Seq<Class>, Seq<Enum>))>,
)
    requires
        a.len() == b.len(),
        forall|i: int| 0 <= i < a.len() ==> (#[trigger] a[i]).1.0 == b[i].1.0,
    ensures
        class_count(a) == class_count(b),
    decreases a.len(),
{
    if a.len() > 0 {
        let (ta, tb) = (a.drop_last(), b.drop_last());
        assert forall|i: int| 0 <= i < ta.len() implies (#[trigger] ta[i]).1.0 == tb[i].1.0 by {
            assert(ta[i] == a[i] && tb[i] == b[i]);
        }
        law_class_count_ignores_enums(ta, tb);
        assert(a[a.len() - 1].1.0 == b[b.len() - 1].1.0);
    }
}

/// The class count of one module is the number of its classes, and the class
/// count of two lists of modules together is the sum of their counts.
pub proof fn law_class_count_adds_up(
    m: (Seq<char>, (Seq<Class>, Seq<Enum>)),
    a: Seq<(Seq<char>, (Seq<Class>, Seq<Enum>))>,
    b: Seq<(Seq<char>, (Seq<Class>, Seq<Enum>))>,
)
    ensures
        class_count(seq![m]) == m.1.0.len(),
        class_count(a + b) == class_count(a) + class_count(b),
    decreases b.len(),
{
    assert(seq![m].drop_last() =~= Seq::<(Seq<char>, (Seq<Class>, Seq<Enum>))>::empty());
    assert(class_count(seq![m].drop_last()) == 0);
    assert(seq![m].last() == m);
    if b.len() == 0 {
        assert(a + b =~= a);
    } else {
        law_class_count_adds_up(m, a, b.drop_last());
        assert((a + b).drop_last() =~= a + b.drop_last());
        assert((a + b).last() == b.last());
    }
}

/// The total of two lists of counts together is the sum of their totals, and
/// the total of one count is that count.
pub proof fn law_total_adds_up(n: usize, a: Seq<usize>, b: Seq<usize>)
    ensures
        total(seq![n]) == n,
        total(a + b) == total(a) + total(b),
    decreases b.len(),
{
    assert(seq![n].drop_last() =~= Seq::<usize>::empty());
    assert(total(seq![n].drop_last()) == 0);
    assert(seq![n].last() == n);
    if b.len() == 0 {
        assert(a + b =~= a);
    } else {
        law_total_adds_up(n, a, b.drop_last());
        assert((a + b).drop_last() =~= a + b.drop_last());
        assert((a + b).last() == b.last());
    }
}

proof fn lemma_class_count_prefix(m: Seq<(Seq<char>, (Seq<Class>, Seq<Enum>))>, k: int)
    requires
        0 <= k <= m.len(),
    ensures
        class_count(m.take(k)) <= class_count(m),
    decreases m.len(),
{
    if k < m.len() {
        assert(m.drop_last().take(k) =~= m.take(k));
        lemma_class_count_prefix(m.drop_last(), k);
    } else {
        assert(m.take(k) =~= m);
    }
}

proof fn lemma_total_prefix(c: Seq<usize>, k: int)
    requires
        0 <= k <= c.len(),
    ensures
        total(c.take(k)) <= total(c),
    decreases c.len(),
{
    if k < c.len() {
        assert(c.drop_last().take(k) =~= c.take(k));
        lemma_total_prefix(c.drop_last(), k);
    } else {
        assert(c.take(k) =~= c);
    }
}

/// The sum of `counts`, or `None` when it does not fit in a `usize`.
pub fn sum_counts(counts: &Vec<usize>) -> (r: Option<usize>)
    ensures
        match r {
            Some(n) => n == total(counts@),
            None => total(counts@) > usize::MAX,
        },
{
    let mut n: usize = 0;
    let mut i: usize = 0;
    while i < counts.len()
        invariant
            i <= counts@.len(),
            n == total(counts@.take(i as int)),
        decreases counts@.len() - i,
    {
        proof {
            let t = counts@.take(i + 1);
            assert(t.drop_last() =~= counts@.take(i as int));
            assert(t.last() == counts@[i as int]);
        }
        if n > usize::MAX - counts[i] {
            proof {
                lemma_total_prefix(counts@, i + 1);
            }
            return None;
        }
        n = n + counts[i];
        i = i + 1;
    }
    proof {
        assert(counts@.take(i as int) =~= counts@);
    }
    Some(n)
}

/// The fixed instructions that open the LLM guide.
pub open spec fn llm_preamble_text() -> Seq<char> {
    "# LLM Instruction Set for CS2 SDK Consumption\n\n## Core System Overview\nYou are assisting in the development of tools for Counter-Strike 2. This directory contains a complete, type-safe SDK generated from the game's schema system and memory. The SDK is organized into several distinct tiers of data.\n\n## Data Tiers\n1. **Precise Memory Layouts (`xsip_sdk/`)**: Use these headers when you need exact byte-alignment. They use `S2_PAD` for gaps between members. This is the source of truth for struct sizes and member offsets.\n2. **Ergonomic Accessors (`sdk/`)**: Use headers in `sdk/` for internal cheat development. The `SCHEMA_FIELD` macros provide inline accessors that handle address calculation automatically.\n3. **Interface Registry (`xsip_interfaces/`)**: Provides RVAs for `CreateInterface` targets. Use these to find engine singletons (e.g., `CGameEventManager`).\n4. **Engine Signatures (`signatures/`)**: Contains IDA-style patterns for non-schema functions. Use these to find hook locations for game logic.\n\n## How to Analyze a Request\n- **If asked about a class**: Look for the class file in `xsip_sdk/<module>/<ClassName>.hpp`. Check inheritance and field offsets.\n- **If asked about an offset**: Cross-reference `sdk/offsets.json` and the signature report in `report.json`.\n- **If asked about a GameEvent**: Search the `game_events` object in `report.json` to find its field names and types.\n- **If asked about a ConVar**: Check `sdk/convars.hpp` for flags and descriptions.\n\n## Technical Constraints\n- All pointers are **64-bit** (`uintptr_t` or `void*`).\n- The engine is **Source 2**, which uses a heavily networked schema system.\n- Use `static_assert` blocks found in `xsip_sdk/` to verify your assumptions about memory layout.\n\n## Engine Stats\n"@
}

/// The LLM guide: fixed instructions followed by the engine statistics.
pub open spec fn llm_text(classes: nat, convars: nat, interfaces: nat) -> Seq<char> {
    llm_preamble_text() + "- Classes: "@ + dec_digits(classes) + "\n"@ + "- ConVars: "@ + dec_digits(
        convars,
    ) + "\n"@ + "- Interfaces: "@ + dec_digits(interfaces) + "\n"@
}

/// Renders the guide for language models that consume the generated SDK,
/// with the numbers of classes, console variables and interfaces.
pub fn render_llm_instructions(classes: usize, convars: usize, interfaces: usize) -> (s: String)
    ensures
        s@ == llm_text(classes as nat, convars as nat, interfaces as nat),
{
    let mut s = String::new();
    s.append("# LLM Instruction Set for CS2 SDK Consumption\n\n## Core System Overview\nYou are assisting in the development of tools for Counter-Strike 2. This directory contains a complete, type-safe SDK generated from the game's schema system and memory. The SDK is organized into several distinct tiers of data.\n\n## Data Tiers\n1. **Precise Memory Layouts (`xsip_sdk/`)**: Use these headers when you need exact byte-alignment. They use `S2_PAD` for gaps between members. This is the source of truth for struct sizes and member offsets.\n2. **Ergonomic Accessors (`sdk/`)**: Use headers in `sdk/` for internal cheat development. The `SCHEMA_FIELD` macros provide inline accessors that handle address calculation automatically.\n3. **Interface Registry (`xsip_interfaces/`)**: Provides RVAs for `CreateInterface` targets. Use these to find engine singletons (e.g., `CGameEventManager`).\n4. **Engine Signatures (`signatures/`)**: Contains IDA-style patterns for non-schema functions. Use these to find hook locations for game logic.\n\n## How to Analyze a Request\n- **If asked about a class**: Look for the class file in `xsip_sdk/<module>/<ClassName>.hpp`. Check inheritance and field offsets.\n- **If asked about an offset**: Cross-reference `sdk/offsets.json` and the signature report in `report.json`.\n- **If asked about a GameEvent**: Search the `game_events` object in `report.json` to find its field names and types.\n- **If asked about a ConVar**: Check `sdk/convars.hpp` for flags and descriptions.\n\n## Technical Constraints\n- All pointers are **64-bit** (`uintptr_t` or `void*`).\n- The engine is **Source 2**, which uses a heavily networked schema system.\n- Use `static_assert` blocks found in `xsip_sdk/` to verify your assumptions about memory layout.\n\n## Engine Stats\n");
    s.append("- Classes: ");
    append_dec(&mut s, classes);
    s.append("\n");
    s.append("- ConVars: ");
    append_dec(&mut s, convars);
    s.append("\n");
    s.append("- Interfaces: ");
    append_dec(&mut s, interfaces);
    s.append("\n");
    proof {
        assert(s@ =~= llm_text(classes as nat, convars as nat, interfaces as nat));
    }
    s
}

} // verus!
