use vstd::prelude::*;

use crate::analysis::schemas::{Class, Enum, SchemaMap};

verus! {

/// The edge drawn from a class's parent to the class, if it has a parent.
pub open spec fn edge_line(c: Class) -> Seq<char> {
    match c.parent_name {
        Some(p) => "  \""@ + p@ + "\" -> \""@ + c.name@ + "\";\n"@,
        None => Seq::empty(),
    }
}

/// The edges of a list of classes, in order.
pub open spec fn edge_lines(classes: Seq<Class>) -> Seq<char>
    decreases classes.len(),
{
    if classes.len() == 0 {
        Seq::empty()
    } else {
        edge_lines(classes.drop_last()) + edge_line(classes.last())
    }
}

/// The edges of all modules, in module order.
pub open spec fn module_edges(modules: Seq<(Seq<char>, (Seq<Class>, Seq<Enum>))>) -> Seq<char>
    decreases modules.len(),
{
    if modules.len() == 0 {
        Seq::empty()
    } else {
        module_edges(modules.drop_last()) + edge_lines(modules.last().1.0)
    }
}

/// The inheritance graph in the DOT language.
pub open spec fn dot_text(modules: Seq<(Seq<char>, (Seq<Class>, Seq<Enum>))>) -> Seq<char> {
    "digraph CS2Hierarchy {\n  node [shape=box, style=filled, fillcolor=lightblue];\n  rankdir=LR;\n"@
        + module_edges(modules) + "}\n"@
}

/// The list item of one class, naming its parent when it has one.
pub open spec fn class_item(c: Class) -> Seq<char> {
    "<li>"@ + c.name@ + (match c.parent_name {
        Some(p) => " (parent: "@ + p@ + ")"@,
        None => Seq::empty(),
    }) + "</li>"@
}

/// The list items of a list of classes, in order.
pub open spec fn class_items(classes: Seq<Class>) -> Seq<char>
    decreases classes.len(),
{
    if classes.len() == 0 {
        Seq::empty()
    } else {
        class_items(classes.drop_last()) + class_item(classes.last())
    }
}

/// The nested lists of all modules, in module order.
pub open spec fn module_items(modules: Seq<(Seq<char>, (Seq<Class>, Seq<Enum>))>) -> Seq<char>
    decreases modules.len(),
{
    if modules.len() == 0 {
        Seq::empty()
    } else {
        module_items(modules.drop_last()) + "<li><b>"@ + modules.last().0 + "</b><ul>"@
            + class_items(modules.last().1.0) + "</ul></li>"@
    }
}

/// The HTML page listing the classes of each module.
pub open spec fn html_text(modules: Seq<(Seq<char>, (Seq<Class>, Seq<Enum>))>) -> Seq<char> {
    "<!DOCTYPE html><html><head><title>CS2 Entity Hierarchy</title></head><body><h1>CS2 Entity Hierarchy</h1><ul>"@
        + module_items(modules) + "</ul></body></html>"@
}

/// The DOT line of an edge from `parent` to `name`.
pub open spec fn parent_edge(parent: Seq<char>, name: Seq<char>) -> Seq<char> {
    "  \""@ + parent + "\" -> \""@ + name + "\";\n"@
}

/// The edge lines of one module's classes: one per class that has a parent.
pub open spec fn class_edge_texts(classes: Seq<Class>) -> Seq<Seq<char>> {
    Seq::new(
        classes.len(),
        |j: int|
            match classes[j].parent_name {
                Some(p) => parent_edge(p@, classes[j].name@),
                None => Seq::<char>::empty(),
            },
    )
}

/// The edge lines of every module, in module order.
pub open spec fn module_edge_texts(modules: Seq<(Seq<char>, (Seq<Class>, Seq<Enum>))>) -> Seq<Seq<char>> {
    Seq::new(modules.len(), |i: int| class_edge_texts(modules[i].1.0).flatten())
}

proof fn lemma_edge_lines_flat(classes: Seq<Class>)
    ensures
        edge_lines(classes) == class_edge_texts(classes).flatten(),
    decreases classes.len(),
{
    if classes.len() > 0 {
        let t = classes.drop_last();
        lemma_edge_lines_flat(t);
        let last = class_edge_texts(classes)[classes.len() - 1];
        assert(class_edge_texts(classes) =~= class_edge_texts(t).push(last));
        class_edge_texts(t).lemma_flatten_push(last);
        assert(edge_line(classes.last()) == last);
    }
}

proof fn lemma_module_edges_flat(modules: Seq<(Seq<char>, (Seq<Class>, Seq<Enum>))>)
    ensures
        module_edges(modules) == module_edge_texts(modules).flatten(),
    decreases modules.len(),
{
    if modules.len() > 0 {
        let t = modules.drop_last();
        lemma_module_edges_flat(t);
        lemma_edge_lines_flat(modules.last().1.0);
        let last = module_edge_texts(modules)[modules.len() - 1];
        assert(module_edge_texts(modules) =~= module_edge_texts(t).push(last));
        module_edge_texts(t).lemma_flatten_push(last);
    }
}

proof fn lemma_flatten_around<A>(s: Seq<Seq<A>>, k: int)
    requires
        0 <= k < s.len(),
    ensures
        s.flatten() == s.take(k).flatten() + s[k] + s.skip(k + 1).flatten(),
{
    assert(s =~= s.take(k) + (seq![s[k]] + s.skip(k + 1)));
    vstd::seq_lib::lemma_flatten_concat(s.take(k), seq![s[k]] + s.skip(k + 1));
    vstd::seq_lib::lemma_flatten_concat(seq![s[k]], s.skip(k + 1));
    seq![s[k]].lemma_flatten_singleton();
    assert(s.take(k).flatten() + (s[k] + s.skip(k + 1).flatten()) =~= s.take(k).flatten() + s[k]
        + s.skip(k + 1).flatten());
}

/// The inheritance graph draws, between its fixed opening and closing lines,
/// the edges of every module in module order, and within a module one edge
/// line `"parent" -> "class"` per class that has a parent, in class order,
/// and nothing for a class without one.
pub proof fn law_dot_edges(modules: Seq<(Seq<char>, (Seq<Class>, Seq<Enum>))>)
    ensures
        dot_text(modules) == "digraph CS2Hierarchy {\n  node [shape=box, style=filled, fillcolor=lightblue];\n  rankdir=LR;\n"@
            + module_edge_texts(modules).flatten() + "}\n"@,
{
    lemma_module_edges_flat(modules);
}

/// Every class that has a parent, in every module, gets its edge line in the
/// inheritance graph.
pub proof fn law_dot_draws_every_parent(
    modules: Seq<(Seq<char>, (Seq<Class>, Seq<Enum>))>,
    i: int,
    j: int,
    parent: Seq<char>,
)
    requires
        0 <= i < modules.len(),
        0 <= j < modules[i].1.0.len(),
        modules[i].1.0[j].parent_name matches Some(p) && p@ == parent,
    ensures
        exists|pre: Seq<char>, post: Seq<char>|
            dot_text(modules) == pre + parent_edge(parent, modules[i].1.0[j].name@) + post,
{
    law_dot_edges(modules);
    let ms = module_edge_texts(modules);
    let cs = class_edge_texts(modules[i].1.0);
    lemma_flatten_around(ms, i);
    lemma_flatten_around(cs, j);
    let line = parent_edge(parent, modules[i].1.0[j].name@);
    assert(cs[j] == line);
    let head = "digraph CS2Hierarchy {\n  node [shape=box, style=filled, fillcolor=lightblue];\n  rankdir=LR;\n"@;
    let pre = head + ms.take(i).flatten() + cs.take(j).flatten();
    let post = cs.skip(j + 1).flatten() + ms.skip(i + 1).flatten() + "}\n"@;
    assert(dot_text(modules) =~= pre + line + post);
}

fn append_edge_lines(out: &mut String, classes: &Vec<Class>)
    ensures
        final(out)@ == old(out)@ + edge_lines(classes@),
{
    let ghost start = out@;
    let mut j: usize = 0;
    while j < classes.len()
        invariant
            j <= classes@.len(),
            out@ == start + edge_lines(classes@.take(j as int)),
        decreases classes@.len() - j,
    {
        let c = &classes[j];
        let ghost before = out@;
        match &c.parent_name {
            Some(p) => {
                out.append("  \"");
                out.append(p.as_str());
                out.append("\" -> \"");
                out.append(c.name.as_str());
                out.append("\";\n");
            },
            None => {},
        }
        proof {
            assert(out@ =~= before + edge_line(*c));
            let t = classes@.take(j + 1);
            assert(t.drop_last() =~= classes@.take(j as int));
            assert(t.last() == classes@[j as int]);
            assert(out@ =~= start + edge_lines(t));
        }
        j = j + 1;
    }
    proof {
        assert(classes@.take(j as int) =~= classes@);
    }
}

/// Renders the inheritance graph of all classes in the DOT language: an edge
/// from each parent to each class that has one.
pub fn render_dot(schemas: &SchemaMap) -> (s: String)
    ensures
        s@ == dot_text(schemas@),
{
    let mut s = String::new();
    s.append(
        "digraph CS2Hierarchy {\n  node [shape=box, style=filled, fillcolor=lightblue];\n  rankdir=LR;\n",
    );
    let ghost start = s@;
    let mut i: usize = 0;
    while i < schemas.len()
        invariant
            i <= schemas@.len(),
            s@ == start + module_edges(schemas@.take(i as int)),
        decreases schemas@.len() - i,
    {
        append_edge_lines(&mut s, &schemas.value_at(i).0);
        proof {
            let t = schemas@.take(i + 1);
            assert(t.drop_last() =~= schemas@.take(i as int));
            assert(t.last() == schemas@[i as int]);
            assert(s@ =~= start + module_edges(t));
        }
        i = i + 1;
    }
    proof {
        assert(schemas@.take(i as int) =~= schemas@);
    }
    s.append("}\n");
    proof {
        assert(s@ =~= dot_text(schemas@));
    }
    s
}

fn append_class_items(out: &mut String, classes: &Vec<Class>)
    ensures
        final(out)@ == old(out)@ + class_items(classes@),
{
    let ghost start = out@;
    let mut j: usize = 0;
    while j < classes.len()
        invariant
            j <= classes@.len(),
            out@ == start + class_items(classes@.take(j as int)),
        decreases classes@.len() - j,
    {
        let c = &classes[j];
        let ghost before = out@;
        out.append("<li>");
        out.append(c.name.as_str());
        match &c.parent_name {
            Some(p) => {
                out.append(" (parent: ");
                out.append(p.as_str());
                out.append(")");
            },
            None => {},
        }
        out.append("</li>");
        proof {
            assert(out@ =~= before + class_item(*c));
            let t = classes@.take(j + 1);
            assert(t.drop_last() =~= classes@.take(j as int));
            assert(t.last() == classes@[j as int]);
            assert(out@ =~= start + class_items(t));
        }
        j = j + 1;
    }
    proof {
        assert(classes@.take(j as int) =~= classes@);
    }
}

/// Renders the HTML page that lists, per module, its classes and their
/// parents.
pub fn render_html(schemas: &SchemaMap) -> (s: String)
    ensures
        s@ == html_text(schemas@),
{
    let mut s = String::new();
    s.append(
        "<!DOCTYPE html><html><head><title>CS2 Entity Hierarchy</title></head><body><h1>CS2 Entity Hierarchy</h1><ul>",
    );
    let ghost start = s@;
    let mut i: usize = 0;
    while i < schemas.len()
        invariant
            i <= schemas@.len(),
            s@ == start + module_items(schemas@.take(i as int)),
        decreases schemas@.len() - i,
    {
        let ghost before = s@;
        s.append("<li><b>");
        s.append(schemas.key_at(i).as_str());
        s.append("</b><ul>");
        append_class_items(&mut s, &schemas.value_at(i).0);
        s.append("</ul></li>");
        proof {
            let t = schemas@.take(i + 1);
            assert(t.drop_last() =~= schemas@.take(i as int));
            assert(t.last() == schemas@[i as int]);
            assert(s@ =~= start + module_items(t));
        }
        i = i + 1;
    }
    proof {
        assert(schemas@.take(i as int) =~= schemas@);
    }
    s.append("</ul></body></html>");
    proof {
        assert(s@ =~= html_text(schemas@));
    }
    s
}

} // verus!
