use vstd::prelude::*;

use crate::analysis::resources::ResourceTree;

verus! {

/// The lines of one category's items.
pub open spec fn item_lines(items: Seq<String>) -> Seq<char>
    decreases items.len(),
{
    if items.len() == 0 {
        Seq::empty()
    } else {
        item_lines(items.drop_last()) + "   |- "@ + items.last()@ + "\n"@
    }
}

/// The text of the categories, in category order.
pub open spec fn category_lines(tree: Seq<(Seq<char>, Seq<String>)>) -> Seq<char>
    decreases tree.len(),
{
    if tree.len() == 0 {
        Seq::empty()
    } else {
        category_lines(tree.drop_last()) + "- "@ + tree.last().0 + "\n"@ + item_lines(tree.last().1)
            + "\n"@
    }
}

/// The resource listing.
pub open spec fn resources_text(tree: Seq<(Seq<char>, Seq<String>)>) -> Seq<char> {
    "Resources\n"@ + category_lines(tree)
}

fn append_item_lines(out: &mut String, items: &Vec<String>)
    ensures
        final(out)@ == old(out)@ + item_lines(items@),
{
    let ghost start = out@;
    let mut j: usize = 0;
    while j < items.len()
        invariant
            j <= items@.len(),
            out@ == start + item_lines(items@.take(j as int)),
        decreases items@.len() - j,
    {
        out.append("   |- ");
        out.append(items[j].as_str());
        out.append("\n");
        proof {
            let t = items@.take(j + 1);
            assert(t.drop_last() =~= items@.take(j as int));
            assert(t.last() == items@[j as int]);
            assert(out@ =~= start + item_lines(t));
        }
        j = j + 1;
    }
    proof {
        assert(items@.take(j as int) =~= items@);
    }
}

/// Renders the resource listing: each category with its items indented
/// below it and a blank line after.
pub fn render_resources(tree: &ResourceTree) -> (s: String)
    ensures
        s@ == resources_text(tree@),
{
    let mut s = String::new();
    s.append("Resources\n");
    let ghost start = s@;
    let mut i: usize = 0;
    while i < tree.len()
        invariant
            i <= tree@.len(),
            s@ == start + category_lines(tree@.take(i as int)),
        decreases tree@.len() - i,
    {
        s.append("- ");
        s.append(tree.key_at(i).as_str());
        s.append("\n");
        append_item_lines(&mut s, tree.value_at(i));
        s.append("\n");
        proof {
            let t = tree@.take(i + 1);
            assert(t.drop_last() =~= tree@.take(i as int));
            assert(t.last() == tree@[i as int]);
            assert(s@ =~= start + category_lines(t));
        }
        i = i + 1;
    }
    proof {
        assert(tree@.take(i as int) =~= tree@);
        assert(s@ =~= resources_text(tree@));
    }
    s
}

} // verus!
