//! Laws of the flattened table of contents: it lists the navigation forest in
//! pre-order, and it writes the nesting level of an entry as indentation.

use crate::text::indent;
use crate::toc::{flat_forest, forest_rows, node_rows, row_entry, NavRow, NavTree};
use vstd::prelude::*;

verus! {

/// The number of space characters at the beginning of `text`.
pub open spec fn leading_spaces(text: Seq<char>) -> nat
    decreases text.len(),
{
    if text.len() > 0 && text[0] == ' ' {
        1 + leading_spaces(text.drop_first())
    } else {
        0
    }
}

/// Indentation in front of a text adds two leading spaces per level.
pub proof fn lemma_leading_spaces_of_indented(depth: nat, text: Seq<char>)
    ensures
        leading_spaces(indent(depth) + text) == 2 * depth + leading_spaces(text),
    decreases depth,
{
    if depth == 0 {
        assert(indent(0) + text =~= text);
    } else {
        let less = indent((depth - 1) as nat) + text;
        let one = seq![' '] + less;
        let two = seq![' '] + one;
        lemma_leading_spaces_of_indented((depth - 1) as nat, text);
        assert(one.drop_first() =~= less);
        assert(two.drop_first() =~= one);
        assert(one[0] == ' ' && two[0] == ' ');
        assert(leading_spaces(one) == 1 + leading_spaces(less));
        assert(leading_spaces(two) == 1 + leading_spaces(one));
        assert(indent(depth) + text =~= two);
    }
}

/// No row of a tree listed from level `depth` stands above that level.
pub proof fn lemma_node_rows_depth(node: NavTree, depth: nat, j: int)
    requires
        0 <= j < node_rows(node, depth).len(),
    ensures
        node_rows(node, depth)[j].depth >= depth,
    decreases node, 1nat,
{
    if j > 0 {
        lemma_forest_rows_depth(node.children, depth + 1, j - 1);
    }
}

/// No row of a forest listed from level `depth` stands above that level.
pub proof fn lemma_forest_rows_depth(nodes: Seq<NavTree>, depth: nat, j: int)
    requires
        0 <= j < forest_rows(nodes, depth).len(),
    ensures
        forest_rows(nodes, depth)[j].depth >= depth,
    decreases nodes, 0nat,
{
    let first = node_rows(nodes.first(), depth);
    if j < first.len() {
        lemma_node_rows_depth(nodes.first(), depth, j);
    } else {
        lemma_forest_rows_depth(nodes.drop_first(), depth, j - first.len());
    }
}

/// The rows of `rows` from position `at` on begin with the rows of the tree
/// at `at`, and the row behind them, if there is one, is not nested in it.
pub open spec fn subtree_at(rows: Seq<NavRow>, at: int) -> bool {
    let row = rows[at];
    let count = node_rows(row.node, row.depth).len();
    &&& at + count <= rows.len()
    &&& rows.subrange(at, at + count) == node_rows(row.node, row.depth)
    &&& at + count < rows.len() ==> rows[at + count].depth <= row.depth
}

/// In the rows of a forest, every row begins the rows of its own tree.
pub proof fn lemma_forest_rows_subtree(nodes: Seq<NavTree>, depth: nat, at: int)
    requires
        0 <= at < forest_rows(nodes, depth).len(),
    ensures
        subtree_at(forest_rows(nodes, depth), at),
    decreases nodes, 0nat,
{
    let rows = forest_rows(nodes, depth);
    let head = nodes.first();
    let first = node_rows(head, depth);
    let others = forest_rows(nodes.drop_first(), depth);
    assert(rows == first + others);
    if at == 0 {
        assert(rows.subrange(0, first.len() as int) =~= first);
        if first.len() < rows.len() {
            lemma_forest_rows_depth(nodes.drop_first(), depth, 0);
            let next = nodes.drop_first();
            assert(others[0] == node_rows(next.first(), depth)[0]);
        }
    } else if at < first.len() {
        let nested = forest_rows(head.children, depth + 1);
        lemma_forest_rows_subtree(head.children, depth + 1, at - 1);
        let row = nested[at - 1];
        let count = node_rows(row.node, row.depth).len();
        assert(rows[at] == row);
        assert(rows.subrange(at, at + count) =~= nested.subrange(at - 1, at - 1 + count));
        if at + count < rows.len() {
            if at - 1 + count < nested.len() {
                assert(rows[at + count] == nested[at - 1 + count]);
            } else {
                lemma_forest_rows_depth(head.children, depth + 1, at - 1);
                lemma_forest_rows_depth(nodes.drop_first(), depth, 0);
                let next = nodes.drop_first();
                assert(others[0] == node_rows(next.first(), depth)[0]);
                assert(rows[at + count] == others[0]);
            }
        }
    } else {
        let shifted = at - first.len();
        lemma_forest_rows_subtree(nodes.drop_first(), depth, shifted);
        let row = others[shifted];
        let count = node_rows(row.node, row.depth).len();
        assert(rows[at] == row);
        assert(rows.subrange(at, at + count) =~= others.subrange(shifted, shifted + count));
        if at + count < rows.len() {
            assert(rows[at + count] == others[shifted + count]);
        }
    }
}

/// The flattened list is a pre-order listing of the forest. It has one entry
/// per navigation entry. The entry at any position `at` is directly followed
/// by the flattened list of what is nested in it: as many entries as it has
/// descendants, each at a deeper level. The entry behind them, if there is
/// one, is at the level of the entry at `at` or above it.
pub proof fn lemma_flattening_is_preorder(forest: Seq<NavTree>, at: int)
    requires
        0 <= at < forest_rows(forest, 0).len(),
    ensures
        ({
            let rows = forest_rows(forest, 0);
            let flat = flat_forest(forest, 0);
            let row = rows[at];
            let nested = forest_rows(row.node.children, row.depth + 1);
            &&& flat.len() == rows.len()
            &&& flat[at] == row_entry(row)
            &&& at + nested.len() < rows.len()
            &&& rows.subrange(at + 1, at + 1 + nested.len()) == nested
            &&& flat.subrange(at + 1, at + 1 + nested.len()) == flat_forest(
                row.node.children,
                row.depth + 1,
            )
            &&& forall|j: int| at < j <= at + nested.len() ==> (#[trigger] rows[j]).depth > row.depth
            &&& at + 1 + nested.len() < rows.len() ==> rows[at + 1 + nested.len()].depth
                <= row.depth
        }),
{
    let rows = forest_rows(forest, 0);
    let flat = flat_forest(forest, 0);
    let row = rows[at];
    let nested = forest_rows(row.node.children, row.depth + 1);
    lemma_forest_rows_subtree(forest, 0, at);
    let own = node_rows(row.node, row.depth);
    assert(own.subrange(1, own.len() as int) =~= nested);
    assert(rows.subrange(at + 1, at + 1 + nested.len()) =~= rows.subrange(
        at,
        at + own.len(),
    ).subrange(1, own.len() as int));
    assert(flat.subrange(at + 1, at + 1 + nested.len()) =~= flat_forest(
        row.node.children,
        row.depth + 1,
    ));
    assert forall|j: int| at < j <= at + nested.len() implies (#[trigger] rows[j]).depth
        > row.depth by {
        lemma_forest_rows_depth(row.node.children, row.depth + 1, j - at - 1);
        assert(rows[j] == rows.subrange(at + 1, at + 1 + nested.len())[j - at - 1]);
    }
}

/// The title of every entry of the flattened list is the label of its
/// navigation entry behind the indentation of its level: two spaces per
/// level, so none at level 0. The title begins with twice as many spaces as
/// the level says, and with as many more as the label itself begins with.
pub proof fn lemma_titles_are_indented(forest: Seq<NavTree>, at: int)
    requires
        0 <= at < forest_rows(forest, 0).len(),
    ensures
        ({
            let row = forest_rows(forest, 0)[at];
            let title = flat_forest(forest, 0)[at].title;
            &&& title == indent(row.depth) + row.node.label
            &&& row.depth == 0 ==> title == row.node.label
            &&& leading_spaces(title) == 2 * row.depth + leading_spaces(row.node.label)
            &&& leading_spaces(row.node.label) == 0 ==> leading_spaces(title) == 2 * row.depth
        }),
{
    let row = forest_rows(forest, 0)[at];
    lemma_leading_spaces_of_indented(row.depth, row.node.label);
    assert(indent(0) + row.node.label =~= row.node.label);
}

} // verus!
