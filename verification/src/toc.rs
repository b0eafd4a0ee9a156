//! The table of contents: a navigation forest and its flattening into an
//! indented list.

use crate::model::{opt_text, TocEntry, TocEntryView};
use crate::text::{indent, indentation, lemma_indent_step};
use vstd::prelude::*;

verus! {

/// A navigation entry with its nested entries, in document order.
#[derive(Debug)]
pub struct NavNode {
    /// The display label.
    pub label: String,
    /// The link target, if the entry has one.
    pub href: Option<String>,
    /// The entries nested below this one.
    pub children: Vec<NavNode>,
}

/// Mathematical view of [`NavNode`].
pub struct NavTree {
    pub label: Seq<char>,
    pub href: Option<Seq<char>>,
    pub children: Seq<NavTree>,
}

/// The tree of labels and link targets that `node` stands for.
pub open spec fn nav_tree(node: NavNode) -> NavTree
    decreases node,
{
    NavTree {
        label: node.label@,
        href: opt_text(node.href),
        children: Seq::new(
            node.children.len() as nat,
            |i: int|
                if 0 <= i < node.children.len() {
                    nav_tree(node.children[i])
                } else {
                    arbitrary()
                },
        ),
    }
}

impl View for NavNode {
    type V = NavTree;

    open spec fn view(&self) -> NavTree {
        nav_tree(*self)
    }
}

impl DeepView for NavNode {
    type V = NavTree;

    open spec fn deep_view(&self) -> NavTree {
        self@
    }
}

/// What the view of a node is made of.
pub proof fn lemma_nav_view(node: &NavNode)
    ensures
        node@.label == node.label@,
        node@.href == opt_text(node.href),
        node@.children == node.children.deep_view(),
{
    assert(node@.children =~= node.children.deep_view());
}

/// A navigation entry together with its nesting level.
pub struct NavRow {
    pub depth: nat,
    pub node: NavTree,
}

/// The entries of the tree under `node`, each with its nesting level, parents
/// before their children and siblings in document order. `node` itself is at
/// level `depth`.
pub open spec fn node_rows(node: NavTree, depth: nat) -> Seq<NavRow>
    decreases node, 1nat,
{
    seq![NavRow { depth, node }] + forest_rows(node.children, depth + 1)
}

/// The entries of the trees in `nodes`, one tree after the other, the roots at
/// level `depth`.
pub open spec fn forest_rows(nodes: Seq<NavTree>, depth: nat) -> Seq<NavRow>
    decreases nodes, 0nat,
{
    if nodes.len() == 0 {
        Seq::empty()
    } else {
        node_rows(nodes.first(), depth) + forest_rows(nodes.drop_first(), depth)
    }
}

/// The line that the flattened list shows for a navigation entry: the label
/// behind the indentation of its level, and the link target or nothing.
pub open spec fn row_entry(row: NavRow) -> TocEntryView {
    TocEntryView {
        title: indent(row.depth) + row.node.label,
        href: match row.node.href {
            Some(target) => target,
            None => Seq::empty(),
        },
    }
}

/// The flattened list of the tree under `node`, which stands at level `depth`.
pub open spec fn flat_node(node: NavTree, depth: nat) -> Seq<TocEntryView> {
    node_rows(node, depth).map_values(|row: NavRow| row_entry(row))
}

/// The flattened list of a forest whose roots stand at level `depth`.
pub open spec fn flat_forest(nodes: Seq<NavTree>, depth: nat) -> Seq<TocEntryView> {
    forest_rows(nodes, depth).map_values(|row: NavRow| row_entry(row))
}

/// The rows still owed by a traversal whose work list is `work`: the trees on
/// the list are listed from its end towards its beginning.
spec fn pending_rows(work: Seq<NavRow>) -> Seq<NavRow>
    decreases work.len(),
{
    if work.len() == 0 {
        Seq::empty()
    } else {
        node_rows(work.last().node, work.last().depth) + pending_rows(work.drop_last())
    }
}

/// Putting a tree on the work list puts its rows in front of the rows owed.
proof fn lemma_pending_push(work: Seq<NavRow>, row: NavRow)
    ensures
        pending_rows(work.push(row)) == node_rows(row.node, row.depth) + pending_rows(work),
{
    assert(work.push(row).drop_last() =~= work);
}

/// The rows of a forest are the rows of its first trees followed by the rows
/// of its last tree.
pub proof fn lemma_forest_rows_push(nodes: Seq<NavTree>, last: NavTree, depth: nat)
    ensures
        forest_rows(nodes.push(last), depth) == forest_rows(nodes, depth) + node_rows(last, depth),
    decreases nodes.len(),
{
    let all = nodes.push(last);
    if nodes.len() == 0 {
        assert(all.drop_first() =~= Seq::<NavTree>::empty());
        assert(forest_rows(all.drop_first(), depth) =~= Seq::<NavRow>::empty());
        assert(forest_rows(all, depth) =~= node_rows(last, depth));
    } else {
        lemma_forest_rows_push(nodes.drop_first(), last, depth);
        assert(all.drop_first() =~= nodes.drop_first().push(last));
        assert(forest_rows(all, depth) =~= forest_rows(nodes, depth) + node_rows(last, depth));
    }
}

/// Appends the flattened list of the tree under `entry` to `toc`. `entry`
/// itself stands at nesting level `depth`; every entry comes before the
/// entries nested in it, and siblings keep their order. A title is the label
/// behind two spaces per level, so at level 0 it is the label alone. An entry
/// without link target gets an empty one.
///
/// The walk keeps its own list of the trees still to visit, each with the
/// indentation of its level, so its use of the call stack does not grow with
/// the nesting of the tree.
pub fn push_toc_entries(toc: &mut Vec<TocEntry>, entry: &NavNode, depth: usize)
    ensures
        final(toc).deep_view() == old(toc).deep_view() + flat_node(entry@, depth as nat),
{
    let ghost before = toc.deep_view();
    let ghost goal = node_rows(entry@, depth as nat);
    let mut pending: Vec<(&NavNode, String)> = Vec::new();
    let ghost mut work: Seq<NavRow> = Seq::empty();
    let ghost mut listed: Seq<NavRow> = Seq::empty();
    pending.push((entry, indentation(depth)));
    proof {
        work = work.push(NavRow { depth: depth as nat, node: entry@ });
        lemma_pending_push(Seq::empty(), NavRow { depth: depth as nat, node: entry@ });
        assert(listed + pending_rows(work) =~= goal);
        assert(before + listed.map_values(|row: NavRow| row_entry(row)) =~= before);
    }
    while pending.len() > 0
        invariant
            pending.len() == work.len(),
            forall|i: int|
                0 <= i < work.len() ==> (#[trigger] pending[i]).0@ == work[i].node
                    && pending[i].1@ == indent(work[i].depth),
            listed + pending_rows(work) == goal,
            toc.deep_view() == before + listed.map_values(|row: NavRow| row_entry(row)),
        decreases pending_rows(work).len(),
    {
        let ghost row = work.last();
        let ghost rest = work.drop_last();
        let ghost owed = pending_rows(work);
        let (node, prefix) = pending.pop().unwrap();
        let href = match &node.href {
            Some(target) => target.clone(),
            None => String::new(),
        };
        let mut title = prefix.clone();
        title.append(node.label.as_str());
        let mut nested = prefix;
        nested.append("  ");
        let ghost shown = toc.deep_view();
        toc.push(TocEntry { title, href });
        proof {
            reveal_strlit("  ");
            lemma_indent_step(row.depth);
            assert("  "@ =~= seq![' ', ' ']);
            assert(toc.deep_view() =~= shown.push(row_entry(row)));
            assert(listed.push(row).map_values(|r: NavRow| row_entry(r)) =~= listed.map_values(
                |r: NavRow| row_entry(r),
            ).push(row_entry(row)));
            listed = listed.push(row);
            work = rest;
        }
        let count = node.children.len();
        let mut k = count;
        proof {
            lemma_nav_view(node);
        }
        assert(node@.children.subrange(k as int, count as int) =~= Seq::<NavTree>::empty());
        while k > 0
            invariant
                k <= count,
                count == node.children.len(),
                node@ == row.node,
                node@.children == node.children.deep_view(),
                nested@ == indent(row.depth + 1),
                pending.len() == work.len(),
                forall|i: int|
                    0 <= i < work.len() ==> (#[trigger] pending[i]).0@ == work[i].node
                        && pending[i].1@ == indent(work[i].depth),
                pending_rows(work) == forest_rows(
                    node@.children.subrange(k as int, count as int),
                    row.depth + 1,
                ) + pending_rows(rest),
            decreases k,
        {
            k = k - 1;
            let child = &node.children[k];
            let ghost next = NavRow { depth: row.depth + 1, node: child@ };
            proof {
                lemma_pending_push(work, next);
                let tail = node@.children.subrange(k as int, count as int);
                assert(tail.first() == child@);
                assert(tail.drop_first() =~= node@.children.subrange(k + 1, count as int));
                assert(pending_rows(work.push(next)) =~= forest_rows(tail, row.depth + 1)
                    + pending_rows(rest));
                work = work.push(next);
            }
            pending.push((child, nested.clone()));
        }
        proof {
            assert(node@.children.subrange(0, count as int) =~= node@.children);
            assert(owed == node_rows(row.node, row.depth) + pending_rows(rest));
            assert(listed + pending_rows(work) =~= goal);
        }
    }
    proof {
        assert(pending_rows(work) =~= Seq::<NavRow>::empty());
        assert(listed =~= goal);
    }
}

/// Flattens a navigation forest: the entries of each tree in turn, the roots
/// at nesting level 0, every entry before the entries nested in it.
pub fn flatten_toc(forest: &Vec<NavNode>) -> (toc: Vec<TocEntry>)
    ensures
        toc.deep_view() == flat_forest(forest.deep_view(), 0),
{
    let mut toc: Vec<TocEntry> = Vec::new();
    let mut done: usize = 0;
    assert(toc.deep_view() =~= flat_forest(forest.deep_view().subrange(0, 0), 0));
    while done < forest.len()
        invariant
            done <= forest.len(),
            toc.deep_view() == flat_forest(forest.deep_view().subrange(0, done as int), 0),
        decreases forest.len() - done,
    {
        push_toc_entries(&mut toc, &forest[done], 0);
        proof {
            let roots = forest.deep_view();
            let seen = roots.subrange(0, done as int);
            lemma_forest_rows_push(seen, forest[done as int]@, 0);
            assert(roots.subrange(0, done + 1) =~= seen.push(forest[done as int]@));
            assert(toc.deep_view() =~= flat_forest(roots.subrange(0, done + 1), 0));
        }
        done = done + 1;
    }
    assert(forest.deep_view().subrange(0, done as int) =~= forest.deep_view());
    toc
}

} // verus!
