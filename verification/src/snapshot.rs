//! Reads an opened container into a [`Package`] of plain data.

use crate::assemble::{Package, PackageView};
use crate::chapters::{slot_record, ItemView, ManifestItem, RecordView};
use crate::metadata::PackageMetadata;
use crate::source::{
    cover_entry, declared_creators, declared_description, declared_identifier, declared_language,
    declared_publishers, declared_title, entry_bytes, entry_text, failure_text, held, nav_tree_of,
    nav_trees_of, spine_item, spine_len, toc_child, toc_child_count, toc_href, toc_label,
    toc_roots, ContainerView,
};
use crate::model::opt_text;
use crate::toc::{lemma_nav_view, NavNode, NavTree};
use rbook::ebook::epub::toc::EpubTocEntry;
use rbook::epub::Epub;
use vstd::multiset::Multiset;
use vstd::prelude::*;

verus! {

/// Reads the declared metadata: the main title, language and description,
/// the primary identifier, and all creators and publishers in their order.
pub(crate) fn read_metadata(epub: &Epub) -> (metadata: PackageMetadata)
    ensures
        metadata@ == held(*epub).metadata,
{
    PackageMetadata {
        title: declared_title(epub),
        creators: declared_creators(epub),
        language: declared_language(epub),
        identifier: declared_identifier(epub),
        publishers: declared_publishers(epub),
        description: declared_description(epub),
    }
}

/// Reads the cover source: `None` where no cover is declared, otherwise the
/// outcome of reading the declared resource, a failure as its text.
pub(crate) fn read_cover(epub: &Epub) -> (cover: Option<Result<Vec<u8>, String>>)
    ensures
        cover is Some <==> held(*epub).declares_cover,
{
    match cover_entry(epub) {
        Some(entry) => match entry_bytes(&entry) {
            Ok(bytes) => Some(Ok(bytes)),
            Err(error) => Some(Err(failure_text(&error))),
        },
        None => None,
    }
}

/// `spine` is what reading the reading order `records` gives: one entry for
/// each entry of the reading order, in order and with the same manifest
/// record, up to the first item whose text could not be read, which is the
/// last entry then. What the texts are is left open.
pub open spec fn spine_read_from(
    spine: Seq<Option<ItemView>>,
    records: Seq<Option<RecordView>>,
) -> bool {
    &&& spine.len() <= records.len()
    &&& forall|i: int| 0 <= i < spine.len() ==> slot_record(#[trigger] spine[i]) == records[i]
    &&& forall|i: int|
        0 <= i < spine.len() - 1 && (#[trigger] spine[i]) is Some ==> spine[i]->0.text is Ok
    &&& spine.len() < records.len() ==> spine.len() > 0 && spine.last() is Some
        && spine.last()->0.text is Err
}

/// Reads the reading order with the text of each item, in order, and stops
/// behind the first item whose text cannot be read: loading fails at that
/// item whatever follows it (`lemma_outcome_decided_at_first_failure`), so
/// nothing more is read.
pub(crate) fn read_spine(epub: &Epub) -> (spine: Vec<Option<ManifestItem>>)
    ensures
        spine_read_from(spine.deep_view(), held(*epub).spine),
{
    let ghost records = held(*epub).spine;
    let count = spine_len(epub);
    let mut spine: Vec<Option<ManifestItem>> = Vec::new();
    let mut position: usize = 0;
    let mut stopped = false;
    while position < count && !stopped
        invariant
            records == held(*epub).spine,
            count == records.len(),
            position <= count,
            spine.len() == position,
            forall|i: int|
                0 <= i < spine.len() ==> slot_record(#[trigger] spine.deep_view()[i]) == records[i],
            forall|i: int|
                0 <= i < spine.len() - 1 && (#[trigger] spine.deep_view()[i]) is Some
                    ==> spine.deep_view()[i]->0.text is Ok,
            !stopped && spine.len() > 0 && spine.deep_view().last() is Some
                ==> spine.deep_view().last()->0.text is Ok,
            stopped ==> spine.len() > 0 && spine.deep_view().last() is Some
                && spine.deep_view().last()->0.text is Err,
        decreases count - position + (if stopped { 0int } else { 1int }),
    {
        let ghost before = spine.deep_view();
        let slot = match spine_item(epub, position) {
            Some((id, href, media_type, entry)) => {
                let text = match entry_text(&entry) {
                    Ok(body) => Ok(body),
                    Err(error) => {
                        stopped = true;
                        Err(failure_text(&error))
                    },
                };
                Some(ManifestItem { id, href, media_type, text })
            },
            None => None,
        };
        let ghost read = slot.deep_view();
        spine.push(slot);
        proof {
            assert(spine.deep_view() =~= before.push(read));
            assert(slot_record(read) == records[position as int]);
        }
        position = position + 1;
    }
    spine
}

/// A navigation entry whose tree is being read: what is read of the entry
/// itself, and the trees of the first of its nested entries.
struct OpenNode<'a> {
    entry: EpubTocEntry<'a>,
    label: String,
    href: Option<String>,
    count: usize,
    children: Vec<NavNode>,
}

/// The tree that `frame` is to become.
spec fn open_tree(frame: OpenNode<'_>) -> NavTree {
    nav_tree_of(frame.entry)
}

/// What `frame` holds is read from its entry: label, link target and number
/// of nested entries, and the trees of the first nested entries, in order.
spec fn well_opened(frame: OpenNode<'_>) -> bool {
    let tree = open_tree(frame);
    &&& frame.label@ == tree.label
    &&& opt_text(frame.href) == tree.href
    &&& frame.count == tree.children.len()
    &&& frame.children.len() <= frame.count
    &&& frame.children.deep_view() == tree.children.subrange(0, frame.children.len() as int)
}

/// The number of steps that reading the tree `node` takes, once it is opened.
spec fn reading_cost(node: NavTree) -> nat
    decreases node, 1nat,
{
    1 + forest_cost(node.children)
}

/// The number of steps that opening and reading each of `nodes` takes.
spec fn forest_cost(nodes: Seq<NavTree>) -> nat
    decreases nodes, 0nat,
{
    if nodes.len() == 0 {
        0
    } else {
        1 + reading_cost(nodes.first()) + forest_cost(nodes.drop_first())
    }
}

/// The nested entries of `frame` that are not read yet, from position `from`.
spec fn unread(frame: OpenNode<'_>, from: int) -> Seq<NavTree> {
    open_tree(frame).children.subrange(from, frame.count as int)
}

/// The number of steps still to take for the frames that wait for one of
/// their nested entries to be read.
spec fn waiting_cost(stack: Seq<OpenNode<'_>>) -> nat
    decreases stack.len(),
{
    if stack.len() == 0 {
        0
    } else {
        waiting_cost(stack.drop_last()) + 1 + forest_cost(
            unread(stack.last(), stack.last().children.len() + 1),
        )
    }
}

/// Opens a navigation entry: reads what the entry itself says.
fn open_node<'a>(entry: EpubTocEntry<'a>) -> (frame: OpenNode<'a>)
    ensures
        frame.entry == entry,
        frame.children.len() == 0,
        well_opened(frame),
{
    let label = toc_label(&entry);
    let href = toc_href(&entry);
    let count = toc_child_count(&entry);
    let frame = OpenNode { entry, label, href, count, children: Vec::new() };
    assert(frame.children.deep_view() =~= open_tree(frame).children.subrange(0, 0));
    frame
}

/// Reads a navigation entry with all that is nested in it.
///
/// The entries on the way from `entry` down to the one being read wait on a
/// list, so the use of the call stack does not grow with the nesting.
pub(crate) fn read_nav_node<'a>(entry: EpubTocEntry<'a>) -> (node: NavNode)
    ensures
        node@ == nav_tree_of(entry),
{
    let mut stack: Vec<OpenNode<'a>> = Vec::new();
    let mut current = open_node(entry);
    loop
        invariant
            well_opened(current),
            forall|i: int|
                0 <= i < stack.len() ==> well_opened(#[trigger] stack[i]) && stack[i].children.len()
                    < stack[i].count,
            forall|i: int|
                0 <= i < stack.len() ==> open_tree(
                    if i + 1 < stack.len() {
                        stack[i + 1]
                    } else {
                        current
                    },
                ) == open_tree(#[trigger] stack[i]).children[stack[i].children.len() as int],
            open_tree(
                if stack.len() > 0 {
                    stack[0]
                } else {
                    current
                },
            ) == nav_tree_of(entry),
        decreases waiting_cost(stack@) + 1 + forest_cost(unread(current, current.children.len() as int)),
    {
        let ghost tree = open_tree(current);
        let ghost waiting = stack@;
        let built = current.children.len();
        if built < current.count {
            match toc_child(&current.entry, built) {
                Some(child) => {
                    let next = open_node(child);
                    proof {
                        let ahead = unread(current, built as int);
                        assert(ahead.first() == tree.children[built as int]);
                        assert(ahead.drop_first() =~= unread(current, built + 1));
                        assert(unread(next, 0) =~= open_tree(next).children);
                        assert(waiting.push(current).drop_last() =~= waiting);
                        assert(forest_cost(ahead) == 1 + reading_cost(ahead.first()) + forest_cost(
                            ahead.drop_first(),
                        ));
                        assert(reading_cost(open_tree(next)) == 1 + forest_cost(unread(next, 0)));
                        assert(waiting_cost(waiting.push(current)) == waiting_cost(waiting) + 1
                            + forest_cost(unread(current, built + 1)));
                    }
                    stack.push(current);
                    current = next;
                },
                None => {},
            }
        } else {
            let node = NavNode {
                label: current.label,
                href: current.href,
                children: current.children,
            };
            proof {
                lemma_nav_view(&node);
                assert(tree.children.subrange(0, built as int) =~= tree.children);
                assert(node@ == tree);
            }
            match stack.pop() {
                Some(parent) => {
                    let mut parent = parent;
                    let ghost before = parent;
                    let ghost read = parent.children.deep_view();
                    parent.children.push(node);
                    proof {
                        let whole = open_tree(before);
                        let k = before.children.len() as int;
                        assert(parent.children.deep_view() =~= read.push(whole.children[k]));
                        assert(whole.children.subrange(0, k + 1) =~= whole.children.subrange(
                            0,
                            k,
                        ).push(whole.children[k]));
                        assert(waiting.drop_last() =~= stack@);
                        assert(unread(parent, k + 1) =~= unread(before, k + 1));
                        assert(unread(current, built as int) =~= Seq::<NavTree>::empty());
                        assert(waiting.last() == before);
                        assert(waiting_cost(waiting) == waiting_cost(waiting.drop_last()) + 1
                            + forest_cost(unread(before, k + 1)));
                    }
                    current = parent;
                },
                None => {
                    return node;
                },
            }
        }
    }
}

/// The trees nested directly in `roots`, root by root.
pub open spec fn nested_in(roots: Seq<NavTree>) -> Seq<NavTree>
    decreases roots.len(),
{
    if roots.len() == 0 {
        Seq::empty()
    } else {
        nested_in(roots.drop_last()) + roots.last().children
    }
}

/// `forest` lists what is nested in the root trees `trees`: for the roots in
/// some order, the trees nested directly in each, in their order.
pub open spec fn lists_roots(forest: Seq<NavTree>, trees: Multiset<NavTree>) -> bool {
    exists|roots: Seq<NavTree>| roots.to_multiset() == trees && forest == #[trigger] nested_in(roots)
}

/// Reads the navigation forest. A root of the container stands for a whole
/// navigation list and is no entry itself: the forest is made of the entries
/// nested directly in the roots, each with all that is nested in it, root by
/// root in the order in which the container hands the roots out.
pub(crate) fn read_toc(epub: &Epub) -> (forest: Vec<NavNode>)
    ensures
        lists_roots(forest.deep_view(), held(*epub).trees),
{
    let roots = toc_roots(epub);
    let ghost trees = nav_trees_of(roots@);
    let mut forest: Vec<NavNode> = Vec::new();
    let mut at: usize = 0;
    assert(forest.deep_view() =~= nested_in(trees.subrange(0, 0)));
    while at < roots.len()
        invariant
            trees == nav_trees_of(roots@),
            at <= roots.len(),
            forest.deep_view() == nested_in(trees.subrange(0, at as int)),
        decreases roots.len() - at,
    {
        let root = &roots[at];
        let ghost listed = forest.deep_view();
        let ghost nested = nav_tree_of(*root).children;
        let count = toc_child_count(root);
        let mut position: usize = 0;
        assert(forest.deep_view() =~= listed + nested.subrange(0, 0));
        while position < count
            invariant
                nested == nav_tree_of(*root).children,
                count == nested.len(),
                position <= count,
                forest.deep_view() == listed + nested.subrange(0, position as int),
            decreases count - position,
        {
            let ghost so_far = forest.deep_view();
            match toc_child(root, position) {
                Some(child) => {
                    let node = read_nav_node(child);
                    forest.push(node);
                    proof {
                        assert(forest.deep_view() =~= so_far.push(nested[position as int]));
                        assert(nested.subrange(0, position + 1) =~= nested.subrange(
                            0,
                            position as int,
                        ).push(nested[position as int]));
                    }
                },
                None => {},
            }
            position = position + 1;
        }
        proof {
            let seen = trees.subrange(0, at + 1);
            assert(seen.drop_last() =~= trees.subrange(0, at as int));
            assert(seen.last() == nav_tree_of(*root));
            assert(nested.subrange(0, count as int) =~= nested);
        }
        at = at + 1;
    }
    proof {
        assert(trees.subrange(0, at as int) =~= trees);
    }
    forest
}

/// `package` is a reading of `container`: it has the declared metadata, a
/// cover source exactly where a cover is declared, the reading order as
/// [`spine_read_from`] says, and the navigation entries as [`lists_roots`]
/// says.
pub open spec fn snapshot_of(package: PackageView, container: ContainerView) -> bool {
    &&& package.metadata == container.metadata
    &&& package.cover is Some <==> container.declares_cover
    &&& spine_read_from(package.spine, container.spine)
    &&& lists_roots(package.toc, container.trees)
}

/// Reads all that loading needs from an opened container.
pub(crate) fn read_package(epub: &Epub) -> (package: Package)
    ensures
        snapshot_of(package@, held(*epub)),
{
    let metadata = read_metadata(epub);
    let cover = read_cover(epub);
    let spine = read_spine(epub);
    let toc = read_toc(epub);
    Package { metadata, cover, spine, toc }
}

} // verus!
