//! The file tree beside the editor: which entries show and how deep, and
//! what opening or closing a directory does to the tree.

use vstd::prelude::*;

verus! {

/// An entry of the file tree: a file, or a directory with what it holds.
#[derive(Debug)]
pub struct FileTreeNode {
    pub path: String,
    pub is_dir: bool,
    pub children: Vec<FileTreeNode>,
    pub expanded: bool,
}

/// An entry of the file tree as a mathematical value.
pub struct FileTreeView {
    pub path: Seq<char>,
    pub is_dir: bool,
    pub children: Seq<FileTreeView>,
    pub expanded: bool,
}

/// The value that an entry stands for.
pub open spec fn node_view(node: FileTreeNode) -> FileTreeView
    decreases node,
{
    FileTreeView {
        path: node.path@,
        is_dir: node.is_dir,
        children: tree_view(node.children@),
        expanded: node.expanded,
    }
}

/// The values that a list of entries stands for.
pub open spec fn tree_view(nodes: Seq<FileTreeNode>) -> Seq<FileTreeView>
    decreases nodes,
{
    if nodes.len() == 0 {
        Seq::empty()
    } else {
        tree_view(nodes.drop_last()).push(node_view(nodes.last()))
    }
}

/// The view of a list of entries is the list of their views.
pub proof fn lemma_tree_view(nodes: Seq<FileTreeNode>)
    ensures
        tree_view(nodes).len() == nodes.len(),
        forall|j: int| 0 <= j < nodes.len() ==> #[trigger] tree_view(nodes)[j] == node_view(nodes[j]),
    decreases nodes.len(),
{
    if nodes.len() > 0 {
        lemma_tree_view(nodes.drop_last());
        assert forall|j: int| 0 <= j < nodes.len() implies #[trigger] tree_view(nodes)[j]
            == node_view(nodes[j]) by {
            if j < nodes.len() - 1 {
                assert(nodes.drop_last()[j] == nodes[j]);
            }
        }
    }
}

/// The rows that an entry takes in the tree as it shows: the entry itself
/// at `depth`, then, if it is expanded, what it holds, one level deeper.
pub open spec fn shown_node(node: FileTreeView, depth: nat) -> Seq<(FileTreeView, nat)>
    decreases node,
{
    seq![(node, depth)] + if node.expanded {
        shown(node.children, depth + 1)
    } else {
        Seq::empty()
    }
}

/// The rows that a list of entries takes in the tree as it shows, in
/// order.
pub open spec fn shown(nodes: Seq<FileTreeView>, depth: nat) -> Seq<(FileTreeView, nat)>
    decreases nodes,
{
    if nodes.len() == 0 {
        Seq::empty()
    } else {
        shown(nodes.drop_last(), depth) + shown_node(nodes.last(), depth)
    }
}

/// The rows that a list of references to entries stands for.
pub open spec fn rows_view(rows: Seq<(&FileTreeNode, usize)>) -> Seq<(FileTreeView, nat)> {
    rows.map_values(|row: (&FileTreeNode, usize)| (node_view(*row.0), row.1 as nat))
}

fn flatten_recursive<'a>(
    node: &'a FileTreeNode,
    depth: usize,
    flattened: &mut Vec<(&'a FileTreeNode, usize)>,
)
    requires
        depth <= old(flattened)@.len(),
    ensures
        rows_view(final(flattened)@) == rows_view(old(flattened)@) + shown_node(
            node_view(*node),
            depth as nat,
        ),
        final(flattened)@.len() >= old(flattened)@.len(),
    decreases node,
{
    let ghost before = rows_view(flattened@);
    let ghost view = node_view(*node);
    flattened.push((node, depth));
    assert(rows_view(flattened@) =~= before + seq![(view, depth as nat)]);
    if node.expanded {
        let n: usize = node.children.len();
        let mut i: usize = 0;
        assert(tree_view(node.children@.subrange(0, 0)) =~= Seq::<FileTreeView>::empty());
        assert(rows_view(flattened@) =~= before + seq![(view, depth as nat)] + shown(
            tree_view(node.children@.subrange(0, 0)),
            (depth + 1) as nat,
        ));
        while i < n
            invariant
                i <= n,
                n == node.children@.len(),
                depth < flattened@.len(),
                view == node_view(*node),
                rows_view(flattened@) == before + seq![(view, depth as nat)] + shown(
                    tree_view(node.children@.subrange(0, i as int)),
                    (depth + 1) as nat,
                ),
            decreases n - i,
        {
            proof {
                assert(decreases_to!(node => node.children));
                assert(decreases_to!(node.children => node.children@));
                assert(decreases_to!(node.children@ => node.children@[i as int]));
                let prefix = node.children@.subrange(0, i + 1);
                assert(prefix.drop_last() =~= node.children@.subrange(0, i as int));
                assert(prefix.last() == node.children@[i as int]);
                assert(tree_view(prefix).drop_last() =~= tree_view(prefix.drop_last()));
            }
            let rows: usize = flattened.len();
            flatten_recursive(&node.children[i], depth + 1, flattened);
            i += 1;
            assert(rows_view(flattened@) =~= before + seq![(view, depth as nat)] + shown(
                tree_view(node.children@.subrange(0, i as int)),
                (depth + 1) as nat,
            ));
        }
        assert(node.children@.subrange(0, n as int) =~= node.children@);
    }
}

/// Lists the rows of the tree as it shows, from top to bottom: every entry
/// of the top level, and under each expanded entry what it holds, each with
/// its depth.
pub fn flatten_tree<'a>(nodes: &'a [FileTreeNode]) -> (flattened: Vec<(&'a FileTreeNode, usize)>)
    ensures
        rows_view(flattened@) == shown(tree_view(nodes@), 0),
{
    let mut flattened: Vec<(&'a FileTreeNode, usize)> = Vec::new();
    let mut i: usize = 0;
    assert(tree_view(nodes@.subrange(0, 0)) =~= Seq::<FileTreeView>::empty());
    assert(rows_view(flattened@) =~= shown(tree_view(nodes@.subrange(0, 0)), 0));
    while i < nodes.len()
        invariant
            i <= nodes.len(),
            rows_view(flattened@) == shown(tree_view(nodes@.subrange(0, i as int)), 0),
        decreases nodes.len() - i,
    {
        proof {
            let prefix = nodes@.subrange(0, i + 1);
            assert(prefix.drop_last() =~= nodes@.subrange(0, i as int));
            assert(prefix.last() == nodes@[i as int]);
            assert(tree_view(prefix).drop_last() =~= tree_view(prefix.drop_last()));
        }
        flatten_recursive(&nodes[i], 0, &mut flattened);
        i += 1;
    }
    assert(nodes@.subrange(0, i as int) =~= nodes@);
    flattened
}

/// Whether an entry of the list, or anything below one, has this path.
pub open spec fn holds(nodes: Seq<FileTreeView>, path: Seq<char>) -> bool
    decreases nodes,
{
    nodes.len() > 0 && (holds(nodes.drop_last(), path) || node_holds(nodes.last(), path))
}

/// Whether an entry, or anything below it, has this path.
pub open spec fn node_holds(node: FileTreeView, path: Seq<char>) -> bool
    decreases node,
{
    node.path == path || holds(node.children, path)
}

/// The entry after the first entry with this path, the entry itself or,
/// failing that, the first below it from top to bottom, has been opened if
/// it was closed, and closed if it was open.
pub open spec fn toggle_node(node: FileTreeView, path: Seq<char>) -> FileTreeView
    decreases node,
{
    if node.path == path {
        FileTreeView { expanded: !node.expanded, ..node }
    } else {
        FileTreeView { children: toggle(node.children, path), ..node }
    }
}

/// The list after the first entry with this path, from top to bottom and
/// whether it shows or not, has been opened or closed. A list without such
/// an entry stays as it is.
pub open spec fn toggle(nodes: Seq<FileTreeView>, path: Seq<char>) -> Seq<FileTreeView>
    decreases nodes,
{
    if nodes.len() == 0 {
        nodes
    } else if holds(nodes.drop_last(), path) {
        toggle(nodes.drop_last(), path).push(nodes.last())
    } else if node_holds(nodes.last(), path) {
        nodes.drop_last().push(toggle_node(nodes.last(), path))
    } else {
        nodes
    }
}

/// Toggling changes the first top-level entry that has the path, itself or
/// below it, and no other.
pub proof fn lemma_toggle_first(nodes: Seq<FileTreeView>, i: int, path: Seq<char>)
    requires
        0 <= i < nodes.len(),
        !holds(nodes.subrange(0, i), path),
        node_holds(nodes[i], path),
    ensures
        holds(nodes, path),
        toggle(nodes, path) == nodes.update(i, toggle_node(nodes[i], path)),
    decreases nodes.len(),
{
    let front = nodes.drop_last();
    if i == nodes.len() - 1 {
        assert(front =~= nodes.subrange(0, i));
        assert(front.push(toggle_node(nodes.last(), path)) =~= nodes.update(
            i,
            toggle_node(nodes[i], path),
        ));
    } else {
        assert(front.subrange(0, i) =~= nodes.subrange(0, i));
        assert(front[i] == nodes[i]);
        lemma_toggle_first(front, i, path);
        assert(front.update(i, toggle_node(nodes[i], path)).push(nodes.last()) =~= nodes.update(
            i,
            toggle_node(nodes[i], path),
        ));
    }
}

/// Whether a file name marks a hidden entry, which the tree leaves out: one
/// that starts with a dot.
pub fn is_hidden(name: &[u8]) -> (hidden: bool)
    ensures
        hidden == (name@.len() > 0 && name@[0] == 46),
{
    name.len() > 0 && name[0] == 46u8
}

fn same_path(a: &str, b: &str) -> (same: bool)
    ensures
        same == (a@ == b@),
{
    let x: String = a.to_owned();
    let y: String = b.to_owned();
    x == y
}

/// Opens or closes the first entry with this path, from top to bottom,
/// whether it shows or not, and tells whether there was one.
pub fn toggle_expanded(nodes: &mut Vec<FileTreeNode>, path: &str) -> (found: bool)
    ensures
        found == holds(tree_view(old(nodes)@), path@),
        tree_view(final(nodes)@) == toggle(tree_view(old(nodes)@), path@),
    decreases *old(nodes),
{
    let ghost before = tree_view(nodes@);
    let n: usize = nodes.len();
    let mut i: usize = 0;
    proof {
        lemma_tree_view(nodes@);
        assert(before.subrange(0, 0) =~= Seq::<FileTreeView>::empty());
    }
    while i < n
        invariant
            i <= n,
            n == nodes@.len(),
            n == old(nodes)@.len(),
            before == tree_view(old(nodes)@),
            before.len() == n,
            tree_view(nodes@) == before,
            forall|j: int| i <= j < n ==> nodes@[j] == #[trigger] old(nodes)@[j],
            !holds(before.subrange(0, i as int), path@),
        decreases n - i,
    {
        let ghost current = nodes@;
        proof {
            lemma_tree_view(current);
            assert(decreases_to!(*old(nodes) => old(nodes)@));
            assert(decreases_to!(old(nodes)@ => old(nodes)@[i as int]));
            assert(decreases_to!(old(nodes)@[i as int] => old(nodes)@[i as int].children));
            assert(current[i as int] == old(nodes)@[i as int]);
            assert(before[i as int] == node_view(current[i as int]));
            assert(before.subrange(0, i + 1).drop_last() =~= before.subrange(0, i as int));
            assert(before.subrange(0, i + 1).last() == before[i as int]);
        }
        let node = &mut nodes[i];
        if same_path(node.path.as_str(), path) {
            node.expanded = !node.expanded;
            proof {
                lemma_tree_view(nodes@);
                lemma_toggle_first(before, i as int, path@);
                assert(node_view(nodes@[i as int]) == toggle_node(before[i as int], path@));
                assert(tree_view(nodes@) =~= before.update(
                    i as int,
                    toggle_node(before[i as int], path@),
                ));
            }
            return true;
        }
        if toggle_expanded(&mut node.children, path) {
            proof {
                lemma_tree_view(nodes@);
                lemma_toggle_first(before, i as int, path@);
                assert(node_view(nodes@[i as int]) == toggle_node(before[i as int], path@));
                assert(tree_view(nodes@) =~= before.update(
                    i as int,
                    toggle_node(before[i as int], path@),
                ));
            }
            return true;
        }
        proof {
            lemma_tree_view(nodes@);
            assert(!node_holds(before[i as int], path@));
            assert(node_view(nodes@[i as int]) == before[i as int]);
            assert(tree_view(nodes@) =~= before);
        }
        i += 1;
    }
    proof {
        assert(before.subrange(0, n as int) =~= before);
    }
    false
}

} // verus!
