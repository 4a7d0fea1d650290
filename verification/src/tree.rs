//! Hosts arranged as a tree, and the tree laid out row by row.

use vstd::prelude::*;
use crate::host::PtpHost;

verus! {

/// A host in a tree of hosts, with the hosts that follow it below.
#[derive(Debug)]
pub struct TreeNode {
    pub host: PtpHost,
    /// How far the node is from the root of its tree.
    pub depth: usize,
    /// Whether the host is the elected transmitter of its domain.
    pub is_primary_transmitter: bool,
    pub children: Vec<TreeNode>,
}

/// The rows of the nodes of `nodes` from position `from` on: every node,
/// with the mark of the last of its siblings, is followed by the rows of
/// its children and then by the rows of the siblings after it.
pub open spec fn rows_from(nodes: Seq<TreeNode>, from: int) -> Seq<(TreeNode, bool)>
    decreases nodes, nodes.len() - from,
{
    if 0 <= from < nodes.len() {
        seq![(nodes[from], from == nodes.len() - 1)] + rows_from(nodes[from].children@, 0)
            + rows_from(nodes, from + 1)
    } else {
        Seq::empty()
    }
}

/// The rows of a forest, top to bottom.
pub open spec fn rows_of(nodes: Seq<TreeNode>) -> Seq<(TreeNode, bool)> {
    rows_from(nodes, 0)
}

/// Appends the rows of `nodes` to `rows`, numbering them on from the rows
/// that are there.
fn flatten_into<'a>(nodes: &'a [TreeNode], rows: &mut Vec<(&'a TreeNode, usize, bool)>)
    requires
        forall|k: int| 0 <= k < old(rows)@.len() ==> (#[trigger] old(rows)@[k]).1 == k,
    ensures
        final(rows)@.len() == old(rows)@.len() + rows_of(nodes@).len(),
        forall|k: int| 0 <= k < old(rows)@.len() ==> final(rows)@[k] == old(rows)@[k],
        forall|k: int| 0 <= k < final(rows)@.len() ==> (#[trigger] final(rows)@[k]).1 == k,
        forall|k: int|
            0 <= k < rows_of(nodes@).len() ==> *(#[trigger] final(rows)@[old(rows)@.len() + k]).0
                == rows_of(nodes@)[k].0 && final(rows)@[old(rows)@.len() + k].2 == rows_of(
                nodes@,
            )[k].1,
    decreases nodes@,
{
    let ghost start = rows@.len();
    let mut at: usize = 0;
    while at < nodes.len()
        invariant
            at <= nodes.len(),
            rows@.len() + rows_from(nodes@, at as int).len() == start + rows_of(nodes@).len(),
            forall|k: int| 0 <= k < start ==> rows@[k] == old(rows)@[k],
            forall|k: int| 0 <= k < rows@.len() ==> (#[trigger] rows@[k]).1 == k,
            start <= rows@.len(),
            forall|k: int|
                0 <= k < rows@.len() - start ==> *(#[trigger] rows@[start + k]).0 == rows_of(
                    nodes@,
                )[k].0 && rows@[start + k].2 == rows_of(nodes@)[k].1,
            forall|k: int|
                0 <= k < rows_from(nodes@, at as int).len() ==> rows_of(nodes@)[rows@.len() - start
                    + k] == #[trigger] rows_from(nodes@, at as int)[k],
        decreases nodes.len() - at,
    {
        let ghost before = rows@;
        let ghost rest = rows_from(nodes@, at as int);
        let ghost below = rows_from(nodes@[at as int].children@, 0);
        let ghost after = rows_from(nodes@, at + 1);
        assert(rest =~= seq![(nodes@[at as int], at == nodes@.len() - 1)] + below + after);
        let node = &nodes[at];
        let index: usize = rows.len();
        rows.push((node, index, at == nodes.len() - 1));
        assert(rest[0] == (nodes@[at as int], at == nodes@.len() - 1));
        proof {
            assert forall|k: int| 0 <= k < below.len() implies rest[1 + k] == below[k] by {}
            assert forall|k: int| 0 <= k < after.len() implies rest[1 + below.len() + k]
                == after[k] by {}
        }
        let ghost pushed = rows@;
        flatten_into(node.children.as_slice(), rows);
        proof {
            assert(rows_of(node.children@) == below);
            assert forall|k: int| 0 <= k < rows@.len() - start implies *(
            #[trigger] rows@[start + k]).0 == rows_of(nodes@)[k].0 && rows@[start + k].2
                == rows_of(nodes@)[k].1 by {
                if start + k < before.len() {
                    assert(rows@[start + k] == pushed[start + k]);
                    assert(pushed[start + k] == before[start + k]);
                } else if start + k == before.len() {
                    assert(rows@[start + k] == pushed[start + k]);
                    assert(rows_of(nodes@)[before.len() - start + 0] == rest[0]);
                } else {
                    let m = start + k - pushed.len();
                    assert(rows@[pushed.len() + m].2 == below[m].1);
                    assert(rows_of(nodes@)[before.len() - start + (1 + m)] == rest[1 + m]);
                }
            }
            assert forall|k: int| 0 <= k < after.len() implies rows_of(nodes@)[rows@.len() - start
                + k] == #[trigger] after[k] by {
                assert(rows_of(nodes@)[before.len() - start + (1 + below.len() + k)] == rest[1
                    + below.len() + k]);
            }
            assert forall|k: int| 0 <= k < start implies rows@[k] == old(rows)@[k] by {
                assert(rows@[k] == pushed[k]);
                assert(pushed[k] == before[k]);
            }
        }
        at += 1;
    }
}

/// Lays a forest out row by row, top to bottom: every node with the number
/// of its row and with the mark of the last of its siblings, followed by
/// its children.
pub fn flatten_tree_nodes(nodes: &[TreeNode]) -> (rows: Vec<(&TreeNode, usize, bool)>)
    ensures
        rows@.len() == rows_of(nodes@).len(),
        forall|k: int|
            0 <= k < rows@.len() ==> *(#[trigger] rows@[k]).0 == rows_of(nodes@)[k].0 && rows@[k].1
                == k && rows@[k].2 == rows_of(nodes@)[k].1,
{
    let mut rows: Vec<(&TreeNode, usize, bool)> = Vec::new();
    flatten_into(nodes, &mut rows);
    assert forall|k: int| 0 <= k < rows@.len() implies *(#[trigger] rows@[k]).0 == rows_of(
        nodes@,
    )[k].0 && rows@[k].1 == k && rows@[k].2 == rows_of(nodes@)[k].1 by {
        assert(rows@[0 + k] == rows@[k]);
    }
    rows
}

} // verus!
