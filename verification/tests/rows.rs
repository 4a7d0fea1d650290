use ptp_trace::host::PtpHost;
use ptp_trace::identity::ClockIdentity;
use ptp_trace::tree::{flatten_tree_nodes, TreeNode};

fn node(id: u8, depth: usize, children: Vec<TreeNode>) -> TreeNode {
    TreeNode {
        host: PtpHost::new(ClockIdentity { clock_id: [id; 8] }, 0),
        depth,
        is_primary_transmitter: depth == 0,
        children,
    }
}

#[test]
fn a_forest_is_laid_out_top_to_bottom() {
    let forest = vec![
        node(
            1,
            0,
            vec![
                node(2, 1, vec![node(3, 2, vec![])]),
                node(4, 1, vec![]),
            ],
        ),
        node(5, 0, vec![node(6, 1, vec![])]),
    ];
    let rows = flatten_tree_nodes(&forest);
    let seen: Vec<(u8, usize, usize, bool)> = rows
        .iter()
        .map(|(node, index, last)| (node.host.clock_identity.clock_id[0], node.depth, *index, *last))
        .collect();
    assert_eq!(
        seen,
        vec![
            (1, 0, 0, false),
            (2, 1, 1, false),
            (3, 2, 2, true),
            (4, 1, 3, true),
            (5, 0, 4, true),
            (6, 1, 5, true),
        ]
    );
    assert!(flatten_tree_nodes(&[]).is_empty());
    assert!(rows[0].0.is_primary_transmitter);
}
