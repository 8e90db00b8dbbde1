use dzed::layout::{LayoutNode, SizeConstraint, SplitDirection};

fn windows(node: &LayoutNode) -> Vec<usize> {
    match node {
        LayoutNode::Leaf { window_id } => vec![*window_id],
        LayoutNode::Split { children, .. } => children.iter().flat_map(windows).collect(),
    }
}

#[test]
fn test_split_and_remove_nested_leaves() {
    // Start with window 1
    let mut root = LayoutNode::Leaf { window_id: 1 };

    // Split window 1 vertically to create 1 and 2
    assert!(root.split_leaf(1, 2, SplitDirection::Horizontal));

    // Split window 2 horizontally to create 2 and 3 (nested split)
    assert!(root.split_leaf(2, 3, SplitDirection::Vertical));

    // Remove leaf 3
    let (removed, sibling) = root.remove_leaf(3);
    assert!(removed);
    // Sibling of 3 was 2, so it collapses to Leaf{2}
    assert_eq!(sibling, Some(2));

    // Ensure Leaf 1 is still present in the tree
    if let LayoutNode::Split { children, .. } = &root {
        assert_eq!(children.len(), 2);
        assert!(matches!(children[0], LayoutNode::Leaf { window_id: 1 }));
        assert!(matches!(children[1], LayoutNode::Leaf { window_id: 2 }));
    } else {
        panic!("Expected split root");
    }
}

#[test]
fn splitting_a_window_makes_two_halves() {
    let mut root = LayoutNode::Leaf { window_id: 7 };
    assert!(root.split_leaf(7, 8, SplitDirection::Vertical));
    match &root {
        LayoutNode::Split { direction, constraints, children } => {
            assert_eq!(*direction, SplitDirection::Vertical);
            assert_eq!(constraints, &vec![SizeConstraint::Percentage(0.5f32.to_bits()), SizeConstraint::Percentage(0.5f32.to_bits())]);
            assert_eq!(children.len(), 2);
        }
        LayoutNode::Leaf { .. } => panic!("Expected split root"),
    }
    assert_eq!(windows(&root), vec![7, 8]);
}

#[test]
fn splitting_an_unknown_window_changes_nothing() {
    let mut root = LayoutNode::Leaf { window_id: 1 };
    assert!(root.split_leaf(1, 2, SplitDirection::Horizontal));
    assert!(!root.split_leaf(9, 10, SplitDirection::Vertical));
    assert_eq!(windows(&root), vec![1, 2]);
}

#[test]
fn the_new_window_follows_the_split_one() {
    let mut root = LayoutNode::Leaf { window_id: 1 };
    assert!(root.split_leaf(1, 2, SplitDirection::Horizontal));
    assert!(root.split_leaf(1, 3, SplitDirection::Vertical));
    assert_eq!(windows(&root), vec![1, 3, 2]);
}

#[test]
fn removing_unknown_or_lone_windows() {
    let mut lone = LayoutNode::Leaf { window_id: 4 };
    assert_eq!(lone.remove_leaf(4), (true, None));
    assert!(matches!(lone, LayoutNode::Leaf { window_id: 4 }));
    assert_eq!(lone.remove_leaf(5), (false, None));

    let mut root = LayoutNode::Leaf { window_id: 1 };
    assert!(root.split_leaf(1, 2, SplitDirection::Horizontal));
    assert!(root.split_leaf(2, 3, SplitDirection::Horizontal));
    assert_eq!(root.remove_leaf(9), (false, None));
    assert_eq!(windows(&root), vec![1, 2, 3]);
}

#[test]
fn removing_from_a_wide_split_keeps_the_split() {
    let mut root = LayoutNode::Split {
        direction: SplitDirection::Vertical,
        constraints: vec![SizeConstraint::Fixed(1), SizeConstraint::Percentage(1.0f32.to_bits()), SizeConstraint::Fixed(1)],
        children: vec![
            LayoutNode::Leaf { window_id: 0 },
            LayoutNode::Leaf { window_id: 1 },
            LayoutNode::Leaf { window_id: 2 },
        ],
    };
    assert_eq!(root.remove_leaf(1), (true, None));
    match &root {
        LayoutNode::Split { constraints, children, .. } => {
            assert_eq!(constraints, &vec![SizeConstraint::Fixed(1), SizeConstraint::Fixed(1)]);
            assert_eq!(children.len(), 2);
        }
        LayoutNode::Leaf { .. } => panic!("Expected split root"),
    }
    assert_eq!(windows(&root), vec![0, 2]);
}

#[test]
fn split_then_remove_gives_back_the_windows() {
    let mut root = LayoutNode::Leaf { window_id: 1 };
    assert!(root.split_leaf(1, 2, SplitDirection::Horizontal));
    assert!(root.split_leaf(2, 3, SplitDirection::Vertical));
    let before = windows(&root);
    assert!(root.split_leaf(3, 4, SplitDirection::Horizontal));
    assert_eq!(windows(&root), vec![1, 2, 3, 4]);
    assert_eq!(root.remove_leaf(4), (true, Some(3)));
    assert_eq!(windows(&root), before);
}
