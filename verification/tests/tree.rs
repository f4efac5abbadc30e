use explorer::geometry::{Axis, Bounds};
use explorer::panel_tree::PanelNode;
use explorer::types::{EntryMetadata, FileItem, ItemType};

fn entry(name: &str) -> FileItem {
    FileItem {
        name: name.to_string(),
        path: format!("/home/{}", name),
        item_type: ItemType::File,
        is_hidden: false,
        size: 3,
        modified: 1000,
        metadata: EntryMetadata::default(),
    }
}

fn leaf_path(node: &PanelNode) -> String {
    match node {
        PanelNode::Leaf { path, .. } => path.clone(),
        _ => panic!("expected a leaf"),
    }
}

#[test]
fn new_leaf_starts_loading_and_empty() {
    let node = PanelNode::new_leaf(7, "/home".to_string());
    match &node {
        PanelNode::Leaf { id, path, entries, loading, error, bounds } => {
            assert_eq!(*id, 7);
            assert_eq!(path, "/home");
            assert!(entries.is_empty());
            assert!(*loading);
            assert!(error.is_none());
            assert_eq!(*bounds, Bounds::new(0, 0, 0, 0));
        },
        _ => panic!("expected a leaf"),
    }
    assert_eq!(node.get_id(), 7);
    assert_eq!(node.count_leaves(), 1);
}

#[test]
fn split_replaces_the_leaf_and_keeps_its_content() {
    let mut tree = PanelNode::new_leaf(0, "/home".to_string());
    assert!(tree.update_panel_data(
        0,
        "/home".to_string(),
        vec![entry("a"), entry("b")],
        false,
        None,
    ));
    assert!(tree.split_panel(0, Axis::Horizontal, 1, 2, "/home".to_string(), 320));
    assert_eq!(tree.count_leaves(), 2);
    match &tree {
        PanelNode::Split { id, axis, first, second, state, .. } => {
            assert_eq!(*id, 1);
            assert_eq!(*axis, Axis::Horizontal);
            assert_eq!(state.size(), 320);
            match first.as_ref() {
                PanelNode::Leaf { id, path, entries, loading, error, .. } => {
                    assert_eq!(*id, 0);
                    assert_eq!(path, "/home");
                    assert_eq!(entries.len(), 2);
                    assert_eq!(entries[0].name, "a");
                    assert!(!*loading);
                    assert!(error.is_none());
                },
                _ => panic!("first child should be the old pane"),
            }
            match second.as_ref() {
                PanelNode::Leaf { id, path, entries, loading, error, .. } => {
                    assert_eq!(*id, 2);
                    assert_eq!(path, "/home");
                    assert!(entries.is_empty());
                    assert!(*loading);
                    assert!(error.is_none());
                },
                _ => panic!("second child should be a fresh pane"),
            }
        },
        _ => panic!("expected a split"),
    }
}

#[test]
fn split_with_unknown_id_reports_false_and_changes_nothing() {
    let mut tree = PanelNode::new_leaf(0, "/home".to_string());
    assert!(!tree.split_panel(9, Axis::Vertical, 1, 2, "/tmp".to_string(), 100));
    assert_eq!(tree.count_leaves(), 1);
    assert_eq!(tree.get_id(), 0);
    assert_eq!(leaf_path(&tree), "/home");
}

#[test]
fn split_id_cannot_target_a_split() {
    let mut tree = PanelNode::new_leaf(0, "/home".to_string());
    assert!(tree.split_panel(0, Axis::Horizontal, 1, 2, "/home".to_string(), 100));
    assert!(!tree.split_panel(1, Axis::Vertical, 3, 4, "/home".to_string(), 100));
    assert_eq!(tree.count_leaves(), 2);
}

#[test]
fn find_panel_sees_leaves_and_splits() {
    let mut tree = PanelNode::new_leaf(0, "/home".to_string());
    assert!(tree.split_panel(0, Axis::Horizontal, 1, 2, "/home".to_string(), 100));
    assert_eq!(tree.find_panel(0).expect("pane 0").get_id(), 0);
    assert_eq!(tree.find_panel(1).expect("the split").get_id(), 1);
    assert_eq!(tree.find_panel(2).expect("pane 2").get_id(), 2);
    assert!(tree.find_panel(3).is_none());
}

#[test]
fn update_data_hits_only_its_pane() {
    let mut tree = PanelNode::new_leaf(0, "/home".to_string());
    assert!(tree.split_panel(0, Axis::Horizontal, 1, 2, "/home".to_string(), 100));
    assert!(tree.update_panel_data(
        2,
        "/tmp".to_string(),
        vec![entry("x")],
        false,
        Some("oops".to_string()),
    ));
    match &tree {
        PanelNode::Split { first, second, .. } => {
            assert_eq!(leaf_path(first), "/home");
            match second.as_ref() {
                PanelNode::Leaf { path, entries, loading, error, .. } => {
                    assert_eq!(path, "/tmp");
                    assert_eq!(entries.len(), 1);
                    assert!(!*loading);
                    assert_eq!(error.as_deref(), Some("oops"));
                },
                _ => panic!("expected a leaf"),
            }
        },
        _ => panic!("expected a split"),
    }
}

#[test]
fn update_data_with_unknown_id_returns_false_and_mutates_nothing() {
    let mut tree = PanelNode::new_leaf(0, "/home".to_string());
    assert!(tree.update_panel_data(0, "/home".to_string(), vec![entry("a")], false, None));
    assert!(!tree.update_panel_data(5, "/tmp".to_string(), vec![], true, None));
    match &tree {
        PanelNode::Leaf { path, entries, loading, .. } => {
            assert_eq!(path, "/home");
            assert_eq!(entries.len(), 1);
            assert!(!*loading);
        },
        _ => panic!("expected a leaf"),
    }
}

#[test]
fn update_bounds_touches_only_the_rectangle() {
    let mut tree = PanelNode::new_leaf(0, "/home".to_string());
    assert!(tree.update_panel_bounds(0, Bounds::new(10, 20, 300, 200)));
    match &tree {
        PanelNode::Leaf { path, bounds, loading, .. } => {
            assert_eq!(path, "/home");
            assert_eq!(*bounds, Bounds::new(10, 20, 300, 200));
            assert!(*loading);
        },
        _ => panic!("expected a leaf"),
    }
}

#[test]
fn update_bounds_with_unknown_id_returns_false_and_mutates_nothing() {
    let mut tree = PanelNode::new_leaf(0, "/home".to_string());
    assert!(!tree.update_panel_bounds(3, Bounds::new(10, 20, 300, 200)));
    match &tree {
        PanelNode::Leaf { bounds, .. } => assert_eq!(*bounds, Bounds::new(0, 0, 0, 0)),
        _ => panic!("expected a leaf"),
    }
}

#[test]
fn update_bounds_does_not_address_splits() {
    let mut tree = PanelNode::new_leaf(0, "/home".to_string());
    assert!(tree.split_panel(0, Axis::Horizontal, 1, 2, "/home".to_string(), 100));
    assert!(!tree.update_panel_bounds(1, Bounds::new(0, 0, 50, 50)));
}

#[test]
fn closing_a_pane_promotes_its_sibling() {
    let mut tree = PanelNode::new_leaf(0, "/home".to_string());
    assert!(tree.update_panel_data(0, "/home".to_string(), vec![entry("keep")], false, None));
    assert!(tree.split_panel(0, Axis::Horizontal, 1, 2, "/home".to_string(), 100));
    let survivor = tree.remove_panel(2).expect("pane 0 must survive");
    assert_eq!(survivor.count_leaves(), 1);
    match &survivor {
        PanelNode::Leaf { id, entries, .. } => {
            assert_eq!(*id, 0);
            assert_eq!(entries.len(), 1);
            assert_eq!(entries[0].name, "keep");
        },
        _ => panic!("the split should have been promoted away"),
    }
}

#[test]
fn closing_inside_a_deeper_tree_keeps_all_other_panes() {
    let mut tree = PanelNode::new_leaf(0, "/a".to_string());
    assert!(tree.split_panel(0, Axis::Horizontal, 1, 2, "/b".to_string(), 100));
    assert!(tree.split_panel(2, Axis::Vertical, 3, 4, "/c".to_string(), 80));
    assert_eq!(tree.count_leaves(), 3);
    let after = tree.remove_panel(2).expect("two panes remain");
    assert_eq!(after.count_leaves(), 2);
    assert!(after.find_panel(0).is_some());
    assert!(after.find_panel(4).is_some());
    assert!(after.find_panel(2).is_none());
}

#[test]
fn removing_the_only_pane_leaves_nothing() {
    let tree = PanelNode::new_leaf(0, "/home".to_string());
    assert!(tree.remove_panel(0).is_none());
}

#[test]
fn removing_an_unknown_id_keeps_the_tree() {
    let tree = PanelNode::new_leaf(0, "/home".to_string());
    let same = tree.remove_panel(9).expect("nothing was removed");
    assert_eq!(same.get_id(), 0);
}

#[test]
fn find_next_panel_id_skips_the_excluded_pane() {
    let mut tree = PanelNode::new_leaf(0, "/home".to_string());
    assert!(tree.split_panel(0, Axis::Horizontal, 1, 2, "/home".to_string(), 100));
    assert_eq!(tree.find_next_panel_id(0), Some(2));
    assert_eq!(tree.find_next_panel_id(2), Some(0));
    assert_eq!(tree.find_next_panel_id(7), Some(0));
    let single = PanelNode::new_leaf(3, "/".to_string());
    assert_eq!(single.find_next_panel_id(3), None);
}
