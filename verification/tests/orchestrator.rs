use explorer::explorer::Explorer;
use explorer::geometry::Bounds;
use explorer::panel_tree::PanelNode;
use explorer::types::{EntryMetadata, FileItem, ItemType, ProviderType, RootItem};

fn entry(name: &str, item_type: ItemType, is_hidden: bool) -> FileItem {
    FileItem {
        name: name.to_string(),
        path: format!("/home/{}", name),
        item_type,
        is_hidden,
        size: 1,
        modified: 0,
        metadata: EntryMetadata::default(),
    }
}

fn entry_names(e: &Explorer, panel_id: u64) -> Vec<String> {
    match e.panel_tree.find_panel(panel_id) {
        Some(PanelNode::Leaf { entries, .. }) => entries.iter().map(|x| x.name.clone()).collect(),
        _ => panic!("pane {} not found", panel_id),
    }
}

#[test]
fn one_pane_then_split_then_close_each_side() {
    let mut e = Explorer::new("/home".to_string());
    assert_eq!(e.active_panel_id, Some(0));
    assert_eq!(e.panel_tree.count_leaves(), 1);

    let request = e.split_panel_horizontal("/home".to_string());
    assert_eq!(request, Some((2, "/home".to_string())));
    assert_eq!(e.panel_tree.count_leaves(), 2);
    assert_eq!(e.next_panel_id, 3);
    match &e.panel_tree {
        PanelNode::Split { id, first, second, .. } => {
            assert_eq!(*id, 1);
            match first.as_ref() {
                PanelNode::Leaf { id, path, .. } => {
                    assert_eq!(*id, 0);
                    assert_eq!(path, "/home");
                },
                _ => panic!("first child should be pane 0"),
            }
            match second.as_ref() {
                PanelNode::Leaf { id, path, .. } => {
                    assert_eq!(*id, 2);
                    assert_eq!(path, "/home");
                },
                _ => panic!("second child should be pane 2"),
            }
        },
        _ => panic!("expected a split"),
    }

    e.close_panel(0);
    assert_eq!(e.panel_tree.count_leaves(), 1);
    match &e.panel_tree {
        PanelNode::Leaf { id, path, .. } => {
            assert_eq!(*id, 2);
            assert_eq!(path, "/home");
        },
        _ => panic!("the sibling should have been promoted"),
    }
    assert_eq!(e.active_panel_id, Some(2));

    e.close_panel(2);
    assert_eq!(e.panel_tree.count_leaves(), 1);
    assert_eq!(e.panel_tree.get_id(), 2);
}

#[test]
fn split_consumes_ids_even_when_the_target_is_stale() {
    let mut e = Explorer::new("/home".to_string());
    e.set_active_panel(42);
    let request = e.split_panel_vertical("/fallback".to_string());
    assert_eq!(request, None);
    assert_eq!(e.next_panel_id, 3);
    assert_eq!(e.panel_tree.count_leaves(), 1);
}

#[test]
fn split_without_an_active_pane_is_a_no_op() {
    let mut e = Explorer::new("/home".to_string());
    e.active_panel_id = None;
    let request = e.split_panel_horizontal("/fallback".to_string());
    assert_eq!(request, None);
    assert_eq!(e.next_panel_id, 1);
}

#[test]
fn vertical_split_seeds_the_divider_with_half_the_height() {
    let mut e = Explorer::new("/home".to_string());
    assert!(e.panel_tree.update_panel_bounds(0, Bounds::new(0, 0, 800, 600)));
    e.split_panel_vertical("/home".to_string()).expect("the split lands");
    match &e.panel_tree {
        PanelNode::Split { state, .. } => assert_eq!(state.size(), 300),
        _ => panic!("expected a split"),
    }
}

#[test]
fn closing_a_background_pane_keeps_the_active_one() {
    let mut e = Explorer::new("/home".to_string());
    e.split_panel_horizontal("/home".to_string()).expect("the split lands");
    assert_eq!(e.active_panel_id, Some(0));
    e.close_panel(2);
    assert_eq!(e.active_panel_id, Some(0));
    assert_eq!(e.panel_tree.count_leaves(), 1);
}

#[test]
fn load_puts_the_pane_into_the_loading_state() {
    let mut e = Explorer::new("/home".to_string());
    e.apply_load_result(0, "/home".to_string(), Ok(vec![entry("a", ItemType::File, false)]));
    e.load_directory_for_panel(0, "/tmp".to_string());
    match &e.panel_tree {
        PanelNode::Leaf { path, entries, loading, error, .. } => {
            assert_eq!(path, "/tmp");
            assert!(entries.is_empty());
            assert!(*loading);
            assert!(error.is_none());
        },
        _ => panic!("expected a leaf"),
    }
}

#[test]
fn load_with_a_stale_id_changes_no_pane() {
    let mut e = Explorer::new("/home".to_string());
    e.load_directory_for_panel(9, "/tmp".to_string());
    match &e.panel_tree {
        PanelNode::Leaf { path, .. } => assert_eq!(path, "/home"),
        _ => panic!("expected a leaf"),
    }
}

#[test]
fn load_result_is_sorted_for_display() {
    let mut e = Explorer::new("/home".to_string());
    let entries = vec![
        entry("zeta", ItemType::File, false),
        entry(".hidden", ItemType::File, true),
        entry("Alpha", ItemType::File, false),
        entry("music", ItemType::Directory, false),
    ];
    e.apply_load_result(0, "/home".to_string(), Ok(entries));
    assert_eq!(entry_names(&e, 0), vec!["music", "Alpha", "zeta", ".hidden"]);
    match &e.panel_tree {
        PanelNode::Leaf { loading, error, .. } => {
            assert!(!*loading);
            assert!(error.is_none());
        },
        _ => panic!("expected a leaf"),
    }
}

#[test]
fn names_are_compared_without_case() {
    let mut e = Explorer::new("/home".to_string());
    let entries = vec![
        entry("Zebra", ItemType::File, false),
        entry("apple", ItemType::File, false),
    ];
    e.apply_load_result(0, "/home".to_string(), Ok(entries));
    assert_eq!(entry_names(&e, 0), vec!["apple", "Zebra"]);
}

#[test]
fn failed_load_surfaces_its_message() {
    let mut e = Explorer::new("/home".to_string());
    e.apply_load_result(0, "/home".to_string(), Err("boom".to_string()));
    match &e.panel_tree {
        PanelNode::Leaf { entries, loading, error, .. } => {
            assert!(entries.is_empty());
            assert!(!*loading);
            assert_eq!(error.as_deref(), Some("加载失败: boom"));
        },
        _ => panic!("expected a leaf"),
    }
}

#[test]
fn stale_load_result_after_close_is_dropped() {
    let mut e = Explorer::new("/home".to_string());
    e.split_panel_horizontal("/home".to_string()).expect("the split lands");
    e.close_panel(2);
    e.apply_load_result(2, "/home".to_string(), Ok(vec![entry("late", ItemType::File, false)]));
    assert_eq!(e.panel_tree.count_leaves(), 1);
    assert!(entry_names(&e, 0).is_empty());
}

#[test]
fn initial_load_targets_the_active_pane() {
    let e = Explorer::new("/home".to_string());
    assert_eq!(e.initial_load_target("/fb".to_string()), (0, "/home".to_string()));
    let mut stale = Explorer::new("/home".to_string());
    stale.set_active_panel(9);
    assert_eq!(stale.initial_load_target("/fb".to_string()), (9, "/fb".to_string()));
}

#[test]
fn init_result_fills_roots_and_the_first_pane() {
    let mut e = Explorer::new("/home".to_string());
    let roots = vec![RootItem {
        id: "/".to_string(),
        name: "Root".to_string(),
        path: "/".to_string(),
        provider_type: ProviderType::LocalFileSystem,
        icon: None,
    }];
    e.apply_init_result(
        0,
        "/home".to_string(),
        Ok((roots, vec![entry("docs", ItemType::Directory, false)])),
    );
    assert_eq!(e.roots.len(), 1);
    assert_eq!(e.roots[0].name, "Root");
    assert_eq!(entry_names(&e, 0), vec!["docs"]);
}

#[test]
fn failed_init_keeps_roots_and_reports_the_error() {
    let mut e = Explorer::new("/home".to_string());
    e.apply_init_result(0, "/home".to_string(), Err("no disk".to_string()));
    assert!(e.roots.is_empty());
    match &e.panel_tree {
        PanelNode::Leaf { error, .. } => assert_eq!(error.as_deref(), Some("加载失败: no disk")),
        _ => panic!("expected a leaf"),
    }
}

#[test]
fn selection_add_remove_toggle() {
    let mut e = Explorer::new("/home".to_string());
    assert!(!e.is_selected("/home/a"));
    e.add_selection("/home/a".to_string());
    assert!(e.is_selected("/home/a"));
    e.add_selection("/home/a".to_string());
    assert_eq!(e.selected_items.len(), 1);
    e.toggle_selection("/home/b".to_string(), 1);
    assert!(e.is_selected("/home/b"));
    assert_eq!(e.last_selected_index, Some(1));
    e.toggle_selection("/home/a".to_string(), 0);
    assert!(!e.is_selected("/home/a"));
    e.remove_selection("/home/b");
    assert!(!e.is_selected("/home/b"));
    assert!(e.selected_items.is_empty());
}

#[test]
fn single_selection_replaces_everything() {
    let mut e = Explorer::new("/home".to_string());
    e.add_selection("/home/a".to_string());
    e.add_selection("/home/b".to_string());
    e.set_single_selection("/home/c".to_string(), 2);
    assert!(!e.is_selected("/home/a"));
    assert!(!e.is_selected("/home/b"));
    assert!(e.is_selected("/home/c"));
    assert_eq!(e.last_selected_index, Some(2));
    e.clear_selection();
    assert!(!e.is_selected("/home/c"));
    assert_eq!(e.last_selected_index, None);
}

#[test]
fn range_selection_spans_both_directions() {
    let paths: Vec<String> = (0..5).map(|i| format!("/home/f{}", i)).collect();
    let mut e = Explorer::new("/home".to_string());
    e.set_single_selection(paths[3].clone(), 3);
    e.select_range(&paths, 1);
    assert!(!e.is_selected("/home/f0"));
    assert!(e.is_selected("/home/f1"));
    assert!(e.is_selected("/home/f2"));
    assert!(e.is_selected("/home/f3"));
    assert!(!e.is_selected("/home/f4"));
}

#[test]
fn range_selection_without_a_previous_index_selects_one() {
    let paths: Vec<String> = (0..3).map(|i| format!("/home/f{}", i)).collect();
    let mut e = Explorer::new("/home".to_string());
    e.select_range(&paths, 2);
    assert!(e.is_selected("/home/f2"));
    assert!(!e.is_selected("/home/f0"));
    assert_eq!(e.last_selected_index, Some(2));
}

#[test]
fn range_selection_ignores_indices_past_the_listing() {
    let paths: Vec<String> = (0..2).map(|i| format!("/home/f{}", i)).collect();
    let mut e = Explorer::new("/home".to_string());
    e.set_single_selection(paths[0].clone(), 0);
    e.select_range(&paths, 9);
    assert!(e.is_selected("/home/f0"));
    assert!(e.is_selected("/home/f1"));
    assert_eq!(e.selected_items.len(), 2);
}
