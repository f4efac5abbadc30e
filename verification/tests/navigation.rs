use explorer::breadcrumb::{parse_path_to_breadcrumb_items, BreadcrumbItem};
use explorer::quick_access::get_quick_access_items;

fn pairs(items: &[BreadcrumbItem]) -> Vec<(String, String)> {
    items.iter().map(|b| (b.label.clone(), b.value.clone())).collect()
}

#[test]
fn the_root_path_is_a_single_crumb() {
    let items = parse_path_to_breadcrumb_items("/");
    assert_eq!(pairs(&items), vec![("/".to_string(), "/".to_string())]);
}

#[test]
fn an_empty_path_still_shows_the_root() {
    let items = parse_path_to_breadcrumb_items("");
    assert_eq!(pairs(&items), vec![("/".to_string(), "/".to_string())]);
}

#[test]
fn each_segment_carries_the_path_up_to_it() {
    let items = parse_path_to_breadcrumb_items("/home/user/docs");
    assert_eq!(
        pairs(&items),
        vec![
            ("/".to_string(), "/".to_string()),
            ("home".to_string(), "/home".to_string()),
            ("user".to_string(), "/home/user".to_string()),
            ("docs".to_string(), "/home/user/docs".to_string()),
        ]
    );
}

#[test]
fn repeated_slashes_contribute_no_crumbs() {
    let items = parse_path_to_breadcrumb_items("/a//b/");
    assert_eq!(
        pairs(&items),
        vec![
            ("/".to_string(), "/".to_string()),
            ("a".to_string(), "/a".to_string()),
            ("b".to_string(), "/a/b".to_string()),
        ]
    );
}

#[test]
fn a_relative_path_is_anchored_at_the_root() {
    let items = parse_path_to_breadcrumb_items("abc");
    assert_eq!(
        pairs(&items),
        vec![
            ("/".to_string(), "/".to_string()),
            ("abc".to_string(), "/abc".to_string()),
        ]
    );
}

#[test]
fn quick_access_lists_every_known_folder_in_order() {
    let items = get_quick_access_items(
        Some("/home/u".to_string()),
        Some("/home/u/Desktop".to_string()),
        Some("/home/u/Documents".to_string()),
        Some("/home/u/Downloads".to_string()),
        Some("/home/u/Pictures".to_string()),
        Some("/home/u/Music".to_string()),
        Some("/home/u/Videos".to_string()),
    );
    let view: Vec<(String, String, String)> =
        items.iter().map(|q| (q.name.clone(), q.path.clone(), q.icon.clone())).collect();
    assert_eq!(
        view,
        vec![
            ("主文件夹".to_string(), "/home/u".to_string(), "home".to_string()),
            ("桌面".to_string(), "/home/u/Desktop".to_string(), "desktop".to_string()),
            ("文档".to_string(), "/home/u/Documents".to_string(), "documents".to_string()),
            ("下载".to_string(), "/home/u/Downloads".to_string(), "downloads".to_string()),
            ("图片".to_string(), "/home/u/Pictures".to_string(), "pictures".to_string()),
            ("音乐".to_string(), "/home/u/Music".to_string(), "music".to_string()),
            ("视频".to_string(), "/home/u/Videos".to_string(), "videos".to_string()),
        ]
    );
}

#[test]
fn quick_access_skips_unknown_folders() {
    let items = get_quick_access_items(
        Some("/home/u".to_string()),
        None,
        None,
        Some("/home/u/Downloads".to_string()),
        None,
        None,
        None,
    );
    assert_eq!(items.len(), 2);
    assert_eq!(items[0].name, "主文件夹");
    assert_eq!(items[1].icon, "downloads");
}
