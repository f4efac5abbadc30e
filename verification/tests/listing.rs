use explorer::local_provider::LocalFileSystemProvider;
use explorer::sorting::{sort_entries_for_display, sort_entries_for_listing, str_le};
use explorer::storage::StorageError;
use explorer::types::{EntryMetadata, FileItem, ItemType, ProviderType};

fn entry(name: &str, item_type: ItemType, is_hidden: bool) -> FileItem {
    FileItem {
        name: name.to_string(),
        path: format!("/d/{}", name),
        item_type,
        is_hidden,
        size: 1,
        modified: 0,
        metadata: EntryMetadata::default(),
    }
}

fn names(v: &[FileItem]) -> Vec<String> {
    v.iter().map(|x| x.name.clone()).collect()
}

#[test]
fn display_sort_orders_hidden_then_kind_then_name() {
    let sorted = sort_entries_for_display(vec![
        entry("beta.txt", ItemType::File, false),
        entry(".config", ItemType::Directory, true),
        entry("Alpha.txt", ItemType::File, false),
        entry("src", ItemType::Directory, false),
        entry(".env", ItemType::File, true),
        entry("link", ItemType::Symlink, false),
    ]);
    assert_eq!(
        names(&sorted),
        vec!["src", "Alpha.txt", "beta.txt", "link", ".config", ".env"]
    );
}

#[test]
fn listing_sort_orders_directories_first_then_raw_names() {
    let sorted = sort_entries_for_listing(vec![
        entry("b.txt", ItemType::File, false),
        entry("zdir", ItemType::Directory, false),
        entry("a.txt", ItemType::File, false),
        entry("adir", ItemType::Directory, false),
    ]);
    assert_eq!(names(&sorted), vec!["adir", "zdir", "a.txt", "b.txt"]);
}

#[test]
fn listing_sort_keeps_case_sensitive_order() {
    let sorted = sort_entries_for_listing(vec![
        entry("apple", ItemType::File, false),
        entry("Zebra", ItemType::File, false),
    ]);
    assert_eq!(names(&sorted), vec!["Zebra", "apple"]);
}

#[test]
fn string_order_is_lexicographic() {
    assert!(str_le("abc", "abd"));
    assert!(!str_le("abd", "abc"));
    assert!(str_le("ab", "abc"));
    assert!(!str_le("abc", "ab"));
    assert!(str_le("", "a"));
    assert!(str_le("same", "same"));
}

#[test]
fn sorting_an_empty_listing_yields_an_empty_listing() {
    assert!(sort_entries_for_display(vec![]).is_empty());
    assert!(sort_entries_for_listing(vec![]).is_empty());
}

#[test]
fn make_file_item_guesses_the_mime_of_plain_files() {
    let item = LocalFileSystemProvider::make_file_item(
        "notes.txt".to_string(),
        "/home/notes.txt".to_string(),
        false,
        false,
        42,
        1700000000,
        Some(0o644),
        Some(1690000000),
        None,
    );
    assert_eq!(item.name, "notes.txt");
    assert_eq!(item.path, "/home/notes.txt");
    assert_eq!(item.item_type, ItemType::File);
    assert!(!item.is_hidden);
    assert_eq!(item.size, 42);
    assert_eq!(item.modified, 1700000000);
    assert_eq!(item.metadata.permissions, Some(0o644));
    assert_eq!(item.metadata.created, Some(1690000000));
    assert_eq!(item.metadata.accessed, None);
    assert_eq!(item.metadata.mime_type.as_deref(), Some("text/plain"));
}

#[test]
fn make_file_item_leaves_directories_without_a_mime() {
    let item = LocalFileSystemProvider::make_file_item(
        "src".to_string(),
        "/home/src".to_string(),
        true,
        false,
        0,
        0,
        None,
        None,
        None,
    );
    assert_eq!(item.item_type, ItemType::Directory);
    assert!(item.metadata.mime_type.is_none());
}

#[test]
fn make_file_item_prefers_directory_over_symlink() {
    let item = LocalFileSystemProvider::make_file_item(
        "both".to_string(),
        "/home/both".to_string(),
        true,
        true,
        0,
        0,
        None,
        None,
        None,
    );
    assert_eq!(item.item_type, ItemType::Directory);
    let link = LocalFileSystemProvider::make_file_item(
        "link.txt".to_string(),
        "/home/link.txt".to_string(),
        false,
        true,
        0,
        0,
        None,
        None,
        None,
    );
    assert_eq!(link.item_type, ItemType::Symlink);
    assert!(link.metadata.mime_type.is_none());
}

#[test]
fn dotted_names_count_as_hidden() {
    assert!(LocalFileSystemProvider::is_hidden(".bashrc"));
    assert!(!LocalFileSystemProvider::is_hidden("bashrc"));
    assert!(!LocalFileSystemProvider::is_hidden(""));
    let item = LocalFileSystemProvider::make_file_item(
        ".git".to_string(),
        "/home/.git".to_string(),
        true,
        false,
        0,
        0,
        None,
        None,
        None,
    );
    assert!(item.is_hidden);
}

#[test]
fn provider_reports_the_local_file_system() {
    let p = LocalFileSystemProvider::new();
    assert_eq!(p.provider_type(), ProviderType::LocalFileSystem);
}

#[test]
fn storage_errors_carry_their_prefix() {
    assert_eq!(
        StorageError::PathNotFound("/x".to_string()).message(),
        "路径不存在: /x"
    );
    assert_eq!(
        StorageError::PermissionDenied("/y".to_string()).message(),
        "权限不足: /y"
    );
    assert_eq!(StorageError::IoError("broken pipe".to_string()).message(), "IO 错误: broken pipe");
    assert_eq!(
        StorageError::Unsupported("watch".to_string()).message(),
        "不支持的操作: watch"
    );
    assert_eq!(StorageError::Other("misc".to_string()).message(), "其他错误: misc");
}
