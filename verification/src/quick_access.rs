//! The sidebar's quick-access shortcuts, built from whichever of the
//! user's standard folders the platform reports.  Looking the folders up
//! happens outside; their paths are handed in as plain values.

use vstd::prelude::*;

use crate::types::{QuickAccessItem, QuickAccessModel};

verus! {

/// The shortcut a folder contributes: one entry when the platform knows
/// the folder, none otherwise.
pub open spec fn qa_entry(
    path: Option<Seq<char>>,
    name: Seq<char>,
    icon: Seq<char>,
) -> Seq<QuickAccessModel> {
    match path {
        Some(p) => seq![QuickAccessModel { name, path: p, icon }],
        None => Seq::<QuickAccessModel>::empty(),
    }
}

/// All quick-access shortcuts, in their fixed order: home, desktop,
/// documents, downloads, pictures, music, videos.
pub open spec fn qa_items(
    home: Option<Seq<char>>,
    desktop: Option<Seq<char>>,
    documents: Option<Seq<char>>,
    downloads: Option<Seq<char>>,
    pictures: Option<Seq<char>>,
    music: Option<Seq<char>>,
    videos: Option<Seq<char>>,
) -> Seq<QuickAccessModel> {
    qa_entry(home, "主文件夹"@, "home"@) + qa_entry(desktop, "桌面"@, "desktop"@) + qa_entry(
        documents,
        "文档"@,
        "documents"@,
    ) + qa_entry(downloads, "下载"@, "downloads"@) + qa_entry(pictures, "图片"@, "pictures"@)
        + qa_entry(music, "音乐"@, "music"@) + qa_entry(videos, "视频"@, "videos"@)
}

/// The values of a shortcut vector.
pub open spec fn qa_views(s: Seq<QuickAccessItem>) -> Seq<QuickAccessModel> {
    s.map_values(|q: QuickAccessItem| q@)
}

/// Appending a shortcut appends its value.
proof fn lemma_qa_views_push(s: Seq<QuickAccessItem>, x: QuickAccessItem)
    ensures
        qa_views(s.push(x)) =~= qa_views(s).push(x@),
{
}

/// Builds the quick-access list from the folders the platform reported,
/// in the fixed order with the fixed names and icon keys.
pub fn get_quick_access_items(
    home: Option<String>,
    desktop: Option<String>,
    documents: Option<String>,
    downloads: Option<String>,
    pictures: Option<String>,
    music: Option<String>,
    videos: Option<String>,
) -> (r: Vec<QuickAccessItem>)
    ensures
        qa_views(r@) == qa_items(
            crate::types::opt_view(home),
            crate::types::opt_view(desktop),
            crate::types::opt_view(documents),
            crate::types::opt_view(downloads),
            crate::types::opt_view(pictures),
            crate::types::opt_view(music),
            crate::types::opt_view(videos),
        ),
{
    let mut items: Vec<QuickAccessItem> = Vec::new();
    push_entry(&mut items, home, "主文件夹", "home");
    let ghost s1 = qa_views(items@);
    push_entry(&mut items, desktop, "桌面", "desktop");
    let ghost s2 = qa_views(items@);
    push_entry(&mut items, documents, "文档", "documents");
    let ghost s3 = qa_views(items@);
    push_entry(&mut items, downloads, "下载", "downloads");
    let ghost s4 = qa_views(items@);
    push_entry(&mut items, pictures, "图片", "pictures");
    let ghost s5 = qa_views(items@);
    push_entry(&mut items, music, "音乐", "music");
    let ghost s6 = qa_views(items@);
    push_entry(&mut items, videos, "视频", "videos");
    proof {
        assert(qa_views(items@) =~= qa_items(
            crate::types::opt_view(home),
            crate::types::opt_view(desktop),
            crate::types::opt_view(documents),
            crate::types::opt_view(downloads),
            crate::types::opt_view(pictures),
            crate::types::opt_view(music),
            crate::types::opt_view(videos),
        ));
    }
    items
}

/// Appends one folder's shortcut, if the platform knows the folder.
fn push_entry(items: &mut Vec<QuickAccessItem>, path: Option<String>, name: &str, icon: &str)
    ensures
        qa_views(final(items)@) == qa_views(old(items)@) + qa_entry(
            crate::types::opt_view(path),
            name@,
            icon@,
        ),
{
    let ghost before = items@;
    match path {
        Some(p) => {
            let item = QuickAccessItem { name: name.to_owned(), path: p, icon: icon.to_owned() };
            items.push(item);
            proof {
                lemma_qa_views_push(before, item);
                assert(qa_views(items@) =~= qa_views(before) + qa_entry(
                    crate::types::opt_view(path),
                    name@,
                    icon@,
                ));
            }
        },
        None => {
            proof {
                assert(qa_views(items@) =~= qa_views(before) + qa_entry(
                    crate::types::opt_view(path),
                    name@,
                    icon@,
                ));
            }
        },
    }
}

} // verus!
