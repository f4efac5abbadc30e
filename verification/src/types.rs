//! Shared data types: directory entries shown inside a pane, storage roots
//! shown in the sidebar, and quick-access shortcuts.  Timestamps are held
//! as whole seconds since the Unix epoch.

use vstd::prelude::*;

verus! {

/// A storage root shown in the sidebar (a disk, a mount point, a cloud
/// account).
#[derive(Debug, Clone)]
pub struct RootItem {
    pub id: String,
    pub name: String,
    pub path: String,
    pub provider_type: ProviderType,
    pub icon: Option<String>,
}

/// What kind of backend serves a storage root.
#[derive(Debug, Clone, PartialEq, Eq)]
pub enum ProviderType {
    LocalFileSystem,
    NetworkDrive,
    CloudStorage { provider_name: String },
}

/// One entry of a directory listing, as shown inside a pane.
#[derive(Debug, Clone)]
pub struct FileItem {
    pub name: String,
    pub path: String,
    pub item_type: ItemType,
    pub is_hidden: bool,
    /// Size in bytes.
    pub size: u64,
    /// Last modification time, in seconds since the Unix epoch.
    pub modified: u64,
    pub metadata: EntryMetadata,
}

/// What a directory entry is.
#[derive(Debug, Clone, Copy, PartialEq, Eq, Structural)]
pub enum ItemType {
    File,
    Directory,
    Symlink,
}

/// Optional metadata of a directory entry.
#[derive(Debug, Clone)]
pub struct EntryMetadata {
    /// Unix permission bits, where the platform has them.
    pub permissions: Option<u32>,
    /// A guessed MIME type, for plain files.
    pub mime_type: Option<String>,
    /// Creation time in seconds since the Unix epoch, where supported.
    pub created: Option<u64>,
    /// Last access time in seconds since the Unix epoch, where supported.
    pub accessed: Option<u64>,
    /// Backend-specific extra fields, as key/value pairs.
    pub custom_fields: Vec<(String, String)>,
}

impl Default for EntryMetadata {
    fn default() -> (r: EntryMetadata)
        ensures
            r.permissions is None,
            r.mime_type is None,
            r.created is None,
            r.accessed is None,
            r.custom_fields@ == Seq::<(String, String)>::empty(),
    {
        EntryMetadata {
            permissions: None,
            mime_type: None,
            created: None,
            accessed: None,
            custom_fields: Vec::new(),
        }
    }
}

/// A shortcut shown in the sidebar's quick-access group.
#[derive(Debug, Clone)]
pub struct QuickAccessItem {
    pub name: String,
    pub path: String,
    pub icon: String,
}

/// The mathematical value of a quick-access shortcut: its three strings.
#[verifier::ext_equal]
pub struct QuickAccessModel {
    pub name: Seq<char>,
    pub path: Seq<char>,
    pub icon: Seq<char>,
}

impl View for QuickAccessItem {
    type V = QuickAccessModel;

    open spec fn view(&self) -> QuickAccessModel {
        QuickAccessModel { name: self.name@, path: self.path@, icon: self.icon@ }
    }
}

/// The view of an optional string: the character sequence it holds, if any.
pub open spec fn opt_view(o: Option<String>) -> Option<Seq<char>> {
    match o {
        Some(s) => Some(s@),
        None => None,
    }
}

} // verus!
