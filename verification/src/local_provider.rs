//! The local file system backend's computations: deciding what a
//! directory entry is from the facts the platform reports, which entries
//! count as hidden, and which MIME type a file name suggests.  Reading
//! the disk itself happens outside; the raw facts are handed in as plain
//! values.

use vstd::prelude::*;

use crate::types::{EntryMetadata, FileItem, ItemType, ProviderType};

verus! {

/// The storage backend for the local file system.
pub struct LocalFileSystemProvider;

/// What `mime_guess` answers for a path: a function of its characters
/// alone (the guess reads only the extension against a fixed table).
pub uninterp spec fn mime_of(path: Seq<char>) -> Option<Seq<char>>;

/// Relies on mime_guess::from_path and the display form of the first
/// guess: both depend on the path's characters alone.
#[verifier::external_body]
fn guess_mime_type(path: &str) -> (r: Option<String>)
    ensures
        crate::types::opt_view(r) == mime_of(path@),
{
    mime_guess::from_path(path).first().map(|m| m.to_string())
}

impl LocalFileSystemProvider {
    pub fn new() -> (r: LocalFileSystemProvider)
        ensures
            r == LocalFileSystemProvider,
    {
        LocalFileSystemProvider
    }

    /// Whether a file name counts as hidden: it starts with a dot.
    pub fn is_hidden(name: &str) -> (r: bool)
        ensures
            r == (name@.len() > 0 && name@[0] == '.'),
    {
        if name.unicode_len() == 0 {
            false
        } else {
            name.get_char(0) == '.'
        }
    }

    /// Which kind of backend this is.
    pub fn provider_type(&self) -> (r: ProviderType)
        ensures
            r == ProviderType::LocalFileSystem,
    {
        ProviderType::LocalFileSystem
    }

    /// Builds one directory entry from the raw facts the platform
    /// reports: a directory wins over a symlink, hiddenness follows the
    /// name, and only plain files get a guessed MIME type.
    pub fn make_file_item(
        name: String,
        path: String,
        is_dir: bool,
        is_symlink: bool,
        size: u64,
        modified: u64,
        permissions: Option<u32>,
        created: Option<u64>,
        accessed: Option<u64>,
    ) -> (r: FileItem)
        ensures
            r.name == name,
            r.path == path,
            r.size == size,
            r.modified == modified,
            r.item_type == (if is_dir {
                ItemType::Directory
            } else if is_symlink {
                ItemType::Symlink
            } else {
                ItemType::File
            }),
            r.is_hidden == (name@.len() > 0 && name@[0] == '.'),
            r.metadata.permissions == permissions,
            r.metadata.created == created,
            r.metadata.accessed == accessed,
            r.metadata.custom_fields@ == Seq::<(String, String)>::empty(),
            crate::types::opt_view(r.metadata.mime_type) == (if is_dir || is_symlink {
                None::<Seq<char>>
            } else {
                mime_of(path@)
            }),
    {
        let item_type = if is_dir {
            ItemType::Directory
        } else if is_symlink {
            ItemType::Symlink
        } else {
            ItemType::File
        };
        let mime_type = if is_dir || is_symlink {
            None
        } else {
            guess_mime_type(path.as_str())
        };
        let is_hidden = LocalFileSystemProvider::is_hidden(name.as_str());
        FileItem {
            name,
            path,
            item_type,
            is_hidden,
            size,
            modified,
            metadata: EntryMetadata {
                permissions,
                mime_type,
                created,
                accessed,
                custom_fields: Vec::new(),
            },
        }
    }
}

impl Default for LocalFileSystemProvider {
    fn default() -> (r: LocalFileSystemProvider)
        ensures
            r == LocalFileSystemProvider,
    {
        LocalFileSystemProvider::new()
    }
}

} // verus!
