//! The storage side's own types: entries and roots as a backend reports
//! them, the storage error taxonomy, and the provider interface that every
//! backend (local file system, network drive, cloud account) implements.

use vstd::prelude::*;

use crate::types::{FileItem, ProviderType, RootItem};

verus! {

/// What a storage entry is.
#[derive(Debug, Clone, Copy, PartialEq, Eq, Structural)]
pub enum EntryType {
    File,
    Directory,
    Symlink,
}

/// Optional metadata of a storage entry.
#[derive(Debug, Clone)]
pub struct EntryMetadata {
    /// Unix permission bits, where the platform has them.
    pub permissions: Option<u32>,
    /// A guessed MIME type, for plain files.
    pub mime_type: Option<String>,
    /// Creation time in seconds since the Unix epoch, where supported.
    pub created: Option<u64>,
    /// Last access time in seconds since the Unix epoch, where supported.
    pub accessed: Option<u64>,
    /// Backend-specific extra fields, as key/value pairs.
    pub custom_fields: Vec<(String, String)>,
}

impl Default for EntryMetadata {
    fn default() -> (r: EntryMetadata)
        ensures
            r.permissions is None,
            r.mime_type is None,
            r.created is None,
            r.accessed is None,
            r.custom_fields@ == Seq::<(String, String)>::empty(),
    {
        EntryMetadata {
            permissions: None,
            mime_type: None,
            created: None,
            accessed: None,
            custom_fields: Vec::new(),
        }
    }
}

/// A file or directory as a storage backend reports it.
#[derive(Debug, Clone)]
pub struct StorageEntry {
    pub name: String,
    /// Full path; a local path or a URL.
    pub path: String,
    /// Size in bytes.
    pub size: u64,
    /// Last modification time, in seconds since the Unix epoch.
    pub modified: u64,
    pub entry_type: EntryType,
    pub is_hidden: bool,
    pub metadata: EntryMetadata,
}

/// What kind of backend serves a storage root.
#[derive(Debug, Clone, PartialEq, Eq)]
pub enum StorageProviderType {
    LocalFileSystem,
    NetworkDrive,
    CloudStorage { provider_name: String },
}

/// A storage root: a disk, a mount point, a cloud account.
#[derive(Debug, Clone)]
pub struct StorageRoot {
    pub id: String,
    pub name: String,
    pub root_path: String,
    pub provider_type: StorageProviderType,
    pub icon: Option<String>,
}

/// Why a storage operation failed.
#[derive(Debug)]
pub enum StorageError {
    PathNotFound(String),
    PermissionDenied(String),
    IoError(String),
    Unsupported(String),
    Other(String),
}

impl StorageError {
    /// The text shown for this error.
    pub fn message(&self) -> (r: String)
        ensures
            r@ == (match self {
                StorageError::PathNotFound(s) => "路径不存在: "@ + s@,
                StorageError::PermissionDenied(s) => "权限不足: "@ + s@,
                StorageError::IoError(s) => "IO 错误: "@ + s@,
                StorageError::Unsupported(s) => "不支持的操作: "@ + s@,
                StorageError::Other(s) => "其他错误: "@ + s@,
            }),
    {
        match self {
            StorageError::PathNotFound(s) => {
                let mut r = "路径不存在: ".to_owned();
                r.append(s.as_str());
                r
            },
            StorageError::PermissionDenied(s) => {
                let mut r = "权限不足: ".to_owned();
                r.append(s.as_str());
                r
            },
            StorageError::IoError(s) => {
                let mut r = "IO 错误: ".to_owned();
                r.append(s.as_str());
                r
            },
            StorageError::Unsupported(s) => {
                let mut r = "不支持的操作: ".to_owned();
                r.append(s.as_str());
                r
            },
            StorageError::Other(s) => {
                let mut r = "其他错误: ".to_owned();
                r.append(s.as_str());
                r
            },
        }
    }
}

/// Result of a storage operation.
pub type StorageResult<T> = Result<T, StorageError>;

/// The interface every storage backend offers.  The calls read the outside
/// world, so their outcomes carry no promises; the rest of the library
/// takes whatever they return as an argument and is verified for every
/// value of it.
pub trait StorageProvider {
    /// All roots this backend serves.
    fn get_roots(&self) -> StorageResult<Vec<RootItem>>;

    /// The metadata of one path.
    fn get_metadata(&self, path: &str) -> StorageResult<FileItem>;

    /// All entries of one directory.
    fn list_entries(&self, path: &str) -> StorageResult<Vec<FileItem>>;

    /// Whether a path exists.
    fn path_exists(&self, path: &str) -> StorageResult<bool>;

    /// Which kind of backend this is.
    fn provider_type(&self) -> ProviderType;
}

} // verus!
