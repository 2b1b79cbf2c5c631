//! Data model of directory listings. Reading directories off disk is a
//! collaborator's job; this library only consumes the resulting entries.
//! Paths are plain strings (see `pathtext`) and modification times are
//! seconds since the Unix epoch.

use vstd::prelude::*;

verus! {

/// The kind of a directory entry.
#[derive(Debug, Clone, Copy, PartialEq, Eq, Structural)]
pub enum FileType {
    File,
    Directory,
    SymLink,
    Other,
}

/// One entry of a directory listing.
#[derive(Debug)]
pub struct FileEntry {
    pub name: String,
    pub path: String,
    pub file_type: FileType,
    pub size: u64,
    /// Seconds since the Unix epoch, when known.
    pub modified: Option<i64>,
}

/// Metadata of a single file or directory.
#[derive(Debug)]
pub struct FileInfo {
    pub path: String,
    pub file_type: FileType,
    pub size: u64,
    pub modified: Option<i64>,
    pub permissions: Option<String>,
}

impl Clone for FileEntry {
    /// A clone is equal to the original, field for field.
    fn clone(&self) -> (r: FileEntry)
        ensures
            r == *self,
    {
        FileEntry {
            name: self.name.clone(),
            path: self.path.clone(),
            file_type: self.file_type,
            size: self.size,
            modified: self.modified,
        }
    }
}

impl Clone for FileInfo {
    /// A clone is equal to the original, field for field.
    fn clone(&self) -> (r: FileInfo)
        ensures
            r == *self,
    {
        FileInfo {
            path: self.path.clone(),
            file_type: self.file_type,
            size: self.size,
            modified: self.modified,
            permissions: match &self.permissions {
                Some(p) => Some(p.clone()),
                None => None,
            },
        }
    }
}

} // verus!
