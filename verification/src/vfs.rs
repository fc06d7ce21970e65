use vstd::prelude::*;

use crate::paths::{path_file_name, path_file_name_of, path_parent, path_parent_of};
use crate::text::same_text;

verus! {

/// `std::time::SystemTime`, carried through file listings untouched.
#[verifier::external_type_specification]
#[verifier::external_body]
pub struct ExSystemTime(std::time::SystemTime);

/// The kind of a directory entry.
#[derive(Debug, Clone, Copy, PartialEq, Eq, Structural)]
pub enum FileType {
    File,
    Directory,
    Symlink,
    Unknown,
}

/// One directory entry as a file system reports it.
#[derive(Debug, Clone, PartialEq)]
pub struct FileMetadata {
    pub name: String,
    pub size: u64,
    pub file_type: FileType,
    pub modified: Option<std::time::SystemTime>,
}

impl FileMetadata {
    /// A field-for-field copy of the entry.
    pub fn duplicate(&self) -> (r: FileMetadata)
        ensures
            r == *self,
    {
        FileMetadata {
            name: self.name.clone(),
            size: self.size,
            file_type: self.file_type,
            modified: self.modified,
        }
    }
}

/// The local file system.
#[derive(Debug, Default, Clone)]
pub struct LocalVfs;

impl LocalVfs {
    /// The kind of an entry from what the file system says of it: a
    /// directory, else a link, else a regular file, else unknown.
    pub fn file_type_of(is_dir: bool, is_symlink: bool, is_file: bool) -> (r: FileType)
        ensures
            r == (if is_dir {
                FileType::Directory
            } else if is_symlink {
                FileType::Symlink
            } else if is_file {
                FileType::File
            } else {
                FileType::Unknown
            }),
    {
        if is_dir {
            FileType::Directory
        } else if is_symlink {
            FileType::Symlink
        } else if is_file {
            FileType::File
        } else {
            FileType::Unknown
        }
    }

    /// Whether a listing of `path` starts with `..`: where the path has a
    /// parent, is not `/` and is not empty.
    pub fn lists_parent(path: &str) -> (r: bool)
        ensures
            r == (path_parent_of(path@) is Some && path@ != "/"@ && path@.len() > 0),
    {
        let has_parent = match path_parent(path) {
            Some(_) => true,
            None => false,
        };
        has_parent && !same_text(path, "/") && path.unicode_len() > 0
    }

    /// The name shown for the entry at `path`: its final component, or the
    /// whole path where it has none.
    pub fn entry_name(path: &str) -> (r: String)
        ensures
            r@ == (match path_file_name_of(path@) {
                Some(n) => n,
                None => path@,
            }),
    {
        match path_file_name(path) {
            Some(n) => n,
            None => String::from_str(path),
        }
    }

    /// The `..` entry that heads a listing.
    pub fn parent_entry() -> (r: FileMetadata)
        ensures
            r.name@ == seq!['.', '.'],
            r.size == 0,
            r.file_type == FileType::Directory,
            r.modified is None,
    {
        let name = String::from_str("..");
        proof {
            reveal_strlit("..");
        }
        assert(name@ =~= seq!['.', '.']);
        FileMetadata { name, size: 0, file_type: FileType::Directory, modified: None }
    }
}

} // verus!
