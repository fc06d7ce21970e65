use cookie_commander::vfs::{FileMetadata, FileType, LocalVfs};
use std::time::SystemTime;

#[test]
fn test_file_metadata_creation() {
    let now = SystemTime::now();
    let meta = FileMetadata {
        name: "test.txt".to_string(),
        size: 1024,
        file_type: FileType::File,
        modified: Some(now),
    };

    assert_eq!(meta.name, "test.txt");
    assert_eq!(meta.size, 1024);
    assert_eq!(meta.file_type, FileType::File);
    assert_eq!(meta.modified, Some(now));
}

#[test]
fn test_file_type_equality() {
    assert_eq!(FileType::Directory, FileType::Directory);
    assert_ne!(FileType::File, FileType::Directory);
}

#[test]
fn local_vfs_classifies_entries() {
    assert_eq!(LocalVfs::file_type_of(true, false, false), FileType::Directory);
    assert_eq!(LocalVfs::file_type_of(true, true, true), FileType::Directory);
    assert_eq!(LocalVfs::file_type_of(false, true, true), FileType::Symlink);
    assert_eq!(LocalVfs::file_type_of(false, false, true), FileType::File);
    assert_eq!(LocalVfs::file_type_of(false, false, false), FileType::Unknown);
}

#[test]
fn local_vfs_lists_parent_only_below_root() {
    assert!(LocalVfs::lists_parent("/tmp/x"));
    assert!(LocalVfs::lists_parent("/tmp"));
    assert!(LocalVfs::lists_parent("relative/dir"));
    assert!(!LocalVfs::lists_parent("/"));
    assert!(!LocalVfs::lists_parent(""));
}

#[test]
fn local_vfs_entry_names() {
    assert_eq!(LocalVfs::entry_name("/tmp/test_file.txt"), "test_file.txt");
    assert_eq!(LocalVfs::entry_name("/"), "/");
    assert_eq!(LocalVfs::entry_name("a/b/"), "b");
    let dd = LocalVfs::parent_entry();
    assert_eq!(dd.name, "..");
    assert_eq!(dd.size, 0);
    assert_eq!(dd.file_type, FileType::Directory);
    assert!(dd.modified.is_none());
}

#[test]
fn duplicate_copies_every_field() {
    let now = SystemTime::now();
    let meta = FileMetadata {
        name: "a".to_string(),
        size: 3,
        file_type: FileType::Symlink,
        modified: Some(now),
    };
    assert_eq!(meta.duplicate(), meta);
}
