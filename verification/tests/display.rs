use cookie_commander::display::{
    entry_icon, header_has_banner, size_label, size_padding, viewer_window, EntryIcon, SizeLabel,
};
use cookie_commander::vfs::FileType;

#[test]
fn icons_by_kind() {
    assert_eq!(entry_icon(FileType::Directory), EntryIcon::Folder);
    assert_eq!(entry_icon(FileType::Symlink), EntryIcon::Link);
    assert_eq!(entry_icon(FileType::File), EntryIcon::Document);
    assert_eq!(entry_icon(FileType::Unknown), EntryIcon::Document);
}

#[test]
fn padding_pushes_sizes_right() {
    assert_eq!(size_padding(40, 10, 7), 21);
    assert_eq!(size_padding(19, 10, 7), 1);
    assert_eq!(size_padding(20, 10, 7), 1);
    assert_eq!(size_padding(21, 10, 7), 2);
}

#[test]
fn banner_needs_wide_terminals() {
    assert!(header_has_banner(100));
    assert!(!header_has_banner(99));
}

#[test]
fn viewer_windows() {
    let w = viewer_window(5, 10, 20);
    assert_eq!((w.start, w.end, w.first_line, w.percent), (5, 15, 6, 75));
    let w = viewer_window(15, 10, 20);
    assert_eq!((w.start, w.end, w.first_line, w.percent), (15, 20, 16, 100));
    let w = viewer_window(0, 10, 0);
    assert_eq!((w.start, w.end, w.first_line, w.percent), (0, 0, 0, 100));
    let w = viewer_window(0, 3, 7);
    assert_eq!(w.percent, 42);
}

#[test]
fn sizes_pick_the_largest_whole_unit() {
    assert_eq!(size_label(5, true), SizeLabel::Dir);
    assert_eq!(size_label(0, false), SizeLabel::Empty);
    assert_eq!(size_label(1023, false), SizeLabel::Scaled { divisor: 1, unit: "B" });
    assert_eq!(size_label(1024, false), SizeLabel::Scaled { divisor: 1024, unit: "KB" });
    assert_eq!(size_label(1048575, false), SizeLabel::Scaled { divisor: 1024, unit: "KB" });
    assert_eq!(size_label(1048576, false), SizeLabel::Scaled { divisor: 1048576, unit: "MB" });
    assert_eq!(
        size_label(1073741824, false),
        SizeLabel::Scaled { divisor: 1073741824, unit: "GB" }
    );
    assert_eq!(
        size_label(u64::MAX, false),
        SizeLabel::Scaled { divisor: 1099511627776, unit: "TB" }
    );
}
