use vstd::prelude::*;

use crate::vfs::FileType;

verus! {

/// The icon that marks an entry in a pane.
#[derive(Debug, Clone, Copy, PartialEq, Eq, Structural)]
pub enum EntryIcon {
    Folder,
    Link,
    Document,
}

/// The icon of an entry of this kind: folders for directories, a link for
/// symbolic links, a page for everything else.
pub fn entry_icon(file_type: FileType) -> (r: EntryIcon)
    ensures
        r == (match file_type {
            FileType::Directory => EntryIcon::Folder,
            FileType::Symlink => EntryIcon::Link,
            _ => EntryIcon::Document,
        }),
{
    match file_type {
        FileType::Directory => EntryIcon::Folder,
        FileType::Symlink => EntryIcon::Link,
        _ => EntryIcon::Document,
    }
}

/// How an entry's size is written in a pane: a fixed label for directories
/// and for empty files, or the byte count divided by `divisor` (a power of
/// 1024) and followed by `unit`, with one decimal.
#[derive(Debug, Clone, Copy, PartialEq, Eq)]
pub enum SizeLabel {
    Dir,
    Empty,
    Scaled { divisor: u64, unit: &'static str },
}

/// The largest of 1, 1024, 1024², 1024³ and 1024⁴ that is at most `bytes`
/// (1 for fewer than 1024 bytes).
pub open spec fn size_divisor(bytes: u64) -> u64 {
    if bytes < 1024 {
        1
    } else if bytes < 1048576 {
        1024
    } else if bytes < 1073741824 {
        1048576
    } else if bytes < 1099511627776 {
        1073741824
    } else {
        1099511627776
    }
}

/// The unit named after `size_divisor(bytes)`.
pub open spec fn size_unit(bytes: u64) -> Seq<char> {
    if bytes < 1024 {
        "B"@
    } else if bytes < 1048576 {
        "KB"@
    } else if bytes < 1073741824 {
        "MB"@
    } else if bytes < 1099511627776 {
        "GB"@
    } else {
        "TB"@
    }
}

/// How a size of `bytes` is written: `<DIR>` for a directory, `0 B` for an
/// empty file, otherwise in the largest unit up to TB of which there is at
/// least one.
pub fn size_label(bytes: u64, is_dir: bool) -> (r: SizeLabel)
    ensures
        is_dir ==> r == SizeLabel::Dir,
        !is_dir && bytes == 0 ==> r == SizeLabel::Empty,
        !is_dir && bytes > 0 ==> (r matches SizeLabel::Scaled { divisor, unit }
            && divisor == size_divisor(bytes) && unit@ == size_unit(bytes)),
{
    if is_dir {
        SizeLabel::Dir
    } else if bytes == 0 {
        SizeLabel::Empty
    } else if bytes < 1024 {
        SizeLabel::Scaled { divisor: 1, unit: "B" }
    } else if bytes < 1048576 {
        SizeLabel::Scaled { divisor: 1024, unit: "KB" }
    } else if bytes < 1073741824 {
        SizeLabel::Scaled { divisor: 1048576, unit: "MB" }
    } else if bytes < 1099511627776 {
        SizeLabel::Scaled { divisor: 1073741824, unit: "GB" }
    } else {
        SizeLabel::Scaled { divisor: 1099511627776, unit: "TB" }
    }
}

/// The blanks between an entry's name and its size on a row `width` cells
/// wide, so that the size ends two cells before the border; one blank where
/// the row is too narrow.
pub fn size_padding(width: usize, name_width: usize, size_width: usize) -> (r: usize)
    requires
        name_width + size_width + 2 <= usize::MAX,
    ensures
        r == (if width > name_width + size_width + 2 {
            width - name_width - size_width - 2
        } else {
            1
        }),
{
    if width > name_width + size_width + 2 {
        width - name_width - size_width - 2
    } else {
        1
    }
}

/// Whether the header has room for the banner: 100 columns at least.
pub fn header_has_banner(width: u16) -> (r: bool)
    ensures
        r == (width >= 100),
{
    width >= 100
}

/// The lines of a file that the viewer shows, and its position report.
pub struct ViewerWindow {
    /// The first line shown (counted from 0).
    pub start: usize,
    /// One past the last line shown.
    pub end: usize,
    /// The number of the first line shown, counted from 1; 0 for an empty file.
    pub first_line: usize,
    /// How far down the file the window reaches, in percent.
    pub percent: usize,
}

/// The window of a viewer scrolled to line `scroll`, `height` lines high,
/// on a file of `total` lines.
pub fn viewer_window(scroll: usize, height: usize, total: usize) -> (w: ViewerWindow)
    requires
        scroll + height <= usize::MAX,
        scroll < usize::MAX,
        total * 100 <= usize::MAX,
    ensures
        w.start == scroll,
        w.end == (if scroll + height < total {
            scroll + height
        } else {
            total as int
        }),
        w.first_line == (if total == 0 {
            0
        } else {
            scroll + 1
        }),
        w.percent == (if total > 0 {
            w.end * 100 / (total as int)
        } else {
            100
        }),
{
    let start = scroll;
    let end = if scroll + height < total {
        scroll + height
    } else {
        total
    };
    let percent = if total > 0 {
        (end * 100) / total
    } else {
        100
    };
    let first_line = if total == 0 {
        0
    } else {
        start + 1
    };
    ViewerWindow { start, end, first_line, percent }
}

} // verus!
