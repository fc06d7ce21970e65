use vstd::prelude::*;

use crate::config::StrSet;
use crate::order::{is_stable_order, key_seqs, stable_order};
use crate::text::{chars_of, lowercase, to_lowercase};
use crate::vfs::{FileMetadata, FileType};

verus! {

/// The parent-directory entry `..`.
pub open spec fn is_dotdot(e: FileMetadata) -> bool {
    e.name@ == seq!['.', '.']
}

/// A directory entry other than `..`.
pub open spec fn is_dir_entry(e: FileMetadata) -> bool {
    !is_dotdot(e) && e.file_type == FileType::Directory
}

/// Any other entry but `..`: files, links and unknown kinds.
pub open spec fn is_file_entry(e: FileMetadata) -> bool {
    !is_dotdot(e) && e.file_type != FileType::Directory
}

/// The directory entries of `raw` other than `..`, in their order.
pub open spec fn dir_entries(raw: Seq<FileMetadata>) -> Seq<FileMetadata>
    decreases raw.len(),
{
    if raw.len() == 0 {
        Seq::empty()
    } else if is_dir_entry(raw.last()) {
        dir_entries(raw.drop_last()).push(raw.last())
    } else {
        dir_entries(raw.drop_last())
    }
}

/// The non-directory entries of `raw` other than `..`, in their order.
pub open spec fn file_entries(raw: Seq<FileMetadata>) -> Seq<FileMetadata>
    decreases raw.len(),
{
    if raw.len() == 0 {
        Seq::empty()
    } else if is_file_entry(raw.last()) {
        file_entries(raw.drop_last()).push(raw.last())
    } else {
        file_entries(raw.drop_last())
    }
}

/// The last `..` entry of `raw`, if there is one.
pub open spec fn last_dotdot(raw: Seq<FileMetadata>) -> Option<FileMetadata>
    decreases raw.len(),
{
    if raw.len() == 0 {
        None
    } else if is_dotdot(raw.last()) {
        Some(raw.last())
    } else {
        last_dotdot(raw.drop_last())
    }
}

/// The sort keys of a group of entries: their lower-cased names.
pub open spec fn name_keys(group: Seq<FileMetadata>) -> Seq<Seq<char>> {
    group.map_values(|e: FileMetadata| lowercase(e.name@))
}

/// `sorted` is `group` sorted stably by lower-cased name.
pub open spec fn is_sorted_by_name(sorted: Seq<FileMetadata>, group: Seq<FileMetadata>) -> bool {
    exists|p: Seq<usize>|
        is_stable_order(name_keys(group), p) && sorted == p.map_values(|i: usize| group[i as int])
}

/// The entry `..` (the last one of `raw`, if any) first.
pub open spec fn dotdot_head(raw: Seq<FileMetadata>) -> Seq<FileMetadata> {
    match last_dotdot(raw) {
        Some(d) => seq![d],
        None => Seq::empty(),
    }
}

/// `entries` is the listing that a refresh shows for `raw`: `..` first,
/// then the directories, then the other entries, each group sorted stably
/// by lower-cased name.
pub open spec fn is_listing_of(entries: Seq<FileMetadata>, raw: Seq<FileMetadata>) -> bool {
    exists|dirs: Seq<FileMetadata>, files: Seq<FileMetadata>|
        {
            &&& is_sorted_by_name(dirs, dir_entries(raw))
            &&& is_sorted_by_name(files, file_entries(raw))
            &&& entries == dotdot_head(raw) + dirs + files
        }
}

/// The cursor after the listing changed to `len` entries: kept if still
/// on an entry, else moved to the last entry (or 0 if there is none).
pub open spec fn clamped_selection(selected: usize, len: nat) -> usize {
    if selected >= len {
        if len == 0 {
            0
        } else {
            (len - 1) as usize
        }
    } else {
        selected
    }
}

/// The state of one pane: its directory, its listing, its cursor and the
/// names of the entries selected in it.
#[derive(Debug, Clone)]
pub struct PaneState {
    pub current_path: String,
    pub entries: Vec<FileMetadata>,
    pub selected_index: usize,
    pub selections: StrSet,
}

/// What a pane is: the path it shows, its entries, its cursor and the
/// selected names.
#[verifier::ext_equal]
pub struct PaneView {
    pub path: Seq<char>,
    pub entries: Seq<FileMetadata>,
    pub selected: usize,
    pub selections: Set<Seq<char>>,
}

impl View for PaneState {
    type V = PaneView;

    open spec fn view(&self) -> PaneView {
        PaneView {
            path: self.current_path@,
            entries: self.entries@,
            selected: self.selected_index,
            selections: self.selections@,
        }
    }
}

/// The cursor is on an entry, or at 0 when there is none.
pub open spec fn selection_in_range(p: PaneView) -> bool {
    if p.entries.len() == 0 {
        p.selected == 0
    } else {
        p.selected < p.entries.len()
    }
}

/// The pane with its cursor one entry further down, but not past the last
/// entry (`min(selected + 1, len - 1)`); a pane without entries keeps its
/// cursor.
pub open spec fn selected_next(p: PaneView) -> PaneView {
    if p.entries.len() == 0 {
        p
    } else if p.selected < p.entries.len() - 1 {
        PaneView { selected: (p.selected + 1) as usize, ..p }
    } else {
        PaneView { selected: (p.entries.len() - 1) as usize, ..p }
    }
}

/// The pane with its cursor one entry further up, but not before the first.
pub open spec fn selected_prev(p: PaneView) -> PaneView {
    if p.entries.len() > 0 && p.selected > 0 {
        PaneView { selected: (p.selected - 1) as usize, ..p }
    } else {
        p
    }
}

impl PaneState {
    /// A pane showing `initial_path`, not yet listed, nothing selected.
    pub fn new(initial_path: String) -> (r: Self)
        ensures
            r.current_path == initial_path,
            r.entries@.len() == 0,
            r.selected_index == 0,
            r@.selections == Set::<Seq<char>>::empty(),
    {
        PaneState {
            current_path: initial_path,
            entries: Vec::new(),
            selected_index: 0,
            selections: StrSet::new(),
        }
    }

    /// The entry under the cursor, if the cursor is on one.
    pub fn selected_entry(&self) -> (r: Option<&FileMetadata>)
        ensures
            self.selected_index < self.entries@.len() ==> r == Some(
                &self.entries@[self.selected_index as int],
            ),
            self.selected_index >= self.entries@.len() ==> r is None,
    {
        if self.selected_index < self.entries.len() {
            Some(&self.entries[self.selected_index])
        } else {
            None
        }
    }

    /// Moves the cursor one entry down, stopping at the last entry.
    pub fn select_next(&mut self)
        ensures
            final(self)@ == selected_next(old(self)@),
    {
        if !self.entries.is_empty() {
            let last = self.entries.len() - 1;
            if self.selected_index < last {
                self.selected_index = self.selected_index + 1;
            } else {
                self.selected_index = last;
            }
        }
    }

    /// Moves the cursor one entry up, stopping at the first entry.
    pub fn select_prev(&mut self)
        ensures
            final(self)@ == selected_prev(old(self)@),
    {
        if !self.entries.is_empty() && self.selected_index > 0 {
            self.selected_index = self.selected_index - 1;
        }
    }

    /// Selects the entry under the cursor, or unselects it where it was
    /// selected; `..` cannot be selected.
    pub fn toggle_selection(&mut self)
        ensures
            final(self)@ == selection_toggled(old(self)@),
    {
        if self.selected_index < self.entries.len() {
            let name = self.entries[self.selected_index].name.clone();
            if !is_dotdot_name(&name) {
                if self.selections.contains(name.as_str()) {
                    self.selections.remove(name.as_str());
                } else {
                    self.selections.insert(name);
                }
            }
        }
    }

    /// Unselects everything.
    pub fn clear_selections(&mut self)
        ensures
            final(self)@ == (PaneView { selections: Set::empty(), ..old(self)@ }),
    {
        self.selections = StrSet::new();
    }

    /// What Delete and Copy act on: the selected entries, in listing order,
    /// where anything is selected; otherwise the entry under the cursor
    /// unless it is `..`.
    pub fn action_targets(&self) -> (r: Vec<FileMetadata>)
        ensures
            r@ == action_targets(self@),
    {
        if self.selections.len() > 0 {
            let mut r: Vec<FileMetadata> = Vec::new();
            let mut i: usize = 0;
            while i < self.entries.len()
                invariant
                    i <= self.entries@.len(),
                    r@ == entries_named(self.entries@.take(i as int), self.selections@),
                decreases self.entries@.len() - i,
            {
                assert(self.entries@.take(i + 1).drop_last() =~= self.entries@.take(i as int));
                let e = &self.entries[i];
                if self.selections.contains(e.name.as_str()) && !is_dotdot_name(&e.name) {
                    r.push(e.duplicate());
                }
                i = i + 1;
            }
            assert(self.entries@.take(self.entries@.len() as int) =~= self.entries@);
            r
        } else if self.selected_index < self.entries.len() && !is_dotdot_name(
            &self.entries[self.selected_index].name,
        ) {
            let mut r: Vec<FileMetadata> = Vec::new();
            r.push(self.entries[self.selected_index].duplicate());
            assert(r@ =~= seq![self.entries@[self.selected_index as int]]);
            r
        } else {
            let r: Vec<FileMetadata> = Vec::new();
            assert(r@ =~= Seq::<FileMetadata>::empty());
            r
        }
    }
}

/// The pane with the entry under the cursor selected, or unselected where
/// it was selected; `..`, or a cursor on no entry, changes nothing.
pub open spec fn selection_toggled(p: PaneView) -> PaneView {
    if p.selected < p.entries.len() && !is_dotdot(p.entries[p.selected as int]) {
        let n = p.entries[p.selected as int].name@;
        PaneView {
            selections: if p.selections.contains(n) {
                p.selections.remove(n)
            } else {
                p.selections.insert(n)
            },
            ..p
        }
    } else {
        p
    }
}

/// The entries whose names are in `names`, `..` left out, in order.
pub open spec fn entries_named(entries: Seq<FileMetadata>, names: Set<Seq<char>>) -> Seq<
    FileMetadata,
>
    decreases entries.len(),
{
    if entries.len() == 0 {
        Seq::empty()
    } else {
        let rest = entries_named(entries.drop_last(), names);
        let e = entries.last();
        if names.contains(e.name@) && !is_dotdot(e) {
            rest.push(e)
        } else {
            rest
        }
    }
}

/// What Delete and Copy act on in pane `p`: the selected entries where
/// anything is selected, otherwise the entry under the cursor unless it is
/// `..` (and nothing where the cursor is on no entry).
pub open spec fn action_targets(p: PaneView) -> Seq<FileMetadata> {
    if p.selections.len() > 0 {
        entries_named(p.entries, p.selections)
    } else if p.selected < p.entries.len() && !is_dotdot(p.entries[p.selected as int]) {
        seq![p.entries[p.selected as int]]
    } else {
        Seq::empty()
    }
}

/// Whether `name` is `..`.
pub fn is_dotdot_name(name: &String) -> (r: bool)
    ensures
        r == (name@ == seq!['.', '.']),
{
    let v = chars_of(name.as_str());
    if v.len() == 2 && v[0] == '.' && v[1] == '.' {
        assert(v@ =~= seq!['.', '.']);
        true
    } else {
        false
    }
}

/// The sort key of an entry: its lower-cased name, as characters.
fn name_key(e: &FileMetadata) -> (k: Vec<char>)
    ensures
        k@ == lowercase(e.name@),
{
    let lower = to_lowercase(e.name.as_str());
    chars_of(lower.as_str())
}

/// `group` sorted stably by lower-cased name.
fn sort_by_name(group: &Vec<FileMetadata>) -> (r: Vec<FileMetadata>)
    ensures
        is_sorted_by_name(r@, group@),
{
    let mut keys: Vec<Vec<char>> = Vec::new();
    let mut i: usize = 0;
    while i < group.len()
        invariant
            i <= group@.len(),
            keys@.len() == i,
            forall|k: int| 0 <= k < i ==> (#[trigger] keys@[k])@ == lowercase(group@[k].name@),
        decreases group@.len() - i,
    {
        keys.push(name_key(&group[i]));
        i = i + 1;
    }
    assert(key_seqs(keys@) =~= name_keys(group@));
    let p = stable_order(&keys);
    let mut r: Vec<FileMetadata> = Vec::new();
    let mut a: usize = 0;
    while a < p.len()
        invariant
            is_stable_order(name_keys(group@), p@),
            a <= p@.len(),
            r@ =~= p@.take(a as int).map_values(|j: usize| group@[j as int]),
        decreases p@.len() - a,
    {
        let e = group[p[a]].duplicate();
        r.push(e);
        assert(p@.take(a + 1) =~= p@.take(a as int).push(p@[a as int]));
        a = a + 1;
    }
    assert(p@.take(p@.len() as int) =~= p@);
    r
}

impl PaneState {
    /// Shows the directory listing `raw` that the file system returned for
    /// `current_path`: `..` first (the last one, where `raw` holds several),
    /// then the directories, then everything else, each group sorted stably
    /// by lower-cased name; the cursor is pulled back onto the listing.
    pub fn apply_listing(&mut self, raw: Vec<FileMetadata>)
        ensures
            final(self).current_path == old(self).current_path,
            is_listing_of(final(self).entries@, raw@),
            final(self).selected_index == clamped_selection(
                old(self).selected_index,
                final(self).entries@.len(),
            ),
            final(self).selections@ == old(self).selections@,
    {
        let mut dotdot: Option<usize> = None;
        let mut dirs: Vec<FileMetadata> = Vec::new();
        let mut files: Vec<FileMetadata> = Vec::new();
        let mut i: usize = 0;
        while i < raw.len()
            invariant
                i <= raw@.len(),
                dirs@ == dir_entries(raw@.take(i as int)),
                files@ == file_entries(raw@.take(i as int)),
                match dotdot {
                    Some(k) => k < i && last_dotdot(raw@.take(i as int)) == Some(raw@[k as int]),
                    None => last_dotdot(raw@.take(i as int)) is None,
                },
            decreases raw@.len() - i,
        {
            assert(raw@.take(i + 1).drop_last() =~= raw@.take(i as int));
            if is_dotdot_name(&raw[i].name) {
                dotdot = Some(i);
            } else if raw[i].file_type == FileType::Directory {
                dirs.push(raw[i].duplicate());
            } else {
                files.push(raw[i].duplicate());
            }
            i = i + 1;
        }
        assert(raw@.take(raw@.len() as int) =~= raw@);
        let sorted_dirs = sort_by_name(&dirs);
        let sorted_files = sort_by_name(&files);
        let mut entries: Vec<FileMetadata> = Vec::new();
        match dotdot {
            Some(k) => {
                entries.push(raw[k].duplicate());
            },
            None => {},
        }
        assert(entries@ =~= dotdot_head(raw@));
        let mut a: usize = 0;
        while a < sorted_dirs.len()
            invariant
                a <= sorted_dirs@.len(),
                entries@ =~= dotdot_head(raw@) + sorted_dirs@.take(a as int),
            decreases sorted_dirs@.len() - a,
        {
            entries.push(sorted_dirs[a].duplicate());
            assert(sorted_dirs@.take(a + 1) =~= sorted_dirs@.take(a as int).push(sorted_dirs@[a as int]));
            a = a + 1;
        }
        assert(sorted_dirs@.take(sorted_dirs@.len() as int) =~= sorted_dirs@);
        let mut b: usize = 0;
        while b < sorted_files.len()
            invariant
                b <= sorted_files@.len(),
                entries@ =~= dotdot_head(raw@) + sorted_dirs@ + sorted_files@.take(b as int),
            decreases sorted_files@.len() - b,
        {
            entries.push(sorted_files[b].duplicate());
            assert(sorted_files@.take(b + 1) =~= sorted_files@.take(b as int).push(sorted_files@[b as int]));
            b = b + 1;
        }
        assert(sorted_files@.take(sorted_files@.len() as int) =~= sorted_files@);
        self.entries = entries;
        if self.selected_index >= self.entries.len() {
            if self.entries.len() == 0 {
                self.selected_index = 0;
            } else {
                self.selected_index = self.entries.len() - 1;
            }
        }
    }
}

} // verus!
