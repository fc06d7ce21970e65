use vstd::prelude::*;

use crate::keys::{key_handled, viewer_dirty, KeyAction, KeyInput};
use crate::manager::{
    enter_begun, go_to_begun, go_to_failed, go_to_started, input_cancelled, name_extension,
    copies, entered, entered_pane, file_opened, launch_message, CopyStep, prettify_candidate, LaunchOutcome, prettified, relisted, sat_sub, selection_after_move, scrolled_down, scrolled_up, switched, viewer_closed,
    viewer_saved, EnterStep, InputMode, ManagerView, ViewerView,
};
use crate::order::{
    is_stable_order, lemma_chars_lt_irreflexive, lemma_chars_lt_transitive, lemma_order_covers,
    precedes,
};
use crate::pane::{
    action_targets, entries_named, selection_toggled,
    dir_entries, dotdot_head, file_entries, is_dir_entry, is_dotdot, is_file_entry, is_listing_of, is_sorted_by_name, last_dotdot, name_keys, selected_next,
    selected_prev, selection_in_range, PaneView,
};
use crate::prettify::{is_json_extension, PrettifyError};
use crate::prettify::{is_blank, is_one_liner, json_pretty, non_blank_count};
use crate::config::default_config;
use crate::display::{size_divisor, size_unit};
use crate::text::{is_white_space, decimal_text, digit_char, joined_lines, utf8_char_len, lowercase, newline_pieces, strip_cr, text_lines, utf8_len};
use crate::paths::{path_joined, path_parent_of};
use crate::vfs::{FileMetadata, FileType};

verus! {

/// Switching the focus twice gives the state back.
pub proof fn law_switch_pane_twice(o: ManagerView)
    ensures
        switched(switched(o)) == o,
{
    assert(switched(switched(o)) =~= o);
}

/// After a listing is shown, the cursor is on an entry (or at 0 where the
/// listing is empty).
pub proof fn law_listing_keeps_cursor_in_range(
    before: PaneView,
    after: PaneView,
    raw: Seq<FileMetadata>,
)
    requires
        relisted(before, after, raw),
    ensures
        selection_in_range(after),
{
}

/// Moving the cursor down or up keeps it on an entry.
pub proof fn law_cursor_moves_stay_in_range(p: PaneView)
    requires
        selection_in_range(p),
    ensures
        selection_in_range(selected_next(p)),
        selection_in_range(selected_prev(p)),
{
}

/// Up after Down gives the pane back, unless the cursor was on the last
/// entry.
pub proof fn law_cursor_up_undoes_down(p: PaneView)
    requires
        p.entries.len() <= usize::MAX,
        p.selected + 1 < p.entries.len(),
    ensures
        selected_prev(selected_next(p)) == p,
{
    assert(selected_prev(selected_next(p)) =~= p);
}

/// Scrolling down never goes past the point where the last line is at the
/// bottom of the window; scrolling up never goes past the first line.
pub proof fn law_scroll_stays_in_file(v: ViewerView, lines: usize, visible_height: usize)
    ensures
        scrolled_down(Some(v), lines, visible_height)->0.scroll <= sat_sub(
            v.lines.len() as int,
            visible_height as int,
        ),
        scrolled_up(Some(v), lines)->0.scroll <= v.scroll,
{
}

/// Scrolling up by as many lines as were scrolled down gives the viewer
/// back, where the way down was not cut short at the end of the file.
pub proof fn law_scroll_up_undoes_down(v: ViewerView, lines: usize, visible_height: usize)
    requires
        v.lines.len() <= usize::MAX,
        v.scroll + lines <= sat_sub(v.lines.len() as int, visible_height as int),
    ensures
        scrolled_up(scrolled_down(Some(v), lines, visible_height), lines) == Some(v),
{
    assert(scrolled_up(scrolled_down(Some(v), lines, visible_height), lines)->0 =~= v);
}

/// A path prompt that is opened and cancelled leaves the panes, the viewer
/// and the configuration as they were, in normal mode with an empty prompt.
pub proof fn law_go_to_cancel(o: ManagerView)
    ensures
        input_cancelled(go_to_started(o)) == (ManagerView {
            mode: InputMode::Normal,
            input: Seq::empty(),
            status: None,
            ..o
        }),
{
    assert(input_cancelled(go_to_started(o)) =~= (ManagerView {
        mode: InputMode::Normal,
        input: Seq::empty(),
        status: None,
        ..o
    }));
}

/// A path that cannot be listed leaves the focused pane at the path it had,
/// with its selection, the focus where it was, in normal mode.
pub proof fn law_failed_go_to_keeps_path(o: ManagerView, e: Seq<char>)
    ensures
        go_to_failed(go_to_begun(o), o.active().path, e).active().path == o.active().path,
        go_to_failed(go_to_begun(o), o.active().path, e).active().selections
            == o.active().selections,
        go_to_failed(go_to_begun(o), o.active().path, e).active_left == o.active_left,
        go_to_failed(go_to_begun(o), o.active().path, e).mode == InputMode::Normal,
        o.active_left ==> go_to_failed(go_to_begun(o), o.active().path, e).right == o.right,
        !o.active_left ==> go_to_failed(go_to_begun(o), o.active().path, e).left == o.left,
{
}

/// A key press changes neither the configuration nor the listings of the
/// panes, and leaves their paths as they were.
pub proof fn law_keys_keep_listings(o: ManagerView, key: KeyInput, height: Option<u16>)
    ensures
        key_handled(o, key, height).0.config == o.config,
        key_handled(o, key, height).0.left.entries == o.left.entries,
        key_handled(o, key, height).0.right.entries == o.right.entries,
        key_handled(o, key, height).0.left.path == o.left.path,
        key_handled(o, key, height).0.right.path == o.right.path,
{
}

/// Every entry of `dir_entries(raw)` is an entry of `raw` that is a
/// directory other than `..`, and each such entry of `raw` is there.
proof fn lemma_dir_entries(raw: Seq<FileMetadata>)
    ensures
        forall|e: FileMetadata| #[trigger] dir_entries(raw).contains(e) <==> raw.contains(e) && is_dir_entry(e),
    decreases raw.len(),
{
    if raw.len() > 0 {
        lemma_dir_entries(raw.drop_last());
        assert forall|e: FileMetadata| #[trigger] dir_entries(raw).contains(e) <==> raw.contains(e) && is_dir_entry(e) by {
            let init = raw.drop_last();
            if raw.contains(e) {
                let k = choose|k: int| 0 <= k < raw.len() && raw[k] == e;
                if k < raw.len() - 1 {
                    assert(init[k] == e);
                }
            }
            if init.contains(e) {
                let k = choose|k: int| 0 <= k < init.len() && init[k] == e;
                assert(raw[k] == e);
            }
            if is_dir_entry(raw.last()) {
                assert(dir_entries(raw) == dir_entries(init).push(raw.last()));
                if dir_entries(raw).contains(e) {
                    let k = choose|k: int| 0 <= k < dir_entries(raw).len() && dir_entries(raw)[k] == e;
                    if k < dir_entries(init).len() {
                        assert(dir_entries(init)[k] == e);
                    }
                }
                if dir_entries(init).contains(e) {
                    let k = choose|k: int| 0 <= k < dir_entries(init).len() && dir_entries(init)[k] == e;
                    assert(dir_entries(raw)[k] == e);
                }
                assert(dir_entries(raw)[dir_entries(init).len() as int] == raw.last());
            }
        }
    }
}

/// Every entry of `file_entries(raw)` is an entry of `raw` that is no
/// directory and not `..`, and each such entry of `raw` is there.
proof fn lemma_file_entries(raw: Seq<FileMetadata>)
    ensures
        forall|e: FileMetadata| #[trigger] file_entries(raw).contains(e) <==> raw.contains(e) && is_file_entry(e),
    decreases raw.len(),
{
    if raw.len() > 0 {
        lemma_file_entries(raw.drop_last());
        assert forall|e: FileMetadata| #[trigger] file_entries(raw).contains(e) <==> raw.contains(e) && is_file_entry(e) by {
            let init = raw.drop_last();
            if raw.contains(e) {
                let k = choose|k: int| 0 <= k < raw.len() && raw[k] == e;
                if k < raw.len() - 1 {
                    assert(init[k] == e);
                }
            }
            if init.contains(e) {
                let k = choose|k: int| 0 <= k < init.len() && init[k] == e;
                assert(raw[k] == e);
            }
            if is_file_entry(raw.last()) {
                assert(file_entries(raw) == file_entries(init).push(raw.last()));
                if file_entries(raw).contains(e) {
                    let k = choose|k: int| 0 <= k < file_entries(raw).len() && file_entries(raw)[k] == e;
                    if k < file_entries(init).len() {
                        assert(file_entries(init)[k] == e);
                    }
                }
                if file_entries(init).contains(e) {
                    let k = choose|k: int| 0 <= k < file_entries(init).len() && file_entries(init)[k] == e;
                    assert(file_entries(raw)[k] == e);
                }
                assert(file_entries(raw)[file_entries(init).len() as int] == raw.last());
            }
        }
    }
}

/// The last `..` of `raw` is an entry of `raw`, and there is one where
/// `raw` holds a `..`.
proof fn lemma_last_dotdot(raw: Seq<FileMetadata>)
    ensures
        last_dotdot(raw) matches Some(d) ==> raw.contains(d) && is_dotdot(d),
        (exists|k: int| 0 <= k < raw.len() && is_dotdot(#[trigger] raw[k])) ==> last_dotdot(raw) is Some,
    decreases raw.len(),
{
    if raw.len() > 0 {
        let init = raw.drop_last();
        lemma_last_dotdot(init);
        if let Some(d) = last_dotdot(init) {
            let k = choose|k: int| 0 <= k < init.len() && init[k] == d;
            assert(raw[k] == d);
        }
        if !is_dotdot(raw.last()) {
            if exists|k: int| 0 <= k < raw.len() && is_dotdot(#[trigger] raw[k]) {
                let k = choose|k: int| 0 <= k < raw.len() && is_dotdot(#[trigger] raw[k]);
                assert(init[k] == raw[k]);
            }
        } else {
            assert(raw[raw.len() - 1] == raw.last());
        }
    }
}

/// A group sorted by name holds exactly the entries of the group.
proof fn lemma_sorted_same_entries(sorted: Seq<FileMetadata>, group: Seq<FileMetadata>)
    requires
        is_sorted_by_name(sorted, group),
    ensures
        forall|e: FileMetadata| #[trigger] sorted.contains(e) <==> group.contains(e),
{
    let p = choose|p: Seq<usize>|
        is_stable_order(name_keys(group), p) && sorted == p.map_values(|i: usize| group[i as int]);
    assert forall|e: FileMetadata| #[trigger] sorted.contains(e) <==> group.contains(e) by {
        if sorted.contains(e) {
            let k = choose|k: int| 0 <= k < sorted.len() && sorted[k] == e;
            assert(group[p[k] as int] == e);
        }
        if group.contains(e) {
            let j = choose|j: int| 0 <= j < group.len() && group[j] == e;
            lemma_order_covers(name_keys(group), p, j);
            let k = choose|k: int| 0 <= k < p.len() && p[k] == j;
            assert(sorted[k] == e);
        }
    }
}

/// A listing loses no entry and makes up none: it holds the entries of
/// `raw`, except that of several `..` entries only the last is kept; `..`
/// comes first, and no directory comes after a non-directory.
pub proof fn law_listing_holds_the_entries(entries: Seq<FileMetadata>, raw: Seq<FileMetadata>)
    requires
        is_listing_of(entries, raw),
    ensures
        forall|e: FileMetadata| #[trigger] entries.contains(e) ==> raw.contains(e),
        forall|e: FileMetadata|
            raw.contains(e) && !is_dotdot(e) ==> #[trigger] entries.contains(e),
        (exists|k: int| 0 <= k < raw.len() && is_dotdot(#[trigger] raw[k])) ==> entries.len() > 0
            && is_dotdot(entries[0]),
        forall|i: int| 0 < i < entries.len() ==> !is_dotdot(#[trigger] entries[i]),
        forall|i: int, j: int|
            0 <= i < j < entries.len() && is_dir_entry(#[trigger] entries[j]) ==> is_dir_entry(
                #[trigger] entries[i],
            ) || is_dotdot(entries[i]),
{
    let (dirs, files) = choose|dirs: Seq<FileMetadata>, files: Seq<FileMetadata>|
        {
            &&& is_sorted_by_name(dirs, dir_entries(raw))
            &&& is_sorted_by_name(files, file_entries(raw))
            &&& entries == dotdot_head(raw) + dirs + files
        };
    let head = dotdot_head(raw);
    lemma_dir_entries(raw);
    lemma_file_entries(raw);
    lemma_last_dotdot(raw);
    lemma_sorted_same_entries(dirs, dir_entries(raw));
    lemma_sorted_same_entries(files, file_entries(raw));
    assert(head.len() <= 1);
    assert forall|i: int| 0 <= i < entries.len() implies {
        &&& raw.contains(entries[i])
        &&& (i < head.len() ==> is_dotdot(entries[i]))
        &&& (head.len() <= i < head.len() + dirs.len() ==> is_dir_entry(entries[i]))
        &&& (head.len() + dirs.len() <= i ==> is_file_entry(entries[i]))
    } by {
        if i < head.len() {
            assert(entries[i] == head[i]);
        } else if i < head.len() + dirs.len() {
            assert(entries[i] == dirs[i - head.len()]);
            assert(dirs.contains(dirs[i - head.len()]));
        } else {
            assert(entries[i] == files[i - head.len() - dirs.len()]);
            assert(files.contains(files[i - head.len() - dirs.len()]));
        }
    }
    assert forall|e: FileMetadata| #[trigger] entries.contains(e) implies raw.contains(e) by {
        let k = choose|k: int| 0 <= k < entries.len() && entries[k] == e;
    }
    assert forall|e: FileMetadata| raw.contains(e) && !is_dotdot(e) implies #[trigger] entries.contains(e) by {
        if e.file_type == FileType::Directory {
            assert(dirs.contains(e));
            let k = choose|k: int| 0 <= k < dirs.len() && dirs[k] == e;
            assert(entries[head.len() + k] == e);
        } else {
            assert(files.contains(e));
            let k = choose|k: int| 0 <= k < files.len() && files[k] == e;
            assert(entries[head.len() + dirs.len() + k] == e);
        }
    }
    if exists|k: int| 0 <= k < raw.len() && is_dotdot(#[trigger] raw[k]) {
        assert(head.len() == 1);
        assert(entries[0] == head[0]);
    }
}

/// Whether a file name has a prettifier depends on its lower-cased form
/// only: case does not matter.
pub proof fn law_prettifier_ignores_case(a: Seq<char>, b: Seq<char>)
    requires
        lowercase(a) == lowercase(b),
    ensures
        is_json_extension(a) == is_json_extension(b),
{
}

/// No newline piece holds a newline.
proof fn lemma_pieces_have_no_newline(t: Seq<char>)
    ensures
        forall|i: int, j: int|
            0 <= i < newline_pieces(t).len() && 0 <= j < newline_pieces(t)[i].len()
                ==> #[trigger] newline_pieces(t)[i][j] != '\n',
    decreases t.len(),
{
    if t.len() > 0 {
        lemma_pieces_have_no_newline(t.drop_last());
        crate::text::lemma_newline_pieces_nonempty(t.drop_last());
        let init = newline_pieces(t.drop_last());
        if t.last() == '\n' {
            assert forall|i: int, j: int|
                0 <= i < newline_pieces(t).len() && 0 <= j < newline_pieces(t)[i].len()
                    implies #[trigger] newline_pieces(t)[i][j] != '\n' by {
                if i < init.len() {
                    assert(newline_pieces(t)[i] == init[i]);
                }
            }
        } else {
            assert forall|i: int, j: int|
                0 <= i < newline_pieces(t).len() && 0 <= j < newline_pieces(t)[i].len()
                    implies #[trigger] newline_pieces(t)[i][j] != '\n' by {
                if i < init.len() - 1 {
                    assert(newline_pieces(t)[i] == init[i]);
                } else {
                    let last = init.last().push(t.last());
                    assert(newline_pieces(t)[i] == last);
                    if j < init.last().len() {
                        assert(last[j] == init[init.len() - 1][j]);
                    }
                }
            }
        }
    }
}

/// The lines that the viewer shows hold no newline character.
pub proof fn law_lines_hold_no_newline(s: Seq<char>)
    ensures
        forall|i: int, j: int|
            0 <= i < text_lines(s).len() && 0 <= j < text_lines(s)[i].len()
                ==> #[trigger] text_lines(s)[i][j] != '\n',
{
    if s.len() > 0 {
        let t = if s.last() == '\n' {
            s.drop_last()
        } else {
            s
        };
        lemma_pieces_have_no_newline(t);
        crate::text::lemma_newline_pieces_nonempty(t);
        let p = newline_pieces(t);
        assert forall|i: int, j: int|
            0 <= i < text_lines(s).len() && 0 <= j < text_lines(s)[i].len()
                implies #[trigger] text_lines(s)[i][j] != '\n' by {
            if s.last() == '\n' {
                assert(text_lines(s)[i] == strip_cr(p[i]));
                if p[i].len() > 0 && p[i].last() == '\r' {
                    assert(text_lines(s)[i][j] == p[i][j]);
                }
            } else if i < p.len() - 1 {
                assert(text_lines(s)[i] == strip_cr(p[i]));
                if p[i].len() > 0 && p[i].last() == '\r' {
                    assert(text_lines(s)[i][j] == p[i][j]);
                }
            } else {
                assert(text_lines(s)[i] == p[i]);
            }
        }
    }
}

/// Two positions never precede each other both ways.
proof fn lemma_precedes_asymmetric(keys: Seq<Seq<char>>, i: int, j: int)
    ensures
        !(precedes(keys, i, j) && precedes(keys, j, i)),
{
    if crate::text::chars_lt(keys[i], keys[j]) && crate::text::chars_lt(keys[j], keys[i]) {
        lemma_chars_lt_transitive(keys[i], keys[j], keys[i]);
        lemma_chars_lt_irreflexive(keys[i]);
    } else if crate::text::chars_lt(keys[i], keys[j]) {
        lemma_chars_lt_irreflexive(keys[i]);
    } else if crate::text::chars_lt(keys[j], keys[i]) {
        lemma_chars_lt_irreflexive(keys[j]);
    }
}

/// Two stable orders of the same keys agree on their first `n` positions.
proof fn lemma_stable_orders_agree(keys: Seq<Seq<char>>, p: Seq<usize>, q: Seq<usize>, n: int)
    requires
        is_stable_order(keys, p),
        is_stable_order(keys, q),
        0 <= n <= p.len(),
    ensures
        forall|k: int| 0 <= k < n ==> p[k] == q[k],
    decreases n,
{
    if n > 0 {
        let i = n - 1;
        lemma_stable_orders_agree(keys, p, q, i);
        if p[i] != q[i] {
            lemma_order_covers(keys, q, p[i] as int);
            let j = choose|j: int| 0 <= j < q.len() && q[j] == p[i];
            lemma_order_covers(keys, p, q[i] as int);
            let k = choose|k: int| 0 <= k < p.len() && p[k] == q[i];
            if j < i {
                assert(p[j] == q[j]);
                assert(p[j] != p[i]);
            }
            if k < i {
                assert(p[k] == q[k]);
                assert(q[k] != q[i]);
            }
            assert(j > i && k > i);
            assert(precedes(keys, p[i] as int, p[k] as int));
            assert(precedes(keys, q[i] as int, q[j] as int));
            lemma_precedes_asymmetric(keys, p[i] as int, q[i] as int);
        }
    }
}

/// There is only one stable order of a sequence of keys.
pub proof fn lemma_stable_order_unique(keys: Seq<Seq<char>>, p: Seq<usize>, q: Seq<usize>)
    requires
        is_stable_order(keys, p),
        is_stable_order(keys, q),
    ensures
        p == q,
{
    lemma_stable_orders_agree(keys, p, q, p.len() as int);
    assert(p =~= q);
}

/// A group has only one sorting by name.
proof fn lemma_sorted_by_name_unique(a: Seq<FileMetadata>, b: Seq<FileMetadata>, group: Seq<FileMetadata>)
    requires
        is_sorted_by_name(a, group),
        is_sorted_by_name(b, group),
    ensures
        a == b,
{
    let p = choose|p: Seq<usize>|
        is_stable_order(name_keys(group), p) && a == p.map_values(|i: usize| group[i as int]);
    let q = choose|q: Seq<usize>|
        is_stable_order(name_keys(group), q) && b == q.map_values(|i: usize| group[i as int]);
    lemma_stable_order_unique(name_keys(group), p, q);
}

/// The listing that a refresh shows is determined by what the file system
/// returned: the same entries always give the same listing.
pub proof fn law_listing_is_determined(a: Seq<FileMetadata>, b: Seq<FileMetadata>, raw: Seq<FileMetadata>)
    requires
        is_listing_of(a, raw),
        is_listing_of(b, raw),
    ensures
        a == b,
{
    let (da, fa) = choose|dirs: Seq<FileMetadata>, files: Seq<FileMetadata>|
        {
            &&& is_sorted_by_name(dirs, dir_entries(raw))
            &&& is_sorted_by_name(files, file_entries(raw))
            &&& a == dotdot_head(raw) + dirs + files
        };
    let (db, fb) = choose|dirs: Seq<FileMetadata>, files: Seq<FileMetadata>|
        {
            &&& is_sorted_by_name(dirs, dir_entries(raw))
            &&& is_sorted_by_name(files, file_entries(raw))
            &&& b == dotdot_head(raw) + dirs + files
        };
    lemma_sorted_by_name_unique(da, db, dir_entries(raw));
    lemma_sorted_by_name_unique(fa, fb, file_entries(raw));
}

/// The directory entries of two joined sequences are those of each.
proof fn lemma_dir_entries_concat(x: Seq<FileMetadata>, y: Seq<FileMetadata>)
    ensures
        dir_entries(x + y) == dir_entries(x) + dir_entries(y),
    decreases y.len(),
{
    if y.len() == 0 {
        assert(x + y =~= x);
        assert(dir_entries(x) + dir_entries(y) =~= dir_entries(x));
    } else {
        lemma_dir_entries_concat(x, y.drop_last());
        assert((x + y).drop_last() =~= x + y.drop_last());
        assert((x + y).last() == y.last());
        if is_dir_entry(y.last()) {
            assert(dir_entries(x) + dir_entries(y) =~= (dir_entries(x) + dir_entries(y.drop_last())).push(y.last()));
        }
    }
}

/// The non-directory entries of two joined sequences are those of each.
proof fn lemma_file_entries_concat(x: Seq<FileMetadata>, y: Seq<FileMetadata>)
    ensures
        file_entries(x + y) == file_entries(x) + file_entries(y),
    decreases y.len(),
{
    if y.len() == 0 {
        assert(x + y =~= x);
        assert(file_entries(x) + file_entries(y) =~= file_entries(x));
    } else {
        lemma_file_entries_concat(x, y.drop_last());
        assert((x + y).drop_last() =~= x + y.drop_last());
        assert((x + y).last() == y.last());
        if is_file_entry(y.last()) {
            assert(file_entries(x) + file_entries(y) =~= (file_entries(x) + file_entries(y.drop_last())).push(y.last()));
        }
    }
}

/// Picking the directories of a sequence of directories keeps all of it;
/// picking its other entries keeps none.
proof fn lemma_groups_of_dirs(s: Seq<FileMetadata>)
    requires
        forall|i: int| 0 <= i < s.len() ==> is_dir_entry(#[trigger] s[i]),
    ensures
        dir_entries(s) == s,
        file_entries(s) == Seq::<FileMetadata>::empty(),
        last_dotdot(s) is None,
    decreases s.len(),
{
    if s.len() > 0 {
        assert(is_dir_entry(s[s.len() - 1]));
        lemma_groups_of_dirs(s.drop_last());
        assert(s.drop_last().push(s.last()) =~= s);
    }
}

/// Picking the other entries of a sequence without directories keeps all
/// of it; picking its directories keeps none.
proof fn lemma_groups_of_files(s: Seq<FileMetadata>)
    requires
        forall|i: int| 0 <= i < s.len() ==> is_file_entry(#[trigger] s[i]),
    ensures
        file_entries(s) == s,
        dir_entries(s) == Seq::<FileMetadata>::empty(),
        last_dotdot(s) is None,
    decreases s.len(),
{
    if s.len() > 0 {
        assert(is_file_entry(s[s.len() - 1]));
        lemma_groups_of_files(s.drop_last());
        assert(s.drop_last().push(s.last()) =~= s);
    }
}

/// The last `..` of two joined sequences, where the second has none, is
/// that of the first.
proof fn lemma_last_dotdot_concat(x: Seq<FileMetadata>, y: Seq<FileMetadata>)
    requires
        last_dotdot(y) is None,
    ensures
        last_dotdot(x + y) == last_dotdot(x),
    decreases y.len(),
{
    if y.len() == 0 {
        assert(x + y =~= x);
    } else {
        assert((x + y).drop_last() =~= x + y.drop_last());
        assert((x + y).last() == y.last());
        lemma_last_dotdot_concat(x, y.drop_last());
    }
}

/// A group sorted by name is, taken as a group, already sorted.
proof fn lemma_sorted_is_sorted(sorted: Seq<FileMetadata>, group: Seq<FileMetadata>)
    requires
        is_sorted_by_name(sorted, group),
        sorted.len() <= usize::MAX,
    ensures
        is_sorted_by_name(sorted, sorted),
{
    let p = choose|p: Seq<usize>|
        is_stable_order(name_keys(group), p) && sorted == p.map_values(|i: usize| group[i as int]);
    let id = Seq::new(sorted.len(), |i: int| i as usize);
    let ks = name_keys(sorted);
    let kg = name_keys(group);
    assert forall|a: int, b: int| 0 <= a < b < id.len() implies #[trigger] precedes(
        ks,
        id[a] as int,
        id[b] as int,
    ) by {
        assert(id[a] as int == a);
        assert(id[b] as int == b);
        assert(precedes(kg, p[a] as int, p[b] as int));
        assert(ks[a] == kg[p[a] as int]);
        assert(ks[b] == kg[p[b] as int]);
    }
    assert forall|a: int| 0 <= a < id.len() implies #[trigger] id[a] < ks.len() by {
        assert(id[a] as int == a);
    }
    assert forall|a: int, b: int| 0 <= a < b < id.len() implies #[trigger] id[a] != #[trigger] id[b] by {
        assert(id[a] as int == a);
        assert(id[b] as int == b);
    }
    assert(is_stable_order(ks, id));
    assert(sorted =~= id.map_values(|i: usize| sorted[i as int]));
}

/// Listing a listing gives it back: refreshing a directory whose entries
/// did not change shows the same listing again.
pub proof fn law_listing_is_stable(entries: Seq<FileMetadata>, raw: Seq<FileMetadata>)
    requires
        is_listing_of(entries, raw),
        entries.len() <= usize::MAX,
    ensures
        is_listing_of(entries, entries),
{
    let (dirs, files) = choose|dirs: Seq<FileMetadata>, files: Seq<FileMetadata>|
        {
            &&& is_sorted_by_name(dirs, dir_entries(raw))
            &&& is_sorted_by_name(files, file_entries(raw))
            &&& entries == dotdot_head(raw) + dirs + files
        };
    let head = dotdot_head(raw);
    lemma_dir_entries(raw);
    lemma_file_entries(raw);
    lemma_last_dotdot(raw);
    lemma_sorted_same_entries(dirs, dir_entries(raw));
    lemma_sorted_same_entries(files, file_entries(raw));
    assert forall|i: int| 0 <= i < dirs.len() implies is_dir_entry(#[trigger] dirs[i]) by {
        assert(dirs.contains(dirs[i]));
    }
    assert forall|i: int| 0 <= i < files.len() implies is_file_entry(#[trigger] files[i]) by {
        assert(files.contains(files[i]));
    }
    lemma_groups_of_dirs(dirs);
    lemma_groups_of_files(files);
    lemma_dir_entries_concat(head + dirs, files);
    lemma_dir_entries_concat(head, dirs);
    lemma_file_entries_concat(head + dirs, files);
    lemma_file_entries_concat(head, dirs);
    lemma_last_dotdot_concat(head + dirs, files);
    lemma_last_dotdot_concat(head, dirs);
    match last_dotdot(raw) {
        Some(d) => {
            assert(head =~= seq![d]);
            assert(seq![d].drop_last() =~= Seq::<FileMetadata>::empty());
            assert(head.last() == d);
            assert(head.drop_last() =~= Seq::<FileMetadata>::empty());
            assert(is_dotdot(d));
            assert(last_dotdot(head) == Some(d));
            assert(dir_entries(head) == dir_entries(head.drop_last()));
            assert(file_entries(head) == file_entries(head.drop_last()));
            assert(dir_entries(head) == Seq::<FileMetadata>::empty());
            assert(file_entries(head) == Seq::<FileMetadata>::empty());
        },
        None => {
            assert(head =~= Seq::<FileMetadata>::empty());
        },
    }
    assert(dotdot_head(entries) == head);
    assert(dir_entries(entries) =~= dirs);
    assert(file_entries(entries) =~= files);
    lemma_sorted_is_sorted(dirs, dir_entries(raw));
    lemma_sorted_is_sorted(files, file_entries(raw));
}

/// Showing a pane's own listing again changes nothing: entries, cursor and
/// path stay as they are.
pub proof fn law_relisting_changes_nothing(
    before: PaneView,
    after: PaneView,
    again: PaneView,
    raw: Seq<FileMetadata>,
)
    requires
        relisted(before, after, raw),
        relisted(after, again, after.entries),
        after.entries.len() <= usize::MAX,
    ensures
        again == after,
{
    law_listing_is_stable(after.entries, raw);
    law_listing_is_determined(again.entries, after.entries, after.entries);
    assert(again =~= after);
}

/// Typing a character into the path prompt and deleting it again gives the
/// prompt back.
pub proof fn law_prompt_type_then_delete(o: ManagerView, c: char, height: Option<u16>)
    requires
        o.mode == InputMode::GoToPath,
    ensures
        key_handled(key_handled(o, KeyInput::Char(c), height).0, KeyInput::Backspace, height).0
            == o,
{
    let typed = key_handled(o, KeyInput::Char(c), height).0;
    assert(typed.input.drop_last() =~= o.input);
    assert(key_handled(typed, KeyInput::Backspace, height).0 =~= o);
}

/// Enter opens only regular files whose (lower-cased) extension the
/// configuration lists.
pub proof fn law_viewer_opens_only_configured_files(o: ManagerView, step: EnterStep)
    requires
        enter_begun(o, step),
        step is OpenFile,
    ensures
        o.active().selected < o.active().entries.len(),
        o.active().entries[o.active().selected as int].file_type == FileType::File,
        o.config.extensions.contains(
            name_extension(o.active().entries[o.active().selected as int].name@),
        ),
{
}

/// Unsaved changes are never dropped unasked: in the viewer no key closes a
/// viewer with unsaved changes (Esc and `q` ask instead); at the prompt only
/// `n` or `N` closes it without saving, `y` or `Y` asks for the save, and
/// every other key keeps it.
pub proof fn law_unsaved_viewer_closes_only_when_asked(
    o: ManagerView,
    key: KeyInput,
    height: Option<u16>,
)
    requires
        viewer_dirty(o),
        o.mode == InputMode::FileViewer || o.mode == InputMode::FileViewerSavePrompt,
    ensures
        ({
            let (n, action) = key_handled(o, key, height);
            if o.mode == InputMode::FileViewer {
                &&& n.viewer is Some
                &&& (key == KeyInput::Esc || key == KeyInput::Char('q')) ==> n == (ManagerView {
                    mode: InputMode::FileViewerSavePrompt,
                    ..o
                })
            } else if key == KeyInput::Char('n') || key == KeyInput::Char('N') {
                n == viewer_closed(o) && action == KeyAction::Continue
            } else if key == KeyInput::Char('y') || key == KeyInput::Char('Y') {
                n == o && action == KeyAction::SaveAndClose
            } else {
                n.viewer == o.viewer
            }
        }),
{
}

/// After `p` has changed what the viewer shows, Esc does not close the
/// viewer but asks whether to save.
pub proof fn law_prettified_viewer_asks_before_closing(
    o: ManagerView,
    r: Result<(), PrettifyError>,
    n: ManagerView,
    height: Option<u16>,
)
    requires
        prettified(o, r, n),
        n.viewer != o.viewer,
        o.mode == InputMode::FileViewer,
    ensures
        key_handled(n, KeyInput::Esc, height).0 == (ManagerView {
            mode: InputMode::FileViewerSavePrompt,
            ..n
        }),
{
}

/// Once the viewer's text is saved, Esc closes the viewer at once.
pub proof fn law_saved_viewer_closes_at_once(o: ManagerView, height: Option<u16>)
    requires
        o.viewer is Some,
        o.mode == InputMode::FileViewer,
    ensures
        key_handled(viewer_saved(o), KeyInput::Esc, height).0 == viewer_closed(viewer_saved(o)),
{
}

/// Pressing Space twice on the same entry leaves the selection as it was.
pub proof fn law_toggle_twice(p: PaneView)
    ensures
        selection_toggled(selection_toggled(p)) == p,
{
    if p.selected < p.entries.len() && !is_dotdot(p.entries[p.selected as int]) {
        let n = p.entries[p.selected as int].name@;
        if p.selections.contains(n) {
            assert(p.selections.remove(n).insert(n) =~= p.selections);
        } else {
            assert(p.selections.insert(n).remove(n) =~= p.selections);
        }
    }
    assert(selection_toggled(selection_toggled(p)) =~= p);
}

/// `..` cannot be selected: Space never adds it to the selection.
pub proof fn law_dotdot_never_selected(p: PaneView)
    requires
        !p.selections.contains(seq!['.', '.']),
    ensures
        !selection_toggled(p).selections.contains(seq!['.', '.']),
{
}

/// The entries picked by name never include `..`.
proof fn lemma_named_holds_no_dotdot(es: Seq<FileMetadata>, names: Set<Seq<char>>)
    ensures
        forall|i: int|
            0 <= i < entries_named(es, names).len() ==> !is_dotdot(
                #[trigger] entries_named(es, names)[i],
            ),
    decreases es.len(),
{
    if es.len() > 0 {
        lemma_named_holds_no_dotdot(es.drop_last(), names);
        let rest = entries_named(es.drop_last(), names);
        assert forall|i: int|
            0 <= i < entries_named(es, names).len() implies !is_dotdot(
            #[trigger] entries_named(es, names)[i],
        ) by {
            if i < rest.len() {
                assert(entries_named(es, names)[i] == rest[i]);
            }
        }
    }
}

/// Delete and Copy never act on `..`.
pub proof fn law_targets_exclude_dotdot(p: PaneView)
    ensures
        forall|i: int|
            0 <= i < action_targets(p).len() ==> !is_dotdot(#[trigger] action_targets(p)[i]),
{
    if p.selections.len() > 0 {
        lemma_named_holds_no_dotdot(p.entries, p.selections);
    }
}

/// Moving a pane to another directory unselects everything in it.
pub proof fn law_moving_clears_selection(p: PaneView, name: Seq<char>)
    requires
        entered_pane(p, name).path != p.path,
    ensures
        entered_pane(p, name).selections == Set::<Seq<char>>::empty(),
{
}

/// A go-to that lists its directory keeps the selection where the pane
/// stays in the directory it was in, and unselects everything where it
/// moved to another one.
pub proof fn law_go_to_keeps_selection_in_place(
    o: PaneView,
    old_path: Seq<char>,
    n: PaneView,
    raw: Seq<FileMetadata>,
)
    requires
        relisted(selection_after_move(o, old_path), n, raw),
    ensures
        o.path == old_path ==> n.selections == o.selections,
        o.path != old_path ==> n.selections == Set::<Seq<char>>::empty(),
{
}

/// A viewer just opened on a file that was read holds the file's lines,
/// from the top, with no unsaved changes: Esc or `q` closes it at once and
/// goes back to the panes, asking nothing.
pub proof fn law_opened_file_closes_at_once(
    o: ManagerView,
    path: Seq<char>,
    name: Seq<char>,
    content: Seq<char>,
    height: Option<u16>,
)
    ensures
        ({
            let n = file_opened(o, path, name, Ok(content));
            &&& n.mode == InputMode::FileViewer
            &&& n.viewer matches Some(v) && v.path == path && v.name == name && v.lines == text_lines(
                content,
            ) && v.scroll == 0 && !v.dirty
            &&& n.left == o.left && n.right == o.right && n.config == o.config
            &&& key_handled(n, KeyInput::Esc, height).0.viewer is None
            &&& key_handled(n, KeyInput::Esc, height).0.mode == InputMode::Normal
            &&& key_handled(n, KeyInput::Esc, height).1 == KeyAction::Continue
            &&& key_handled(n, KeyInput::Char('q'), height).0.viewer is None
            &&& key_handled(n, KeyInput::Char('q'), height).0.mode == InputMode::Normal
            &&& key_handled(n, KeyInput::Char('q'), height).1 == KeyAction::Continue
        }),
{
}

/// A file that could not be read opens no viewer and leaves the mode.
pub proof fn law_unread_file_opens_nothing(
    o: ManagerView,
    path: Seq<char>,
    name: Seq<char>,
    e: Seq<char>,
)
    ensures
        file_opened(o, path, name, Err(e)).viewer == o.viewer,
        file_opened(o, path, name, Err(e)).mode == o.mode,
{
}

/// At the delete prompt `y` and `Y` both confirm: they ask for the deletion
/// and change nothing yet; `n`, `N` and Esc cancel back to the panes; no
/// key quits the application.
pub proof fn law_delete_prompt_keys(o: ManagerView, key: KeyInput, height: Option<u16>)
    requires
        o.mode == InputMode::DeleteConfirm,
    ensures
        key_handled(o, KeyInput::Char('y'), height) == (o, KeyAction::Delete),
        key_handled(o, KeyInput::Char('Y'), height) == (o, KeyAction::Delete),
        key_handled(o, KeyInput::Char('n'), height) == (
            ManagerView { mode: InputMode::Normal, ..o },
            KeyAction::Continue,
        ),
        key_handled(o, KeyInput::Char('N'), height) == (
            ManagerView { mode: InputMode::Normal, ..o },
            KeyAction::Continue,
        ),
        key_handled(o, KeyInput::Esc, height) == (
            ManagerView { mode: InputMode::Normal, ..o },
            KeyAction::Continue,
        ),
        key_handled(o, key, height).1 != KeyAction::Quit,
        key_handled(o, key, height).0.left == o.left,
        key_handled(o, key, height).0.right == o.right,
{
}

/// At the save prompt Esc and `q` go back to the viewer with the unsaved
/// text kept; `y` and `Y` ask for the save, `n` and `N` close without it;
/// no key quits the application or changes the viewer's text.
pub proof fn law_save_prompt_keys(o: ManagerView, key: KeyInput, height: Option<u16>)
    requires
        o.mode == InputMode::FileViewerSavePrompt,
    ensures
        key_handled(o, KeyInput::Esc, height) == (
            ManagerView { mode: InputMode::FileViewer, ..o },
            KeyAction::Continue,
        ),
        key_handled(o, KeyInput::Char('q'), height) == (
            ManagerView { mode: InputMode::FileViewer, ..o },
            KeyAction::Continue,
        ),
        key_handled(o, KeyInput::Char('y'), height) == (o, KeyAction::SaveAndClose),
        key_handled(o, KeyInput::Char('Y'), height) == (o, KeyAction::SaveAndClose),
        key_handled(o, KeyInput::Char('n'), height).0.viewer is None,
        key_handled(o, KeyInput::Char('N'), height).0.viewer is None,
        key_handled(o, KeyInput::Char('n'), height).0.mode == InputMode::Normal,
        key_handled(o, KeyInput::Char('N'), height).0.mode == InputMode::Normal,
        key_handled(o, key, height).1 != KeyAction::Quit,
        key_handled(o, key, height).0.left == o.left,
        key_handled(o, key, height).0.right == o.right,
        key != KeyInput::Char('n') && key != KeyInput::Char('N') ==> key_handled(
            o,
            key,
            height,
        ).0.viewer == o.viewer,
{
}

/// Enter on a directory other than `..` moves the focused pane into it: the
/// path is the directory's joined to the pane's, the cursor is at the top
/// and nothing is selected; the other pane and the mode stay.
pub proof fn law_enter_directory_moves_to_top(o: ManagerView)
    requires
        o.active().selected < o.active().entries.len(),
        o.active().entries[o.active().selected as int].file_type == FileType::Directory,
        o.active().entries[o.active().selected as int].name@ != seq!['.', '.'],
    ensures
        ({
            let a = o.active();
            let name = a.entries[a.selected as int].name@;
            let n = entered(o);
            &&& n.active().path == path_joined(a.path, name)
            &&& n.active().selected == 0
            &&& n.active().selections == Set::<Seq<char>>::empty()
            &&& n.active_left == o.active_left
            &&& n.inactive() == o.inactive()
            &&& n.mode == o.mode
        }),
{
}

/// Enter on `..` moves the focused pane to the parent directory, where
/// there is a non-empty one, with the cursor at the top and nothing
/// selected; otherwise the pane stays as it is.
pub proof fn law_enter_parent_moves_to_top(o: ManagerView)
    requires
        o.active().selected < o.active().entries.len(),
        o.active().entries[o.active().selected as int].file_type == FileType::Directory,
        o.active().entries[o.active().selected as int].name@ == seq!['.', '.'],
    ensures
        ({
            let a = o.active();
            let n = entered(o);
            match path_parent_of(a.path) {
                Some(q) => if q.len() > 0 {
                    &&& n.active().path == q
                    &&& n.active().selected == 0
                    &&& n.active().selections == Set::<Seq<char>>::empty()
                } else {
                    n == o
                },
                None => n == o,
            }
        }),
{
    let a = o.active();
    match path_parent_of(a.path) {
        Some(q) => if q.len() == 0 {
            assert(o.with_active(a) =~= o);
        },
        None => {
            assert(o.with_active(a) =~= o);
        },
    }
}

/// `t` is taken from `es` in order: `idx` gives for each element of `t`
/// its position in `es`, the positions strictly increasing.
pub open spec fn picked_in_order(t: Seq<FileMetadata>, es: Seq<FileMetadata>, idx: Seq<int>) -> bool {
    &&& idx.len() == t.len()
    &&& forall|i: int| 0 <= i < t.len() ==> 0 <= #[trigger] idx[i] < es.len() && t[i] == es[idx[i]]
    &&& forall|i: int, j: int| 0 <= i < j < t.len() ==> #[trigger] idx[i] < #[trigger] idx[j]
}

/// The entries picked by name: each is named in `names`, is not `..`, and
/// they come in the order of `es`; every entry of `es` named in `names`
/// other than `..` is among them.
proof fn lemma_named_entries(es: Seq<FileMetadata>, names: Set<Seq<char>>) -> (idx: Seq<int>)
    ensures
        picked_in_order(entries_named(es, names), es, idx),
        forall|i: int|
            0 <= i < entries_named(es, names).len() ==> names.contains(
                (#[trigger] entries_named(es, names)[i]).name@,
            ) && !is_dotdot(entries_named(es, names)[i]),
        forall|j: int|
            0 <= j < es.len() && names.contains((#[trigger] es[j]).name@) && !is_dotdot(es[j])
                ==> entries_named(es, names).contains(es[j]),
    decreases es.len(),
{
    if es.len() == 0 {
        Seq::empty()
    } else {
        let init = es.drop_last();
        let rest = entries_named(init, names);
        let r = lemma_named_entries(init, names);
        let e = es.last();
        let t = entries_named(es, names);
        let idx = if names.contains(e.name@) && !is_dotdot(e) {
            r.push(es.len() - 1)
        } else {
            r
        };
        assert forall|i: int| 0 <= i < t.len() implies 0 <= #[trigger] idx[i] < es.len() && t[i]
            == es[idx[i]] by {
            if i < rest.len() {
                assert(t[i] == rest[i]);
                assert(idx[i] == r[i]);
                assert(init[r[i]] == es[r[i]]);
            }
        }
        assert forall|i: int, j: int| 0 <= i < j < t.len() implies #[trigger] idx[i]
            < #[trigger] idx[j] by {
            if j < rest.len() {
                assert(idx[i] == r[i] && idx[j] == r[j]);
            } else {
                assert(idx[i] == r[i]);
                assert(0 <= r[i] < init.len());
            }
        }
        assert forall|i: int| 0 <= i < t.len() implies names.contains((#[trigger] t[i]).name@)
            && !is_dotdot(t[i]) by {
            if i < rest.len() {
                assert(t[i] == rest[i]);
            }
        }
        assert forall|j: int|
            0 <= j < es.len() && names.contains((#[trigger] es[j]).name@) && !is_dotdot(
                es[j],
            ) implies t.contains(es[j]) by {
            if j < init.len() {
                assert(init[j] == es[j]);
                assert(rest.contains(es[j]));
                let k = choose|k: int| 0 <= k < rest.len() && rest[k] == es[j];
                assert(t[k] == es[j]);
            } else {
                assert(t[rest.len() as int] == es[j]);
            }
        }
        idx
    }
}

/// Where anything is selected, Copy and Delete act on exactly the selected
/// entries of the pane, `..` aside, in listing order; the entry under the
/// cursor only where it is selected.
pub proof fn law_selection_is_what_is_acted_on(p: PaneView)
    requires
        p.selections.finite(),
        p.selections.len() > 0,
    ensures
        forall|i: int|
            0 <= i < action_targets(p).len() ==> p.selections.contains(
                (#[trigger] action_targets(p)[i]).name@,
            ) && !is_dotdot(action_targets(p)[i]),
        forall|j: int|
            0 <= j < p.entries.len() && p.selections.contains((#[trigger] p.entries[j]).name@)
                && !is_dotdot(p.entries[j]) ==> action_targets(p).contains(p.entries[j]),
        exists|idx: Seq<int>| #[trigger] picked_in_order(action_targets(p), p.entries, idx),
        p.selected < p.entries.len() && !p.selections.contains(p.entries[p.selected as int].name@)
            ==> !action_targets(p).contains(p.entries[p.selected as int]),
{
    let idx = lemma_named_entries(p.entries, p.selections);
    assert(picked_in_order(action_targets(p), p.entries, idx));
    let t = action_targets(p);
    if p.selected < p.entries.len() && !p.selections.contains(p.entries[p.selected as int].name@) {
        if t.contains(p.entries[p.selected as int]) {
            let k = choose|k: int| 0 <= k < t.len() && t[k] == p.entries[p.selected as int];
            assert(p.selections.contains(t[k].name@));
        }
    }
}

/// Where nothing is selected, Copy and Delete act on the entry under the
/// cursor alone, and on nothing where it is `..` or there is none.
pub proof fn law_cursor_is_acted_on_without_selection(p: PaneView)
    requires
        p.selections.finite(),
        p.selections.len() == 0,
    ensures
        p.selected < p.entries.len() && !is_dotdot(p.entries[p.selected as int])
            ==> action_targets(p) == seq![p.entries[p.selected as int]],
        !(p.selected < p.entries.len() && !is_dotdot(p.entries[p.selected as int]))
            ==> action_targets(p).len() == 0,
{
}

/// The bindings of the panes: `q` and Esc quit; Tab moves the focus; `g`
/// opens the prompt on the focused pane's path; Enter and Backspace hand
/// over to the steps that list directories; `d` and Delete ask before
/// deleting; F5 and `c` copy; Space selects or unselects the entry under
/// the cursor and nothing else. No key here changes a path or a listing.
pub proof fn law_pane_keys(o: ManagerView, height: Option<u16>)
    requires
        o.mode == InputMode::Normal,
    ensures
        key_handled(o, KeyInput::Char('q'), height) == (o, KeyAction::Quit),
        key_handled(o, KeyInput::Esc, height) == (o, KeyAction::Quit),
        key_handled(o, KeyInput::Tab, height) == (
            ManagerView { active_left: !o.active_left, ..o },
            KeyAction::Continue,
        ),
        key_handled(o, KeyInput::Char('g'), height).0.mode == InputMode::GoToPath,
        key_handled(o, KeyInput::Char('g'), height).0.input == o.active().path,
        key_handled(o, KeyInput::Enter, height) == (o, KeyAction::Enter),
        key_handled(o, KeyInput::Backspace, height) == (o, KeyAction::NavigateUp),
        key_handled(o, KeyInput::Char('d'), height) == (
            ManagerView { mode: InputMode::DeleteConfirm, ..o },
            KeyAction::Continue,
        ),
        key_handled(o, KeyInput::Delete, height) == (
            ManagerView { mode: InputMode::DeleteConfirm, ..o },
            KeyAction::Continue,
        ),
        key_handled(o, KeyInput::F5, height) == (o, KeyAction::Copy),
        key_handled(o, KeyInput::Char('c'), height) == (o, KeyAction::Copy),
        ({
            let (n, action) = key_handled(o, KeyInput::Char(' '), height);
            let a = o.active();
            &&& action == KeyAction::Continue
            &&& n.mode == o.mode && n.active_left == o.active_left
            &&& n.inactive() == o.inactive()
            &&& n.active().entries == a.entries && n.active().selected == a.selected
            &&& n.active().path == a.path
            &&& forall|x: Seq<char>|
                #![trigger n.active().selections.contains(x)]
                (a.selected < a.entries.len() && !is_dotdot(a.entries[a.selected as int])
                    && x == a.entries[a.selected as int].name@) ==> (n.active().selections.contains(
                    x,
                ) != a.selections.contains(x))
            &&& forall|x: Seq<char>|
                #![trigger n.active().selections.contains(x)]
                !(a.selected < a.entries.len() && !is_dotdot(a.entries[a.selected as int])
                    && x == a.entries[a.selected as int].name@) ==> (n.active().selections.contains(
                    x,
                ) == a.selections.contains(x))
        }),
{
    assert(key_handled(o, KeyInput::Tab, height).0 =~= ManagerView { active_left: !o.active_left, ..o });
}

/// Up and Down on the panes move the cursor of the focused pane by one entry,
/// stopping at the first and the last.
pub proof fn law_pane_cursor_keys(o: ManagerView, height: Option<u16>)
    requires
        o.mode == InputMode::Normal,
        o.active().entries.len() > 0,
        o.active().entries.len() <= usize::MAX,
        o.active().selected < o.active().entries.len(),
    ensures
        key_handled(o, KeyInput::Down, height).0.active().selected == (if o.active().selected + 1
            < o.active().entries.len() {
            o.active().selected + 1
        } else {
            o.active().selected as int
        }),
        key_handled(o, KeyInput::Up, height).0.active().selected == (if o.active().selected > 0 {
            o.active().selected - 1
        } else {
            0
        }),
        key_handled(o, KeyInput::Down, height).1 == KeyAction::Continue,
        key_handled(o, KeyInput::Up, height).1 == KeyAction::Continue,
{
    assert(o.with_active(selected_next(o.active())).active() == selected_next(o.active()));
    assert(o.with_active(selected_prev(o.active())).active() == selected_prev(o.active()));
}

/// The bindings of the path prompt: Enter commits, Esc leaves it empty and
/// goes back to the panes, a character is added at the end, Backspace takes
/// the last one away.
pub proof fn law_prompt_keys(o: ManagerView, c: char, height: Option<u16>)
    requires
        o.mode == InputMode::GoToPath,
    ensures
        key_handled(o, KeyInput::Enter, height) == (o, KeyAction::CommitGoToPath),
        key_handled(o, KeyInput::Esc, height).0.mode == InputMode::Normal,
        key_handled(o, KeyInput::Esc, height).0.input.len() == 0,
        key_handled(o, KeyInput::Char(c), height).0.input == o.input.push(c),
        key_handled(o, KeyInput::Char(c), height).0.mode == InputMode::GoToPath,
        o.input.len() > 0 ==> key_handled(o, KeyInput::Backspace, height).0.input == o.input.drop_last(),
        key_handled(o, KeyInput::Char(c), height).1 == KeyAction::Continue,
{
}

/// The bindings of the viewer: `p` asks for prettifying, `e` for the
/// editor, both changing nothing yet; Esc and `q` close a viewer without
/// unsaved changes at once and ask first where there are some; no key
/// quits the application or changes the viewer's text.
pub proof fn law_viewer_keys(o: ManagerView, key: KeyInput, height: Option<u16>)
    requires
        o.mode == InputMode::FileViewer,
    ensures
        key_handled(o, KeyInput::Char('p'), height) == (o, KeyAction::Prettify),
        key_handled(o, KeyInput::Char('e'), height) == (o, KeyAction::OpenInEditor),
        !viewer_dirty(o) ==> key_handled(o, KeyInput::Esc, height) == (
            ManagerView { mode: InputMode::Normal, viewer: None, ..o },
            KeyAction::Continue,
        ),
        !viewer_dirty(o) ==> key_handled(o, KeyInput::Char('q'), height) == (
            ManagerView { mode: InputMode::Normal, viewer: None, ..o },
            KeyAction::Continue,
        ),
        viewer_dirty(o) ==> key_handled(o, KeyInput::Esc, height) == (
            ManagerView { mode: InputMode::FileViewerSavePrompt, ..o },
            KeyAction::Continue,
        ),
        key_handled(o, key, height).1 != KeyAction::Quit,
        key_handled(o, key, height).0.left == o.left,
        key_handled(o, key, height).0.right == o.right,
        (key_handled(o, key, height).0.viewer is Some && o.viewer is Some) ==> {
            let n = key_handled(o, key, height).0.viewer->0;
            let v = o.viewer->0;
            n.lines == v.lines && n.dirty == v.dirty && n.path == v.path
        },
{
}

/// What `p` does to a minified JSON file: within the limit, the viewer
/// shows the reformatted text, marked unsaved, and nothing fails; over the
/// limit, the viewer is left and the limit is reported; a text that is not
/// minified JSON of a prettifiable file is left alone.
pub proof fn law_prettify_outcomes(o: ManagerView, r: Result<(), PrettifyError>, n: ManagerView)
    requires
        prettified(o, r, n),
        o.viewer is Some,
    ensures
        ({
            let v = o.viewer->0;
            let text = joined_lines(v.lines);
            let kb = o.config.max_prettify_size_kb;
            &&& !prettify_candidate(v) ==> r is Ok && n == o
            &&& prettify_candidate(v) && utf8_len(text) > kb * 1024 ==> {
                &&& r is Ok
                &&& n.viewer == o.viewer
                &&& n.status == Some(
                    "File too large to prettify (max "@ + decimal_text(kb as nat) + " KB)"@,
                )
            }
            &&& prettify_candidate(v) && utf8_len(text) <= kb * 1024 ==> match json_pretty(text) {
                Some(p) => {
                    &&& r is Ok
                    &&& n.viewer matches Some(w) && w.dirty && w.lines == text_lines(p)
                        && w.path == v.path && w.name == v.name
                    &&& n.mode == o.mode && n.status == o.status
                },
                None => r is Err && n == o,
            }
        }),
{
}

/// Saving leaves the viewer's text as it is, with no unsaved changes, and
/// reports the file by name.
pub proof fn law_saved_viewer_is_clean(o: ManagerView)
    requires
        o.viewer is Some,
    ensures
        viewer_saved(o).viewer matches Some(w) && !w.dirty && w.lines == o.viewer->0.lines
            && w.path == o.viewer->0.path,
        viewer_saved(o).status == Some("Saved "@ + o.viewer->0.name),
        viewer_saved(o).mode == o.mode,
{
}

/// The messages of an editor launch: the file's name where it started, the
/// reason where it failed, and that no editor is defined otherwise.
pub proof fn law_launch_messages(name: Seq<char>, e: String)
    ensures
        launch_message(name, LaunchOutcome::Launched) == "Opened in VS Code: "@ + name,
        launch_message(name, LaunchOutcome::Failed(e)) == "Error: Failed to launch VS Code: "@
            + e@,
        launch_message(name, LaunchOutcome::NoEditor) == "Error: No editor is defined"@,
{
}

/// Enter on a regular file whose extension the configuration lists asks
/// for that file, by its path in the focused pane's directory; on one whose
/// extension is not listed it says so and opens nothing.
pub proof fn law_enter_on_files(o: ManagerView, step: EnterStep)
    requires
        enter_begun(o, step),
        o.active().selected < o.active().entries.len(),
        o.active().entries[o.active().selected as int].file_type == FileType::File,
    ensures
        ({
            let a = o.active();
            let e = a.entries[a.selected as int];
            if o.config.extensions.contains(name_extension(e.name@)) {
                &&& step matches EnterStep::OpenFile { path, name }
                &&& step->path@ == path_joined(a.path, e.name@)
                &&& step->name@ == e.name@
                &&& entered(o) == o
            } else {
                &&& step is Stay
                &&& entered(o).status == Some("Unsupported file type: ."@ + name_extension(e.name@))
                &&& entered(o).viewer == o.viewer && entered(o).mode == o.mode
                &&& entered(o).left == o.left && entered(o).right == o.right
            }
        }),
{
}

/// A file that could not be read is reported with the reason.
pub proof fn law_read_failure_is_reported(o: ManagerView, path: Seq<char>, name: Seq<char>, e: Seq<char>)
    ensures
        file_opened(o, path, name, Err(e)).status == Some("Failed to read file: "@ + e),
        file_opened(o, path, name, Err(e)).left == o.left,
        file_opened(o, path, name, Err(e)).right == o.right,
{
}

/// A copy takes an entry from the source directory to the same name in
/// the target directory, and copies a directory as a directory.
pub proof fn law_copy_keeps_names(step: CopyStep, from_dir: Seq<char>, to_dir: Seq<char>, e: FileMetadata)
    requires
        copies(step, from_dir, to_dir, e),
    ensures
        step.from@ == path_joined(from_dir, e.name@),
        step.to@ == path_joined(to_dir, e.name@),
        step.is_dir <==> e.file_type == FileType::Directory,
{
}

/// The default configuration opens text and code files such as `txt`,
/// `md`, `rs` and `json` in the viewer, has no editor path yet, and
/// prettifies files up to 512 KB.
pub proof fn law_default_configuration()
    ensures
        default_config().max_prettify_size_kb == 512,
        default_config().editors == Map::<Seq<char>, Seq<char>>::empty(),
        default_config().extensions.contains("txt"@),
        default_config().extensions.contains("md"@),
        default_config().extensions.contains("rs"@),
        default_config().extensions.contains("json"@),
{
    reveal_strlit("txt");
    reveal_strlit("md");
    reveal_strlit("rs");
    reveal_strlit("json");
    reveal_strlit("cs");
    reveal_strlit("py");
    reveal_strlit("java");
    reveal_strlit("c");
    reveal_strlit("cpp");
    reveal_strlit("h");
    reveal_strlit("csproj");
    reveal_strlit("toml");
    reveal_strlit("js");
    reveal_strlit("ts");
    reveal_strlit("html");
    reveal_strlit("css");
    reveal_strlit("yaml");
    reveal_strlit("yml");
    reveal_strlit("sh");
    reveal_strlit("bat");
}

/// A size is shown in the largest unit up to TB of which there is at least
/// one: the divisor is a power of 1024 not above the size, and the next one
/// is above it (below TB); the unit names the divisor.
pub proof fn law_size_unit_fits(bytes: u64)
    requires
        bytes > 0,
    ensures
        size_divisor(bytes) <= bytes,
        size_divisor(bytes) < 1099511627776 ==> bytes < size_divisor(bytes) * 1024,
        size_divisor(bytes) == 1 <==> size_unit(bytes) == "B"@,
        size_divisor(bytes) == 1024 <==> size_unit(bytes) == "KB"@,
        size_divisor(bytes) == 1048576 <==> size_unit(bytes) == "MB"@,
        size_divisor(bytes) == 1073741824 <==> size_unit(bytes) == "GB"@,
        size_divisor(bytes) == 1099511627776 <==> size_unit(bytes) == "TB"@,
{
    reveal_strlit("B");
    reveal_strlit("KB");
    reveal_strlit("MB");
    reveal_strlit("GB");
    reveal_strlit("TB");
    assert("B"@.len() == 1 && "KB"@.len() == 2 && "MB"@.len() == 2 && "GB"@.len() == 2
        && "TB"@.len() == 2);
    assert("KB"@[0] != "MB"@[0] && "KB"@[0] != "GB"@[0] && "KB"@[0] != "TB"@[0]);
    assert("MB"@[0] != "GB"@[0] && "MB"@[0] != "TB"@[0] && "GB"@[0] != "TB"@[0]);
}

/// A character takes one to four bytes in UTF-8, and an ASCII one exactly
/// one; so a text takes at least as many bytes as it has characters and at
/// most four times as many.
pub proof fn law_utf8_size_bounds(s: Seq<char>)
    ensures
        s.len() <= utf8_len(s) <= 4 * s.len(),
        (forall|i: int| 0 <= i < s.len() ==> (#[trigger] s[i] as u32) < 128) ==> utf8_len(s)
            == s.len(),
    decreases s.len(),
{
    if s.len() > 0 {
        law_utf8_size_bounds(s.drop_last());
        assert(1 <= utf8_char_len(s.last()) <= 4);
        if forall|i: int| 0 <= i < s.len() ==> (#[trigger] s[i] as u32) < 128 {
            assert forall|i: int| 0 <= i < s.drop_last().len() implies (#[trigger] s.drop_last()[i]
                as u32) < 128 by {
                assert(s.drop_last()[i] == s[i]);
            }
            assert((s[s.len() - 1] as u32) < 128);
        }
    }
}

/// The number that decimal digits stand for.
pub open spec fn decimal_value(s: Seq<char>) -> int
    decreases s.len(),
{
    if s.len() == 0 {
        0
    } else {
        decimal_value(s.drop_last()) * 10 + (s.last() as int - 48)
    }
}

/// Written in decimal, a number reads back as itself, in digits `0`–`9`,
/// with no leading zero.
pub proof fn law_decimal_reads_back(n: nat)
    ensures
        decimal_value(decimal_text(n)) == n,
        decimal_text(n).len() > 0,
        forall|i: int|
            0 <= i < decimal_text(n).len() ==> '0' <= #[trigger] decimal_text(n)[i] <= '9',
        decimal_text(n).len() > 1 ==> decimal_text(n)[0] != '0',
    decreases n,
{
    if n >= 10 {
        law_decimal_reads_back(n / 10);
        let t = decimal_text(n / 10);
        assert(decimal_text(n) == t.push(digit_char(n % 10)));
        assert(t.push(digit_char(n % 10)).drop_last() =~= t);
        assert((n / 10) * 10 + n % 10 == n) by (nonlinear_arith);
        assert(digit_char(n % 10) as int == n % 10 + 48);
        assert forall|i: int| 0 <= i < decimal_text(n).len() implies '0' <= #[trigger] decimal_text(
            n,
        )[i] <= '9' by {
            if i < t.len() {
                assert(decimal_text(n)[i] == t[i]);
            }
        }
        assert(decimal_value(t.push(digit_char(n % 10))) == decimal_value(t) * 10 + (digit_char(
            n % 10,
        ) as int - 48));
        let m = (n / 10) as nat;
        if m < 10 {
            assert(t == seq![digit_char(m)]);
            assert(digit_char(m) as int == m + 48);
            assert(t[0] != '0');
        } else {
            assert(t == decimal_text((m / 10) as nat).push(digit_char((m % 10) as nat)));
            assert(decimal_text((m / 10) as nat).len() >= 1);
            assert(t.len() > 1);
        }
        assert(decimal_text(n)[0] == t[0]);
    } else {
        assert(digit_char(n) as int == n + 48);
        assert(seq![digit_char(n)].drop_last() =~= Seq::<char>::empty());
        assert(decimal_value(seq![digit_char(n)]) == decimal_value(Seq::<char>::empty()) * 10 + (
        digit_char(n) as int - 48));
    }
}

/// A text without newlines is one piece, itself.
proof fn lemma_single_piece(t: Seq<char>)
    requires
        forall|k: int| 0 <= k < t.len() ==> t[k] != '\n',
    ensures
        newline_pieces(t) == seq![t],
    decreases t.len(),
{
    if t.len() > 0 {
        let init = t.drop_last();
        assert forall|k: int| 0 <= k < init.len() implies init[k] != '\n' by {
            assert(init[k] == t[k]);
        }
        lemma_single_piece(init);
        assert(t.last() != '\n');
        assert(init.push(t.last()) =~= t);
        assert(seq![init].update(0, init.push(t.last())) =~= seq![t]);
    } else {
        assert(t =~= Seq::<char>::empty());
        assert(seq![Seq::<char>::empty()] =~= seq![t]);
    }
}

/// The pieces of a text of white space are white space.
proof fn lemma_white_pieces(t: Seq<char>)
    requires
        forall|k: int| 0 <= k < t.len() ==> is_white_space(#[trigger] t[k]),
    ensures
        forall|i: int| 0 <= i < newline_pieces(t).len() ==> is_blank(#[trigger] newline_pieces(t)[i]),
    decreases t.len(),
{
    if t.len() > 0 {
        let init = t.drop_last();
        assert forall|k: int| 0 <= k < init.len() implies is_white_space(#[trigger] init[k]) by {
            assert(init[k] == t[k]);
        }
        lemma_white_pieces(init);
        crate::text::lemma_newline_pieces_nonempty(init);
        let p = newline_pieces(init);
        assert(is_white_space(t[t.len() - 1]));
        assert forall|i: int| 0 <= i < newline_pieces(t).len() implies is_blank(
            #[trigger] newline_pieces(t)[i],
        ) by {
            if t.last() != '\n' && i == p.len() - 1 {
                let l = p.last().push(t.last());
                assert(newline_pieces(t)[i] == l);
                assert forall|j: int| 0 <= j < l.len() implies is_white_space(#[trigger] l[j]) by {
                    if j < p.last().len() {
                        assert(is_blank(p[p.len() - 1]));
                    }
                }
            } else if i < p.len() {
                assert(newline_pieces(t)[i] == p[i]);
            }
        }
    }
}

/// Lines that are all blank count no line that is not.
proof fn lemma_blank_lines_count_none(ls: Seq<Seq<char>>)
    requires
        forall|i: int| 0 <= i < ls.len() ==> is_blank(#[trigger] ls[i]),
    ensures
        non_blank_count(ls) == 0,
    decreases ls.len(),
{
    if ls.len() > 0 {
        let init = ls.drop_last();
        assert forall|i: int| 0 <= i < init.len() implies is_blank(#[trigger] init[i]) by {
            assert(init[i] == ls[i]);
        }
        lemma_blank_lines_count_none(init);
        assert(is_blank(ls[ls.len() - 1]));
    }
}

/// What `p` takes as minified: one line that holds more than white space
/// is; a text of white space only (or nothing) is not.
pub proof fn law_one_liners(c: Seq<char>)
    ensures
        (forall|k: int| 0 <= k < c.len() ==> c[k] != '\n') && (exists|k: int|
            0 <= k < c.len() && !is_white_space(#[trigger] c[k])) ==> is_one_liner(c),
        (forall|k: int| 0 <= k < c.len() ==> is_white_space(#[trigger] c[k])) ==> !is_one_liner(c),
{
    if (forall|k: int| 0 <= k < c.len() ==> c[k] != '\n') && (exists|k: int|
        0 <= k < c.len() && !is_white_space(#[trigger] c[k])) {
        lemma_single_piece(c);
        let k = choose|k: int| 0 <= k < c.len() && !is_white_space(#[trigger] c[k]);
        assert(c.len() > 0);
        assert(c.last() != '\n');
        let p = newline_pieces(c);
        assert(p.take(0).map_values(|l: Seq<char>| strip_cr(l)) =~= Seq::<Seq<char>>::empty());
        assert(text_lines(c) =~= seq![c]);
        assert(!is_blank(c));
        assert(seq![c].drop_last() =~= Seq::<Seq<char>>::empty());
        assert(non_blank_count(seq![c]) == non_blank_count(Seq::<Seq<char>>::empty()) + 1);
    }
    if forall|k: int| 0 <= k < c.len() ==> is_white_space(#[trigger] c[k]) {
        if c.len() > 0 {
            let t = if c.last() == '\n' {
                c.drop_last()
            } else {
                c
            };
            assert forall|k: int| 0 <= k < t.len() implies is_white_space(#[trigger] t[k]) by {
                assert(t[k] == c[k]);
            }
            lemma_white_pieces(t);
            crate::text::lemma_newline_pieces_nonempty(t);
            let p = newline_pieces(t);
            let ls = text_lines(c);
            assert forall|i: int| 0 <= i < ls.len() implies is_blank(#[trigger] ls[i]) by {
                assert(is_blank(p[i]));
                assert forall|j: int| 0 <= j < ls[i].len() implies is_white_space(#[trigger] ls[i][j]) by {
                    if c.last() == '\n' || i < p.len() - 1 {
                        assert(ls[i] == strip_cr(p[i]));
                        assert(ls[i][j] == p[i][j]);
                    } else {
                        assert(ls[i] == p[i]);
                    }
                }
            }
            lemma_blank_lines_count_none(ls);
        } else {
            assert(text_lines(c) =~= Seq::<Seq<char>>::empty());
        }
    }
}

} // verus!
