use vstd::prelude::*;

use crate::text::{chars_of, concat, push_char};

verus! {

/// What `std::path::Path::join` makes of `base` and `name` on Unix: an
/// absolute `name` replaces `base`; otherwise `name` follows `base`, with
/// one `/` between them unless `base` is empty or already ends in `/`.
pub open spec fn path_joined(base: Seq<char>, name: Seq<char>) -> Seq<char> {
    if name.len() > 0 && name[0] == '/' {
        name
    } else if base.len() == 0 || base.last() == '/' {
        base + name
    } else {
        base + seq!['/'] + name
    }
}

/// What `std::path::Path::parent` returns for `p` (as a string), or `None`
/// where `p` has no parent.
pub uninterp spec fn path_parent_of(p: Seq<char>) -> Option<Seq<char>>;

/// What `std::path::Path::extension` returns for `p` (as a string).
pub uninterp spec fn path_extension_of(p: Seq<char>) -> Option<Seq<char>>;

/// What `std::path::Path::file_name` returns for `p` (as a string).
pub uninterp spec fn path_file_name_of(p: Seq<char>) -> Option<Seq<char>>;

/// `name` joined to `base` as `Path::join` joins them on Unix.
pub fn path_join(base: &str, name: &str) -> (r: String)
    ensures
        r@ == path_joined(base@, name@),
{
    let n = chars_of(name);
    if n.len() > 0 && n[0] == '/' {
        return String::from_str(name);
    }
    let b = chars_of(base);
    if b.len() == 0 || b[b.len() - 1] == '/' {
        concat(base, name)
    } else {
        let mut r = String::from_str(base);
        push_char(&mut r, '/');
        r.append(name);
        r
    }
}

/// The index of the last `.` in `s`, or -1 where there is none.
pub open spec fn last_dot(s: Seq<char>) -> int
    decreases s.len(),
{
    if s.len() == 0 {
        -1
    } else if s.last() == '.' {
        s.len() - 1
    } else {
        last_dot(s.drop_last())
    }
}

/// `s` is a single path component with a name: not empty, without `/`, and
/// neither `.` nor `..`; its file name is itself.
pub open spec fn is_plain_name(s: Seq<char>) -> bool {
    &&& s.len() > 0
    &&& !s.contains('/')
    &&& s != seq!['.']
    &&& s != seq!['.', '.']
}

/// The extension of a file name as `Path::extension` documents it: none
/// where there is no `.`, none where the only `.` is the first character,
/// otherwise what follows the last `.`.
pub open spec fn documented_extension(name: Seq<char>) -> Option<Seq<char>> {
    let i = last_dot(name);
    if i <= 0 {
        None
    } else {
        Some(name.subrange(i + 1, name.len() as int))
    }
}

/// `Path::new(p).parent()`, as a string. The result is named
/// `path_parent_of(p@)`; of it the documentation states that the empty
/// path has no parent, and that is all that is stated here.
#[verifier::external_body]
pub fn path_parent(p: &str) -> (r: Option<String>)
    ensures
        match r {
            Some(q) => path_parent_of(p@) == Some(q@),
            None => path_parent_of(p@) is None,
        },
        p@.len() == 0 ==> r is None,
{
    std::path::Path::new(p).parent().map(|q| q.to_string_lossy().into_owned())
}

/// `Path::new(p).extension()`, as a string. The result is named
/// `path_extension_of(p@)`; for a plain file name it is stated by the rule
/// that std documents, for other paths it is not.
#[verifier::external_body]
pub fn path_extension(p: &str) -> (r: Option<String>)
    ensures
        match r {
            Some(e) => path_extension_of(p@) == Some(e@),
            None => path_extension_of(p@) is None,
        },
        is_plain_name(p@) ==> match r {
            Some(e) => documented_extension(p@) == Some(e@),
            None => documented_extension(p@) is None,
        },
{
    std::path::Path::new(p).extension().map(|e| e.to_string_lossy().into_owned())
}

/// `Path::new(p).file_name()`, as a string. The result is named
/// `path_file_name_of(p@)`; what counts as the final component is not
/// stated.
#[verifier::external_body]
pub fn path_file_name(p: &str) -> (r: Option<String>)
    ensures
        match r {
            Some(n) => path_file_name_of(p@) == Some(n@),
            None => path_file_name_of(p@) is None,
        },
{
    std::path::Path::new(p).file_name().map(|n| n.to_string_lossy().into_owned())
}

} // verus!
