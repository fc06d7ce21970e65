use vstd::prelude::*;

use crate::text::{
    ascii_lowercase, chars_of, is_ascii_text, is_white_space, lowercase, split_lines, text_lines,
    to_lowercase, white_space,
};

verus! {

/// `serde_json::Error`, the error of a failed JSON parse.
#[verifier::external_type_specification]
#[verifier::external_body]
pub struct ExJsonError(serde_json::Error);

/// Why a prettifier could not reformat a text.
#[derive(Debug, Clone, Copy, PartialEq, Eq, Structural)]
pub enum PrettifyError {
    /// The text is not a JSON document.
    InvalidJson,
}

/// What `serde_json` makes of `content`: the document re-printed with
/// `to_string_pretty` after parsing it into a `serde_json::Value`, or
/// `None` where `content` is no JSON document.
pub uninterp spec fn json_pretty(content: Seq<char>) -> Option<Seq<char>>;

/// Parses `content` with `serde_json::from_str` into a `serde_json::Value`
/// and prints it back with `serde_json::to_string_pretty`. The result is
/// named `json_pretty(content@)`; how JSON is parsed and laid out is not
/// stated.
#[verifier::external_body]
fn reformat_json(content: &str) -> (r: Result<String, serde_json::Error>)
    ensures
        match r {
            Ok(s) => json_pretty(content@) == Some(s@),
            Err(_) => json_pretty(content@) is None,
        },
{
    let value: serde_json::Value = serde_json::from_str(content)?;
    serde_json::to_string_pretty(&value)
}

/// A reformatter for one kind of text document.
pub trait Prettifier: Send + Sync {
    /// Whether the text is in a shape that this prettifier reformats.
    spec fn accepts(&self, content: Seq<char>) -> bool;

    /// The reformatted text, or `None` where it cannot be reformatted.
    spec fn reformatted(&self, content: Seq<char>) -> Option<Seq<char>>;

    /// Checks if the content is in a state that can be formatted by this prettifier.
    fn can_prettify(&self, content: &str) -> (r: bool)
        ensures
            r == self.accepts(content@),
    ;

    /// Reformats the content.
    fn prettify(&self, content: &str) -> (r: Result<String, PrettifyError>)
        ensures
            match r {
                Ok(s) => self.reformatted(content@) == Some(s@),
                Err(_) => self.reformatted(content@) is None,
            },
    ;
}

/// The JSON prettifier: it takes minified JSON, all on one line.
pub struct JsonPrettifier;

/// A line that holds nothing but white space (or nothing at all).
pub open spec fn is_blank(line: Seq<char>) -> bool {
    forall|i: int| 0 <= i < line.len() ==> is_white_space(#[trigger] line[i])
}

/// How many of `lines` are not blank.
pub open spec fn non_blank_count(lines: Seq<Seq<char>>) -> nat
    decreases lines.len(),
{
    if lines.len() == 0 {
        0
    } else {
        non_blank_count(lines.drop_last()) + if is_blank(lines.last()) {
            0nat
        } else {
            1nat
        }
    }
}

/// `content` is minified: exactly one of its lines is not blank (a line of
/// white space only counts as empty). So it holds more than white space,
/// and it is one line, or one line among empty ones.
pub open spec fn is_one_liner(content: Seq<char>) -> bool {
    non_blank_count(text_lines(content)) == 1
}

/// Whether `line` holds nothing but white space.
fn blank_line(line: &String) -> (r: bool)
    ensures
        r == is_blank(line@),
{
    let v = chars_of(line.as_str());
    let mut i: usize = 0;
    while i < v.len()
        invariant
            v@ == line@,
            i <= v@.len(),
            forall|k: int| 0 <= k < i ==> is_white_space(#[trigger] v@[k]),
        decreases v@.len() - i,
    {
        if !white_space(v[i]) {
            return false;
        }
        i = i + 1;
    }
    true
}

impl Prettifier for JsonPrettifier {
    open spec fn accepts(&self, content: Seq<char>) -> bool {
        is_one_liner(content)
    }

    open spec fn reformatted(&self, content: Seq<char>) -> Option<Seq<char>> {
        json_pretty(content)
    }

    fn can_prettify(&self, content: &str) -> (r: bool) {
        let lines = split_lines(content);
        let ghost views = lines@.map_values(|x: String| x@);
        assert(lines@.len() == views.len());
        let mut count: usize = 0;
        let mut i: usize = 0;
        while i < lines.len()
            invariant
                views == lines@.map_values(|x: String| x@),
                i <= lines@.len(),
                count <= i,
                count == non_blank_count(views.take(i as int)),
            decreases lines@.len() - i,
        {
            assert(views.take(i + 1).drop_last() =~= views.take(i as int));
            assert(views.take(i + 1).last() == lines@[i as int]@);
            if !blank_line(&lines[i]) {
                count = count + 1;
            }
            i = i + 1;
        }
        assert(views.take(lines@.len() as int) =~= views);
        count == 1
    }

    fn prettify(&self, content: &str) -> (r: Result<String, PrettifyError>) {
        match reformat_json(content) {
            Ok(s) => Ok(s),
            Err(_) => Err(PrettifyError::InvalidJson),
        }
    }
}

/// `extension`, lower-cased, is `json`.
pub open spec fn is_json_extension(extension: Seq<char>) -> bool {
    lowercase(extension) == seq!['j', 's', 'o', 'n']
}

/// The prettifier for files with this extension (compared without regard
/// to case), if there is one: only `json` has one.
pub fn get_prettifier(extension: &str) -> (r: Option<Box<dyn Prettifier>>)
    ensures
        r is Some <==> is_json_extension(extension@),
        is_ascii_text(extension@) ==> (r is Some <==> ascii_lowercase(extension@) == seq!['j', 's', 'o', 'n']),
        r matches Some(p) ==> forall|c: Seq<char>|
            #![trigger p.accepts(c)]
            #![trigger p.reformatted(c)]
            p.accepts(c) == is_one_liner(c) && p.reformatted(c) == json_pretty(c),
{
    let lower = to_lowercase(extension);
    let v = chars_of(lower.as_str());
    if v.len() == 4 && v[0] == 'j' && v[1] == 's' && v[2] == 'o' && v[3] == 'n' {
        assert(v@ =~= seq!['j', 's', 'o', 'n']);
        Some(Box::new(JsonPrettifier))
    } else {
        None
    }
}

} // verus!
