use vstd::prelude::*;
use crate::pdf::opt_str_view;

verus! {

/// Pattern of a link to a document: what follows `href=` up to the last
/// `pdf` of the line is its first group.
pub const LINK_PATTERN: &'static str = "href=(.+pdf)";

/// Pattern of a label: the digits between `<small>` and `</small>` are its
/// first group.
pub const LABEL_PATTERN: &'static str = "<small>(\\d+)</small>";

/// What the first group of `pattern` captures in `text`: the part of `text`
/// that the group spans in the leftmost match of the regular expression
/// `pattern`, as the `regex` crate compiles it with its default settings.
/// `None` where `pattern` is no regular expression, where it matches nowhere
/// in `text`, and where it matches without its first group taking part.
pub uninterp spec fn first_capture(pattern: Seq<char>, text: Seq<char>) -> Option<Seq<char>>;

/// Compiles `pattern` with `regex::Regex::new`, searches `text` with
/// `Regex::captures`, and hands out the text of group 1 (`Captures::get`,
/// `Match::as_str`). Trusted: the result is what the `regex` crate finds,
/// which `first_capture` names; nothing is claimed of that value beyond its
/// being determined by the two strings.
#[verifier::external_body]
pub(crate) fn capture_first(pattern: &str, text: &str) -> (r: Option<String>)
    ensures
        opt_str_view(r) == first_capture(pattern@, text@),
{
    match regex::Regex::new(pattern) {
        Ok(re) => match re.captures(text) {
            Some(found) => found.get(1).map(|m| m.as_str().to_string()),
            None => None,
        },
        Err(_) => None,
    }
}

/// The path that the link pattern captures in `line`, if it matches.
pub open spec fn link_of(line: Seq<char>) -> Option<Seq<char>> {
    first_capture(LINK_PATTERN@, line)
}

/// The label that the label pattern captures in `line`, if it matches.
pub open spec fn label_of(line: Seq<char>) -> Option<Seq<char>> {
    first_capture(LABEL_PATTERN@, line)
}

/// Searches `line` for a link to a document.
pub fn find_link(line: &str) -> (r: Option<String>)
    ensures
        opt_str_view(r) == link_of(line@),
{
    capture_first(LINK_PATTERN, line)
}

/// Searches `line` for a label.
pub fn find_label(line: &str) -> (r: Option<String>)
    ensures
        opt_str_view(r) == label_of(line@),
{
    capture_first(LABEL_PATTERN, line)
}

} // verus!
