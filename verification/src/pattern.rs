//! Matching lines of text against a regular expression.

use vstd::prelude::*;
use crate::text::texts_of;

verus! {

/// What the regular expression `pattern` captures in `text`: `None` where it
/// matches nowhere, else one entry per capture group, the whole match first,
/// each with the text that the group matched, or `None` where the group took
/// no part in the match.
pub uninterp spec fn regex_captures(pattern: Seq<char>, text: Seq<char>) -> Option<
    Seq<Option<Seq<char>>>,
>;

/// The texts of a list of capture groups.
pub open spec fn groups_view(groups: Seq<Option<String>>) -> Seq<Option<Seq<char>>> {
    Seq::new(
        groups.len(),
        |i: int|
            match groups[i] {
                Some(s) => Some(s@),
                None => None,
            },
    )
}

/// The texts of what a pattern captured, where it matched.
pub open spec fn captured_view(found: Option<Vec<Option<String>>>) -> Option<
    Seq<Option<Seq<char>>>,
> {
    match found {
        Some(groups) => Some(groups_view(groups@)),
        None => None,
    }
}

/// The texts of what a pattern captured, where it matched.
pub open spec fn matched_view(found: Option<&Vec<Option<String>>>) -> Option<
    Seq<Option<Seq<char>>>,
> {
    match found {
        Some(groups) => Some(groups_view(groups@)),
        None => None,
    }
}

/// The text of capture group `i`, where there is such a group and it took
/// part in the match.
pub open spec fn group_text(groups: Seq<Option<Seq<char>>>, i: int) -> Option<Seq<char>> {
    if 0 <= i < groups.len() {
        groups[i]
    } else {
        None
    }
}

/// `pattern` matches somewhere in `text`.
pub open spec fn regex_matches(pattern: Seq<char>, text: Seq<char>) -> bool {
    regex_captures(pattern, text) is Some
}

/// `found` holds, for each of `texts`, what `pattern` captures in it.
pub open spec fn captures_of_each(
    found: Seq<Option<Vec<Option<String>>>>,
    pattern: Seq<char>,
    texts: Seq<Seq<char>>,
) -> bool {
    &&& found.len() == texts.len()
    &&& forall|i: int|
        0 <= i < texts.len() ==> captured_view(#[trigger] found[i]) == regex_captures(
            pattern,
            texts[i],
        )
}

/// Compiles `pattern` with `regex::Regex::new` and runs
/// `regex::Regex::captures` on each of `texts`, copying out the text of each
/// group. Each result is the one that `regex_captures` names: the leftmost
/// match, as the `regex` crate defines it. A pattern that the crate does not
/// accept matches nothing.
#[verifier::external_body]
pub(crate) fn captures_each(pattern: &str, texts: &Vec<String>) -> (r: Vec<
    Option<Vec<Option<String>>>,
>)
    ensures
        r@.len() == texts@.len(),
        forall|i: int|
            0 <= i < texts@.len() ==> captured_view(#[trigger] r@[i]) == regex_captures(
                pattern@,
                texts@[i]@,
            ),
{
    let compiled = regex::Regex::new(pattern).ok();
    texts.iter().map(
        |text|
            compiled.as_ref().and_then(|re| re.captures(text)).map(
                |found| found.iter().map(|part| part.map(|m| m.as_str().to_owned())).collect(),
            ),
    ).collect()
}

/// What `pattern` captures in each of `texts`.
pub fn match_each(pattern: &str, texts: &Vec<String>) -> (r: Vec<Option<Vec<Option<String>>>>)
    ensures
        captures_of_each(r@, pattern@, texts_of(texts@)),
{
    captures_each(pattern, texts)
}

/// What `pattern` captures in `text`.
pub fn captures(pattern: &str, text: &str) -> (r: Option<Vec<Option<String>>>)
    ensures
        captured_view(r) == regex_captures(pattern@, text@),
{
    let mut texts: Vec<String> = Vec::new();
    texts.push(text.to_owned());
    let mut found = captures_each(pattern, &texts);
    assert(captured_view(found@[0]) == regex_captures(pattern@, texts@[0]@));
    found.pop().unwrap()
}

/// Whether `pattern` matches somewhere in `text`.
pub fn is_match(pattern: &str, text: &str) -> (r: bool)
    ensures
        r == regex_matches(pattern@, text@),
{
    captures(pattern, text).is_some()
}

/// What a pattern captured in the text at position `i`.
pub fn captured_at(found: &Vec<Option<Vec<Option<String>>>>, i: usize) -> (r: Option<
    &Vec<Option<String>>,
>)
    requires
        i < found@.len(),
    ensures
        matched_view(r) == captured_view(found@[i as int]),
{
    found[i].as_ref()
}

/// The text of capture group `i`, where there is such a group and it took
/// part in the match.
pub fn group(groups: &Vec<Option<String>>, i: usize) -> (r: Option<&String>)
    ensures
        match r {
            Some(s) => group_text(groups_view(groups@), i as int) == Some(s@),
            None => group_text(groups_view(groups@), i as int) is None,
        },
{
    if i < groups.len() {
        groups[i].as_ref()
    } else {
        None
    }
}

/// A copy of the text of capture group `i`.
pub fn copy_group(groups: &Vec<Option<String>>, i: usize) -> (r: Option<String>)
    ensures
        match r {
            Some(s) => group_text(groups_view(groups@), i as int) == Some(s@),
            None => group_text(groups_view(groups@), i as int) is None,
        },
{
    match group(groups, i) {
        Some(s) => Some(s.clone()),
        None => None,
    }
}

} // verus!
