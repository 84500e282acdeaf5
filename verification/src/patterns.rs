//! Regular expressions.

use vstd::prelude::*;
use crate::text::option_text;

verus! {

/// The error of `regex::Regex::new`.
#[verifier::external_type_specification]
#[verifier::external_body]
pub struct ExRegexError(regex::Error);

/// The texts of the groups of a match, the whole match first; a group that took no part is missing.
pub open spec fn group_texts(groups: Seq<Option<String>>) -> Seq<Option<Seq<char>>> {
    groups.map_values(|g: Option<String>| option_text(g))
}

/// The group texts of each match.
pub open spec fn match_texts(matches: Seq<Vec<Option<String>>>) -> Seq<Seq<Option<Seq<char>>>> {
    matches.map_values(|m: Vec<Option<String>>| group_texts(m@))
}

/// Whether `regex::Regex::new` accepts a pattern.
pub uninterp spec fn is_pattern(pattern: Seq<char>) -> bool;

/// The first match that `regex::Regex::captures` finds for an accepted pattern in a text, if any,
/// with the texts of its groups.
pub uninterp spec fn first_groups(pattern: Seq<char>, text: Seq<char>) -> Option<
    Seq<Option<Seq<char>>>,
>;

/// The matches that `regex::Regex::captures_iter` finds for an accepted pattern in a text, one
/// behind the other, with the texts of their groups.
pub uninterp spec fn all_groups(pattern: Seq<char>, text: Seq<char>) -> Seq<
    Seq<Option<Seq<char>>>,
>;

/// The first match for a pattern in a text, if any; nothing where the pattern is refused.
pub open spec fn first_match(pattern: Seq<char>, text: Seq<char>) -> Option<
    Option<Seq<Option<Seq<char>>>>,
> {
    if is_pattern(pattern) {
        Some(first_groups(pattern, text))
    } else {
        None
    }
}

/// The matches for a pattern in a text; nothing where the pattern is refused.
pub open spec fn all_matches(pattern: Seq<char>, text: Seq<char>) -> Option<
    Seq<Seq<Option<Seq<char>>>>,
> {
    if is_pattern(pattern) {
        Some(all_groups(pattern, text))
    } else {
        None
    }
}

/// `regex::Regex::new` and `regex::Regex::captures`. The claim: whether the pattern is accepted
/// depends on the pattern alone, and the first match in the text on the pattern and the text alone.
#[verifier::external_body]
pub(crate) fn find(pattern: &str, text: &str) -> (r: Result<
    Option<Vec<Option<String>>>,
    regex::Error,
>)
    ensures
        r is Ok <==> is_pattern(pattern@),
        r matches Ok(found) ==> found_texts(found) == first_groups(pattern@, text@),
{
    let regex = regex::Regex::new(pattern)?;
    let to_text = |m: regex::Match| m.as_str().to_string();
    Ok(regex.captures(text).map(|c| c.iter().map(|g| g.map(to_text)).collect()))
}

/// `regex::Regex::new` and `regex::Regex::captures_iter`. The claim: whether the pattern is accepted
/// depends on the pattern alone, and the matches in the text on the pattern and the text alone.
#[verifier::external_body]
pub(crate) fn find_all(pattern: &str, text: &str) -> (r: Result<
    Vec<Vec<Option<String>>>,
    regex::Error,
>)
    ensures
        r is Ok <==> is_pattern(pattern@),
        r matches Ok(matches) ==> match_texts(matches@) == all_groups(pattern@, text@),
{
    let regex = regex::Regex::new(pattern)?;
    let to_text = |m: regex::Match| m.as_str().to_string();
    Ok(regex.captures_iter(text).map(|c| c.iter().map(|g| g.map(to_text)).collect()).collect())
}

/// The text of group `i`, where there is such a group and it took part.
pub open spec fn group_at(groups: Seq<Option<Seq<char>>>, i: int) -> Option<Seq<char>> {
    if 0 <= i < groups.len() {
        groups[i]
    } else {
        None
    }
}

/// The text of group `i`, where there is such a group and it took part.
pub fn group<'a>(groups: &'a Vec<Option<String>>, i: usize) -> (r: Option<&'a str>)
    ensures
        match r {
            Some(text) => group_at(group_texts(groups@), i as int) == Some(text@),
            None => group_at(group_texts(groups@), i as int) is None,
        },
{
    if i < groups.len() {
        assert(group_texts(groups@)[i as int] == option_text(groups@[i as int]));
        match &groups[i] {
            Some(text) => Some(text.as_str()),
            None => None,
        }
    } else {
        None
    }
}

/// The texts of the groups of a match that may be missing.
pub open spec fn found_texts(found: Option<Vec<Option<String>>>) -> Option<Seq<Option<Seq<char>>>> {
    match found {
        Some(groups) => Some(group_texts(groups@)),
        None => None,
    }
}

/// The text of the first group of a match, where there is a match.
pub open spec fn captured_in(found: Option<Seq<Option<Seq<char>>>>) -> Option<Seq<char>> {
    match found {
        Some(groups) => group_at(groups, 1),
        None => None,
    }
}

/// The text of the first group of a match, where there is a match.
pub fn captured<'a>(found: &'a Option<Vec<Option<String>>>) -> (r: Option<&'a str>)
    ensures
        match r {
            Some(text) => captured_in(found_texts(*found)) == Some(text@),
            None => captured_in(found_texts(*found)) is None,
        },
{
    match found {
        Some(groups) => group(groups, 1),
        None => None,
    }
}

} // verus!
