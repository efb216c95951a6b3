//! Regular-expression searches, made by the `regex` crate.
//!
//! Nothing here is proved: each search is a call into `regex`. Each contract
//! gives the outcome a name, so that the functions that go on from it can say
//! exactly what they do with it, and adds what the crate promises of every
//! match: that its text is the searched text between its two offsets. The
//! outcome of a search depends on the pattern and the text alone.

use crate::types::opt_text;
use vstd::prelude::*;
use vstd::utf8::encode_utf8;

verus! {

/// The error with which `regex` refuses a pattern.
#[verifier::external_type_specification]
#[verifier::external_body]
pub struct ExPatternError(regex::Error);

/// One match of a pattern: where it stands in the searched text, as byte
/// offsets into its UTF-8 form, and the text that matched.
#[derive(Debug, Clone, PartialEq, Eq)]
pub struct TextMatch {
    pub start: usize,
    pub end: usize,
    pub text: String,
}

impl View for TextMatch {
    type V = (int, int, Seq<char>);

    open spec fn view(&self) -> (int, int, Seq<char>) {
        (self.start as int, self.end as int, self.text@)
    }
}

/// A character that means something in a pattern.
pub open spec fn is_meta(c: char) -> bool {
    ||| c == '\\'
    ||| c == '.'
    ||| c == '+'
    ||| c == '*'
    ||| c == '?'
    ||| c == '('
    ||| c == ')'
    ||| c == '|'
    ||| c == '['
    ||| c == ']'
    ||| c == '{'
    ||| c == '}'
    ||| c == '^'
    ||| c == '$'
    ||| c == '#'
    ||| c == '&'
    ||| c == '-'
    ||| c == '~'
}

/// A text with a backslash before each of its characters that mean
/// something in a pattern: the pattern that matches the text literally.
pub open spec fn escaped(text: Seq<char>) -> Seq<char>
    decreases text.len(),
{
    if text.len() == 0 {
        Seq::empty()
    } else if is_meta(text.last()) {
        escaped(text.drop_last()) + seq!['\\', text.last()]
    } else {
        escaped(text.drop_last()) + seq![text.last()]
    }
}

/// `part` is the text `whole` from the byte offset `start` to the byte
/// offset `end` of its UTF-8 form.
pub open spec fn is_part_at(part: Seq<char>, whole: Seq<char>, start: int, end: int) -> bool {
    &&& 0 <= start <= end <= encode_utf8(whole).len()
    &&& encode_utf8(part) == encode_utf8(whole).subrange(start, end)
}

/// `part` stands in `whole` as one piece.
pub open spec fn is_part_of(part: Seq<char>, whole: Seq<char>) -> bool {
    exists|start: int, end: int| is_part_at(part, whole, start, end)
}

/// What `Regex::captures` finds: `None` where `regex` refuses the pattern;
/// else `Some(None)` where the pattern matches nowhere in the text or the
/// group took no part in the first match; else the text of the group in the
/// first match.
pub uninterp spec fn first_group_of(pattern: Seq<char>, group: nat, text: Seq<char>) -> Option<
    Option<Seq<char>>,
>;

/// What `Regex::captures_iter` yields: `None` where `regex` refuses the
/// pattern; else for every match from left to right the text of the group,
/// `None` standing for a match in which the group took no part.
pub uninterp spec fn all_groups_of(pattern: Seq<char>, group: nat, text: Seq<char>) -> Option<
    Seq<Option<Seq<char>>>,
>;

/// What `Regex::find` finds: `None` where `regex` refuses the pattern; else
/// the text of the first match, if there is one.
pub uninterp spec fn first_match_of(pattern: Seq<char>, text: Seq<char>) -> Option<
    Option<Seq<char>>,
>;

/// What `Regex::find_iter` yields: `None` where `regex` refuses the pattern;
/// else every match from left to right, each with its start, its end and its
/// text.
pub uninterp spec fn all_matches_of(pattern: Seq<char>, text: Seq<char>) -> Option<
    Seq<(int, int, Seq<char>)>,
>;

/// The matches of a vector, each by its view.
pub open spec fn matches_of(found: Seq<TextMatch>) -> Seq<(int, int, Seq<char>)> {
    Seq::new(found.len(), |i: int| found[i]@)
}

/// The group texts of a vector, each by its view.
pub open spec fn groups_of(found: Seq<Option<String>>) -> Seq<Option<Seq<char>>> {
    Seq::new(found.len(), |i: int| opt_text(found[i]))
}

/// `regex::escape`: a backslash is put before every character for which
/// `regex_syntax::is_meta_character` holds, and nothing else changes.
#[verifier::external_body]
pub(crate) fn escape(text: &str) -> (r: String)
    ensures
        r@ == escaped(text@),
{
    regex::escape(text)
}

/// `Regex::new`, then `Regex::captures`, `Captures::get` and
/// `Match::as_str`: compiles the pattern, searches the text for its first
/// match and hands out the text of the group. The contract claims that the
/// outcome is the one named `first_group_of`, and that the text of a group
/// is a piece of the searched text.
#[verifier::external_body]
pub(crate) fn first_group(pattern: &str, group: usize, text: &str) -> (r: Result<
    Option<String>,
    regex::Error,
>)
    ensures
        first_group_of(pattern@, group as nat, text@) == match r {
            Ok(found) => Some(opt_text(found)),
            Err(_) => None,
        },
        match r {
            Ok(Some(t)) => is_part_of(t@, text@),
            _ => true,
        },
{
    let re = regex::Regex::new(pattern)?;
    Ok(re.captures(text).and_then(|c| c.get(group)).map(|m| m.as_str().to_string()))
}

/// `Regex::new`, then `Regex::captures_iter` with `Captures::get` and
/// `Match::as_str` of each item: the text of the group in every match, from
/// left to right. The contract claims that the outcome is the one named
/// `all_groups_of`, and that the text of a group is a piece of the searched
/// text.
#[verifier::external_body]
pub(crate) fn all_groups(pattern: &str, group: usize, text: &str) -> (r: Result<
    Vec<Option<String>>,
    regex::Error,
>)
    ensures
        all_groups_of(pattern@, group as nat, text@) == match r {
            Ok(found) => Some(groups_of(found@)),
            Err(_) => None,
        },
        match r {
            Ok(found) => forall|i: int|
                0 <= i < found@.len() ==> (#[trigger] found@[i] matches Some(t) ==> is_part_of(
                    t@,
                    text@,
                )),
            Err(_) => true,
        },
{
    let re = regex::Regex::new(pattern)?;
    Ok(re.captures_iter(text).map(|c| c.get(group).map(|m| m.as_str().to_string())).collect())
}

/// `Regex::new`, then `Regex::find` and `Match::as_str`: the text of the
/// first match. The contract claims that the outcome is the one named
/// `first_match_of`, and that the text of the match is a piece of the
/// searched text.
#[verifier::external_body]
pub(crate) fn first_match(pattern: &str, text: &str) -> (r: Result<Option<String>, regex::Error>)
    ensures
        first_match_of(pattern@, text@) == match r {
            Ok(found) => Some(opt_text(found)),
            Err(_) => None,
        },
        match r {
            Ok(Some(t)) => is_part_of(t@, text@),
            _ => true,
        },
{
    let re = regex::Regex::new(pattern)?;
    Ok(re.find(text).map(|m| m.as_str().to_string()))
}

/// `Regex::new`, then `Regex::find_iter` with `Match::start`, `Match::end`
/// and `Match::as_str` of each item: every match from left to right. The
/// contract claims that the outcome is the one named `all_matches_of`, and
/// of every match that its start is no greater than its end and that its
/// text is the searched text between the two.
#[verifier::external_body]
pub(crate) fn all_matches(pattern: &str, text: &str) -> (r: Result<Vec<TextMatch>, regex::Error>)
    ensures
        all_matches_of(pattern@, text@) == match r {
            Ok(found) => Some(matches_of(found@)),
            Err(_) => None,
        },
        match r {
            Ok(found) => forall|i: int|
                0 <= i < found@.len() ==> is_part_at(
                    (#[trigger] found@[i]).text@,
                    text@,
                    found@[i].start as int,
                    found@[i].end as int,
                ),
            Err(_) => true,
        },
{
    let re = regex::Regex::new(pattern)?;
    Ok(
        re.find_iter(text).map(
            |m| TextMatch { start: m.start(), end: m.end(), text: m.as_str().to_string() },
        ).collect(),
    )
}

} // verus!
