//! Regular expressions, matched by the `regex` crate.
//!
//! What a pattern matches is not restated here: the results are named, and
//! the rest of the library is specified over those names.

use crate::text::opt_view;
use vstd::prelude::*;

verus! {

/// Whether `regex::Regex::new` accepts the pattern.
pub uninterp spec fn pattern_compiles(pattern: Seq<char>) -> bool;

/// For the leftmost match of `pattern` in `text`: what each of the groups
/// called `names` captured, in the order of `names`. `None` where the
/// pattern matches nowhere in `text`.
pub uninterp spec fn named_captures(
    pattern: Seq<char>,
    text: Seq<char>,
    names: Seq<Seq<char>>,
) -> Option<Seq<Option<Seq<char>>>>;

/// The text of the leftmost match of `pattern` in `text`.
pub uninterp spec fn first_match(pattern: Seq<char>, text: Seq<char>) -> Option<Seq<char>>;

/// `regex::Error`: why a pattern does not compile. Nothing is read from it.
#[verifier::external_type_specification]
#[verifier::external_body]
pub struct ExPatternError(regex::Error);

/// The views of a list of texts.
pub open spec fn str_views(names: Seq<&str>) -> Seq<Seq<char>> {
    names.map_values(|n: &str| n@)
}

/// The views of a list of optional strings.
pub open spec fn opt_views(groups: Seq<Option<String>>) -> Seq<Option<Seq<char>>> {
    groups.map_values(|g: Option<String>| opt_view(g))
}

/// `Regex::new` on `pattern`, then `Regex::captures` on `text` and
/// `Captures::name` for each of `names`. Fails exactly when the pattern does
/// not compile; otherwise returns one entry for each name, in order, or
/// `None` where nothing matches.
#[verifier::external_body]
pub(crate) fn captures(pattern: &str, text: &str, names: &Vec<&str>) -> (r: Result<
    Option<Vec<Option<String>>>,
    regex::Error,
>)
    ensures
        r is Ok <==> pattern_compiles(pattern@),
        match r {
            Ok(Some(groups)) => groups@.len() == names@.len() && named_captures(
                pattern@,
                text@,
                str_views(names@),
            ) == Some(opt_views(groups@)),
            Ok(None) => named_captures(pattern@, text@, str_views(names@)) is None,
            Err(_) => true,
        },
{
    let re = regex::Regex::new(pattern)?;
    Ok(
        re.captures(text).map(
            |found| names.iter().map(|n| found.name(n).map(|m| m.as_str().to_owned())).collect(),
        ),
    )
}

/// `Regex::new` on `pattern`, then `Regex::find` on `text`: the text of the
/// leftmost match. Fails exactly when the pattern does not compile.
#[verifier::external_body]
pub(crate) fn find_match(pattern: &str, text: &str) -> (r: Result<Option<String>, regex::Error>)
    ensures
        r is Ok <==> pattern_compiles(pattern@),
        r matches Ok(found) ==> opt_view(found) == first_match(pattern@, text@),
{
    let re = regex::Regex::new(pattern)?;
    Ok(re.find(text).map(|m| m.as_str().to_owned()))
}

} // verus!
