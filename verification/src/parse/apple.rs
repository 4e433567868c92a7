//! Listings on Apple's board: the role stands in hydration data that a
//! script hands to `JSON.parse` as a quoted string.

use crate::job::{Role, RoleView};
use crate::parse::{
    json_field, json_field_of, node_text, node_text_of, pair_result, role_result,
    split_title_and_team, title_and_team_of, Parse, ParseError, ParseErrorView,
};
use crate::pattern::str_views;
use crate::text::{
    chars_of, replace_chars, replaced, string_of, strip_prefix_chars, strip_suffix_chars,
    without_prefix, without_suffix,
};
use vstd::prelude::*;

verus! {

/// Where the script with the hydration data stands.
pub const DATA_SELECTOR: &'static str = "#root > script";

/// What stands before the quoted data.
pub const DATA_PREFIX: &'static str = r#"window.__staticRouterHydrationData = JSON.parse(""#;

/// What stands after the quoted data.
pub const DATA_SUFFIX: &'static str = r#"");"#;

/// The company of every listing on this board.
pub const COMPANY: &'static str = "Apple";

pub open spec fn title_path() -> Seq<Seq<char>> {
    seq!["loaderData"@, "jobDetails"@, "jobsData"@, "postingTitle"@]
}

/// The JSON text inside the script: what stands between the prefix and
/// the suffix, with `\\` read as `\` and then `\"` as `"`.
pub open spec fn unwrapped_data(script: Seq<char>) -> Result<Seq<char>, ParseErrorView> {
    match without_prefix(script, DATA_PREFIX@) {
        None => Err(ParseErrorView::UnexpectedWrapping),
        Some(rest) => match without_suffix(rest, DATA_SUFFIX@) {
            None => Err(ParseErrorView::UnexpectedWrapping),
            Some(quoted) => Ok(
                replaced(replaced(quoted, seq!['\\', '\\'], seq!['\\']), seq!['\\', '"'], seq!['"']),
            ),
        },
    }
}

/// Title and team: the posting's title, split at its first `" - "`.
pub open spec fn posting_title_of(data: Seq<char>) -> Result<
    (Seq<char>, Option<Seq<char>>),
    ParseErrorView,
> {
    match json_field_of(
        data,
        title_path(),
        "loaderData.jobDetails.jobsData.postingTitle"@,
    ) {
        Ok(text) => Ok(title_and_team_of(text, " - "@)),
        Err(e) => Err(e),
    }
}

/// The role that an Apple listing describes. It names no salary.
pub open spec fn apple_role_of(html: Seq<char>) -> Result<Option<RoleView>, ParseErrorView> {
    match node_text_of(html, DATA_SELECTOR@) {
        Err(e) => Err(e),
        Ok(script) => match unwrapped_data(script) {
            Err(e) => Err(e),
            Ok(data) => match posting_title_of(data) {
                Err(e) => Err(e),
                Ok((title, team)) => Ok(
                    Some(RoleView { company: COMPANY@, title, team, salary_range: None }),
                ),
            },
        },
    }
}

pub struct Apple {}

impl Apple {
    /// The JSON text inside the script.
    pub fn unwrap_data(script: &str) -> (r: Result<String, ParseError>)
        ensures
            crate::parse::text_result(r) == unwrapped_data(script@),
    {
        let chars = chars_of(script);
        let prefix = chars_of(DATA_PREFIX);
        let suffix = chars_of(DATA_SUFFIX);
        let rest = match strip_prefix_chars(&chars, &prefix) {
            Some(rest) => rest,
            None => { return Err(ParseError::UnexpectedWrapping); },
        };
        let quoted = match strip_suffix_chars(&rest, &suffix) {
            Some(quoted) => quoted,
            None => { return Err(ParseError::UnexpectedWrapping); },
        };
        let two_backslashes: Vec<char> = vec!['\\', '\\'];
        let backslash: Vec<char> = vec!['\\'];
        let escaped_quote: Vec<char> = vec!['\\', '"'];
        let quote: Vec<char> = vec!['"'];
        proof {
            assert(two_backslashes@ =~= seq!['\\', '\\']);
            assert(backslash@ =~= seq!['\\']);
            assert(escaped_quote@ =~= seq!['\\', '"']);
            assert(quote@ =~= seq!['"']);
        }
        let a = replace_chars(&quoted, &two_backslashes, &backslash);
        let b = replace_chars(&a, &escaped_quote, &quote);
        Ok(string_of(&b))
    }

    /// Title and team of the posting in JSON `data`.
    pub fn parse_title_and_team(data: &str) -> (r: Result<(String, Option<String>), ParseError>)
        ensures
            pair_result(r) == posting_title_of(data@),
    {
        let path: Vec<&str> = vec!["loaderData", "jobDetails", "jobsData", "postingTitle"];
        assert(str_views(path@) =~= title_path());
        match json_field(data, &path, "loaderData.jobDetails.jobsData.postingTitle") {
            Ok(text) => Ok(split_title_and_team(text.as_str(), " - ")),
            Err(e) => Err(e),
        }
    }
}

impl<'a> Parse<&'a str, Role> for Apple {
    fn parse(&self, s: &'a str) -> (r: Result<Option<Role>, ParseError>)
        ensures
            role_result(r) == apple_role_of(s@),
    {
        let script = match node_text(s, DATA_SELECTOR) {
            Ok(t) => t,
            Err(e) => { return Err(e); },
        };
        let data = match Apple::unwrap_data(script.as_str()) {
            Ok(d) => d,
            Err(e) => { return Err(e); },
        };
        let (title, team) = match Apple::parse_title_and_team(data.as_str()) {
            Ok(p) => p,
            Err(e) => { return Err(e); },
        };
        Ok(Some(Role { company: COMPANY.to_owned(), title, team, salary_range: None }))
    }
}

} // verus!
