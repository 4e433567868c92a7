//! Listings on Google's board: title and team stand in the title of the
//! document, the salary in a phrase of the page.

use crate::html::{decode_entities, decoded_entities};
use crate::job::{Role, RoleView};
use crate::parse::{
    match_title, node_text, node_text_of, pair_result, role_result, salary_from_phrase,
    salary_in_phrase, salary_result, title_parts_of, Parse, ParseError, ParseErrorView,
};
use crate::pattern::str_views;
use crate::salary::SalaryRange;
use vstd::prelude::*;

verus! {

/// Where the title of the listing stands.
pub const TITLE_SELECTOR: &'static str = "head > title";

/// How the title is split into title and team.
pub const TITLE_PATTERN: &'static str = r"^(?P<title>.*), (?P<team>.*) â€” Google Careers";

/// The phrase that names the salary.
pub const SALARY_PATTERN: &'static str = r"\$.*-.*\$.*\+ bonus \+ equity \+ benefits";

/// The company of every listing on this board.
pub const COMPANY: &'static str = "Google";

/// Title and team: the decoded title of the listing, split by the
/// pattern.
pub open spec fn heading_of(html: Seq<char>) -> Result<
    (Seq<char>, Option<Seq<char>>),
    ParseErrorView,
> {
    match node_text_of(html, TITLE_SELECTOR@) {
        Err(e) => Err(e),
        Ok(text) => match title_parts_of(seq![TITLE_PATTERN@], decoded_entities(text)) {
            Ok(parts) => Ok((parts.title, parts.team)),
            Err(e) => Err(e),
        },
    }
}

/// The role that a listing on this board describes.
pub open spec fn google_role_of(html: Seq<char>) -> Result<Option<RoleView>, ParseErrorView> {
    match heading_of(html) {
        Err(e) => Err(e),
        Ok((title, team)) => match salary_in_phrase(SALARY_PATTERN@, html) {
            Err(e) => Err(e),
            Ok(salary_range) => Ok(Some(RoleView { company: COMPANY@, title, team, salary_range })),
        },
    }
}

pub struct Google {}

impl Google {
    /// Title and team of a listing.
    pub fn parse_title_and_team(html: &str) -> (r: Result<(String, Option<String>), ParseError>)
        ensures
            pair_result(r) == heading_of(html@),
    {
        let text = match node_text(html, TITLE_SELECTOR) {
            Ok(t) => t,
            Err(e) => { return Err(e); },
        };
        let decoded = decode_entities(text.as_str());
        let patterns: Vec<&str> = vec![TITLE_PATTERN];
        assert(str_views(patterns@) =~= seq![TITLE_PATTERN@]);
        match match_title(&patterns, decoded.as_str()) {
            Ok(parts) => Ok((parts.title, parts.team)),
            Err(e) => Err(e),
        }
    }

    /// The salary of a listing: the first one in the phrase that names it.
    pub fn parse_salary_range(html: &str) -> (r: Result<Option<SalaryRange>, ParseError>)
        ensures
            salary_result(r) == salary_in_phrase(SALARY_PATTERN@, html@),
    {
        salary_from_phrase(SALARY_PATTERN, html)
    }
}

impl<'a> Parse<&'a str, Role> for Google {
    fn parse(&self, s: &'a str) -> (r: Result<Option<Role>, ParseError>)
        ensures
            role_result(r) == google_role_of(s@),
    {
        let (title, team) = match Google::parse_title_and_team(s) {
            Ok(p) => p,
            Err(e) => { return Err(e); },
        };
        let salary_range = match Google::parse_salary_range(s) {
            Ok(r) => r,
            Err(e) => { return Err(e); },
        };
        Ok(Some(Role { company: COMPANY.to_owned(), title, team, salary_range }))
    }
}

} // verus!
