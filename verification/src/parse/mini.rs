//! A strategy for boards that differ only in their markup: it is told
//! where the title stands, how to split it, and what a salary looks like.

use crate::html::{decode_entities, decoded_entities};
use crate::job::{Role, RoleView};
use crate::parse::{
    match_title, node_text, node_text_of, pair_result, role_result, salary_from_phrase,
    salary_in_phrase, salary_result, title_parts_of, Parse, ParseError, ParseErrorView,
};
use crate::pattern::str_views;
use crate::salary::SalaryRange;
use crate::text::opt_view;
use vstd::prelude::*;

verus! {

/// How a title is split where the board gives no pattern of its own:
/// `<title>, <team> | …`.
pub const DEFAULT_TITLE_PATTERN: &'static str = r"^(?P<title>[^,]+),\s*(?P<team>[^|]+)\s*\|";

/// A board, described by its markup.
#[derive(Debug, PartialEq, Eq)]
pub struct Mini {
    /// The company of every listing on the board.
    pub company: String,
    /// The selector of the node that holds title and team.
    pub title_and_team_selector: String,
    /// The pattern that splits title and team, if the default does not fit.
    pub title_and_team_regex: Option<String>,
    /// The pattern of the phrase that names the salary.
    pub salary_range_selector: String,
}

/// A `Mini` as plain values.
pub ghost struct MiniView {
    pub company: Seq<char>,
    pub title_and_team_selector: Seq<char>,
    pub title_and_team_regex: Option<Seq<char>>,
    pub salary_range_selector: Seq<char>,
}

impl View for Mini {
    type V = MiniView;

    open spec fn view(&self) -> MiniView {
        MiniView {
            company: self.company@,
            title_and_team_selector: self.title_and_team_selector@,
            title_and_team_regex: opt_view(self.title_and_team_regex),
            salary_range_selector: self.salary_range_selector@,
        }
    }
}

/// The pattern by which a board splits its titles.
pub open spec fn title_pattern_of(board: MiniView) -> Seq<char> {
    match board.title_and_team_regex {
        Some(pattern) => pattern,
        None => DEFAULT_TITLE_PATTERN@,
    }
}

/// Title and team of a listing on the board.
pub open spec fn heading_of(board: MiniView, html: Seq<char>) -> Result<
    (Seq<char>, Option<Seq<char>>),
    ParseErrorView,
> {
    match node_text_of(html, board.title_and_team_selector) {
        Err(e) => Err(e),
        Ok(text) => match title_parts_of(seq![title_pattern_of(board)], decoded_entities(text)) {
            Ok(parts) => Ok((parts.title, parts.team)),
            Err(e) => Err(e),
        },
    }
}

/// The role that a listing on the board describes.
pub open spec fn mini_role_of(board: MiniView, html: Seq<char>) -> Result<
    Option<RoleView>,
    ParseErrorView,
> {
    match heading_of(board, html) {
        Err(e) => Err(e),
        Ok((title, team)) => match salary_in_phrase(board.salary_range_selector, html) {
            Err(e) => Err(e),
            Ok(salary_range) => Ok(
                Some(RoleView { company: board.company, title, team, salary_range }),
            ),
        },
    }
}

impl Mini {
    /// Title and team of a listing.
    pub fn parse_title_and_team(&self, html: &str) -> (r: Result<
        (String, Option<String>),
        ParseError,
    >)
        ensures
            pair_result(r) == heading_of(self@, html@),
    {
        let text = match node_text(html, self.title_and_team_selector.as_str()) {
            Ok(t) => t,
            Err(e) => { return Err(e); },
        };
        let decoded = decode_entities(text.as_str());
        let pattern: &str = match &self.title_and_team_regex {
            Some(p) => p.as_str(),
            None => DEFAULT_TITLE_PATTERN,
        };
        let patterns: Vec<&str> = vec![pattern];
        assert(str_views(patterns@) =~= seq![title_pattern_of(self@)]);
        match match_title(&patterns, decoded.as_str()) {
            Ok(parts) => Ok((parts.title, parts.team)),
            Err(e) => Err(e),
        }
    }

    /// The salary of a listing.
    pub fn parse_salary_range(&self, html: &str) -> (r: Result<Option<SalaryRange>, ParseError>)
        ensures
            salary_result(r) == salary_in_phrase(self@.salary_range_selector, html@),
    {
        salary_from_phrase(self.salary_range_selector.as_str(), html)
    }
}

impl<'a> Parse<&'a str, Role> for Mini {
    fn parse(&self, s: &'a str) -> (r: Result<Option<Role>, ParseError>)
        ensures
            role_result(r) == mini_role_of(self@, s@),
    {
        let (title, team) = match self.parse_title_and_team(s) {
            Ok(p) => p,
            Err(e) => { return Err(e); },
        };
        let salary_range = match self.parse_salary_range(s) {
            Ok(r) => r,
            Err(e) => { return Err(e); },
        };
        Ok(Some(Role { company: self.company.clone(), title, team, salary_range }))
    }
}

} // verus!
