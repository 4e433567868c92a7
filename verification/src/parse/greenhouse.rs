//! Listings on Greenhouse boards: company, title and team stand in the
//! title of the document.

use crate::job::{Role, RoleView};
use crate::parse::{
    lift, lifted, match_title, node_text, node_text_of, role_result, title_parts_of, Parse,
    ParseError, ParseErrorView, TitleParts, TitlePartsView,
};
use crate::html::{decode_entities, decoded_entities};
use crate::pattern::str_views;
use crate::salary::{salary_in, SalaryRange};
use vstd::prelude::*;

verus! {

/// Where the title of the document stands.
pub const TITLE_SELECTOR: &'static str = "head > title";

/// `… for <title> - <team> at <company>`.
pub const DASH_PATTERN: &'static str =
    r"^Job Application for (?P<title>[^-()]+) - (?P<team>[^();\r\n]+)(?:\s*\([^)]*\))? +at +(?P<company>.+)$";

/// `… for <title>, <team> at <company>`, or with a colon.
pub const DELIMITER_PATTERN: &'static str =
    r"^Job Application for (?P<title>[^-()]+)[,:] (?P<team>[^();\r\n]+)(?:\s*\([^)]*\))? +at +(?P<company>.+)$";

/// `… for <title> (<team>) at <company>`.
pub const PARENTHESIS_PATTERN: &'static str =
    r"^Job Application for (?P<title>[^()]+) \((?P<team>[^;()]+)(?:;[^)]*)?\) +at +(?P<company>.+)$";

/// `<title> - <team> | <company>`.
pub const PIPE_PATTERN: &'static str =
    r"^(?P<title>.*?) (?:- (?P<team>.*?))(?: \([^)]*\))?\s*\| (?P<company>.*)$";

/// `… for <title> at <company>`, without a team.
pub const NO_TEAM_PATTERN: &'static str =
    r"^Job Application for (?P<title>.+) +at +(?P<company>.+)$";

/// The patterns for a title, the most specific first; the one without a
/// team comes last.
pub open spec fn title_patterns() -> Seq<Seq<char>> {
    seq![
        DASH_PATTERN@,
        DELIMITER_PATTERN@,
        PARENTHESIS_PATTERN@,
        PIPE_PATTERN@,
        NO_TEAM_PATTERN@,
    ]
}

/// Company, title and team from the title of a document, once its
/// character references are decoded.
pub open spec fn company_title_and_team_of(document_title: Seq<char>) -> Result<
    TitlePartsView,
    ParseErrorView,
> {
    match title_parts_of(title_patterns(), decoded_entities(document_title)) {
        Ok(parts) => match parts.company {
            Some(_) => Ok(parts),
            None => Err(ParseErrorView::MissingGroup),
        },
        Err(e) => Err(e),
    }
}

/// The role that a Greenhouse listing describes. The salary is the first
/// one that the page mentions anywhere.
pub open spec fn greenhouse_role_of(html: Seq<char>) -> Result<Option<RoleView>, ParseErrorView> {
    match node_text_of(html, TITLE_SELECTOR@) {
        Err(e) => Err(e),
        Ok(document_title) => match company_title_and_team_of(document_title) {
            Err(e) => Err(e),
            Ok(parts) => match lifted(salary_in(html)) {
                Err(e) => Err(e),
                Ok(salary_range) => Ok(
                    Some(
                        RoleView {
                            company: parts.company.unwrap(),
                            title: parts.title,
                            team: parts.team,
                            salary_range,
                        },
                    ),
                ),
            },
        },
    }
}

pub struct Greenhouse {}

impl Greenhouse {
    /// Company, title and team from the title of a document.
    pub fn parse_company_title_and_team(document_title: &str) -> (r: Result<
        TitleParts,
        ParseError,
    >)
        ensures
            match r {
                Ok(parts) => company_title_and_team_of(document_title@) == Ok::<
                    TitlePartsView,
                    ParseErrorView,
                >(parts@),
                Err(e) => company_title_and_team_of(document_title@) == Err::<
                    TitlePartsView,
                    ParseErrorView,
                >(e@),
            },
    {
        let decoded = decode_entities(document_title);
        let patterns: Vec<&str> = vec![
            DASH_PATTERN,
            DELIMITER_PATTERN,
            PARENTHESIS_PATTERN,
            PIPE_PATTERN,
            NO_TEAM_PATTERN,
        ];
        assert(str_views(patterns@) =~= title_patterns());
        match match_title(&patterns, decoded.as_str()) {
            Ok(parts) => match &parts.company {
                Some(_) => Ok(parts),
                None => Err(ParseError::MissingGroup),
            },
            Err(e) => Err(e),
        }
    }
}

impl<'a> Parse<&'a str, Role> for Greenhouse {
    fn parse(&self, s: &'a str) -> (r: Result<Option<Role>, ParseError>)
        ensures
            role_result(r) == greenhouse_role_of(s@),
    {
        let document_title = match node_text(s, TITLE_SELECTOR) {
            Ok(t) => t,
            Err(e) => { return Err(e); },
        };
        let parts = match Greenhouse::parse_company_title_and_team(document_title.as_str()) {
            Ok(p) => p,
            Err(e) => { return Err(e); },
        };
        let salary_range = match lift(SalaryRange::parse_text(s)) {
            Ok(r) => r,
            Err(e) => { return Err(e); },
        };
        match parts.company {
            Some(company) => Ok(
                Some(Role { company, title: parts.title, team: parts.team, salary_range }),
            ),
            None => Err(ParseError::MissingGroup),
        }
    }
}

} // verus!
