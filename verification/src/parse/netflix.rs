//! Listings on Netflix's board: embedded JSON-LD data whose texts carry
//! HTML character references.

use crate::html::{decode_entities, decoded_entities};
use crate::job::{Role, RoleView};
use crate::json::{json_parses, json_string_at, json_text_at};
use crate::parse::{
    json_field, json_field_of, node_text, node_text_of, pair_result, role_result,
    split_title_and_team, text_result, title_and_team_of, Parse, ParseError, ParseErrorView,
};
use crate::pattern::str_views;
use crate::salary::{salary_in, SalaryRange};
use crate::text::{trim, trimmed};
use vstd::prelude::*;

verus! {

/// Where the embedded data stands.
pub const DATA_SELECTOR: &'static str = r#"script[type="application/ld+json"]"#;

pub open spec fn company_path() -> Seq<Seq<char>> {
    seq!["hiringOrganization"@, "name"@]
}

pub open spec fn title_path() -> Seq<Seq<char>> {
    seq!["title"@]
}

pub open spec fn description_path() -> Seq<Seq<char>> {
    seq!["description"@]
}

/// The company: the name of the hiring organisation, trimmed.
pub open spec fn company_of(data: Seq<char>) -> Result<Seq<char>, ParseErrorView> {
    match json_field_of(data, company_path(), "hiringOrganization.name"@) {
        Ok(name) => Ok(trimmed(name)),
        Err(e) => Err(e),
    }
}

/// Title and team: the posting's title, decoded, split at its first
/// `", "`.
pub open spec fn posting_title_of(data: Seq<char>) -> Result<
    (Seq<char>, Option<Seq<char>>),
    ParseErrorView,
> {
    match json_field_of(data, title_path(), "title"@) {
        Ok(text) => Ok(title_and_team_of(decoded_entities(text), ", "@)),
        Err(e) => Err(e),
    }
}

/// The salary: the first one that the decoded description mentions. A
/// missing description or an unreadable salary counts as no salary.
pub open spec fn salary_of(data: Seq<char>) -> Option<SalaryRange> {
    if !json_parses(data) {
        None
    } else {
        match json_text_at(data, description_path()) {
            Some(description) => match salary_in(decoded_entities(description)) {
                Ok(salary) => salary,
                Err(_) => None,
            },
            None => None,
        }
    }
}

/// The role that a Netflix listing describes.
pub open spec fn netflix_role_of(html: Seq<char>) -> Result<Option<RoleView>, ParseErrorView> {
    match node_text_of(html, DATA_SELECTOR@) {
        Err(e) => Err(e),
        Ok(data) => match company_of(data) {
            Err(e) => Err(e),
            Ok(company) => match posting_title_of(data) {
                Err(e) => Err(e),
                Ok((title, team)) => Ok(
                    Some(RoleView { company, title, team, salary_range: salary_of(data) }),
                ),
            },
        },
    }
}

pub struct Netflix {}

impl Netflix {
    /// Title and team of the posting in JSON `data`.
    pub fn parse_title_and_team(data: &str) -> (r: Result<(String, Option<String>), ParseError>)
        ensures
            pair_result(r) == posting_title_of(data@),
    {
        let path: Vec<&str> = vec!["title"];
        assert(str_views(path@) =~= title_path());
        match json_field(data, &path, "title") {
            Ok(text) => {
                let decoded = decode_entities(text.as_str());
                Ok(split_title_and_team(decoded.as_str(), ", "))
            },
            Err(e) => Err(e),
        }
    }

    /// The company of the posting in JSON `data`.
    pub fn parse_company(data: &str) -> (r: Result<String, ParseError>)
        ensures
            text_result(r) == company_of(data@),
    {
        let path: Vec<&str> = vec!["hiringOrganization", "name"];
        assert(str_views(path@) =~= company_path());
        match json_field(data, &path, "hiringOrganization.name") {
            Ok(name) => Ok(trim(name.as_str())),
            Err(e) => Err(e),
        }
    }

    /// The salary of the posting in JSON `data`, if one can be read.
    pub fn parse_salary_range(data: &str) -> (r: Option<SalaryRange>)
        ensures
            r == salary_of(data@),
    {
        let path: Vec<&str> = vec!["description"];
        assert(str_views(path@) =~= description_path());
        let description = match json_string_at(data, &path) {
            Ok(Some(d)) => d,
            _ => { return None; },
        };
        let decoded = decode_entities(description.as_str());
        match SalaryRange::parse_text(decoded.as_str()) {
            Ok(salary) => salary,
            Err(_) => None,
        }
    }
}

impl<'a> Parse<&'a str, Role> for Netflix {
    fn parse(&self, s: &'a str) -> (r: Result<Option<Role>, ParseError>)
        ensures
            role_result(r) == netflix_role_of(s@),
    {
        let data = match node_text(s, DATA_SELECTOR) {
            Ok(d) => d,
            Err(e) => { return Err(e); },
        };
        let company = match Netflix::parse_company(data.as_str()) {
            Ok(c) => c,
            Err(e) => { return Err(e); },
        };
        let (title, team) = match Netflix::parse_title_and_team(data.as_str()) {
            Ok(p) => p,
            Err(e) => { return Err(e); },
        };
        let salary_range = Netflix::parse_salary_range(data.as_str());
        Ok(Some(Role { company, title, team, salary_range }))
    }
}

} // verus!
