//! Listings on hiring.cafe: title, company and salary each stand in a
//! node of the page.

use crate::job::{Role, RoleView};
use crate::parse::{
    lift, lifted, node_text, node_text_of, pair_result, role_result, salary_result,
    split_title_and_team, text_result, title_and_team_of, Parse, ParseError, ParseErrorView,
};
use crate::salary::{salary_in, SalaryRange};
use crate::text::{replace, replaced};
use vstd::prelude::*;

verus! {

/// Where title and team stand.
pub const TITLE_SELECTOR: &'static str = "h2.font-extrabold";

/// Where the company stands.
pub const COMPANY_SELECTOR: &'static str = ".text-xl";

/// Where the salary stands.
pub const SALARY_SELECTOR: &'static str = "span.rounded:nth-child(1)";

/// Title and team: the heading, split at its first `", "`.
pub open spec fn heading_of(html: Seq<char>) -> Result<
    (Seq<char>, Option<Seq<char>>),
    ParseErrorView,
> {
    match node_text_of(html, TITLE_SELECTOR@) {
        Ok(text) => Ok(title_and_team_of(text, ", "@)),
        Err(e) => Err(e),
    }
}

/// The company: the text of its node, without the `@ ` that marks it.
pub open spec fn company_of(html: Seq<char>) -> Result<Seq<char>, ParseErrorView> {
    match node_text_of(html, COMPANY_SELECTOR@) {
        Ok(text) => Ok(replaced(text, "@ "@, ""@)),
        Err(e) => Err(e),
    }
}

/// The salary: the first one that the salary badge mentions.
pub open spec fn salary_of(html: Seq<char>) -> Result<Option<SalaryRange>, ParseErrorView> {
    match node_text_of(html, SALARY_SELECTOR@) {
        Ok(text) => lifted(salary_in(text)),
        Err(e) => Err(e),
    }
}

/// The role that a hiring.cafe listing describes.
pub open spec fn hiringcafe_role_of(html: Seq<char>) -> Result<Option<RoleView>, ParseErrorView> {
    match company_of(html) {
        Err(e) => Err(e),
        Ok(company) => match heading_of(html) {
            Err(e) => Err(e),
            Ok((title, team)) => match salary_of(html) {
                Err(e) => Err(e),
                Ok(salary_range) => Ok(Some(RoleView { company, title, team, salary_range })),
            },
        },
    }
}

pub struct HiringCafe {}

impl HiringCafe {
    /// Title and team of the listing.
    pub fn parse_title_and_team(html: &str) -> (r: Result<(String, Option<String>), ParseError>)
        ensures
            pair_result(r) == heading_of(html@),
    {
        match node_text(html, TITLE_SELECTOR) {
            Ok(text) => Ok(split_title_and_team(text.as_str(), ", ")),
            Err(e) => Err(e),
        }
    }

    /// The company of the listing.
    pub fn parse_company(html: &str) -> (r: Result<String, ParseError>)
        ensures
            text_result(r) == company_of(html@),
    {
        match node_text(html, COMPANY_SELECTOR) {
            Ok(text) => Ok(replace(text.as_str(), "@ ", "")),
            Err(e) => Err(e),
        }
    }

    /// The salary of the listing.
    pub fn parse_salary_range(html: &str) -> (r: Result<Option<SalaryRange>, ParseError>)
        ensures
            salary_result(r) == salary_of(html@),
    {
        match node_text(html, SALARY_SELECTOR) {
            Ok(text) => lift(SalaryRange::parse_text(text.as_str())),
            Err(e) => Err(e),
        }
    }
}

impl<'a> Parse<&'a str, Role> for HiringCafe {
    fn parse(&self, s: &'a str) -> (r: Result<Option<Role>, ParseError>)
        ensures
            role_result(r) == hiringcafe_role_of(s@),
    {
        let company = match HiringCafe::parse_company(s) {
            Ok(c) => c,
            Err(e) => { return Err(e); },
        };
        let (title, team) = match HiringCafe::parse_title_and_team(s) {
            Ok(p) => p,
            Err(e) => { return Err(e); },
        };
        let salary_range = match HiringCafe::parse_salary_range(s) {
            Ok(r) => r,
            Err(e) => { return Err(e); },
        };
        Ok(Some(Role { company, title, team, salary_range }))
    }
}

} // verus!
