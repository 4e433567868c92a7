//! Listings on Ashby boards: the role stands in a block of embedded
//! JSON-LD data.

use crate::amount::{opt_amount_view, Amount, AmountView};
use crate::job::{Role, RoleView};
use crate::json::{json_number_at, json_parses, json_string_at, json_text_at, json_unsigned_at};
use crate::parse::{
    json_field, json_field_of, lift, lifted, node_text, node_text_of, pair_result, role_result,
    salary_result, split_title_and_team, text_result, title_and_team_of, Parse, ParseError,
    ParseErrorView,
};
use crate::pattern::str_views;
use crate::salary::SalaryRange;
use crate::text::{same_text, trim, trimmed};
use vstd::prelude::*;

verus! {

/// Where the embedded data stands.
pub const DATA_SELECTOR: &'static str = r#"script[type="application/ld+json"]"#;

/// The only unit in which a salary is taken.
pub const SALARY_UNIT: &'static str = "YEAR";

pub open spec fn company_path() -> Seq<Seq<char>> {
    seq!["hiringOrganization"@, "name"@]
}

pub open spec fn title_path() -> Seq<Seq<char>> {
    seq!["title"@]
}

pub open spec fn unit_path() -> Seq<Seq<char>> {
    seq!["baseSalary"@, "value"@, "unitText"@]
}

pub open spec fn min_path() -> Seq<Seq<char>> {
    seq!["baseSalary"@, "value"@, "minValue"@]
}

pub open spec fn max_path() -> Seq<Seq<char>> {
    seq!["baseSalary"@, "value"@, "maxValue"@]
}

/// The company: the name of the hiring organisation, trimmed.
pub open spec fn company_of(data: Seq<char>) -> Result<Seq<char>, ParseErrorView> {
    match json_field_of(data, company_path(), "hiringOrganization.name"@) {
        Ok(name) => Ok(trimmed(name)),
        Err(e) => Err(e),
    }
}

/// Title and team: the posting's title, split at its first `", "`.
pub open spec fn posting_title_of(data: Seq<char>) -> Result<
    (Seq<char>, Option<Seq<char>>),
    ParseErrorView,
> {
    match json_field_of(data, title_path(), "title"@) {
        Ok(text) => Ok(title_and_team_of(text, ", "@)),
        Err(e) => Err(e),
    }
}

/// The amount that the data holds under `path`: a string, or else an
/// unsigned whole number.
pub open spec fn amount_at(data: Seq<char>, path: Seq<Seq<char>>) -> Option<AmountView> {
    match json_text_at(data, path) {
        Some(text) => Some(AmountView::Text(text)),
        None => match json_number_at(data, path) {
            Some(n) => Some(AmountView::Number(n)),
            None => None,
        },
    }
}

/// The salary: the unit must be `YEAR`; the bounds that are given are read
/// as yearly amounts.
pub open spec fn salary_of(data: Seq<char>) -> Result<Option<SalaryRange>, ParseErrorView> {
    match json_field_of(data, unit_path(), "baseSalary.value.unitText"@) {
        Err(e) => Err(e),
        Ok(unit) => if unit != SALARY_UNIT@ {
            Err(ParseErrorView::DisallowedUnit { unit })
        } else {
            lifted(
                SalaryRange::spec_from_structured(
                    amount_at(data, min_path()),
                    amount_at(data, max_path()),
                    "year"@,
                ),
            )
        },
    }
}

/// The role that an Ashby listing describes.
pub open spec fn ashby_role_of(html: Seq<char>) -> Result<Option<RoleView>, ParseErrorView> {
    match node_text_of(html, DATA_SELECTOR@) {
        Err(e) => Err(e),
        Ok(data) => match company_of(data) {
            Err(e) => Err(e),
            Ok(company) => match posting_title_of(data) {
                Err(e) => Err(e),
                Ok((title, team)) => match salary_of(data) {
                    Err(e) => Err(e),
                    Ok(salary_range) => Ok(Some(RoleView { company, title, team, salary_range })),
                },
            },
        },
    }
}

pub struct Ashby {}

impl Ashby {
    /// Title and team of the posting in JSON `data`.
    pub fn parse_title_and_team(data: &str) -> (r: Result<(String, Option<String>), ParseError>)
        ensures
            pair_result(r) == posting_title_of(data@),
    {
        let path: Vec<&str> = vec!["title"];
        assert(str_views(path@) =~= title_path());
        match json_field(data, &path, "title") {
            Ok(text) => Ok(split_title_and_team(text.as_str(), ", ")),
            Err(e) => Err(e),
        }
    }

    /// The company of the posting in JSON `data`.
    pub fn parse_company(data: &str) -> (r: Result<String, ParseError>)
        ensures
            text_result(r) == company_of(data@),
    {
        let path: Vec<&str> = vec!["hiringOrganization", "name"];
        assert(str_views(path@) =~= company_path());
        match json_field(data, &path, "hiringOrganization.name") {
            Ok(name) => Ok(trim(name.as_str())),
            Err(e) => Err(e),
        }
    }

    /// The salary of the posting in JSON `data`.
    pub fn parse_salary_range(data: &str) -> (r: Result<Option<SalaryRange>, ParseError>)
        ensures
            salary_result(r) == salary_of(data@),
    {
        let unit_keys: Vec<&str> = vec!["baseSalary", "value", "unitText"];
        let min_keys: Vec<&str> = vec!["baseSalary", "value", "minValue"];
        let max_keys: Vec<&str> = vec!["baseSalary", "value", "maxValue"];
        proof {
            assert(str_views(unit_keys@) =~= unit_path());
            assert(str_views(min_keys@) =~= min_path());
            assert(str_views(max_keys@) =~= max_path());
        }
        let unit = match json_field(data, &unit_keys, "baseSalary.value.unitText") {
            Ok(unit) => unit,
            Err(e) => { return Err(e); },
        };
        if !same_text(unit.as_str(), SALARY_UNIT) {
            return Err(ParseError::DisallowedUnit { unit });
        }
        let lower = match Ashby::amount(data, &min_keys) {
            Ok(v) => v,
            Err(e) => { return Err(e); },
        };
        let upper = match Ashby::amount(data, &max_keys) {
            Ok(v) => v,
            Err(e) => { return Err(e); },
        };
        lift(SalaryRange::from_structured(&lower, &upper, "year"))
    }

    /// The amount that JSON `data` holds under `path`.
    fn amount(data: &str, path: &Vec<&str>) -> (r: Result<Option<Amount>, ParseError>)
        ensures
            match r {
                Ok(found) => json_parses(data@) && opt_amount_view(found) == amount_at(
                    data@,
                    str_views(path@),
                ),
                Err(e) => !json_parses(data@) && e@ == ParseErrorView::InvalidJson,
            },
    {
        let text = match json_string_at(data, path) {
            Ok(v) => v,
            Err(_) => { return Err(ParseError::InvalidJson); },
        };
        match text {
            Some(t) => Ok(Some(Amount::Text(t))),
            None => match json_unsigned_at(data, path) {
                Ok(Some(n)) => Ok(Some(Amount::Number(n))),
                Ok(None) => Ok(None),
                Err(_) => Err(ParseError::InvalidJson),
            },
        }
    }
}

impl<'a> Parse<&'a str, Role> for Ashby {
    fn parse(&self, s: &'a str) -> (r: Result<Option<Role>, ParseError>)
        ensures
            role_result(r) == ashby_role_of(s@),
    {
        let data = match node_text(s, DATA_SELECTOR) {
            Ok(d) => d,
            Err(e) => { return Err(e); },
        };
        let company = match Ashby::parse_company(data.as_str()) {
            Ok(c) => c,
            Err(e) => { return Err(e); },
        };
        let (title, team) = match Ashby::parse_title_and_team(data.as_str()) {
            Ok(p) => p,
            Err(e) => { return Err(e); },
        };
        let salary_range = match Ashby::parse_salary_range(data.as_str()) {
            Ok(r) => r,
            Err(e) => { return Err(e); },
        };
        Ok(Some(Role { company, title, team, salary_range }))
    }
}

} // verus!
