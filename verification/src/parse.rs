//! Reading a role out of a listing: one strategy for each job board, and
//! the steps they share.

use crate::fetch::{ListingUrl, ListingUrlView};
use crate::html::{select_first_text, selected_text, selector_parses};
use crate::job::{Role, RoleView};
use crate::json::{json_parses, json_string_at, json_text_at};
use crate::parse::apple::{apple_role_of, Apple};
use crate::parse::ashby::{ashby_role_of, Ashby};
use crate::parse::google::{google_role_of, Google};
use crate::parse::greenhouse::{greenhouse_role_of, Greenhouse};
use crate::parse::hiringcafe::{hiringcafe_role_of, HiringCafe};
use crate::parse::meta::{meta_role_of, Meta};
use crate::parse::netflix::{netflix_role_of, Netflix};
use crate::pattern::{
    captures, find_match, first_match, named_captures, opt_views, pattern_compiles, str_views,
};
use crate::salary::{salary_in, SalaryError, SalaryRange};
use crate::text::{opt_view, same_text, split_once, split_once_of, trim, trimmed};
use vstd::prelude::*;

pub mod apple;
pub mod ashby;
pub mod google;
pub mod greenhouse;
pub mod hiringcafe;
pub mod meta;
pub mod mini;
pub mod netflix;

verus! {

/// Why a listing could not be read.
#[derive(Debug, PartialEq, Eq)]
pub enum ParseError {
    /// A selector of the strategy is no CSS selector.
    InvalidSelector,
    /// The selector selects nothing in the document.
    MissingNode,
    /// The embedded data is no JSON.
    InvalidJson,
    /// The embedded data is not wrapped as the strategy expects.
    UnexpectedWrapping,
    /// The data holds no string under the key.
    MissingKey { key: String },
    /// A pattern of the strategy is no regular expression.
    InvalidPattern,
    /// No pattern matched the title of the document.
    NoPatternMatched { title: String },
    /// A pattern matched without capturing a part that it must capture.
    MissingGroup,
    /// The salary is given in a unit that the strategy does not take.
    DisallowedUnit { unit: String },
    /// The salary could not be read.
    Salary(SalaryError),
}

/// A `ParseError` as plain values.
pub ghost enum ParseErrorView {
    InvalidSelector,
    MissingNode,
    InvalidJson,
    UnexpectedWrapping,
    MissingKey { key: Seq<char> },
    InvalidPattern,
    NoPatternMatched { title: Seq<char> },
    MissingGroup,
    DisallowedUnit { unit: Seq<char> },
    Salary(SalaryError),
}

impl View for ParseError {
    type V = ParseErrorView;

    open spec fn view(&self) -> ParseErrorView {
        match *self {
            ParseError::InvalidSelector => ParseErrorView::InvalidSelector,
            ParseError::MissingNode => ParseErrorView::MissingNode,
            ParseError::InvalidJson => ParseErrorView::InvalidJson,
            ParseError::UnexpectedWrapping => ParseErrorView::UnexpectedWrapping,
            ParseError::MissingKey { key } => ParseErrorView::MissingKey { key: key@ },
            ParseError::InvalidPattern => ParseErrorView::InvalidPattern,
            ParseError::NoPatternMatched { title } => ParseErrorView::NoPatternMatched {
                title: title@,
            },
            ParseError::MissingGroup => ParseErrorView::MissingGroup,
            ParseError::DisallowedUnit { unit } => ParseErrorView::DisallowedUnit { unit: unit@ },
            ParseError::Salary(e) => ParseErrorView::Salary(e),
        }
    }
}

/// Something that reads a `Parsed` out of a `Parsable`.
pub trait Parse<Parsable, Parsed> where Parsed: Sized {
    fn parse(&self, p: Parsable) -> Result<Option<Parsed>, ParseError>;
}

/// A type that reads itself out of a `Parsable`.
pub trait ParseSelf<Parsable> where Self: Sized {
    fn parse(p: Parsable) -> Result<Option<Self>, ParseError>;
}

/// The outcome of reading a text, as plain values.
pub open spec fn text_result(r: Result<String, ParseError>) -> Result<Seq<char>, ParseErrorView> {
    match r {
        Ok(s) => Ok(s@),
        Err(e) => Err(e@),
    }
}

/// The outcome of reading a salary, as plain values.
pub open spec fn salary_result(r: Result<Option<SalaryRange>, ParseError>) -> Result<
    Option<SalaryRange>,
    ParseErrorView,
> {
    match r {
        Ok(s) => Ok(s),
        Err(e) => Err(e@),
    }
}

/// The outcome of reading a role, as plain values.
pub open spec fn role_result(r: Result<Option<Role>, ParseError>) -> Result<
    Option<RoleView>,
    ParseErrorView,
> {
    match r {
        Ok(Some(role)) => Ok(Some(role@)),
        Ok(None) => Ok(None),
        Err(e) => Err(e@),
    }
}

/// A title and a team, as plain values.
pub open spec fn pair_view(p: (String, Option<String>)) -> (Seq<char>, Option<Seq<char>>) {
    (p.0@, opt_view(p.1))
}

/// The outcome of reading a title and a team, as plain values.
pub open spec fn pair_result(r: Result<(String, Option<String>), ParseError>) -> Result<
    (Seq<char>, Option<Seq<char>>),
    ParseErrorView,
> {
    match r {
        Ok(p) => Ok(pair_view(p)),
        Err(e) => Err(e@),
    }
}

/// A salary error as an error of reading a listing.
pub open spec fn lifted(r: Result<Option<SalaryRange>, SalaryError>) -> Result<
    Option<SalaryRange>,
    ParseErrorView,
> {
    match r {
        Ok(s) => Ok(s),
        Err(e) => Err(ParseErrorView::Salary(e)),
    }
}

pub fn lift(r: Result<Option<SalaryRange>, SalaryError>) -> (out: Result<
    Option<SalaryRange>,
    ParseError,
>)
    ensures
        salary_result(out) == lifted(r),
{
    match r {
        Ok(s) => Ok(s),
        Err(e) => Err(ParseError::Salary(e)),
    }
}

/// A combined title: what stands before the first `sep` is the title,
/// what follows it the team. Without `sep`, or with nothing after it, there
/// is no team.
pub open spec fn title_and_team_of(text: Seq<char>, sep: Seq<char>) -> (
    Seq<char>,
    Option<Seq<char>>,
) {
    match split_once_of(text, sep) {
        Some((title, team)) => (
            title,
            if team.len() == 0 {
                None
            } else {
                Some(team)
            },
        ),
        None => (text, None),
    }
}

pub fn split_title_and_team(text: &str, sep: &str) -> (r: (String, Option<String>))
    ensures
        pair_view(r) == title_and_team_of(text@, sep@),
{
    match split_once(text, sep) {
        Some((title, team)) => {
            if team.as_str().is_empty() {
                (title, None)
            } else {
                (title, Some(team))
            }
        },
        None => (text.to_owned(), None),
    }
}

/// The text of the first node that `selector` selects in `html`.
pub open spec fn node_text_of(html: Seq<char>, selector: Seq<char>) -> Result<
    Seq<char>,
    ParseErrorView,
> {
    if !selector_parses(selector) {
        Err(ParseErrorView::InvalidSelector)
    } else {
        match selected_text(html, selector) {
            Some(text) => Ok(text),
            None => Err(ParseErrorView::MissingNode),
        }
    }
}

pub fn node_text(html: &str, selector: &str) -> (r: Result<String, ParseError>)
    ensures
        text_result(r) == node_text_of(html@, selector@),
{
    match select_first_text(html, selector) {
        None => Err(ParseError::InvalidSelector),
        Some(None) => Err(ParseError::MissingNode),
        Some(Some(text)) => Ok(text),
    }
}

/// The string that JSON `data` holds under `path`; `key` names the path in
/// the error.
pub open spec fn json_field_of(data: Seq<char>, path: Seq<Seq<char>>, key: Seq<char>) -> Result<
    Seq<char>,
    ParseErrorView,
> {
    if !json_parses(data) {
        Err(ParseErrorView::InvalidJson)
    } else {
        match json_text_at(data, path) {
            Some(text) => Ok(text),
            None => Err(ParseErrorView::MissingKey { key }),
        }
    }
}

pub fn json_field(data: &str, path: &Vec<&str>, key: &str) -> (r: Result<String, ParseError>)
    ensures
        text_result(r) == json_field_of(data@, str_views(path@), key@),
{
    match json_string_at(data, path) {
        Err(_) => Err(ParseError::InvalidJson),
        Ok(None) => Err(ParseError::MissingKey { key: key.to_owned() }),
        Ok(Some(text)) => Ok(text),
    }
}

/// The names of the groups that a title pattern may capture.
pub open spec fn title_groups() -> Seq<Seq<char>> {
    seq!["title"@, "team"@, "company"@]
}

/// What a title pattern captured.
#[derive(Debug, PartialEq, Eq)]
pub struct TitleParts {
    pub title: String,
    pub team: Option<String>,
    pub company: Option<String>,
}

/// `TitleParts` as plain values.
pub ghost struct TitlePartsView {
    pub title: Seq<char>,
    pub team: Option<Seq<char>>,
    pub company: Option<Seq<char>>,
}

impl View for TitleParts {
    type V = TitlePartsView;

    open spec fn view(&self) -> TitlePartsView {
        TitlePartsView {
            title: self.title@,
            team: opt_view(self.team),
            company: opt_view(self.company),
        }
    }
}

pub open spec fn parts_result(r: Result<TitleParts, ParseError>) -> Result<
    TitlePartsView,
    ParseErrorView,
> {
    match r {
        Ok(p) => Ok(p@),
        Err(e) => Err(e@),
    }
}

pub open spec fn opt_trimmed(s: Option<Seq<char>>) -> Option<Seq<char>> {
    match s {
        Some(t) => Some(trimmed(t)),
        None => None,
    }
}

/// A captured team, trimmed; a team of which nothing is left is no team.
pub open spec fn team_of(s: Option<Seq<char>>) -> Option<Seq<char>> {
    match s {
        Some(t) => if trimmed(t).len() == 0 {
            None
        } else {
            Some(trimmed(t))
        },
        None => None,
    }
}

/// The parts of a title, from what the groups `title`, `team` and
/// `company` captured: each without the whitespace around it. The title
/// must have been captured; an empty team is no team.
pub open spec fn parts_of_captures(
    title: Option<Seq<char>>,
    team: Option<Seq<char>>,
    company: Option<Seq<char>>,
) -> Result<TitlePartsView, ParseErrorView> {
    match title {
        Some(t) => Ok(
            TitlePartsView { title: trimmed(t), team: team_of(team), company: opt_trimmed(company) },
        ),
        None => Err(ParseErrorView::MissingGroup),
    }
}

fn trim_team(s: &Option<String>) -> (r: Option<String>)
    ensures
        opt_view(r) == team_of(opt_view(*s)),
{
    match s {
        Some(t) => {
            let team = trim(t.as_str());
            if team.as_str().is_empty() {
                None
            } else {
                Some(team)
            }
        },
        None => None,
    }
}

fn trim_opt(s: &Option<String>) -> (r: Option<String>)
    ensures
        opt_view(r) == opt_trimmed(opt_view(*s)),
{
    match s {
        Some(t) => Some(trim(t.as_str())),
        None => None,
    }
}

/// The parts of a title from the texts that a pattern captured.
pub fn parts_from_captures(
    title: &Option<String>,
    team: &Option<String>,
    company: &Option<String>,
) -> (r: Result<TitleParts, ParseError>)
    ensures
        parts_result(r) == parts_of_captures(opt_view(*title), opt_view(*team), opt_view(*company)),
{
    match title {
        Some(t) => Ok(
            TitleParts { title: trim(t.as_str()), team: trim_team(team), company: trim_opt(company) },
        ),
        None => Err(ParseError::MissingGroup),
    }
}

/// The parts that the first matching pattern among `patterns[from..]`
/// captures in `text`. The patterns are tried in order, and the first one
/// that matches decides.
pub open spec fn title_parts_from(patterns: Seq<Seq<char>>, text: Seq<char>, from: int) -> Result<
    TitlePartsView,
    ParseErrorView,
>
    decreases patterns.len() - from,
{
    if from < 0 || from >= patterns.len() {
        Err(ParseErrorView::NoPatternMatched { title: text })
    } else if !pattern_compiles(patterns[from]) {
        Err(ParseErrorView::InvalidPattern)
    } else {
        match named_captures(patterns[from], text, title_groups()) {
            Some(groups) => parts_of_captures(groups[0], groups[1], groups[2]),
            None => title_parts_from(patterns, text, from + 1),
        }
    }
}

/// The parts of the title `text` under an ordered list of patterns.
pub open spec fn title_parts_of(patterns: Seq<Seq<char>>, text: Seq<char>) -> Result<
    TitlePartsView,
    ParseErrorView,
> {
    title_parts_from(patterns, text, 0)
}

/// Tries `patterns` on `text` in order. The first that matches gives the
/// parts of the title; where none does, the error carries the title.
pub fn match_title(patterns: &Vec<&str>, text: &str) -> (r: Result<TitleParts, ParseError>)
    ensures
        parts_result(r) == title_parts_of(str_views(patterns@), text@),
{
    let names: Vec<&str> = vec!["title", "team", "company"];
    assert(str_views(names@) =~= title_groups());
    let mut i: usize = 0;
    while i < patterns.len()
        invariant
            i <= patterns.len(),
            str_views(names@) == title_groups(),
            names@.len() == 3,
            title_parts_from(str_views(patterns@), text@, i as int) == title_parts_of(
                str_views(patterns@),
                text@,
            ),
        decreases patterns.len() - i,
    {
        assert(str_views(patterns@)[i as int] == patterns@[i as int]@);
        let found = match captures(patterns[i], text, &names) {
            Ok(found) => found,
            Err(_) => { return Err(ParseError::InvalidPattern); },
        };
        match found {
            Some(groups) => {
                assert(forall|k: int|
                    0 <= k < 3 ==> opt_views(groups@)[k] == opt_view(#[trigger] groups@[k]));
                return parts_from_captures(&groups[0], &groups[1], &groups[2]);
            },
            None => {},
        }
        i += 1;
    }
    Err(ParseError::NoPatternMatched { title: text.to_owned() })
}

/// The salary in the first stretch of `text` that `pattern` matches; none
/// where it matches nowhere, or where the stretch names no salary.
pub open spec fn salary_in_phrase(pattern: Seq<char>, text: Seq<char>) -> Result<
    Option<SalaryRange>,
    ParseErrorView,
> {
    if !pattern_compiles(pattern) {
        Err(ParseErrorView::InvalidPattern)
    } else {
        match first_match(pattern, text) {
            Some(phrase) => lifted(salary_in(phrase)),
            None => Ok(None),
        }
    }
}

pub fn salary_from_phrase(pattern: &str, text: &str) -> (r: Result<Option<SalaryRange>, ParseError>)
    ensures
        salary_result(r) == salary_in_phrase(pattern@, text@),
{
    let found = match find_match(pattern, text) {
        Ok(found) => found,
        Err(_) => { return Err(ParseError::InvalidPattern); },
    };
    match found {
        Some(phrase) => lift(SalaryRange::parse_text(phrase.as_str())),
        None => Ok(None),
    }
}

impl<'a> ParseSelf<&'a str> for SalaryRange {
    /// Reads the first salary that the text mentions.
    fn parse(p: &'a str) -> (r: Result<Option<SalaryRange>, ParseError>)
        ensures
            salary_result(r) == lifted(salary_in(p@)),
    {
        lift(SalaryRange::parse_text(p))
    }
}

/// The strategy by which a listing is read: one for each job board.
/// `Apple` is chosen by name only: no domain calls for it.
#[derive(Clone, Copy, Debug, PartialEq, Eq, Structural)]
pub enum Parser {
    Apple,
    Ashby,
    Google,
    Greenhouse,
    HiringCafe,
    Meta,
    Netflix,
}

/// The strategy for listings on a domain: each listed domain has one, and
/// no other domain has any.
pub open spec fn parser_for_domain(domain: Seq<char>) -> Option<Parser> {
    if domain == "hiring.cafe"@ {
        Some(Parser::HiringCafe)
    } else if domain == "jobs.ashbyhq.com"@ {
        Some(Parser::Ashby)
    } else if domain == "job-boards.greenhouse.io"@ {
        Some(Parser::Greenhouse)
    } else if domain == "www.metacareers.com"@ {
        Some(Parser::Meta)
    } else if domain == "www.google.com"@ {
        Some(Parser::Google)
    } else if domain == "explore.jobs.netflix.net"@ {
        Some(Parser::Netflix)
    } else {
        None
    }
}

/// The strategy that an address calls for. Only an `https` address on a
/// listed domain calls for one.
pub open spec fn inferred_parser(url: ListingUrlView) -> Option<Parser> {
    if url.scheme != "https"@ {
        None
    } else {
        match url.domain {
            Some(domain) => parser_for_domain(domain),
            None => None,
        }
    }
}

/// What a strategy reads out of the content of a listing.
pub open spec fn parsed_role(parser: Parser, content: Seq<char>) -> Result<
    Option<RoleView>,
    ParseErrorView,
> {
    match parser {
        Parser::Apple => apple_role_of(content),
        Parser::Ashby => ashby_role_of(content),
        Parser::Google => google_role_of(content),
        Parser::Greenhouse => greenhouse_role_of(content),
        Parser::HiringCafe => hiringcafe_role_of(content),
        Parser::Meta => meta_role_of(content),
        Parser::Netflix => netflix_role_of(content),
    }
}

/// Every strategy reads a role or fails: none ends without either.
pub proof fn lemma_strategies_read_a_role(parser: Parser, content: Seq<char>)
    ensures
        !(parsed_role(parser, content) matches Ok(None)),
{
}

impl Parser {
    /// The strategy that an address calls for.
    pub fn infer(url: &ListingUrl) -> (r: Option<Parser>)
        ensures
            r == inferred_parser(url@),
    {
        if !same_text(url.scheme.as_str(), "https") {
            return None;
        }
        let domain = match &url.domain {
            Some(domain) => domain.as_str(),
            None => { return None; },
        };
        if same_text(domain, "hiring.cafe") {
            Some(Parser::HiringCafe)
        } else if same_text(domain, "jobs.ashbyhq.com") {
            Some(Parser::Ashby)
        } else if same_text(domain, "job-boards.greenhouse.io") {
            Some(Parser::Greenhouse)
        } else if same_text(domain, "www.metacareers.com") {
            Some(Parser::Meta)
        } else if same_text(domain, "www.google.com") {
            Some(Parser::Google)
        } else if same_text(domain, "explore.jobs.netflix.net") {
            Some(Parser::Netflix)
        } else {
            None
        }
    }

    /// Reads a role out of the content of a listing.
    pub fn parse_role(&self, s: &str) -> (r: Result<Option<Role>, ParseError>)
        ensures
            role_result(r) == parsed_role(*self, s@),
    {
        match self {
            Parser::Apple => (Apple {  }).parse(s),
            Parser::Ashby => (Ashby {  }).parse(s),
            Parser::Google => (Google {  }).parse(s),
            Parser::Greenhouse => (Greenhouse {  }).parse(s),
            Parser::HiringCafe => (HiringCafe {  }).parse(s),
            Parser::Meta => (Meta {  }).parse(s),
            Parser::Netflix => (Netflix {  }).parse(s),
        }
    }
}

} // verus!
