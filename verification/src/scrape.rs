//! From the content of a listing to a job, and to the snapshot that is
//! kept of the listing.

use crate::fetch::{ListingUrl, ListingUrlView};
use crate::html::{html_to_markdown, markdown_of};
use crate::job::{Job, JobView, RoleView};
use crate::parse::{
    inferred_parser, lemma_strategies_read_a_role, parsed_role, ParseError, ParseErrorView, Parser,
};
use crate::pattern::str_views;
use crate::text::same_text;
use vstd::prelude::*;

verus! {

/// Why no strategy could be settled on.
#[derive(Clone, Copy, Debug, PartialEq, Eq, Structural)]
pub enum DispatchError {
    /// The address is not served over HTTPS, so its domain says nothing:
    /// the strategy has to be named.
    AmbiguousSource,
    /// No strategy is known for the domain.
    UnknownDomain,
}

/// The strategy for an address: the one that the caller names, or else
/// the one that the domain of an `https` address calls for.
pub open spec fn resolved(url: ListingUrlView, forced: Option<Parser>) -> Result<
    Parser,
    DispatchError,
> {
    match forced {
        Some(parser) => Ok(parser),
        None => if url.scheme != "https"@ {
            Err(DispatchError::AmbiguousSource)
        } else {
            match inferred_parser(url) {
                Some(parser) => Ok(parser),
                None => Err(DispatchError::UnknownDomain),
            }
        },
    }
}

/// Settles on the strategy for an address.
pub fn resolve(url: &ListingUrl, forced: Option<Parser>) -> (r: Result<Parser, DispatchError>)
    ensures
        r == resolved(url@, forced),
{
    match forced {
        Some(parser) => Ok(parser),
        None => {
            if !same_text(url.scheme.as_str(), "https") {
                return Err(DispatchError::AmbiguousSource);
            }
            match Parser::infer(url) {
                Some(parser) => Ok(parser),
                None => Err(DispatchError::UnknownDomain),
            }
        },
    }
}

/// A job read from a listing, with the content it was read from.
#[derive(Debug, PartialEq, Eq)]
pub struct ScrapedContent {
    pub job: Job,
    pub content: String,
}

/// `ScrapedContent` as plain values.
pub ghost struct ScrapedContentView {
    pub job: JobView,
    pub content: Seq<char>,
}

impl View for ScrapedContent {
    type V = ScrapedContentView;

    open spec fn view(&self) -> ScrapedContentView {
        ScrapedContentView { job: self.job@, content: self.content@ }
    }
}

/// Why nothing was read from the content fetched at an address.
#[derive(Debug, PartialEq, Eq)]
pub enum ScrapeError {
    /// No strategy could be settled on.
    Dispatch(DispatchError),
    /// The strategy could not read the content.
    Parse(ParseError),
}

/// A `ScrapeError` as plain values.
pub ghost enum ScrapeErrorView {
    Dispatch(DispatchError),
    Parse(ParseErrorView),
}

impl View for ScrapeError {
    type V = ScrapeErrorView;

    open spec fn view(&self) -> ScrapeErrorView {
        match *self {
            ScrapeError::Dispatch(e) => ScrapeErrorView::Dispatch(e),
            ScrapeError::Parse(e) => ScrapeErrorView::Parse(e@),
        }
    }
}

/// The job that a role read at an address makes: it carries the address.
pub open spec fn job_of(url: ListingUrlView, role: RoleView) -> JobView {
    JobView {
        listing_url: Some(url.href),
        company: role.company,
        title: role.title,
        team: role.team,
        salary_range: role.salary_range,
    }
}

/// What a strategy makes of the content fetched from an address: the job
/// of the role that it reads, or its failure.
pub open spec fn scraped_with(url: ListingUrlView, parser: Parser, content: Seq<char>) -> Result<
    ScrapedContentView,
    ParseErrorView,
> {
    match parsed_role(parser, content) {
        Err(e) => Err(e),
        Ok(role) => Ok(ScrapedContentView { job: job_of(url, role.unwrap()), content }),
    }
}

/// What the content fetched from an address holds, read by the strategy
/// that the address calls for. An address that calls for none is refused:
/// one that is not `https` as ambiguous, one on an unlisted domain as
/// unknown.
pub open spec fn scraped_from(url: ListingUrlView, content: Seq<char>) -> Result<
    ScrapedContentView,
    ScrapeErrorView,
> {
    match resolved(url, None) {
        Err(e) => Err(ScrapeErrorView::Dispatch(e)),
        Ok(parser) => match scraped_with(url, parser, content) {
            Ok(scraped) => Ok(scraped),
            Err(e) => Err(ScrapeErrorView::Parse(e)),
        },
    }
}

/// Why a snapshot could not be taken.
#[derive(Clone, Copy, Debug, PartialEq, Eq, Structural)]
pub enum SnapshotError {
    /// The place for snapshots is a plain file.
    DirectoryIsFile,
}

/// What is to be done to keep a snapshot.
#[derive(Debug, PartialEq, Eq)]
pub enum SnapshotStep {
    /// A snapshot is there already: it is kept as it is.
    Keep,
    /// The snapshot is written, with this text.
    Write { markdown: String },
}

/// A `SnapshotStep` as plain values.
pub ghost enum SnapshotStepView {
    Keep,
    Write { markdown: Seq<char> },
}

impl View for SnapshotStep {
    type V = SnapshotStepView;

    open spec fn view(&self) -> SnapshotStepView {
        match *self {
            SnapshotStep::Keep => SnapshotStepView::Keep,
            SnapshotStep::Write { markdown } => SnapshotStepView::Write { markdown: markdown@ },
        }
    }
}

/// The elements that a snapshot leaves out.
pub open spec fn skipped_tags() -> Seq<Seq<char>> {
    seq!["style"@]
}

/// The step that keeps a snapshot of `content`. A snapshot that exists
/// is never written again.
pub open spec fn snapshot_step_of(content: Seq<char>, directory_is_file: bool, exists: bool)
    -> Result<SnapshotStepView, SnapshotError> {
    if directory_is_file {
        Err(SnapshotError::DirectoryIsFile)
    } else if exists {
        Ok(SnapshotStepView::Keep)
    } else {
        Ok(SnapshotStepView::Write { markdown: markdown_of(content, skipped_tags()) })
    }
}

impl ScrapedContent {
    /// Reads the content fetched from `url` by the given strategy.
    pub fn with_parser(url: &ListingUrl, parser: Parser, content: String) -> (r: Result<
        ScrapedContent,
        ParseError,
    >)
        ensures
            match r {
                Ok(scraped) => scraped_with(url@, parser, content@) == Ok::<
                    ScrapedContentView,
                    ParseErrorView,
                >(scraped@),
                Err(e) => scraped_with(url@, parser, content@) == Err::<
                    ScrapedContentView,
                    ParseErrorView,
                >(e@),
            },
    {
        proof {
            lemma_strategies_read_a_role(parser, content@);
        }
        match parser.parse_role(content.as_str()) {
            Ok(Some(role)) => {
                let job = Job::from_role(role, Some(url.href.clone()));
                Ok(ScrapedContent { job, content })
            },
            Ok(None) => {
                // No strategy ends without a role.
                assert(false);
                Err(ParseError::MissingNode)
            },
            Err(e) => Err(e),
        }
    }

    /// Reads the content fetched from `url` by the strategy that the
    /// address calls for.
    pub fn from_url(url: &ListingUrl, content: String) -> (r: Result<ScrapedContent, ScrapeError>)
        ensures
            match r {
                Ok(scraped) => scraped_from(url@, content@) == Ok::<
                    ScrapedContentView,
                    ScrapeErrorView,
                >(scraped@),
                Err(e) => scraped_from(url@, content@) == Err::<
                    ScrapedContentView,
                    ScrapeErrorView,
                >(e@),
            },
    {
        let parser = match resolve(url, None) {
            Ok(parser) => parser,
            Err(e) => { return Err(ScrapeError::Dispatch(e)); },
        };
        match ScrapedContent::with_parser(url, parser, content) {
            Ok(scraped) => Ok(scraped),
            Err(e) => Err(ScrapeError::Parse(e)),
        }
    }

    /// The step that keeps a snapshot of the content, given what is on
    /// disk: whether the place for snapshots is a plain file, and whether
    /// the snapshot exists.
    pub fn snapshot(&self, directory_is_file: bool, exists: bool) -> (r: Result<
        SnapshotStep,
        SnapshotError,
    >)
        ensures
            match r {
                Ok(step) => snapshot_step_of(self@.content, directory_is_file, exists) == Ok::<
                    SnapshotStepView,
                    SnapshotError,
                >(step@),
                Err(e) => snapshot_step_of(self@.content, directory_is_file, exists) == Err::<
                    SnapshotStepView,
                    SnapshotError,
                >(e),
            },
    {
        if directory_is_file {
            return Err(SnapshotError::DirectoryIsFile);
        }
        if exists {
            return Ok(SnapshotStep::Keep);
        }
        let tags: Vec<&str> = vec!["style"];
        assert(str_views(tags@) =~= skipped_tags());
        let markdown = html_to_markdown(self.content.as_str(), tags);
        Ok(SnapshotStep::Write { markdown })
    }
}

} // verus!
