use ply::fetch::{FetchError, HttpSource, ListingUrl, LocalFileSource, Source};
use ply::job::Job;
use ply::parse::{ParseError, Parser};
use ply::salary::SalaryRange;
use ply::scrape::{
    resolve, DispatchError, ScrapeError, ScrapedContent, SnapshotError, SnapshotStep,
};

fn url(text: &str) -> ListingUrl {
    ListingUrl::parse(text).unwrap()
}

#[test]
fn listing_url_is_read_by_parts() {
    let u = url("HTTPS://Jobs.AshbyHQ.com/acme/../acme/1234?x=1");
    assert_eq!(u.scheme, "https");
    assert_eq!(u.domain, Some("jobs.ashbyhq.com".to_string()));
    assert_eq!(u.href, "https://jobs.ashbyhq.com/acme/1234?x=1");
    let f = url("file:///tmp/listing.html");
    assert_eq!(f.scheme, "file");
    assert_eq!(f.domain, None);
    let ip = url("https://127.0.0.1/x");
    assert_eq!(ip.domain, None);
    assert_eq!(ListingUrl::parse("not a url"), Err(FetchError::InvalidUrl));
    assert_eq!(ListingUrl::parse("/relative/path"), Err(FetchError::InvalidUrl));
}

#[test]
fn source_follows_the_scheme() {
    let web = url("https://hiring.cafe/job/1");
    assert_eq!(Source::from_url(&web), Ok(Source::Http(HttpSource { url: web.clone() })));
    assert_eq!(Source::from_url(&web).unwrap().url(), &web);
    let local = url("file:///tmp/listing.html");
    assert_eq!(
        Source::from_url(&local),
        Ok(Source::LocalFile(LocalFileSource { url: local.clone() }))
    );
    let other = url("ftp://example.com/x");
    assert_eq!(
        Source::from_url(&other),
        Err(FetchError::UnsupportedScheme { scheme: "ftp".to_string() })
    );
    let plain = url("http://example.com/x");
    assert_eq!(
        Source::from_url(&plain),
        Err(FetchError::UnsupportedScheme { scheme: "http".to_string() })
    );
    assert_eq!(HttpSource::from_url(&web), Ok(HttpSource { url: web.clone() }));
    assert_eq!(
        HttpSource::from_url(&local),
        Err(FetchError::UnsupportedScheme { scheme: "file".to_string() })
    );
    assert_eq!(LocalFileSource::from_url(&local), Ok(LocalFileSource { url: local.clone() }));
    assert_eq!(
        LocalFileSource::from_url(&web),
        Err(FetchError::UnsupportedScheme { scheme: "https".to_string() })
    );
}

#[test]
fn parser_is_inferred_from_the_domain() {
    assert_eq!(Parser::infer(&url("https://hiring.cafe/job/1")), Some(Parser::HiringCafe));
    assert_eq!(Parser::infer(&url("https://jobs.ashbyhq.com/acme/1")), Some(Parser::Ashby));
    assert_eq!(
        Parser::infer(&url("https://job-boards.greenhouse.io/acme/jobs/1")),
        Some(Parser::Greenhouse)
    );
    assert_eq!(Parser::infer(&url("https://www.metacareers.com/jobs/1")), Some(Parser::Meta));
    assert_eq!(Parser::infer(&url("https://www.google.com/about/careers/1")), Some(Parser::Google));
    assert_eq!(Parser::infer(&url("https://explore.jobs.netflix.net/careers/job/1")), Some(Parser::Netflix));
    assert_eq!(Parser::infer(&url("https://example.com/")), None);
    assert_eq!(Parser::infer(&url("https://ashbyhq.com/")), None);
    assert_eq!(Parser::infer(&url("http://hiring.cafe/job/1")), None);
    assert_eq!(Parser::infer(&url("file:///tmp/x.html")), None);
    assert_eq!(Parser::infer(&url("https://127.0.0.1/")), None);
}

#[test]
fn resolve_takes_the_forced_strategy_first() {
    assert_eq!(resolve(&url("https://hiring.cafe/job/1"), None), Ok(Parser::HiringCafe));
    assert_eq!(resolve(&url("https://hiring.cafe/job/1"), Some(Parser::Meta)), Ok(Parser::Meta));
    assert_eq!(resolve(&url("file:///tmp/x.html"), None), Err(DispatchError::AmbiguousSource));
    assert_eq!(resolve(&url("file:///tmp/x.html"), Some(Parser::Ashby)), Ok(Parser::Ashby));
    assert_eq!(resolve(&url("https://example.com/"), None), Err(DispatchError::UnknownDomain));
    assert_eq!(resolve(&url("https://example.com/"), Some(Parser::Google)), Ok(Parser::Google));
    assert_eq!(resolve(&url("https://127.0.0.1/"), None), Err(DispatchError::UnknownDomain));
}

const HIRING_CAFE: &str = r#"<html><body><h2 class="font-extrabold">Data Engineer, Platform</h2><div class="text-xl">@ Acme</div><div><span class="rounded">$50/hr</span></div></body></html>"#;

#[test]
fn scraped_job_carries_the_address() {
    let address = url("https://hiring.cafe/job/1");
    let scraped = ScrapedContent::from_url(&address, HIRING_CAFE.to_string()).unwrap();
    assert_eq!(
        scraped.job,
        Job {
            listing_url: Some("https://hiring.cafe/job/1".to_string()),
            company: "Acme".to_string(),
            title: "Data Engineer".to_string(),
            team: Some("Platform".to_string()),
            salary_range: Some(SalaryRange { lower: 104_000, range: None }),
        }
    );
    assert_eq!(scraped.content, HIRING_CAFE);
    let local = url("file:///tmp/x.html");
    let local = url("file:///tmp/x.html");
    let forced =
        ScrapedContent::with_parser(&local, Parser::HiringCafe, HIRING_CAFE.to_string()).unwrap();
    assert_eq!(forced.job.listing_url, Some("file:///tmp/x.html".to_string()));
    assert_eq!(forced.job.company, "Acme");
    assert_eq!(
        ScrapedContent::with_parser(&local, Parser::Ashby, HIRING_CAFE.to_string()),
        Err(ParseError::MissingNode)
    );
}

#[test]
fn scraping_fails_where_no_strategy_is_called_for() {
    assert_eq!(
        ScrapedContent::from_url(&url("file:///tmp/x.html"), HIRING_CAFE.to_string()),
        Err(ScrapeError::Dispatch(DispatchError::AmbiguousSource))
    );
    assert_eq!(
        ScrapedContent::from_url(&url("http://hiring.cafe/job/1"), HIRING_CAFE.to_string()),
        Err(ScrapeError::Dispatch(DispatchError::AmbiguousSource))
    );
    assert_eq!(
        ScrapedContent::from_url(&url("https://example.com/"), HIRING_CAFE.to_string()),
        Err(ScrapeError::Dispatch(DispatchError::UnknownDomain))
    );
    assert_eq!(
        ScrapedContent::from_url(&url("https://127.0.0.1/"), HIRING_CAFE.to_string()),
        Err(ScrapeError::Dispatch(DispatchError::UnknownDomain))
    );
    assert_eq!(
        ScrapedContent::from_url(&url("https://jobs.ashbyhq.com/a/1"), HIRING_CAFE.to_string()),
        Err(ScrapeError::Parse(ParseError::MissingNode))
    );
}

#[test]
fn snapshot_is_taken_once() {
    let job = Job {
        listing_url: None,
        company: "Acme".to_string(),
        title: "Engineer".to_string(),
        team: None,
        salary_range: None,
    };
    let scraped = ScrapedContent {
        job,
        content: "<html><head><style>p { color: red; }</style></head><body><h1>Engineer</h1><p>Build <b>things</b>.</p></body></html>".to_string(),
    };
    assert_eq!(scraped.snapshot(true, false), Err(SnapshotError::DirectoryIsFile));
    assert_eq!(scraped.snapshot(true, true), Err(SnapshotError::DirectoryIsFile));
    assert_eq!(scraped.snapshot(false, true), Ok(SnapshotStep::Keep));
    assert_eq!(
        scraped.snapshot(false, false),
        Ok(SnapshotStep::Write { markdown: "# Engineer\n\nBuild **things**.".to_string() })
    );
}
