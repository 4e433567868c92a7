use ply::job::Role;
use ply::parse::apple::Apple;
use ply::parse::ashby::Ashby;
use ply::parse::google::Google;
use ply::parse::greenhouse::Greenhouse;
use ply::parse::hiringcafe::HiringCafe;
use ply::parse::meta::Meta;
use ply::parse::mini::Mini;
use ply::parse::netflix::Netflix;
use ply::parse::{
    match_title, node_text, salary_from_phrase, split_title_and_team, Parse, ParseError, ParseSelf,
    Parser, TitleParts,
};
use ply::salary::{SalaryError, SalaryRange};

fn role(company: &str, title: &str, team: Option<&str>, salary_range: Option<SalaryRange>) -> Role {
    Role {
        company: company.to_string(),
        title: title.to_string(),
        team: team.map(|t| t.to_string()),
        salary_range,
    }
}

fn span(lower: u32, upper: u32) -> Option<SalaryRange> {
    Some(SalaryRange { lower, range: Some(upper - lower) })
}

fn parts(company: &str, title: &str, team: Option<&str>) -> TitleParts {
    TitleParts {
        title: title.to_string(),
        team: team.map(|t| t.to_string()),
        company: Some(company.to_string()),
    }
}

fn page(title: &str, body: &str) -> String {
    format!("<html><head><title>{}</title></head><body>{}</body></html>", title, body)
}

#[test]
fn greenhouse_dash_pattern() {
    assert_eq!(
        Greenhouse::parse_company_title_and_team(
            "Job Application for Staff Engineer - Platform at Acme"
        ),
        Ok(parts("Acme", "Staff Engineer", Some("Platform")))
    );
}

#[test]
fn greenhouse_no_team_fallback() {
    assert_eq!(
        Greenhouse::parse_company_title_and_team("Job Application for Staff Engineer at Acme"),
        Ok(parts("Acme", "Staff Engineer", None))
    );
}

#[test]
fn greenhouse_delimiter_pattern() {
    assert_eq!(
        Greenhouse::parse_company_title_and_team(
            "Job Application for Software Engineer, Payments at Acme"
        ),
        Ok(parts("Acme", "Software Engineer", Some("Payments")))
    );
    assert_eq!(
        Greenhouse::parse_company_title_and_team(
            "Job Application for Software Engineer: Payments (Remote) at Acme"
        ),
        Ok(parts("Acme", "Software Engineer", Some("Payments")))
    );
}

#[test]
fn greenhouse_parenthesis_pattern() {
    assert_eq!(
        Greenhouse::parse_company_title_and_team(
            "Job Application for Software Engineer (Payments; Remote) at Acme"
        ),
        Ok(parts("Acme", "Software Engineer", Some("Payments")))
    );
}

#[test]
fn greenhouse_pipe_pattern() {
    assert_eq!(
        Greenhouse::parse_company_title_and_team("Software Engineer - Payments (Remote) | Acme"),
        Ok(parts("Acme", "Software Engineer", Some("Payments")))
    );
}

#[test]
fn greenhouse_pipe_pattern_comes_before_the_fallback() {
    assert_eq!(
        Greenhouse::parse_company_title_and_team("Job Application for A - (B) | C at D"),
        Ok(parts("C at D", "Job Application for A", Some("(B)")))
    );
}

#[test]
fn an_empty_team_is_no_team() {
    assert_eq!(
        Greenhouse::parse_company_title_and_team("Software Engineer -  | Acme"),
        Ok(parts("Acme", "Software Engineer", None))
    );
    assert_eq!(
        match_title(&vec!["^(?P<title>a+)(?P<team> *)$"], "aa  "),
        Ok(TitleParts { title: "aa".to_string(), team: None, company: None })
    );
}

#[test]
fn greenhouse_decodes_character_references() {
    assert_eq!(
        Greenhouse::parse_company_title_and_team(
            "Job Application for R&amp;D Engineer - Tools at Acme &#38; Sons"
        ),
        Ok(parts("Acme & Sons", "R&D Engineer", Some("Tools")))
    );
}

#[test]
fn greenhouse_reports_the_title_that_matched_nothing() {
    assert_eq!(
        Greenhouse::parse_company_title_and_team("Careers &amp; Culture"),
        Err(ParseError::NoPatternMatched { title: "Careers & Culture".to_string() })
    );
}

#[test]
fn greenhouse_reads_a_page() {
    let html = page(
        "Job Application for Staff Engineer - Platform at Acme",
        "<p>Pay: $150,000 - $180,000 USD</p>",
    );
    assert_eq!(
        (Greenhouse {}).parse(&html),
        Ok(Some(role("Acme", "Staff Engineer", Some("Platform"), span(150_000, 180_000))))
    );
    let html = page("Job Application for Staff Engineer at Acme", "<p>No pay given</p>");
    assert_eq!((Greenhouse {}).parse(&html), Ok(Some(role("Acme", "Staff Engineer", None, None))));
}

#[test]
fn greenhouse_failures() {
    assert_eq!((Greenhouse {}).parse("<html><body>nothing</body></html>"), Err(ParseError::MissingNode));
    let html = page("Job Application for Staff Engineer at Acme", "<p>$9 - $5</p>");
    assert_eq!(
        (Greenhouse {}).parse(&html),
        Err(ParseError::Salary(SalaryError::RangeOrder { lower: 9, upper: 5 }))
    );
}

const ASHBY: &str = r#"<html><head><script type="application/ld+json">{"title":"Software Engineer, Payments","hiringOrganization":{"name":" Acme "},"baseSalary":{"value":{"unitText":"YEAR","minValue":"120000","maxValue":"150,000"}}}</script></head><body><p>hello</p></body></html>"#;

#[test]
fn ashby_reads_a_page() {
    assert_eq!(
        (Ashby {}).parse(ASHBY),
        Ok(Some(role("Acme", "Software Engineer", Some("Payments"), span(120_000, 150_000))))
    );
}

#[test]
fn ashby_parts() {
    let data = r#"{"title":"Engineer","hiringOrganization":{"name":"Acme"},"baseSalary":{"value":{"unitText":"YEAR","minValue":"90k"}}}"#;
    assert_eq!(Ashby::parse_company(data), Ok("Acme".to_string()));
    assert_eq!(Ashby::parse_title_and_team(data), Ok(("Engineer".to_string(), None)));
    assert_eq!(
        Ashby::parse_salary_range(data),
        Ok(Some(SalaryRange { lower: 90_000, range: None }))
    );
    let numbers = r#"{"baseSalary":{"value":{"unitText":"YEAR","minValue":120000,"maxValue":150000}}}"#;
    assert_eq!(Ashby::parse_salary_range(numbers), Ok(span(120_000, 150_000)));
    let mixed = r#"{"baseSalary":{"value":{"unitText":"YEAR","minValue":"1k","maxValue":4294967295}}}"#;
    assert_eq!(Ashby::parse_salary_range(mixed), Ok(span(1_000, u32::MAX)));
    let large = r#"{"baseSalary":{"value":{"unitText":"YEAR","minValue":1,"maxValue":4294967296}}}"#;
    assert_eq!(
        Ashby::parse_salary_range(large),
        Err(ParseError::Salary(SalaryError::BoundTooLarge))
    );
    let fractions = r#"{"baseSalary":{"value":{"unitText":"YEAR","minValue":1.5,"maxValue":-2}}}"#;
    assert_eq!(Ashby::parse_salary_range(fractions), Ok(None));
    let only_upper = r#"{"baseSalary":{"value":{"unitText":"YEAR","maxValue":"5"}}}"#;
    assert_eq!(Ashby::parse_salary_range(only_upper), Ok(None));
}

#[test]
fn ashby_failures() {
    let hourly = r#"{"baseSalary":{"value":{"unitText":"HOUR","minValue":"50"}}}"#;
    assert_eq!(
        Ashby::parse_salary_range(hourly),
        Err(ParseError::DisallowedUnit { unit: "HOUR".to_string() })
    );
    assert_eq!(
        Ashby::parse_salary_range("{}"),
        Err(ParseError::MissingKey { key: "baseSalary.value.unitText".to_string() })
    );
    assert_eq!(
        Ashby::parse_company(r#"{"hiringOrganization":{"name":5}}"#),
        Err(ParseError::MissingKey { key: "hiringOrganization.name".to_string() })
    );
    assert_eq!(
        Ashby::parse_title_and_team("[1, 2]"),
        Err(ParseError::MissingKey { key: "title".to_string() })
    );
    assert_eq!(Ashby::parse_company("{not json"), Err(ParseError::InvalidJson));
    let bad = r#"{"baseSalary":{"value":{"unitText":"YEAR","minValue":"lots"}}}"#;
    assert_eq!(
        Ashby::parse_salary_range(bad),
        Err(ParseError::Salary(SalaryError::MalformedBound))
    );
    let order = r#"{"baseSalary":{"value":{"unitText":"YEAR","minValue":"9","maxValue":"5"}}}"#;
    assert_eq!(
        Ashby::parse_salary_range(order),
        Err(ParseError::Salary(SalaryError::RangeOrder { lower: 9, upper: 5 }))
    );
    assert_eq!((Ashby {}).parse("<html></html>"), Err(ParseError::MissingNode));
    let no_json = r#"<html><head><script type="application/ld+json">oops</script></head></html>"#;
    assert_eq!((Ashby {}).parse(no_json), Err(ParseError::InvalidJson));
}

const NETFLIX: &str = r#"<html><head><script type="application/ld+json">{"title":"Engineer, Ads &amp; Growth","hiringOrganization":{"name":"Netflix\n"},"description":"Pay is $100,000 &#45; $200,000 a year"}</script></head><body></body></html>"#;

#[test]
fn netflix_reads_a_page() {
    assert_eq!(
        (Netflix {}).parse(NETFLIX),
        Ok(Some(role("Netflix", "Engineer", Some("Ads & Growth"), span(100_000, 200_000))))
    );
}

#[test]
fn netflix_swallows_salary_failures() {
    let data = r#"{"title":"Engineer","hiringOrganization":{"name":"Netflix"},"description":"$9 - $5"}"#;
    assert_eq!(Netflix::parse_salary_range(data), None);
    assert_eq!(Netflix::parse_salary_range(r#"{"title":"Engineer"}"#), None);
    assert_eq!(Netflix::parse_salary_range("nope"), None);
    assert_eq!(Netflix::parse_title_and_team(data), Ok(("Engineer".to_string(), None)));
    assert_eq!(
        Netflix::parse_company("{}"),
        Err(ParseError::MissingKey { key: "hiringOrganization.name".to_string() })
    );
}

const APPLE: &str = r#"<html><body><div id="root"><script>window.__staticRouterHydrationData = JSON.parse("{\"loaderData\":{\"jobDetails\":{\"jobsData\":{\"postingTitle\":\"Engineer - Maps\",\"note\":\"a \\\\ b\"}}}}");</script></div></body></html>"#;

#[test]
fn apple_reads_a_page() {
    assert_eq!((Apple {}).parse(APPLE), Ok(Some(role("Apple", "Engineer", Some("Maps"), None))));
}

#[test]
fn apple_unwraps_the_quoted_data() {
    assert_eq!(
        Apple::unwrap_data(r#"window.__staticRouterHydrationData = JSON.parse("{\"a\":\"b\\\\c\"}");"#),
        Ok(r#"{"a":"b\\c"}"#.to_string())
    );
    assert_eq!(Apple::unwrap_data(r#"JSON.parse("{}");"#), Err(ParseError::UnexpectedWrapping));
    assert_eq!(
        Apple::unwrap_data(r#"window.__staticRouterHydrationData = JSON.parse("{}")"#),
        Err(ParseError::UnexpectedWrapping)
    );
    assert_eq!(
        Apple::parse_title_and_team(r#"{"loaderData":{"jobDetails":{"jobsData":{"postingTitle":"Engineer"}}}}"#),
        Ok(("Engineer".to_string(), None))
    );
    assert_eq!(
        Apple::parse_title_and_team("{}"),
        Err(ParseError::MissingKey {
            key: "loaderData.jobDetails.jobsData.postingTitle".to_string()
        })
    );
}

const HIRING_CAFE: &str = r#"<html><body><h2 class="font-extrabold">Data Engineer, Platform</h2><div class="text-xl">@ Acme</div><div><span class="rounded">$50/hr</span></div></body></html>"#;

#[test]
fn hiringcafe_reads_a_page() {
    assert_eq!(
        (HiringCafe {}).parse(HIRING_CAFE),
        Ok(Some(role(
            "Acme",
            "Data Engineer",
            Some("Platform"),
            Some(SalaryRange { lower: 104_000, range: None })
        )))
    );
    assert_eq!(HiringCafe::parse_company(HIRING_CAFE), Ok("Acme".to_string()));
    assert_eq!(
        HiringCafe::parse_title_and_team(HIRING_CAFE),
        Ok(("Data Engineer".to_string(), Some("Platform".to_string())))
    );
    assert_eq!(
        HiringCafe::parse_salary_range(HIRING_CAFE),
        Ok(Some(SalaryRange { lower: 104_000, range: None }))
    );
}

#[test]
fn hiringcafe_needs_every_node() {
    let html = r#"<html><body><h2 class="font-extrabold">Data Engineer</h2><div class="text-xl">@ Acme</div></body></html>"#;
    assert_eq!((HiringCafe {}).parse(html), Err(ParseError::MissingNode));
    assert_eq!(HiringCafe::parse_title_and_team(html), Ok(("Data Engineer".to_string(), None)));
}

const META: &str = r#"<html><head><title>Careers</title></head><body><div id="pageTitle">Software Engineer, Infrastructure | Meta Careers</div><span>$150,000/year to $200,000/year + bonus + equity + benefits</span><p>Other: $1 - $2</p></body></html>"#;

#[test]
fn meta_reads_a_page() {
    assert_eq!(
        (Meta {}).parse(META),
        Ok(Some(role("Meta", "Software Engineer", Some("Infrastructure"), span(150_000, 200_000))))
    );
}

#[test]
fn meta_failures() {
    let html = r#"<html><body><div id="pageTitle">Software Engineer</div></body></html>"#;
    assert_eq!(
        (Meta {}).parse(html),
        Err(ParseError::NoPatternMatched { title: "Software Engineer".to_string() })
    );
    assert_eq!((Meta {}).parse("<html></html>"), Err(ParseError::MissingNode));
    let no_pay = r#"<html><body><div id="pageTitle">Engineer, Ads | Meta</div>$1 - $2</body></html>"#;
    assert_eq!((Meta {}).parse(no_pay), Ok(Some(role("Meta", "Engineer", Some("Ads"), None))));
}

#[test]
fn google_reads_a_page() {
    let html = page(
        "Software Engineer, Cloud \u{e2}\u{20ac}\u{201d} Google Careers",
        "<p>pays $141,000-$202,000 + bonus + equity + benefits.</p>",
    );
    assert_eq!(
        (Google {}).parse(&html),
        Ok(Some(role("Google", "Software Engineer", Some("Cloud"), span(141_000, 202_000))))
    );
    let other = page("Software Engineer, Cloud - Google Careers", "");
    assert_eq!(
        (Google {}).parse(&other),
        Err(ParseError::NoPatternMatched {
            title: "Software Engineer, Cloud - Google Careers".to_string()
        })
    );
}

#[test]
fn mini_is_told_the_markup() {
    let board = Mini {
        company: "Acme".to_string(),
        title_and_team_selector: "h1".to_string(),
        title_and_team_regex: None,
        salary_range_selector: r"Salary: \$[0-9,]+".to_string(),
    };
    let html = "<html><body><h1>Engineer, Core | Acme</h1><p>Salary: $90,000 flat; not $1 - $2</p></body></html>";
    assert_eq!(
        board.parse(html),
        Ok(Some(role("Acme", "Engineer", Some("Core"), Some(SalaryRange { lower: 90_000, range: None }))))
    );
    let own = Mini {
        company: "Acme".to_string(),
        title_and_team_selector: "h1".to_string(),
        title_and_team_regex: Some(r"^(?P<team>\w+) / (?P<title>.+)$".to_string()),
        salary_range_selector: "never there".to_string(),
    };
    let html = "<html><body><h1>Core / Senior Engineer</h1></body></html>";
    assert_eq!(own.parse(html), Ok(Some(role("Acme", "Senior Engineer", Some("Core"), None))));
}

#[test]
fn mini_reports_bad_markup() {
    let mut board = Mini {
        company: "Acme".to_string(),
        title_and_team_selector: "h1[".to_string(),
        title_and_team_regex: None,
        salary_range_selector: "x".to_string(),
    };
    let html = "<html><body><h1>Engineer, Core | Acme</h1></body></html>";
    assert_eq!(board.parse(html), Err(ParseError::InvalidSelector));
    board.title_and_team_selector = "h1".to_string();
    board.salary_range_selector = "(".to_string();
    assert_eq!(board.parse(html), Err(ParseError::InvalidPattern));
    board.salary_range_selector = "x".to_string();
    board.title_and_team_regex = Some("(".to_string());
    assert_eq!(board.parse(html), Err(ParseError::InvalidPattern));
    board.title_and_team_regex = Some("(?P<team>Core)".to_string());
    assert_eq!(board.parse(html), Err(ParseError::MissingGroup));
}

#[test]
fn shared_steps() {
    assert_eq!(
        split_title_and_team("Engineer, ", ", "),
        ("Engineer".to_string(), None)
    );
    assert_eq!(
        split_title_and_team("Engineer, A, B", ", "),
        ("Engineer".to_string(), Some("A, B".to_string()))
    );
    assert_eq!(
        node_text("<html><body><p>a<b>b</b>c</p><p>second</p></body></html>", "p"),
        Ok("abc".to_string())
    );
    assert_eq!(node_text("<p>a</p>", "div"), Err(ParseError::MissingNode));
    assert_eq!(node_text("<p>a</p>", "p >"), Err(ParseError::InvalidSelector));
    assert_eq!(
        match_title(&vec!["^(?P<title>b+)$", "^(?P<title>a+)(?P<team>b*)$"], "aab"),
        Ok(TitleParts { title: "aa".to_string(), team: Some("b".to_string()), company: None })
    );
    assert_eq!(
        match_title(&Vec::new(), "aab"),
        Err(ParseError::NoPatternMatched { title: "aab".to_string() })
    );
    assert_eq!(
        salary_from_phrase(r"pay: .*", "the pay: $10 to $20\nnot $1"),
        Ok(span(10, 20))
    );
    assert_eq!(
        salary_from_phrase(r"pay: .*", "costs $5. pay: $10 to $20"),
        Ok(span(10, 20))
    );
    assert_eq!(salary_from_phrase(r"pay: .*", "nothing"), Ok(None));
    assert_eq!(salary_from_phrase(r"pay: .*", "pay: none"), Ok(None));
}

#[test]
fn salary_reads_itself() {
    assert_eq!(<SalaryRange as ParseSelf<&str>>::parse("$10 - $20"), Ok(span(10, 20)));
    assert_eq!(
        <SalaryRange as ParseSelf<&str>>::parse("$20 - $10"),
        Err(ParseError::Salary(SalaryError::RangeOrder { lower: 20, upper: 10 }))
    );
    assert_eq!(<SalaryRange as ParseSelf<&str>>::parse("free"), Ok(None));
}

#[test]
fn parser_reads_by_strategy() {
    assert_eq!(
        Parser::Ashby.parse_role(ASHBY),
        Ok(Some(role("Acme", "Software Engineer", Some("Payments"), span(120_000, 150_000))))
    );
    assert_eq!(
        Parser::Netflix.parse_role(NETFLIX),
        Ok(Some(role("Netflix", "Engineer", Some("Ads & Growth"), span(100_000, 200_000))))
    );
    assert_eq!(
        Parser::Meta.parse_role(META),
        Ok(Some(role("Meta", "Software Engineer", Some("Infrastructure"), span(150_000, 200_000))))
    );
    assert!(Parser::HiringCafe.parse_role(HIRING_CAFE).unwrap().is_some());
    assert_eq!(Parser::Google.parse_role(META), Err(ParseError::NoPatternMatched { title: "Careers".to_string() }));
    assert_eq!(Parser::Greenhouse.parse_role(META), Err(ParseError::NoPatternMatched { title: "Careers".to_string() }));
    assert_eq!(
        Parser::Apple.parse_role(APPLE),
        Ok(Some(role("Apple", "Engineer", Some("Maps"), None)))
    );
}
