use ply::data::{id_filename, normalize_filename_attr, timestamp_filename};
use ply::job::{normalize_filename_attribute, Job, JobError};
use ply::time::Timestamp;

#[test]
fn normalize_filename_attr_strips_and_joins() {
    assert_eq!(normalize_filename_attr("Acme - Labs (EU) v1.2/3 a-b"), "acme_labs_eu_v12_3_a_b");
    assert_eq!(normalize_filename_attr("Staff Engineer"), "staff_engineer");
    assert_eq!(normalize_filename_attr(""), "");
    assert_eq!(normalize_filename_attr("ÉCOLE"), "école");
}

#[test]
fn normalize_filename_attribute_lowers_and_underscores() {
    assert_eq!(normalize_filename_attribute("Acme Corp"), "acme_corp");
    assert_eq!(normalize_filename_attribute("A - B"), "a_-_b");
}

#[test]
fn timestamp_filename_has_millisecond_precision() {
    let at = Timestamp { seconds: 1709647629, nanos: 123_456_789 };
    let attrs = vec!["Acme".to_string(), "Staff Engineer".to_string(), "Platform".to_string()];
    assert_eq!(
        timestamp_filename(&at, &attrs),
        Some("20240305140709123.acme.staff_engineer.platform.md".to_string())
    );
    let epoch = Timestamp { seconds: 0, nanos: 0 };
    assert_eq!(
        timestamp_filename(&epoch, &vec!["X".to_string()]),
        Some("19700101000000000.x.md".to_string())
    );
}

#[test]
fn timestamp_filename_refuses_what_cannot_be_written() {
    let attrs = vec!["Acme".to_string()];
    let beyond = Timestamp { seconds: 0, nanos: 1_000_000_000 };
    assert_eq!(timestamp_filename(&beyond, &attrs), None);
    let twice = Timestamp { seconds: 59, nanos: 2_000_000_000 };
    assert_eq!(timestamp_filename(&twice, &attrs), None);
    let far = Timestamp { seconds: i64::MAX, nanos: 0 };
    assert_eq!(timestamp_filename(&far, &attrs), None);
    let out_of_calendar = Timestamp { seconds: i64::MAX / 1000 - 1, nanos: 0 };
    assert_eq!(timestamp_filename(&out_of_calendar, &attrs), None);
}

#[test]
fn timestamp_filename_writes_a_leap_second() {
    let attrs = vec!["Acme".to_string()];
    let leap = Timestamp { seconds: 1483228799, nanos: 1_500_600_000 };
    assert_eq!(
        timestamp_filename(&leap, &attrs),
        Some("20161231235960500.acme.md".to_string())
    );
}

#[test]
fn timestamp_filenames_sort_by_time() {
    let attrs = vec!["Acme".to_string()];
    let a = timestamp_filename(&Timestamp { seconds: 1709647629, nanos: 0 }, &attrs).unwrap();
    let b = timestamp_filename(&Timestamp { seconds: 1709647629, nanos: 1_000_000 }, &attrs).unwrap();
    let c = timestamp_filename(&Timestamp { seconds: 1709647630, nanos: 0 }, &attrs).unwrap();
    assert!(a < b);
    assert!(b < c);
}

#[test]
fn id_filename_starts_with_the_digest() {
    assert_eq!(id_filename("abc", &vec!["Acme".to_string()]), "ba7816b.acme.md");
    assert_eq!(
        id_filename("abc", &vec!["Acme".to_string(), "Data Engineer".to_string()]),
        "ba7816b.acme.data_engineer.md"
    );
}

#[test]
fn job_filename_needs_a_listing() {
    let mut job = Job {
        listing_url: Some("https://jobs.ashbyhq.com/acme/1234".to_string()),
        company: "Acme Corp".to_string(),
        title: "Staff Engineer".to_string(),
        team: Some("Core Infra".to_string()),
        salary_range: None,
    };
    assert_eq!(job.filename(), Ok("43dd495.acme_corp.staff_engineer.core_infra.md".to_string()));
    job.team = None;
    assert_eq!(job.filename(), Ok("43dd495.acme_corp.staff_engineer.md".to_string()));
    job.listing_url = None;
    assert_eq!(job.filename(), Err(JobError::MissingListingUrl));
}

#[test]
fn timestamps_before_the_epoch() {
    let at = Timestamp { seconds: -1, nanos: 999_000_000 };
    assert_eq!(
        timestamp_filename(&at, &vec!["Acme".to_string()]),
        Some("19691231235959999.acme.md".to_string())
    );
}

#[test]
fn timestamp_millisecond_and_order() {
    assert_eq!(
        Timestamp { seconds: 2, nanos: 3_999_999 }.to_millisecond(),
        Timestamp { seconds: 2, nanos: 3_000_000 }
    );
    assert_eq!(
        Timestamp { seconds: -7, nanos: 999 }.to_millisecond(),
        Timestamp { seconds: -7, nanos: 0 }
    );
    assert_eq!(
        Timestamp { seconds: 2, nanos: u32::MAX }.to_millisecond(),
        Timestamp { seconds: 2, nanos: 4_294_000_000 }
    );
    let a = Timestamp { seconds: 1, nanos: 5 };
    let b = Timestamp { seconds: 1, nanos: 6 };
    let c = Timestamp { seconds: 2, nanos: 0 };
    assert!(a.is_before(&b) && b.is_before(&c) && a.is_before(&c));
    assert!(!b.is_before(&a) && !a.is_before(&a));
    assert!(a.is_at_or_before(&a) && a.is_at_or_before(&b) && !c.is_at_or_before(&b));
    assert!(a < b && b < c);
}
