use ply::amount::{parse_yearly_bound, structured_bound, Amount};
use ply::salary::{SalaryError, SalaryRange};

#[test]
fn from_bounds_keeps_both_bounds() {
    let range = SalaryRange::from_bounds(100_000, 150_000).unwrap();
    assert_eq!(range.lower, 100_000);
    assert_eq!(range.range, Some(50_000));
    assert_eq!(range.upper(), Some(150_000));
}

#[test]
fn from_bounds_refuses_bounds_out_of_order() {
    assert_eq!(
        SalaryRange::from_bounds(150_000, 100_000),
        Err(SalaryError::RangeOrder { lower: 150_000, upper: 100_000 })
    );
}

#[test]
fn hourly_amount_is_annualised() {
    let range = SalaryRange::parse_text("$50/hr").unwrap().unwrap();
    assert_eq!(range.lower, 50 * 2080);
    assert_eq!(range.lower, 104_000);
    assert_eq!(range.range, None);
}

#[test]
fn yearly_bound_reads_separators_and_k() {
    assert_eq!(parse_yearly_bound("120,000", "year"), Ok(120_000));
    assert_eq!(parse_yearly_bound("120k", "year"), Ok(120_000));
    assert_eq!(parse_yearly_bound("52.50", "hour"), Ok(109_200));
    assert_eq!(parse_yearly_bound("0.5", "year"), Ok(1));
    assert_eq!(parse_yearly_bound("0.49", "year"), Ok(0));
    assert_eq!(parse_yearly_bound("99999999999", "year"), Ok(u32::MAX));
}

#[test]
fn yearly_bound_refuses_bad_input() {
    assert_eq!(parse_yearly_bound("abc", "year"), Err(SalaryError::MalformedBound));
    assert_eq!(parse_yearly_bound("", "year"), Err(SalaryError::MalformedBound));
    assert_eq!(parse_yearly_bound(".", "year"), Err(SalaryError::MalformedBound));
    assert_eq!(parse_yearly_bound("10", "week"), Err(SalaryError::UnknownUnit));
    assert_eq!(parse_yearly_bound("abc", "week"), Err(SalaryError::MalformedBound));
}

#[test]
fn free_text_range() {
    let range = SalaryRange::parse_text("pays $120,000 - $150,000 a year").unwrap().unwrap();
    assert_eq!(range.lower, 120_000);
    assert_eq!(range.upper(), Some(150_000));
    let range = SalaryRange::parse_text("$100k to $120k").unwrap().unwrap();
    assert_eq!(range.lower, 100_000);
    assert_eq!(range.range, Some(20_000));
    let range = SalaryRange::parse_text("from $120.5k").unwrap().unwrap();
    assert_eq!(range.lower, 120_500);
    assert_eq!(SalaryRange::parse_text("no money here"), Ok(None));
    assert_eq!(
        SalaryRange::parse_text("$150,000 - $120,000"),
        Err(SalaryError::RangeOrder { lower: 150_000, upper: 120_000 })
    );
}

#[test]
fn try_from_maybe_bounds_covers_every_case() {
    assert_eq!(
        SalaryRange::try_from_maybe_bounds(Some(1), Some(3)),
        Ok(Some(SalaryRange { lower: 1, range: Some(2) }))
    );
    assert_eq!(
        SalaryRange::try_from_maybe_bounds(Some(3), Some(3)),
        Ok(Some(SalaryRange { lower: 3, range: Some(0) }))
    );
    assert_eq!(
        SalaryRange::try_from_maybe_bounds(Some(1), None),
        Ok(Some(SalaryRange { lower: 1, range: None }))
    );
    assert_eq!(SalaryRange::try_from_maybe_bounds(None, Some(3)), Ok(None));
    assert_eq!(SalaryRange::try_from_maybe_bounds(None, None), Ok(None));
    assert_eq!(
        SalaryRange::try_from_maybe_bounds(Some(3), Some(1)),
        Err(SalaryError::RangeOrder { lower: 3, upper: 1 })
    );
}

#[test]
fn amount_is_a_single_point() {
    let point = SalaryRange::amount(5);
    assert_eq!(point, SalaryRange { lower: 5, range: None });
    assert_eq!(point.upper(), None);
    let whole = SalaryRange::from_bounds(0, u32::MAX).unwrap();
    assert_eq!(whole.upper(), Some(u32::MAX));
}

#[test]
fn structured_amounts_are_made_yearly() {
    assert_eq!(structured_bound(&Amount::Number(50), "hour"), Ok(104_000));
    assert_eq!(structured_bound(&Amount::Number(50), "hr"), Ok(104_000));
    assert_eq!(structured_bound(&Amount::Number(50), "year"), Ok(50));
    assert_eq!(structured_bound(&Amount::Number(4_294_967_295), "year"), Ok(u32::MAX));
    assert_eq!(structured_bound(&Amount::Number(4_294_967_295), "hour"), Ok(u32::MAX));
    assert_eq!(
        structured_bound(&Amount::Number(4_294_967_296), "year"),
        Err(SalaryError::BoundTooLarge)
    );
    assert_eq!(
        structured_bound(&Amount::Number(u64::MAX), "week"),
        Err(SalaryError::BoundTooLarge)
    );
    assert_eq!(structured_bound(&Amount::Number(50), "YEAR"), Err(SalaryError::UnknownUnit));
    assert_eq!(structured_bound(&Amount::Text("50".to_string()), "hour"), Ok(104_000));
    assert_eq!(
        structured_bound(&Amount::Text("fifty".to_string()), "hour"),
        Err(SalaryError::MalformedBound)
    );
    assert_eq!(
        SalaryRange::from_structured(&Some(Amount::Number(20)), &Some(Amount::Number(30)), "hour"),
        Ok(Some(SalaryRange { lower: 41_600, range: Some(20_800) }))
    );
    assert_eq!(
        SalaryRange::from_structured(&Some(Amount::Number(30)), &Some(Amount::Number(20)), "year"),
        Err(SalaryError::RangeOrder { lower: 30, upper: 20 })
    );
    assert_eq!(SalaryRange::from_structured(&None, &Some(Amount::Number(20)), "year"), Ok(None));
    assert_eq!(
        SalaryRange::from_structured(&None, &Some(Amount::Number(20)), "week"),
        Err(SalaryError::UnknownUnit)
    );
}

#[test]
fn hourly_fractions_round_to_the_nearest_unit() {
    assert_eq!(parse_yearly_bound("0.0002", "hour"), Ok(0));
    assert_eq!(parse_yearly_bound("0.00025", "hour"), Ok(1));
    assert_eq!(parse_yearly_bound("1.5k", "year"), Ok(1500));
    assert_eq!(parse_yearly_bound("120.5k", "year"), Ok(120_500));
    assert_eq!(parse_yearly_bound("0.0005k", "year"), Ok(1));
    assert_eq!(parse_yearly_bound("0.0004k", "year"), Ok(0));
    assert_eq!(parse_yearly_bound("0.05k", "hour"), Ok(104_000));
    assert_eq!(parse_yearly_bound("1,500k", "year"), Ok(1_500_000));
    assert_eq!(parse_yearly_bound("k", "year"), Err(SalaryError::MalformedBound));
    assert_eq!(parse_yearly_bound("1k5", "year"), Err(SalaryError::MalformedBound));
    assert_eq!(parse_yearly_bound("1kk", "year"), Err(SalaryError::MalformedBound));
    assert_eq!(parse_yearly_bound("4294968k", "year"), Ok(u32::MAX));
    assert_eq!(parse_yearly_bound("4294967k", "year"), Ok(4_294_967_000));
    assert_eq!(parse_yearly_bound("12.", "year"), Ok(12));
    assert_eq!(parse_yearly_bound(".5", "hr"), Ok(1040));
    assert_eq!(parse_yearly_bound("2064888", "hour"), Ok(4_294_967_040));
    assert_eq!(parse_yearly_bound("2064889", "hour"), Ok(u32::MAX));
    assert_eq!(parse_yearly_bound("0.4999999999999999999999999", "year"), Ok(0));
    assert_eq!(parse_yearly_bound("1,2,3", "year"), Ok(123));
    assert_eq!(parse_yearly_bound("1.2.3", "year"), Err(SalaryError::MalformedBound));
    assert_eq!(parse_yearly_bound("-5", "year"), Err(SalaryError::MalformedBound));
    assert_eq!(parse_yearly_bound("5K", "year"), Err(SalaryError::MalformedBound));
}

#[test]
fn free_text_is_read_as_it_was_captured() {
    assert_eq!(SalaryRange::parse_text("$50/HR"), Err(SalaryError::UnknownUnit));
    assert_eq!(SalaryRange::parse_text("$90K"), Err(SalaryError::MalformedBound));
    assert_eq!(
        SalaryRange::parse_text("$90k TO $110k/year"),
        Ok(Some(SalaryRange { lower: 90_000, range: Some(20_000) }))
    );
    assert_eq!(
        SalaryRange::parse_text("$20/hr to $30/hour"),
        Ok(Some(SalaryRange { lower: 41_600, range: Some(20_800) }))
    );
    assert_eq!(
        SalaryRange::parse_text("$20/hr - $62,400/year"),
        Ok(Some(SalaryRange { lower: 41_600, range: Some(20_800) }))
    );
}
