//! Salary ranges, normalised to whole units per year.

use crate::amount::{
    all_digits, digits_value, lemma_whole_amount, opt_amount_view, parse_yearly_bound,
    saturated, structured_bound, structured_bound_of, yearly_bound_of, Amount, AmountView,
    WORKING_HOURS_PER_YEAR,
};
use crate::pattern::{captures, named_captures, opt_views, pattern_compiles, str_views};
use crate::text::opt_view;
use vstd::prelude::*;

verus! {

/// The pattern that finds a salary in free text: a dollar amount with an
/// optional unit, optionally followed by `to` or `-` and a second one.
pub const SALARY_PATTERN: &'static str =
    r#"(?xi)
            \$ \s* (?P<lower>\d+(?:,\d{3})?(?:\.\d+)?k?)
            (?: \s* \/ \s* (?P<lower_unit>hr|hour|year))?
            (?:
            \s* (?:to|-) \s*
            \$ \s* (?P<upper>\d+(?:,\d{3})?(?:\.\d+)?k?)
            (?: \s* \/ \s* (?P<upper_unit>hr|hour|year))?
            )?
"#;

/// The unit of a bound that names none.
pub const DEFAULT_BOUND_UNIT: &'static str = "year";

/// Why a salary could not be read.
#[derive(Clone, Copy, Debug, PartialEq, Eq, Structural)]
pub enum SalaryError {
    /// The lower bound lies above the upper bound.
    RangeOrder { lower: u32, upper: u32 },
    /// A bound is not a decimal number.
    MalformedBound,
    /// A bound's unit is none of `hr`, `hour`, `year`.
    UnknownUnit,
    /// The pattern that finds a salary in free text did not compile.
    InvalidPattern,
    /// A bound given as a number is too large for a salary.
    BoundTooLarge,
}

/// A yearly salary: a single amount, or the span from `lower` to
/// `lower + range`.
#[derive(Clone, Copy, Debug, PartialEq, Eq, Structural)]
pub struct SalaryRange {
    pub lower: u32,
    pub range: Option<u32>,
}

impl SalaryRange {
    /// Reads the first salary that `text` mentions.
    pub fn parse_text(text: &str) -> (r: Result<Option<SalaryRange>, SalaryError>)
        ensures
            r == salary_in(text@),
    {
        let names: Vec<&str> = vec!["lower", "lower_unit", "upper", "upper_unit"];
        assert(str_views(names@) =~= salary_groups());
        let found = match captures(SALARY_PATTERN, text, &names) {
            Ok(found) => found,
            Err(_) => { return Err(SalaryError::InvalidPattern); },
        };
        match found {
            None => Ok(None),
            Some(groups) => {
                assert(forall|i: int|
                    0 <= i < 4 ==> opt_views(groups@)[i] == opt_view(#[trigger] groups@[i]));
                range_from_captures(&groups[0], &groups[1], &groups[2], &groups[3])
            },
        }
    }

    /// What `from_structured` returns: each bound that is given is made
    /// yearly, the lower one first, and the two make a span, a single
    /// amount or nothing.
    pub open spec fn spec_from_structured(
        min: Option<AmountView>,
        max: Option<AmountView>,
        unit: Seq<char>,
    ) -> Result<Option<SalaryRange>, SalaryError> {
        let lower = match min {
            Some(a) => match structured_bound_of(a, unit) {
                Ok(n) => Ok(Some(n)),
                Err(e) => Err(e),
            },
            None => Ok(None),
        };
        let upper = match max {
            Some(a) => match structured_bound_of(a, unit) {
                Ok(n) => Ok(Some(n)),
                Err(e) => Err(e),
            },
            None => Ok(None),
        };
        match lower {
            Err(e) => Err(e),
            Ok(low) => match upper {
                Err(e) => Err(e),
                Ok(high) => Self::from_maybe_bounds(low, high),
            },
        }
    }

    /// The salary that structured data describes by a lowest and a highest
    /// amount in `unit`.
    pub fn from_structured(min: &Option<Amount>, max: &Option<Amount>, unit: &str) -> (r: Result<
        Option<SalaryRange>,
        SalaryError,
    >)
        ensures
            r == Self::spec_from_structured(opt_amount_view(*min), opt_amount_view(*max), unit@),
    {
        let low = match min {
            Some(a) => match structured_bound(a, unit) {
                Ok(n) => Some(n),
                Err(e) => { return Err(e); },
            },
            None => None,
        };
        let high = match max {
            Some(a) => match structured_bound(a, unit) {
                Ok(n) => Some(n),
                Err(e) => { return Err(e); },
            },
            None => None,
        };
        SalaryRange::try_from_maybe_bounds(low, high)
    }

    /// The upper bound fits the integer type.
    pub open spec fn wf(&self) -> bool {
        self.range matches Some(r) ==> self.lower + r <= u32::MAX
    }

    /// The upper bound of a span; a single amount has none.
    pub open spec fn spec_upper(&self) -> Option<int> {
        match self.range {
            Some(r) => Some(self.lower + r),
            None => None,
        }
    }

    pub fn upper(&self) -> (u: Option<u32>)
        requires
            self.wf(),
        ensures
            match u {
                Some(v) => self.spec_upper() == Some(v as int),
                None => self.spec_upper() is None,
            },
    {
        match self.range {
            Some(r) => Some(self.lower + r),
            None => None,
        }
    }

    /// What `from_bounds` returns: the span from `lower` to `upper`, or an
    /// error where they are out of order.
    pub open spec fn spec_from_bounds(lower: u32, upper: u32) -> Result<SalaryRange, SalaryError> {
        if lower <= upper {
            Ok(SalaryRange { lower, range: Some((upper - lower) as u32) })
        } else {
            Err(SalaryError::RangeOrder { lower, upper })
        }
    }

    /// The span from `lower` to `upper`, refused when they are out of order.
    pub fn from_bounds(lower: u32, upper: u32) -> (r: Result<SalaryRange, SalaryError>)
        ensures
            r == Self::spec_from_bounds(lower, upper),
    {
        if lower > upper {
            return Err(SalaryError::RangeOrder { lower, upper });
        }
        Ok(SalaryRange { lower, range: Some(upper - lower) })
    }

    /// A single amount.
    pub fn amount(amount: u32) -> (r: SalaryRange)
        ensures
            r == (SalaryRange { lower: amount, range: None }),
    {
        SalaryRange { lower: amount, range: None }
    }

    /// What `try_from_maybe_bounds` returns: a span from two bounds, a
    /// single amount from a lower bound alone, nothing without one.
    pub open spec fn from_maybe_bounds(
        maybe_lower: Option<u32>,
        maybe_upper: Option<u32>,
    ) -> Result<Option<SalaryRange>, SalaryError> {
        match (maybe_lower, maybe_upper) {
            (Some(lower), Some(upper)) => match Self::spec_from_bounds(lower, upper) {
                Ok(range) => Ok(Some(range)),
                Err(e) => Err(e),
            },
            (Some(lower), None) => Ok(Some(SalaryRange { lower, range: None })),
            _ => Ok(None),
        }
    }

    pub fn try_from_maybe_bounds(maybe_lower: Option<u32>, maybe_upper: Option<u32>) -> (r: Result<
        Option<SalaryRange>,
        SalaryError,
    >)
        ensures
            r == Self::from_maybe_bounds(maybe_lower, maybe_upper),
    {
        match (maybe_lower, maybe_upper) {
            (Some(lower), Some(upper)) => {
                match SalaryRange::from_bounds(lower, upper) {
                    Ok(range) => Ok(Some(range)),
                    Err(e) => Err(e),
                }
            },
            (Some(lower), None) => Ok(Some(SalaryRange::amount(lower))),
            _ => Ok(None),
        }
    }
}

/// The names of the groups of `SALARY_PATTERN`, in the order in which they
/// are read.
pub open spec fn salary_groups() -> Seq<Seq<char>> {
    seq!["lower"@, "lower_unit"@, "upper"@, "upper_unit"@]
}

/// The yearly amount of one captured bound, if it was captured. Amount
/// and unit are read as they were captured; a bound without a unit is
/// yearly.
pub open spec fn bound_of(value: Option<Seq<char>>, unit: Option<Seq<char>>) -> Result<
    Option<u32>,
    SalaryError,
> {
    match value {
        None => Ok(None),
        Some(v) => {
            let u = match unit {
                Some(u) => u,
                None => DEFAULT_BOUND_UNIT@,
            };
            match yearly_bound_of(v, u) {
                Ok(n) => Ok(Some(n)),
                Err(e) => Err(e),
            }
        },
    }
}

/// A captured hourly amount in whole units stands for that many times the
/// hours of work in a year.
pub proof fn lemma_hourly_capture(value: Seq<char>)
    requires
        all_digits(value),
        value.len() > 0,
    ensures
        bound_of(Some(value), Some("hr"@)) == Ok::<Option<u32>, SalaryError>(
            Some(saturated(digits_value(value) * WORKING_HOURS_PER_YEAR)),
        ),
{
    lemma_whole_amount(value, "hr"@);
}

/// The salary that four captured texts stand for. The lower bound is read
/// first, and its error is the one reported.
pub open spec fn range_of_captures(
    lower: Option<Seq<char>>,
    lower_unit: Option<Seq<char>>,
    upper: Option<Seq<char>>,
    upper_unit: Option<Seq<char>>,
) -> Result<Option<SalaryRange>, SalaryError> {
    match bound_of(lower, lower_unit) {
        Err(e) => Err(e),
        Ok(low) => match bound_of(upper, upper_unit) {
            Err(e) => Err(e),
            Ok(high) => SalaryRange::from_maybe_bounds(low, high),
        },
    }
}

/// The salary found in a text: none where the pattern matches nowhere.
pub open spec fn salary_in(text: Seq<char>) -> Result<Option<SalaryRange>, SalaryError> {
    if !pattern_compiles(SALARY_PATTERN@) {
        Err(SalaryError::InvalidPattern)
    } else {
        match named_captures(SALARY_PATTERN@, text, salary_groups()) {
            None => Ok(None),
            Some(groups) => range_of_captures(groups[0], groups[1], groups[2], groups[3]),
        }
    }
}

fn bound_from_capture(value: &Option<String>, unit: &Option<String>) -> (r: Result<
    Option<u32>,
    SalaryError,
>)
    ensures
        r == bound_of(opt_view(*value), opt_view(*unit)),
{
    match value {
        None => Ok(None),
        Some(v) => {
            let parsed = match unit {
                Some(u) => parse_yearly_bound(v.as_str(), u.as_str()),
                None => parse_yearly_bound(v.as_str(), DEFAULT_BOUND_UNIT),
            };
            match parsed {
                Ok(n) => Ok(Some(n)),
                Err(e) => Err(e),
            }
        },
    }
}

/// The salary that the captured bounds and units stand for.
pub fn range_from_captures(
    lower: &Option<String>,
    lower_unit: &Option<String>,
    upper: &Option<String>,
    upper_unit: &Option<String>,
) -> (r: Result<Option<SalaryRange>, SalaryError>)
    ensures
        r == range_of_captures(
            opt_view(*lower),
            opt_view(*lower_unit),
            opt_view(*upper),
            opt_view(*upper_unit),
        ),
{
    let low = match bound_from_capture(lower, lower_unit) {
        Ok(b) => b,
        Err(e) => { return Err(e); },
    };
    let high = match bound_from_capture(upper, upper_unit) {
        Ok(b) => b,
        Err(e) => { return Err(e); },
    };
    SalaryRange::try_from_maybe_bounds(low, high)
}

/// A span built from ordered bounds has exactly those bounds, and is well
/// formed.
pub proof fn lemma_from_bounds_keeps_bounds(lower: u32, upper: u32)
    requires
        lower <= upper,
    ensures
        SalaryRange::spec_from_bounds(lower, upper) matches Ok(range) && range.lower == lower
            && range.spec_upper() == Some(upper as int) && range.wf(),
{
}

/// Bounds out of order are refused, and the error names them.
pub proof fn lemma_from_bounds_refuses_disorder(lower: u32, upper: u32)
    requires
        upper < lower,
    ensures
        SalaryRange::spec_from_bounds(lower, upper) == Err::<SalaryRange, SalaryError>(
            SalaryError::RangeOrder { lower, upper },
        ),
{
}

/// Whatever `from_maybe_bounds` builds is well formed.
pub proof fn lemma_built_ranges_are_wf(maybe_lower: Option<u32>, maybe_upper: Option<u32>)
    ensures
        SalaryRange::from_maybe_bounds(maybe_lower, maybe_upper) matches Ok(Some(range))
            ==> range.wf(),
{
}

} // verus!
