//! Jobs, and the roles that listings are read into.

use crate::digest::{hex_encode, hex_of, sha256, sha256_of};
use crate::data::prefix_of;
use crate::salary::SalaryRange;
use crate::text::{
    chars_of, clone_opt, join, joined, lowercase, lowercase_of, opt_view, replace_chars, replaced,
    slice_chars, string_of, views,
};
use vstd::prelude::*;

verus! {

/// What a listing says of a role, before it is tied to a listing's address.
#[derive(Debug, PartialEq, Eq)]
pub struct Role {
    pub company: String,
    pub title: String,
    pub team: Option<String>,
    pub salary_range: Option<SalaryRange>,
}

/// A `Role` as plain values.
pub ghost struct RoleView {
    pub company: Seq<char>,
    pub title: Seq<char>,
    pub team: Option<Seq<char>>,
    pub salary_range: Option<SalaryRange>,
}

impl View for Role {
    type V = RoleView;

    open spec fn view(&self) -> RoleView {
        RoleView {
            company: self.company@,
            title: self.title@,
            team: opt_view(self.team),
            salary_range: self.salary_range,
        }
    }
}

/// A job: a role, and the listing it was read from.
#[derive(Debug, PartialEq, Eq)]
pub struct Job {
    pub listing_url: Option<String>,
    pub company: String,
    pub title: String,
    pub team: Option<String>,
    pub salary_range: Option<SalaryRange>,
}

/// A `Job` as plain values.
pub ghost struct JobView {
    pub listing_url: Option<Seq<char>>,
    pub company: Seq<char>,
    pub title: Seq<char>,
    pub team: Option<Seq<char>>,
    pub salary_range: Option<SalaryRange>,
}

impl View for Job {
    type V = JobView;

    open spec fn view(&self) -> JobView {
        JobView {
            listing_url: opt_view(self.listing_url),
            company: self.company@,
            title: self.title@,
            team: opt_view(self.team),
            salary_range: self.salary_range,
        }
    }
}

impl Clone for Job {
    fn clone(&self) -> (r: Job)
        ensures
            r@ == self@,
    {
        Job {
            listing_url: clone_opt(&self.listing_url),
            company: self.company.clone(),
            title: self.title.clone(),
            team: clone_opt(&self.team),
            salary_range: self.salary_range,
        }
    }
}

/// Why a job has no file name.
#[derive(Clone, Copy, Debug, PartialEq, Eq, Structural)]
pub enum JobError {
    /// The name is derived from the listing's address, and there is none.
    MissingListingUrl,
}

/// A name as it appears in a job's file name: lower case, spaces turned
/// into underscores.
pub open spec fn normalized_attribute(name: Seq<char>) -> Seq<char> {
    replaced(lowercase_of(name), seq![' '], seq!['_'])
}

pub fn normalize_filename_attribute(name: &str) -> (r: String)
    ensures
        r@ == normalized_attribute(name@),
{
    let lower = lowercase(name);
    let chars = chars_of(lower.as_str());
    let space: Vec<char> = vec![' '];
    let underscore: Vec<char> = vec!['_'];
    proof {
        assert(space@ =~= seq![' ']);
        assert(underscore@ =~= seq!['_']);
    }
    let out = replace_chars(&chars, &space, &underscore);
    string_of(&out)
}

/// The parts of a job's file name: the start of the hexadecimal SHA-256
/// digest of the listing's address, then company, title and team as they
/// appear in file names, then the extension.
pub open spec fn job_filename_parts(url: Seq<char>, job: JobView) -> Seq<Seq<char>> {
    let head = seq![
        prefix_of(hex_of(sha256_of(vstd::utf8::encode_utf8(url))), 7),
        normalized_attribute(job.company),
        normalized_attribute(job.title),
    ];
    match job.team {
        Some(team) => head.push(normalized_attribute(team)).push("md"@),
        None => head.push("md"@),
    }
}

/// The file name under which a job's listing is kept.
pub open spec fn job_filename_of(job: JobView) -> Result<Seq<char>, JobError> {
    match job.listing_url {
        None => Err(JobError::MissingListingUrl),
        Some(url) => Ok(joined(job_filename_parts(url, job), "."@)),
    }
}

impl Job {
    /// The job that a role read from the listing at `listing_url` makes.
    pub fn from_role(role: Role, listing_url: Option<String>) -> (r: Job)
        ensures
            r@ == (JobView {
                listing_url: opt_view(listing_url),
                company: role@.company,
                title: role@.title,
                team: role@.team,
                salary_range: role@.salary_range,
            }),
    {
        Job {
            listing_url,
            company: role.company,
            title: role.title,
            team: role.team,
            salary_range: role.salary_range,
        }
    }

    /// The file name under which this job's listing is kept. It is the
    /// same for every job read from one address with one company, title
    /// and team.
    pub fn filename(&self) -> (r: Result<String, JobError>)
        ensures
            match r {
                Ok(name) => job_filename_of(self@) == Ok::<Seq<char>, JobError>(name@),
                Err(e) => job_filename_of(self@) == Err::<Seq<char>, JobError>(e),
            },
    {
        let url = match &self.listing_url {
            Some(url) => url,
            None => { return Err(JobError::MissingListingUrl); },
        };
        let hash = sha256(url.as_str().as_bytes());
        let hex = hex_encode(&hash);
        let digits = chars_of(hex.as_str());
        let len: usize = digits.len();
        let short = if len <= 7 {
            assert(digits@.subrange(0, len as int) =~= digits@);
            slice_chars(&digits, 0, len)
        } else {
            slice_chars(&digits, 0, 7)
        };
        let mut parts: Vec<String> = Vec::new();
        parts.push(string_of(&short));
        parts.push(normalize_filename_attribute(self.company.as_str()));
        parts.push(normalize_filename_attribute(self.title.as_str()));
        match &self.team {
            Some(team) => {
                parts.push(normalize_filename_attribute(team.as_str()));
            },
            None => {},
        }
        parts.push("md".to_owned());
        assert(views(parts@) =~= job_filename_parts(url@, self@));
        Ok(join(&parts, "."))
    }
}

} // verus!
