//! What each command decides. Reading arguments, files and the clock is
//! left to the caller: a command here takes what was read and says what
//! is to be written.

use crate::application::{
    active_of, current_of, interviewing_of, new, Application, ApplicationView, Stage, StageType,
    StageView,
};
use crate::job::{Job, JobView};
use crate::parse::Parser;
use crate::text::{clone_opt, insert_unique, opt_view, strictly_ordered, views};
use crate::time::Timestamp;
use vstd::prelude::*;

verus! {

/// Why a command cannot be carried out as it was given.
#[derive(Clone, Copy, Debug, PartialEq, Eq, Structural)]
pub enum UsageError {
    /// Without a listing, the company has to be named.
    MissingCompany,
    /// Without a listing, the title has to be named.
    MissingTitle,
    /// A listing was named, and no job was read from it.
    MissingListing,
}

/// Creates an application: to the job of a listing, or to a job given by
/// company, title and team.
#[derive(Debug, PartialEq, Eq)]
pub struct To {
    /// The address of the listing.
    pub url: Option<String>,
    /// The strategy by which the listing is read, if it is not left to the
    /// address.
    pub scraper: Option<Parser>,
    pub company: Option<String>,
    pub title: Option<String>,
    pub team: Option<String>,
    /// The cycle that the application belongs to.
    pub cycle: Option<String>,
    /// Print the application and do not store it.
    pub print: bool,
}

/// `To` as plain values.
pub ghost struct ToView {
    pub url: Option<Seq<char>>,
    pub scraper: Option<Parser>,
    pub company: Option<Seq<char>>,
    pub title: Option<Seq<char>>,
    pub team: Option<Seq<char>>,
    pub cycle: Option<Seq<char>>,
    pub print: bool,
}

impl View for To {
    type V = ToView;

    open spec fn view(&self) -> ToView {
        ToView {
            url: opt_view(self.url),
            scraper: self.scraper,
            company: opt_view(self.company),
            title: opt_view(self.title),
            team: opt_view(self.team),
            cycle: opt_view(self.cycle),
            print: self.print,
        }
    }
}

/// The cycle of the new application. With a listing, an empty or missing
/// cycle gives way to the default; without one, the cycle is taken as
/// given.
pub open spec fn cycle_of(to: ToView, default_cycle: Option<Seq<char>>) -> Option<Seq<char>> {
    match to.url {
        Some(_) => match to.cycle {
            Some(cycle) => if cycle.len() > 0 {
                Some(cycle)
            } else {
                default_cycle
            },
            None => default_cycle,
        },
        None => to.cycle,
    }
}

/// The job that the arguments describe by themselves.
pub open spec fn given_job_of(to: ToView) -> Result<JobView, UsageError> {
    match to.company {
        None => Err(UsageError::MissingCompany),
        Some(company) => match to.title {
            None => Err(UsageError::MissingTitle),
            Some(title) => Ok(
                JobView { listing_url: None, company, title, team: to.team, salary_range: None },
            ),
        },
    }
}

/// The job of the new application: the one read from the listing where a
/// listing is named, the one that the arguments describe where none is.
pub open spec fn job_of(to: ToView, scraped: Option<JobView>) -> Result<JobView, UsageError> {
    match to.url {
        Some(_) => match scraped {
            Some(job) => Ok(job),
            None => Err(UsageError::MissingListing),
        },
        None => given_job_of(to),
    }
}

/// The application that the command creates at `now`.
pub open spec fn application_of(
    to: ToView,
    scraped: Option<JobView>,
    default_cycle: Option<Seq<char>>,
    now: Timestamp,
) -> Result<ApplicationView, UsageError> {
    match job_of(to, scraped) {
        Err(e) => Err(e),
        Ok(job) => Ok(
            ApplicationView {
                job,
                applied_at: now,
                cycle: cycle_of(to, default_cycle),
                stages: seq![
                    StageView {
                        start_time: now,
                        deadline: None,
                        name: None,
                        stage_type: StageType::Applied,
                    },
                ],
            },
        ),
    }
}

pub open spec fn opt_job_view(job: Option<Job>) -> Option<JobView> {
    match job {
        Some(j) => Some(j@),
        None => None,
    }
}

impl To {
    /// The cycle of the new application.
    pub fn cycle_for(&self, default_cycle: &Option<String>) -> (r: Option<String>)
        ensures
            opt_view(r) == cycle_of(self@, opt_view(*default_cycle)),
    {
        match &self.url {
            Some(_) => match &self.cycle {
                Some(cycle) => {
                    if cycle.as_str().is_empty() {
                        clone_opt(default_cycle)
                    } else {
                        Some(cycle.clone())
                    }
                },
                None => clone_opt(default_cycle),
            },
            None => clone_opt(&self.cycle),
        }
    }

    /// The job that the arguments describe by themselves.
    pub fn given_job(&self) -> (r: Result<Job, UsageError>)
        ensures
            match r {
                Ok(job) => given_job_of(self@) == Ok::<JobView, UsageError>(job@),
                Err(e) => given_job_of(self@) == Err::<JobView, UsageError>(e),
            },
    {
        let company = match &self.company {
            Some(c) => c.clone(),
            None => { return Err(UsageError::MissingCompany); },
        };
        let title = match &self.title {
            Some(t) => t.clone(),
            None => { return Err(UsageError::MissingTitle); },
        };
        Ok(Job { listing_url: None, company, title, team: clone_opt(&self.team), salary_range: None })
    }

    /// The application that the command creates at `now`, given the job
    /// that was read from the listing, if one was named.
    pub fn application(
        &self,
        scraped: Option<Job>,
        default_cycle: &Option<String>,
        now: Timestamp,
    ) -> (r: Result<Application, UsageError>)
        ensures
            match r {
                Ok(app) => application_of(self@, opt_job_view(scraped), opt_view(*default_cycle), now)
                    == Ok::<ApplicationView, UsageError>(app@),
                Err(e) => application_of(self@, opt_job_view(scraped), opt_view(*default_cycle), now)
                    == Err::<ApplicationView, UsageError>(e),
            },
    {
        let job = match &self.url {
            Some(_) => match scraped {
                Some(job) => job,
                None => { return Err(UsageError::MissingListing); },
            },
            None => match self.given_job() {
                Ok(job) => job,
                Err(e) => { return Err(e); },
            },
        };
        let cycle = self.cycle_for(default_cycle);
        Ok(new(job, cycle, now))
    }
}

/// Moves an application on to its next stage.
#[derive(Debug, PartialEq, Eq)]
pub struct Yes {
    /// The path of the stored application.
    pub path: String,
    /// The stage that the application moves on to.
    pub next_stage: StageType,
    /// The deadline of that stage, as it was typed.
    pub deadline: Option<String>,
}

impl Yes {
    /// The stage that the command adds at `now`.
    pub open spec fn stage_of(&self, now: Timestamp, deadline: Option<Timestamp>) -> StageView {
        StageView { start_time: now, deadline, name: None, stage_type: self.next_stage }
    }

    /// Adds the next stage to the application.
    pub fn apply(&self, app: &mut Application, now: Timestamp, deadline: Option<Timestamp>)
        ensures
            final(app)@ == (ApplicationView {
                stages: old(app)@.stages.push(self.stage_of(now, deadline)),
                ..old(app)@
            }),
    {
        let stage = Stage { start_time: now, deadline, name: None, stage_type: self.next_stage };
        let ghost before = app@;
        app.stages.push(stage);
        assert(app@.stages =~= before.stages.push(self.stage_of(now, deadline)));
    }
}

/// Marks an application as rejected.
#[derive(Debug, PartialEq, Eq)]
pub struct No {
    /// The path of the stored application.
    pub path: String,
}

/// The stage that a rejection at `now` adds.
pub open spec fn rejection_at(now: Timestamp) -> StageView {
    StageView { start_time: now, deadline: None, name: None, stage_type: StageType::Rejected }
}

/// The kind of the stage that closed an application: that of its current
/// stage, where it is terminal.
pub open spec fn closed_in(stages: Seq<StageView>) -> Option<StageType> {
    match current_of(stages) {
        Some(stage) => if stage.stage_type.is_terminal() {
            Some(stage.stage_type)
        } else {
            None
        },
        None => None,
    }
}

impl No {
    /// Rejects the application at `now`, unless it is closed already: then
    /// it is left as it is, and the stage that closed it is returned.
    pub fn apply(&self, app: &mut Application, now: Timestamp) -> (r: Option<StageType>)
        ensures
            r == closed_in(old(app)@.stages),
            r is Some ==> final(app)@ == old(app)@,
            r is None ==> final(app)@ == (ApplicationView {
                stages: old(app)@.stages.push(rejection_at(now)),
                ..old(app)@
            }),
    {
        if !app.is_active() {
            match app.current_stage() {
                Some(stage) => { return Some(stage.stage_type); },
                None => {},
            }
        }
        let stage = Stage {
            start_time: now,
            deadline: None,
            name: None,
            stage_type: StageType::Rejected,
        };
        let ghost before = app@;
        app.stages.push(stage);
        assert(app@.stages =~= before.stages.push(rejection_at(now)));
        None
    }
}

/// Lists the stored applications.
#[derive(Clone, Copy, Debug, PartialEq, Eq, Structural)]
pub struct Applications {
    /// Only those that are still open.
    pub active: bool,
    /// Only those that are open and past their first stage.
    pub interviewing: bool,
}

impl Applications {
    /// Whether an application is among those that the command lists.
    pub open spec fn lists_of(&self, stages: Seq<StageView>) -> bool {
        (self.active ==> active_of(stages)) && (self.interviewing ==> interviewing_of(stages))
    }

    pub fn lists(&self, app: &Application) -> (r: bool)
        ensures
            r == self.lists_of(app@.stages),
    {
        if self.active && !app.is_active() {
            return false;
        }
        if self.interviewing && !app.is_interviewing() {
            return false;
        }
        true
    }
}

/// The companies of a list of applications.
pub open spec fn companies_of(apps: Seq<Application>) -> Set<Seq<char>> {
    Set::new(|c: Seq<char>| exists|i: int| 0 <= i < apps.len() && #[trigger] apps[i]@.job.company == c)
}

/// The cycles that a list of applications names.
pub open spec fn cycles_of(apps: Seq<Application>) -> Set<Seq<char>> {
    Set::new(|c: Seq<char>| exists|i: int| 0 <= i < apps.len() && #[trigger] apps[i]@.cycle == Some(c))
}

/// Lists the companies that were applied to.
#[derive(Clone, Copy, Debug, PartialEq, Eq, Structural)]
pub struct Companies {}

impl Companies {
    /// The companies of the applications, each once, in order.
    pub fn collect(&self, apps: &Vec<Application>) -> (r: Vec<String>)
        ensures
            strictly_ordered(views(r@)),
            views(r@).to_set() == companies_of(apps@),
    {
        let mut names: Vec<String> = Vec::new();
        let mut i: usize = 0;
        assert(views(names@).to_set() =~= companies_of(apps@.take(0)));
        while i < apps.len()
            invariant
                i <= apps.len(),
                strictly_ordered(views(names@)),
                views(names@).to_set() == companies_of(apps@.take(i as int)),
            decreases apps.len() - i,
        {
            insert_unique(&mut names, apps[i].job.company.clone());
            proof {
                let now = apps@.take(i + 1);
                let before = apps@.take(i as int);
                assert forall|c: Seq<char>| companies_of(now).contains(c) <==> companies_of(
                    before,
                ).insert(apps@[i as int]@.job.company).contains(c) by {
                    if companies_of(now).contains(c) {
                        let k = choose|k: int| 0 <= k < now.len() && now[k]@.job.company == c;
                        if k < i {
                            assert(before[k]@.job.company == c);
                        }
                    }
                    if companies_of(before).contains(c) {
                        let k = choose|k: int|
                            0 <= k < before.len() && before[k]@.job.company == c;
                        assert(now[k]@.job.company == c);
                    }
                    if c == apps@[i as int]@.job.company {
                        assert(now[i as int]@.job.company == c);
                    }
                }
                assert(companies_of(now) =~= companies_of(before).insert(
                    apps@[i as int]@.job.company,
                ));
            }
            i += 1;
        }
        assert(apps@.take(apps@.len() as int) =~= apps@);
        names
    }
}

/// Lists the cycles that applications were made in.
#[derive(Clone, Copy, Debug, PartialEq, Eq, Structural)]
pub struct Cycles {}

impl Cycles {
    /// The cycles that the applications name, each once, in order.
    pub fn collect(&self, apps: &Vec<Application>) -> (r: Vec<String>)
        ensures
            strictly_ordered(views(r@)),
            views(r@).to_set() == cycles_of(apps@),
    {
        let mut names: Vec<String> = Vec::new();
        let mut i: usize = 0;
        assert(views(names@).to_set() =~= cycles_of(apps@.take(0)));
        while i < apps.len()
            invariant
                i <= apps.len(),
                strictly_ordered(views(names@)),
                views(names@).to_set() == cycles_of(apps@.take(i as int)),
            decreases apps.len() - i,
        {
            let ghost now = apps@.take(i + 1);
            let ghost before = apps@.take(i as int);
            let ghost old_names = views(names@).to_set();
            match &apps[i].cycle {
                Some(cycle) => {
                    insert_unique(&mut names, cycle.clone());
                },
                None => {},
            }
            proof {
                assert forall|c: Seq<char>| cycles_of(now).contains(c) <==> views(
                    names@,
                ).to_set().contains(c) by {
                    if cycles_of(now).contains(c) {
                        let k = choose|k: int| 0 <= k < now.len() && now[k]@.cycle == Some(c);
                        if k < i {
                            assert(before[k]@.cycle == Some(c));
                        }
                    }
                    if cycles_of(before).contains(c) {
                        let k = choose|k: int| 0 <= k < before.len() && before[k]@.cycle == Some(c);
                        assert(now[k]@.cycle == Some(c));
                    }
                    if apps@[i as int]@.cycle == Some(c) {
                        assert(now[i as int]@.cycle == Some(c));
                    }
                }
                assert(cycles_of(now) =~= views(names@).to_set());
            }
            i += 1;
        }
        assert(apps@.take(apps@.len() as int) =~= apps@);
        names
    }
}

/// What is listed.
#[derive(Clone, Copy, Debug, PartialEq, Eq, Structural)]
pub enum ListCommand {
    Applications(Applications),
    Companies(Companies),
}

/// Lists what is stored.
#[derive(Clone, Copy, Debug, PartialEq, Eq, Structural)]
pub struct List {
    pub command: ListCommand,
}

/// The paths of the applications that `filter` lists, in the order given.
/// `paths` holds the path of each application; where it does not, nothing
/// is listed.
pub open spec fn listed_paths(filter: Applications, apps: Seq<Application>, paths: Seq<Seq<char>>)
    -> Seq<Seq<char>>
    decreases apps.len(),
{
    if apps.len() == 0 || paths.len() != apps.len() {
        Seq::empty()
    } else {
        let before = listed_paths(filter, apps.drop_last(), paths.drop_last());
        if filter.lists_of(apps.last()@.stages) {
            before.push(paths.last())
        } else {
            before
        }
    }
}

impl List {
    /// The lines that the command prints, given the stored applications and
    /// the path of each.
    pub fn lines(&self, apps: &Vec<Application>, paths: &Vec<String>) -> (r: Vec<String>)
        ensures
            match self.command {
                ListCommand::Applications(filter) => views(r@) == listed_paths(
                    filter,
                    apps@,
                    views(paths@),
                ),
                ListCommand::Companies(_) => strictly_ordered(views(r@)) && views(r@).to_set()
                    == companies_of(apps@),
            },
    {
        match &self.command {
            ListCommand::Applications(filter) => {
                let mut out: Vec<String> = Vec::new();
                let mut i: usize = 0;
                if apps.len() != paths.len() {
                    return out;
                }
                assert(apps@.take(0) =~= Seq::<Application>::empty());
                while i < apps.len()
                    invariant
                        i <= apps.len(),
                        apps.len() == paths.len(),
                        views(out@) == listed_paths(
                            *filter,
                            apps@.take(i as int),
                            views(paths@).take(i as int),
                        ),
                    decreases apps.len() - i,
                {
                    proof {
                        assert(apps@.take(i + 1).drop_last() =~= apps@.take(i as int));
                        assert(views(paths@).take(i + 1).drop_last() =~= views(paths@).take(
                            i as int,
                        ));
                    }
                    if filter.lists(&apps[i]) {
                        let ghost before = views(out@);
                        out.push(paths[i].clone());
                        assert(views(out@) =~= before.push(paths@[i as int]@));
                    }
                    i += 1;
                }
                proof {
                    assert(apps@.take(apps@.len() as int) =~= apps@);
                    assert(views(paths@).take(apps@.len() as int) =~= views(paths@));
                }
                out
            },
            ListCommand::Companies(companies) => companies.collect(apps),
        }
    }
}

} // verus!
