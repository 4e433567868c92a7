//! Applications and the stages they move through.

use crate::data::{timestamp_filename, timestamp_filename_of};
use crate::document::{Filename, PreDocument};
use crate::job::{Job, JobView};
use crate::text::{clone_opt, opt_view, views};
use crate::time::Timestamp;
use vstd::prelude::*;

verus! {

/// The kind of a stage of an application, in the order in which an
/// application moves through them.
#[derive(Copy, Clone, PartialEq, Eq, PartialOrd, Ord, Hash, Structural, Debug)]
pub enum StageType {
    Applied,
    Screen,
    Technical,
    Behavioral,
    Negotiation,
    Rejected,
    Accepted,
}

impl StageType {
    /// A terminal stage ends the application.
    pub open spec fn spec_is_terminal(&self) -> bool {
        *self == StageType::Rejected || *self == StageType::Accepted
    }

    #[verifier::when_used_as_spec(spec_is_terminal)]
    pub fn is_terminal(&self) -> (r: bool)
        ensures
            r == self.spec_is_terminal(),
    {
        match self {
            StageType::Rejected | StageType::Accepted => true,
            _ => false,
        }
    }

    /// The place of a stage type in the order of stages.
    pub open spec fn spec_rank(&self) -> u8 {
        match *self {
            StageType::Applied => 0,
            StageType::Screen => 1,
            StageType::Technical => 2,
            StageType::Behavioral => 3,
            StageType::Negotiation => 4,
            StageType::Rejected => 5,
            StageType::Accepted => 6,
        }
    }

    #[verifier::when_used_as_spec(spec_rank)]
    pub fn rank(&self) -> (r: u8)
        ensures
            r == self.spec_rank(),
    {
        match self {
            StageType::Applied => 0,
            StageType::Screen => 1,
            StageType::Technical => 2,
            StageType::Behavioral => 3,
            StageType::Negotiation => 4,
            StageType::Rejected => 5,
            StageType::Accepted => 6,
        }
    }
}

/// One point in the progress of an application.
#[derive(Debug, PartialEq, Eq)]
pub struct Stage {
    pub start_time: Timestamp,
    pub deadline: Option<Timestamp>,
    pub name: Option<String>,
    pub stage_type: StageType,
}

/// A `Stage` as plain values.
pub ghost struct StageView {
    pub start_time: Timestamp,
    pub deadline: Option<Timestamp>,
    pub name: Option<Seq<char>>,
    pub stage_type: StageType,
}

impl View for Stage {
    type V = StageView;

    open spec fn view(&self) -> StageView {
        StageView {
            start_time: self.start_time,
            deadline: self.deadline,
            name: opt_view(self.name),
            stage_type: self.stage_type,
        }
    }
}

impl Clone for Stage {
    fn clone(&self) -> (r: Stage)
        ensures
            r@ == self@,
    {
        Stage {
            start_time: self.start_time,
            deadline: self.deadline,
            name: clone_opt(&self.name),
            stage_type: self.stage_type,
        }
    }
}

/// The views of a list of stages.
pub open spec fn stage_views(stages: Seq<Stage>) -> Seq<StageView> {
    stages.map_values(|s: Stage| s@)
}

pub open spec fn opt_stage_view(stage: Option<Stage>) -> Option<StageView> {
    match stage {
        Some(s) => Some(s@),
        None => None,
    }
}

/// A tracked application to a job.
#[derive(Debug, PartialEq, Eq)]
pub struct Application {
    pub job: Job,
    pub applied_at: Timestamp,
    pub cycle: Option<String>,
    pub stages: Vec<Stage>,
}

/// An `Application` as plain values.
pub ghost struct ApplicationView {
    pub job: JobView,
    pub applied_at: Timestamp,
    pub cycle: Option<Seq<char>>,
    pub stages: Seq<StageView>,
}

impl View for Application {
    type V = ApplicationView;

    open spec fn view(&self) -> ApplicationView {
        ApplicationView {
            job: self.job@,
            applied_at: self.applied_at,
            cycle: opt_view(self.cycle),
            stages: stage_views(self.stages@),
        }
    }
}

fn clone_stages(stages: &Vec<Stage>) -> (r: Vec<Stage>)
    ensures
        stage_views(r@) == stage_views(stages@),
{
    let mut r: Vec<Stage> = Vec::new();
    let mut i: usize = 0;
    while i < stages.len()
        invariant
            i <= stages.len(),
            stage_views(r@) =~= stage_views(stages@).take(i as int),
        decreases stages.len() - i,
    {
        let stage = stages[i].clone();
        let ghost before = r@;
        r.push(stage);
        proof {
            assert(stage_views(r@) =~= stage_views(before).push(stage@));
            assert(stage_views(stages@).take(i + 1) =~= stage_views(stages@).take(i as int).push(
                stages@[i as int]@,
            ));
        }
        i += 1;
    }
    assert(stage_views(stages@).take(stages@.len() as int) =~= stage_views(stages@));
    r
}

impl Clone for Application {
    fn clone(&self) -> (r: Application)
        ensures
            r@ == self@,
    {
        Application {
            job: self.job.clone(),
            applied_at: self.applied_at,
            cycle: clone_opt(&self.cycle),
            stages: clone_stages(&self.stages),
        }
    }
}

/// The stage an application is in: the one that started last. Among stages
/// that started at the same moment it is the one that was added last.
pub open spec fn is_current(stages: Seq<StageView>, i: int) -> bool {
    &&& 0 <= i < stages.len()
    &&& forall|j: int|
        0 <= j < stages.len() ==> (#[trigger] stages[j]).start_time.at_or_before(
            stages[i].start_time,
        )
    &&& forall|j: int|
        i < j < stages.len() ==> (#[trigger] stages[j]).start_time.before(stages[i].start_time)
}

/// The current stage, if there is any stage.
pub open spec fn current_of(stages: Seq<StageView>) -> Option<StageView> {
    if stages.len() == 0 {
        None
    } else {
        Some(stages[choose|i: int| is_current(stages, i)])
    }
}

/// An application is active until its current stage is terminal. One
/// without stages counts as active.
pub open spec fn active_of(stages: Seq<StageView>) -> bool {
    match current_of(stages) {
        Some(stage) => !stage.stage_type.is_terminal(),
        None => true,
    }
}

/// An application is in interviews when it is active and its current
/// stage lies past `Applied`.
pub open spec fn interviewing_of(stages: Seq<StageView>) -> bool {
    match current_of(stages) {
        Some(stage) => !stage.stage_type.is_terminal() && stage.stage_type.rank()
            > StageType::Applied.rank(),
        None => false,
    }
}

/// At most one stage is the current one.
pub proof fn lemma_current_is_unique(stages: Seq<StageView>, i: int, j: int)
    requires
        is_current(stages, i),
        is_current(stages, j),
    ensures
        i == j,
{
    if i < j {
        assert(stages[j].start_time.before(stages[i].start_time));
        assert(stages[i].start_time.at_or_before(stages[j].start_time));
    } else if j < i {
        assert(stages[i].start_time.before(stages[j].start_time));
        assert(stages[j].start_time.at_or_before(stages[i].start_time));
    }
}

/// A stage that starts no earlier than every stage of an application
/// becomes its current stage.
pub proof fn lemma_latest_stage_is_current(stages: Seq<StageView>, stage: StageView)
    requires
        forall|j: int|
            0 <= j < stages.len() ==> (#[trigger] stages[j]).start_time.at_or_before(
                stage.start_time,
            ),
    ensures
        current_of(stages.push(stage)) == Some(stage),
{
    let all = stages.push(stage);
    let last = stages.len() as int;
    assert(is_current(all, last)) by {
        assert forall|j: int| 0 <= j < all.len() implies (#[trigger] all[j]).start_time.at_or_before(
            all[last].start_time,
        ) by {
            if j < last {
                assert(all[j] == stages[j]);
            }
        }
    }
    let c = choose|c: int| is_current(all, c);
    lemma_current_is_unique(all, c, last);
}

/// Once a terminal stage is added that starts no earlier than every stage
/// before it, the application is no longer active, nor in interviews.
pub proof fn lemma_terminal_stage_closes(stages: Seq<StageView>, stage: StageView)
    requires
        stage.stage_type.is_terminal(),
        forall|j: int|
            0 <= j < stages.len() ==> (#[trigger] stages[j]).start_time.at_or_before(
                stage.start_time,
            ),
    ensures
        !active_of(stages.push(stage)),
        !interviewing_of(stages.push(stage)),
{
    lemma_latest_stage_is_current(stages, stage);
}

/// A new application is active and not yet in interviews.
pub proof fn lemma_new_application_is_active(now: Timestamp)
    ensures
        ({
            let stages = seq![
                StageView {
                    start_time: now,
                    deadline: None,
                    name: None,
                    stage_type: StageType::Applied,
                },
            ];
            active_of(stages) && !interviewing_of(stages)
        }),
{
    let first = StageView {
        start_time: now,
        deadline: None,
        name: None,
        stage_type: StageType::Applied,
    };
    assert(seq![first] =~= Seq::<StageView>::empty().push(first));
    lemma_latest_stage_is_current(Seq::<StageView>::empty(), first);
}

/// The place at which `stage` goes into a list that is in order of start:
/// behind every stage that starts no later.
pub open spec fn inserted(sorted: Seq<StageView>, stage: StageView) -> Seq<StageView>
    decreases sorted.len(),
{
    if sorted.len() == 0 {
        seq![stage]
    } else if sorted.last().start_time.at_or_before(stage.start_time) {
        sorted.push(stage)
    } else {
        inserted(sorted.drop_last(), stage).push(sorted.last())
    }
}

/// The stages in order of start. Stages that start at the same moment stay
/// in the order in which they were added.
pub open spec fn sorted_stages(stages: Seq<StageView>) -> Seq<StageView>
    decreases stages.len(),
{
    if stages.len() == 0 {
        Seq::empty()
    } else {
        inserted(sorted_stages(stages.drop_last()), stages.last())
    }
}

/// Each stage starts no later than the next.
pub open spec fn in_start_order(stages: Seq<StageView>) -> bool {
    forall|i: int, j: int|
        0 <= i <= j < stages.len() ==> (#[trigger] stages[i]).start_time.at_or_before(
            (#[trigger] stages[j]).start_time,
        )
}

proof fn lemma_inserted_at(sorted: Seq<StageView>, stage: StageView, at: int)
    requires
        0 <= at <= sorted.len(),
        at > 0 ==> sorted[at - 1].start_time.at_or_before(stage.start_time),
        forall|j: int| at <= j < sorted.len() ==> stage.start_time.before(sorted[j].start_time),
    ensures
        inserted(sorted, stage) == sorted.insert(at, stage),
    decreases sorted.len() - at,
{
    if at == sorted.len() {
        assert(sorted.insert(at, stage) =~= sorted.push(stage));
    } else {
        let init = sorted.drop_last();
        assert(stage.start_time.before(sorted.last().start_time));
        assert forall|j: int| at <= j < init.len() implies stage.start_time.before(
            init[j].start_time,
        ) by {
            assert(init[j] == sorted[j]);
        }
        if at > 0 {
            assert(init[at - 1] == sorted[at - 1]);
        }
        lemma_inserted_at(init, stage, at);
        assert(init.insert(at, stage).push(sorted.last()) =~= sorted.insert(at, stage));
    }
}

proof fn lemma_inserted_props(sorted: Seq<StageView>, stage: StageView)
    requires
        in_start_order(sorted),
    ensures
        in_start_order(inserted(sorted, stage)),
        inserted(sorted, stage).to_multiset() == sorted.to_multiset().insert(stage),
        inserted(sorted, stage).len() == sorted.len() + 1,
    decreases sorted.len(),
{
    broadcast use vstd::seq_lib::group_to_multiset_ensures;

    let out = inserted(sorted, stage);
    if sorted.len() == 0 {
        assert(sorted =~= Seq::<StageView>::empty());
        assert(out =~= Seq::<StageView>::empty().push(stage));
    } else if sorted.last().start_time.at_or_before(stage.start_time) {
        assert forall|i: int, j: int| 0 <= i <= j < out.len() implies (#[trigger] out[i])
            .start_time.at_or_before((#[trigger] out[j]).start_time) by {
            if j == sorted.len() && i < sorted.len() {
                assert(sorted[i].start_time.at_or_before(sorted.last().start_time));
            }
        }
    } else {
        let init = sorted.drop_last();
        let last = sorted.last();
        assert forall|i: int, j: int| 0 <= i <= j < init.len() implies (#[trigger] init[i])
            .start_time.at_or_before((#[trigger] init[j]).start_time) by {
            assert(init[i] == sorted[i] && init[j] == sorted[j]);
        }
        lemma_inserted_props(init, stage);
        let mid = inserted(init, stage);
        assert(out == mid.push(last));
        assert(sorted =~= init.push(last));
        assert forall|k: int| 0 <= k < mid.len() implies (#[trigger] mid[k]).start_time.at_or_before(
            last.start_time,
        ) by {
            assert(mid.to_multiset().contains(mid[k]));
            if mid[k] != stage {
                assert(init.to_multiset().contains(mid[k]));
                let w = choose|w: int| 0 <= w < init.len() && init[w] == mid[k];
                assert(sorted[w].start_time.at_or_before(sorted.last().start_time));
            }
        }
        assert forall|i: int, j: int| 0 <= i <= j < out.len() implies (#[trigger] out[i])
            .start_time.at_or_before((#[trigger] out[j]).start_time) by {
            if j < mid.len() {
                assert(out[i] == mid[i] && out[j] == mid[j]);
            } else if i < mid.len() {
                assert(out[i] == mid[i]);
            }
        }
        assert(out.to_multiset() =~= sorted.to_multiset().insert(stage));
    }
}

/// Sorting puts the stages in order of start, and neither adds nor drops
/// a stage.
pub proof fn lemma_sorted_stages_is_sorted(stages: Seq<StageView>)
    ensures
        in_start_order(sorted_stages(stages)),
        sorted_stages(stages).to_multiset() == stages.to_multiset(),
        sorted_stages(stages).len() == stages.len(),
    decreases stages.len(),
{
    broadcast use vstd::seq_lib::group_to_multiset_ensures;

    if stages.len() == 0 {
        assert(stages =~= Seq::<StageView>::empty());
    } else {
        lemma_sorted_stages_is_sorted(stages.drop_last());
        lemma_inserted_props(sorted_stages(stages.drop_last()), stages.last());
        assert(stages =~= stages.drop_last().push(stages.last()));
    }
}

/// The last stage of a list in order of start is its current stage.
proof fn lemma_last_of_ordered_is_current(stages: Seq<StageView>)
    requires
        stages.len() > 0,
        in_start_order(stages),
    ensures
        current_of(stages) == Some(stages.last()),
{
    let last = stages.len() - 1;
    assert(is_current(stages, last));
    let c = choose|c: int| is_current(stages, c);
    lemma_current_is_unique(stages, c, last);
}

/// The current stage of a list that a stage is added to: the added stage
/// where it starts no earlier than the current one, and the current one
/// as before where it starts earlier.
proof fn lemma_current_after_push(init: Seq<StageView>, current: int, added: StageView)
    requires
        is_current(init, current),
    ensures
        is_current(
            init.push(added),
            if init[current].start_time.at_or_before(added.start_time) {
                init.len() as int
            } else {
                current
            },
        ),
{
    let stages = init.push(added);
    let last = init.len() as int;
    assert(stages[current] == init[current]);
    assert forall|j: int| 0 <= j < last implies stages[j] == init[j] by {}
    if init[current].start_time.at_or_before(added.start_time) {
        assert forall|j: int| 0 <= j < stages.len() implies (#[trigger] stages[j])
            .start_time.at_or_before(stages[last].start_time) by {
            if j < last {
                assert(init[j].start_time.at_or_before(init[current].start_time));
            }
        }
    } else {
        assert forall|j: int| 0 <= j < stages.len() implies (#[trigger] stages[j])
            .start_time.at_or_before(stages[current].start_time) by {
            if j < last {
                assert(init[j].start_time.at_or_before(init[current].start_time));
            }
        }
        assert forall|j: int| current < j < stages.len() implies (#[trigger] stages[j])
            .start_time.before(stages[current].start_time) by {
            if j < last {
                assert(init[j].start_time.before(init[current].start_time));
            }
        }
    }
}

/// Where there is a stage, one of them is the current one.
pub proof fn lemma_some_stage_is_current(stages: Seq<StageView>)
    requires
        stages.len() > 0,
    ensures
        exists|c: int| is_current(stages, c),
    decreases stages.len(),
{
    let init = stages.drop_last();
    assert(stages =~= init.push(stages.last()));
    if init.len() == 0 {
        assert(is_current(stages, 0));
    } else {
        lemma_some_stage_is_current(init);
        let current = choose|c: int| is_current(init, c);
        lemma_current_after_push(init, current, stages.last());
    }
}

/// Sorting ends with the current stage.
proof fn lemma_sorted_ends_with_current(stages: Seq<StageView>)
    requires
        stages.len() > 0,
    ensures
        sorted_stages(stages).len() > 0,
        current_of(stages) == Some(sorted_stages(stages).last()),
    decreases stages.len(),
{
    let init = stages.drop_last();
    let added = stages.last();
    let sorted_init = sorted_stages(init);
    assert(stages =~= init.push(added));
    lemma_sorted_stages_is_sorted(init);
    lemma_sorted_stages_is_sorted(stages);
    lemma_some_stage_is_current(stages);
    let chosen = choose|c: int| is_current(stages, c);
    if init.len() == 0 {
        assert(sorted_init =~= Seq::<StageView>::empty());
        assert(sorted_stages(stages) =~= seq![added]);
        assert(is_current(stages, 0));
        lemma_current_is_unique(stages, chosen, 0);
    } else {
        lemma_sorted_ends_with_current(init);
        lemma_some_stage_is_current(init);
        let current = choose|c: int| is_current(init, c);
        assert(init[current] == sorted_init.last());
        lemma_current_after_push(init, current, added);
        if sorted_init.last().start_time.at_or_before(added.start_time) {
            assert(sorted_stages(stages) == sorted_init.push(added));
            lemma_current_is_unique(stages, chosen, init.len() as int);
        } else {
            assert(sorted_stages(stages) == inserted(sorted_init.drop_last(), added).push(
                sorted_init.last(),
            ));
            lemma_current_is_unique(stages, chosen, current);
        }
    }
}

/// Putting the stages in order for storage changes neither the current
/// stage nor, with it, whether the application is active or in interviews.
pub proof fn lemma_sorting_keeps_current_stage(stages: Seq<StageView>)
    ensures
        current_of(sorted_stages(stages)) == current_of(stages),
        active_of(sorted_stages(stages)) == active_of(stages),
        interviewing_of(sorted_stages(stages)) == interviewing_of(stages),
{
    lemma_sorted_stages_is_sorted(stages);
    if stages.len() > 0 {
        lemma_sorted_ends_with_current(stages);
        lemma_last_of_ordered_is_current(sorted_stages(stages));
    }
}

/// A new application to `job`, made at `now`: it starts in the stage
/// `Applied`.
pub fn new(job: Job, cycle: Option<String>, now: Timestamp) -> (r: Application)
    ensures
        r@ == (ApplicationView {
            job: job@,
            applied_at: now,
            cycle: opt_view(cycle),
            stages: seq![
                StageView {
                    start_time: now,
                    deadline: None,
                    name: None,
                    stage_type: StageType::Applied,
                },
            ],
        }),
{
    let mut stages: Vec<Stage> = Vec::new();
    stages.push(Stage { start_time: now, deadline: None, name: None, stage_type: StageType::Applied });
    let r = Application { job, applied_at: now, cycle, stages };
    assert(r@.stages =~= seq![
        StageView { start_time: now, deadline: None, name: None, stage_type: StageType::Applied },
    ]);
    r
}

impl Application {
    /// The position of the current stage.
    fn current_index(&self) -> (r: Option<usize>)
        ensures
            match r {
                Some(i) => is_current(self@.stages, i as int),
                None => self.stages@.len() == 0,
            },
    {
        let n: usize = self.stages.len();
        if n == 0 {
            return None;
        }
        let mut best: usize = 0;
        let mut i: usize = 1;
        while i < n
            invariant
                n == self.stages.len(),
                0 <= best < i <= n,
                forall|j: int|
                    0 <= j < i ==> (#[trigger] self.stages@[j]).start_time.at_or_before(
                        self.stages@[best as int].start_time,
                    ),
                forall|j: int|
                    best < j < i ==> (#[trigger] self.stages@[j]).start_time.before(
                        self.stages@[best as int].start_time,
                    ),
            decreases n - i,
        {
            if self.stages[best].start_time.is_at_or_before(&self.stages[i].start_time) {
                best = i;
            }
            i += 1;
        }
        assert forall|j: int| 0 <= j < self@.stages.len() implies (#[trigger] self@.stages[j])
            .start_time.at_or_before(self@.stages[best as int].start_time) by {
            assert(self@.stages[j] == self.stages@[j]@);
        }
        assert forall|j: int| best < j < self@.stages.len() implies (#[trigger] self@.stages[j])
            .start_time.before(self@.stages[best as int].start_time) by {
            assert(self@.stages[j] == self.stages@[j]@);
        }
        Some(best)
    }

    /// The stage that the application is in.
    pub fn current_stage(&self) -> (r: Option<Stage>)
        ensures
            opt_stage_view(r) == current_of(self@.stages),
    {
        match self.current_index() {
            Some(i) => {
                proof {
                    let c = choose|c: int| is_current(self@.stages, c);
                    lemma_current_is_unique(self@.stages, i as int, c);
                }
                Some(self.stages[i].clone())
            },
            None => None,
        }
    }

    /// Whether the application is still open.
    pub fn is_active(&self) -> (r: bool)
        ensures
            r == active_of(self@.stages),
    {
        match self.current_stage() {
            Some(stage) => !stage.stage_type.is_terminal(),
            None => true,
        }
    }

    /// Whether the application is open and past its first stage.
    pub fn is_interviewing(&self) -> (r: bool)
        ensures
            r == interviewing_of(self@.stages),
    {
        match self.current_stage() {
            Some(stage) => !stage.stage_type.is_terminal() && stage.stage_type.rank()
                > StageType::Applied.rank(),
            None => false,
        }
    }

    /// The names that go into the file name: company, title, and the team
    /// where there is one.
    pub open spec fn filename_attrs(app: ApplicationView) -> Seq<Seq<char>> {
        match app.job.team {
            Some(team) => seq![app.job.company, app.job.title, team],
            None => seq![app.job.company, app.job.title],
        }
    }
}

/// The file name of an application. It depends on the millisecond of
/// `applied_at` and on company, title and team, and on nothing else.
pub open spec fn application_filename_of(app: ApplicationView) -> Option<Seq<char>> {
    timestamp_filename_of(app.applied_at, Application::filename_attrs(app))
}

/// The file name is stable: two applications made in the same millisecond
/// for the same company, title and team have the same file name.
pub proof fn lemma_filename_is_stable(a: ApplicationView, b: ApplicationView)
    requires
        a.applied_at.millisecond() == b.applied_at.millisecond(),
        a.job.company == b.job.company,
        a.job.title == b.job.title,
        a.job.team == b.job.team,
    ensures
        application_filename_of(a) == application_filename_of(b),
{
}

impl Filename for Application {
    open spec fn filename_of(&self) -> Option<Seq<char>> {
        application_filename_of(self@)
    }

    fn filename(&self) -> (r: Option<String>) {
        let mut attrs: Vec<String> = Vec::new();
        attrs.push(self.job.company.clone());
        attrs.push(self.job.title.clone());
        match &self.job.team {
            Some(team) => {
                attrs.push(team.clone());
            },
            None => {},
        }
        assert(views(attrs@) =~= Application::filename_attrs(self@));
        timestamp_filename(&self.applied_at, &attrs)
    }
}

impl PreDocument for Application {
    /// The application with its stages in order of start.
    open spec fn stored_form(&self) -> ApplicationView {
        ApplicationView { stages: sorted_stages(self@.stages), ..self@ }
    }

    fn pre_document(&self) -> (r: Application) {
        let mut sorted: Vec<Stage> = Vec::new();
        let mut i: usize = 0;
        assert(self@.stages.take(0) =~= Seq::<StageView>::empty());
        while i < self.stages.len()
            invariant
                i <= self.stages.len(),
                sorted.len() == i,
                stage_views(sorted@) == sorted_stages(self@.stages.take(i as int)),
            decreases self.stages.len() - i,
        {
            let stage = self.stages[i].clone();
            let mut at: usize = sorted.len();
            while at > 0 && stage.start_time.is_before(&sorted[at - 1].start_time)
                invariant
                    at <= sorted.len(),
                    forall|j: int|
                        at <= j < sorted.len() ==> stage.start_time.before(
                            (#[trigger] sorted@[j]).start_time,
                        ),
                decreases at,
            {
                at -= 1;
            }
            proof {
                let before = stage_views(sorted@);
                let now = self@.stages.take(i + 1);
                assert(now.drop_last() =~= self@.stages.take(i as int));
                assert(now.last() == stage@);
                assert forall|j: int| at <= j < before.len() implies stage@.start_time.before(
                    before[j].start_time,
                ) by {
                    assert(before[j] == sorted@[j]@);
                }
                if at > 0 {
                    assert(before[at - 1] == sorted@[at - 1]@);
                }
                lemma_inserted_at(before, stage@, at as int);
                assert(stage_views(sorted@.insert(at as int, stage)) =~= before.insert(
                    at as int,
                    stage@,
                ));
            }
            sorted.insert(at, stage);
            i += 1;
        }
        assert(self@.stages.take(self.stages@.len() as int) =~= self@.stages);
        Application {
            job: self.job.clone(),
            applied_at: self.applied_at,
            cycle: clone_opt(&self.cycle),
            stages: sorted,
        }
    }
}

} // verus!
