use ply::application::{new, Application, Stage, StageType};
use ply::document::{Filename, PreDocument};
use ply::job::Job;
use ply::time::Timestamp;

fn at(seconds: i64) -> Timestamp {
    Timestamp { seconds, nanos: 0 }
}

fn job() -> Job {
    Job {
        listing_url: None,
        company: "Acme".to_string(),
        title: "Staff Engineer".to_string(),
        team: Some("Platform".to_string()),
        salary_range: None,
    }
}

fn stage(stage_type: StageType, start: Timestamp) -> Stage {
    Stage { start_time: start, deadline: None, name: None, stage_type }
}

fn with_stages(stages: Vec<Stage>) -> Application {
    Application { job: job(), applied_at: at(100), cycle: None, stages }
}

#[test]
fn terminal_stage_types() {
    assert!(StageType::Rejected.is_terminal());
    assert!(StageType::Accepted.is_terminal());
    for t in [
        StageType::Applied,
        StageType::Screen,
        StageType::Technical,
        StageType::Behavioral,
        StageType::Negotiation,
    ] {
        assert!(!t.is_terminal());
    }
}

#[test]
fn stage_types_are_ranked_in_order() {
    let order = [
        StageType::Applied,
        StageType::Screen,
        StageType::Technical,
        StageType::Behavioral,
        StageType::Negotiation,
        StageType::Rejected,
        StageType::Accepted,
    ];
    for i in 0..order.len() {
        assert_eq!(order[i].rank() as usize, i);
    }
}

#[test]
fn new_application_is_seeded_with_applied() {
    let app = new(job(), Some("fall".to_string()), at(5));
    assert_eq!(app.applied_at, at(5));
    assert_eq!(app.cycle, Some("fall".to_string()));
    assert_eq!(app.job, job());
    assert_eq!(app.stages, vec![stage(StageType::Applied, at(5))]);
}

#[test]
fn current_stage_is_the_latest_started() {
    let app = with_stages(vec![stage(StageType::Applied, at(1)), stage(StageType::Screen, at(2))]);
    assert_eq!(app.current_stage(), Some(stage(StageType::Screen, at(2))));
    assert!(app.is_active());
    assert!(app.is_interviewing());
}

#[test]
fn current_stage_does_not_depend_on_the_order_kept() {
    let app = with_stages(vec![
        stage(StageType::Screen, at(2)),
        stage(StageType::Technical, at(3)),
        stage(StageType::Applied, at(1)),
    ]);
    assert_eq!(app.current_stage(), Some(stage(StageType::Technical, at(3))));
}

#[test]
fn current_stage_compares_nanoseconds() {
    let early = Timestamp { seconds: 7, nanos: 1 };
    let late = Timestamp { seconds: 7, nanos: 2 };
    let app = with_stages(vec![stage(StageType::Screen, late), stage(StageType::Applied, early)]);
    assert_eq!(app.current_stage(), Some(stage(StageType::Screen, late)));
}

#[test]
fn current_stage_of_equal_starts_is_the_last_added() {
    let app = with_stages(vec![
        stage(StageType::Applied, at(1)),
        stage(StageType::Screen, at(1)),
        stage(StageType::Rejected, at(1)),
    ]);
    assert_eq!(app.current_stage(), Some(stage(StageType::Rejected, at(1))));
    assert!(!app.is_active());
}

#[test]
fn only_applied_is_active_and_not_interviewing() {
    let app = with_stages(vec![stage(StageType::Applied, at(1))]);
    assert_eq!(app.current_stage(), Some(stage(StageType::Applied, at(1))));
    assert!(app.is_active());
    assert!(!app.is_interviewing());
}

#[test]
fn rejection_after_screen_ends_activity() {
    let mut app =
        with_stages(vec![stage(StageType::Applied, at(1)), stage(StageType::Screen, at(2))]);
    assert!(app.is_active());
    app.stages.push(stage(StageType::Rejected, at(3)));
    assert!(!app.is_active());
    assert!(!app.is_interviewing());
    assert_eq!(app.current_stage(), Some(stage(StageType::Rejected, at(3))));
}

#[test]
fn acceptance_ends_activity() {
    let app = with_stages(vec![stage(StageType::Applied, at(1)), stage(StageType::Accepted, at(2))]);
    assert!(!app.is_active());
    assert!(!app.is_interviewing());
}

#[test]
fn no_stages_counts_as_active() {
    let app = with_stages(Vec::new());
    assert_eq!(app.current_stage(), None);
    assert!(app.is_active());
    assert!(!app.is_interviewing());
}

#[test]
fn pre_document_sorts_stages_by_start() {
    let mut screen = stage(StageType::Screen, at(2));
    screen.name = Some("phone".to_string());
    let app = with_stages(vec![
        stage(StageType::Technical, at(3)),
        stage(StageType::Applied, at(1)),
        screen.clone(),
        stage(StageType::Behavioral, at(3)),
        stage(StageType::Negotiation, at(2)),
    ]);
    let stored = app.pre_document();
    assert_eq!(
        stored.stages,
        vec![
            stage(StageType::Applied, at(1)),
            screen,
            stage(StageType::Negotiation, at(2)),
            stage(StageType::Technical, at(3)),
            stage(StageType::Behavioral, at(3)),
        ]
    );
    assert_eq!(stored.job, app.job);
    assert_eq!(stored.applied_at, app.applied_at);
    assert_eq!(stored.cycle, app.cycle);
    assert_eq!(app.stages.len(), 5);
}

#[test]
fn application_filename_is_stable() {
    let mut a = with_stages(Vec::new());
    a.applied_at = Timestamp { seconds: 1709647629, nanos: 123_000_000 };
    let mut b = with_stages(vec![stage(StageType::Applied, at(9))]);
    b.applied_at = Timestamp { seconds: 1709647629, nanos: 123_999_999 };
    b.cycle = Some("spring".to_string());
    assert_eq!(
        a.filename(),
        Some("20240305140709123.acme.staff_engineer.platform.md".to_string())
    );
    assert_eq!(a.filename(), b.filename());
    b.job.team = None;
    assert_eq!(b.filename(), Some("20240305140709123.acme.staff_engineer.md".to_string()));
}

#[test]
fn clone_keeps_every_field() {
    let mut app = with_stages(vec![stage(StageType::Applied, at(1))]);
    app.cycle = Some("fall".to_string());
    app.stages[0].deadline = Some(at(50));
    assert_eq!(app.clone(), app);
}
