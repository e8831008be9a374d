use cassiopeia::config::{AppConfig, Variable};
use cassiopeia::error::ErrorKind;
use cassiopeia::services::scheduler::{Job, RunOutcome, Scheduler, Source, SourceScheduleState};

fn config(pairs: &[(&str, &str)]) -> AppConfig {
    let mut vars = vec![Variable {
        name: String::from("DATABASE_URL"),
        value: String::from("postgres://localhost/space"),
    }];
    for (name, value) in pairs {
        vars.push(Variable { name: String::from(*name), value: String::from(*value) });
    }
    AppConfig::from_env(&vars).expect("a configuration")
}

#[test]
fn every_source_starts_idle_with_its_interval() {
    let scheduler = Scheduler::new(&config(&[]));
    let expected = [
        (Source::Iss, 120),
        (Source::Osdr, 600),
        (Source::Apod, 43200),
        (Source::Neo, 7200),
        (Source::Donki, 3600),
        (Source::Spacex, 3600),
    ];
    for (source, interval) in expected {
        assert_eq!(
            scheduler.state(source),
            SourceScheduleState { interval, held: false, last_outcome: None }
        );
    }
    assert_eq!(
        scheduler.start_all(),
        vec![Source::Iss, Source::Osdr, Source::Apod, Source::Neo, Source::Donki, Source::Spacex]
    );
}

#[test]
fn a_source_runs_one_fetch_at_a_time() {
    let mut scheduler = Scheduler::new(&config(&[]));
    assert_eq!(scheduler.begin_run(Source::Neo), Some(vec![Job::Neo]));
    assert!(scheduler.state(Source::Neo).held);
    assert_eq!(scheduler.begin_run(Source::Neo), None);
    assert_eq!(scheduler.begin_run(Source::Neo), None);
    assert_eq!(scheduler.end_run(Source::Neo, RunOutcome::Succeeded), 7200);
    assert!(!scheduler.state(Source::Neo).held);
    assert_eq!(scheduler.begin_run(Source::Neo), Some(vec![Job::Neo]));
}

#[test]
fn a_manual_trigger_uses_the_guard_and_does_not_wait_for_the_tick() {
    let mut scheduler = Scheduler::new(&config(&[("NEO_EVERY_SECONDS", "7200")]));
    // t = 0: the loop ticks and the run begins; t = 1: the payload is stored.
    assert_eq!(scheduler.begin_run(Source::Neo), Some(vec![Job::Neo]));
    let sleep = scheduler.end_run(Source::Neo, RunOutcome::Succeeded);
    assert_eq!(sleep, 7200);
    // t = 5: a trigger from outside finds the guard free, long before the next tick.
    assert_eq!(scheduler.begin_run(Source::Neo), Some(vec![Job::Neo]));
    // A tick that came now would have to wait for the triggered run.
    assert_eq!(scheduler.begin_run(Source::Neo), None);
    assert_eq!(scheduler.end_run(Source::Neo, RunOutcome::Succeeded), 7200);
    assert_eq!(scheduler.state(Source::Neo).last_outcome, Some(RunOutcome::Succeeded));
}

#[test]
fn a_slow_source_does_not_hold_up_another() {
    let mut scheduler = Scheduler::new(&config(&[]));
    assert!(scheduler.begin_run(Source::Osdr).is_some());
    for source in [Source::Iss, Source::Apod, Source::Neo, Source::Donki, Source::Spacex] {
        assert!(scheduler.begin_run(source).is_some());
        assert!(scheduler.state(Source::Osdr).held);
    }
    scheduler.end_run(Source::Iss, RunOutcome::Failed(ErrorKind::StorageFailure));
    assert!(scheduler.state(Source::Osdr).held);
    assert!(scheduler.state(Source::Apod).held);
    assert!(!scheduler.state(Source::Iss).held);
}

#[test]
fn a_failed_run_is_swallowed_and_the_interval_stays() {
    let mut scheduler = Scheduler::new(&config(&[("ISS_EVERY_SECONDS", "15")]));
    assert!(scheduler.begin_run(Source::Iss).is_some());
    assert_eq!(scheduler.end_run(Source::Iss, RunOutcome::Failed(ErrorKind::UpstreamThrottled)), 15);
    assert_eq!(
        scheduler.state(Source::Iss),
        SourceScheduleState {
            interval: 15,
            held: false,
            last_outcome: Some(RunOutcome::Failed(ErrorKind::UpstreamThrottled))
        }
    );
    assert_eq!(scheduler.begin_run(Source::Iss), Some(vec![Job::IssPosition]));
    assert_eq!(scheduler.end_run(Source::Iss, RunOutcome::Succeeded), 15);
}

#[test]
fn the_solar_feeds_share_one_tick() {
    let mut scheduler = Scheduler::new(&config(&[]));
    assert_eq!(scheduler.begin_run(Source::Donki), Some(vec![Job::DonkiFlares, Job::DonkiCme]));
    assert_eq!(Source::Donki.plan(), vec![Job::DonkiFlares, Job::DonkiCme]);
    assert_eq!(Source::Osdr.plan(), vec![Job::OsdrSync]);
    assert_eq!(Source::Apod.plan(), vec![Job::Apod]);
    assert_eq!(Source::Spacex.plan(), vec![Job::Spacex]);
}

#[test]
fn every_coordinator_runs_behind_the_guard_of_its_source() {
    for source in [Source::Iss, Source::Osdr, Source::Apod, Source::Neo, Source::Donki, Source::Spacex] {
        for job in source.plan() {
            assert_eq!(job.guarded_by(), source);
        }
    }
}

#[test]
fn ending_a_run_that_never_began_leaves_the_guard_free() {
    let mut scheduler = Scheduler::new(&config(&[]));
    assert_eq!(scheduler.end_run(Source::Apod, RunOutcome::Succeeded), 43200);
    assert!(!scheduler.state(Source::Apod).held);
    assert!(scheduler.begin_run(Source::Apod).is_some());
}
