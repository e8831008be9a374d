//! The scheduler: one polling loop per source, each behind its own guard. The
//! loops themselves sleep and fetch elsewhere; here is what they decide: whether
//! a run may begin, which coordinators it runs, and how long to sleep after it.

use vstd::prelude::*;
use crate::config::AppConfig;
use crate::error::ErrorKind;

verus! {

/// The sources that are polled, each by a loop of its own.
#[derive(Debug, Clone, Copy, PartialEq, Eq, Structural)]
pub enum Source {
    Iss,
    Osdr,
    Apod,
    Neo,
    Donki,
    Spacex,
}

/// The coordinators that a run invokes.
#[derive(Debug, Clone, Copy, PartialEq, Eq, Structural)]
pub enum Job {
    IssPosition,
    OsdrSync,
    Apod,
    Neo,
    DonkiFlares,
    DonkiCme,
    Spacex,
}

/// How a run ended.
#[derive(Debug, Clone, Copy, PartialEq, Eq, Structural)]
pub enum RunOutcome {
    Succeeded,
    /// The run failed with an error of this kind, which was logged and goes no
    /// further.
    Failed(ErrorKind),
}

/// The schedule of one source.
#[derive(Debug, Clone, Copy, PartialEq, Eq, Structural)]
pub struct SourceScheduleState {
    /// Seconds from the end of a run to the next tick.
    pub interval: u64,
    /// Whether the guard is held: a run is in flight.
    pub held: bool,
    pub last_outcome: Option<RunOutcome>,
}

/// The number of sources.
pub const SOURCES: usize = 6;

impl Source {
    /// The place of the source among the schedules.
    pub open spec fn index(self) -> int {
        match self {
            Source::Iss => 0,
            Source::Osdr => 1,
            Source::Apod => 2,
            Source::Neo => 3,
            Source::Donki => 4,
            Source::Spacex => 5,
        }
    }

    /// The coordinators of the source, in the order in which a run invokes them.
    pub open spec fn jobs(self) -> Seq<Job> {
        match self {
            Source::Iss => seq![Job::IssPosition],
            Source::Osdr => seq![Job::OsdrSync],
            Source::Apod => seq![Job::Apod],
            Source::Neo => seq![Job::Neo],
            Source::Donki => seq![Job::DonkiFlares, Job::DonkiCme],
            Source::Spacex => seq![Job::Spacex],
        }
    }

    /// The coordinators of the source, in the order in which a run invokes
    /// them. Each is attempted, whether or not the one before it failed.
    pub fn plan(self) -> (jobs: Vec<Job>)
        ensures
            jobs@ == self.jobs(),
    {
        let mut jobs: Vec<Job> = Vec::new();
        match self {
            Source::Iss => jobs.push(Job::IssPosition),
            Source::Osdr => jobs.push(Job::OsdrSync),
            Source::Apod => jobs.push(Job::Apod),
            Source::Neo => jobs.push(Job::Neo),
            Source::Donki => {
                jobs.push(Job::DonkiFlares);
                jobs.push(Job::DonkiCme);
            },
            Source::Spacex => jobs.push(Job::Spacex),
        }
        assert(jobs@ =~= self.jobs());
        jobs
    }
}

impl Job {
    /// The source whose guard a run of the coordinator holds.
    pub open spec fn source(self) -> Source {
        match self {
            Job::IssPosition => Source::Iss,
            Job::OsdrSync => Source::Osdr,
            Job::Apod => Source::Apod,
            Job::Neo => Source::Neo,
            Job::DonkiFlares => Source::Donki,
            Job::DonkiCme => Source::Donki,
            Job::Spacex => Source::Spacex,
        }
    }

    /// The source whose guard a run of the coordinator holds.
    pub fn guarded_by(self) -> (source: Source)
        ensures
            source == self.source(),
    {
        match self {
            Job::IssPosition => Source::Iss,
            Job::OsdrSync => Source::Osdr,
            Job::Apod => Source::Apod,
            Job::Neo => Source::Neo,
            Job::DonkiFlares => Source::Donki,
            Job::DonkiCme => Source::Donki,
            Job::Spacex => Source::Spacex,
        }
    }
}

/// Every coordinator runs behind the guard of the source that invokes it, and
/// every source invokes the coordinators that its guard is for.
pub proof fn law_jobs_share_the_guard_of_their_source(source: Source, job: Job)
    ensures
        source.jobs().contains(job) <==> job.source() == source,
{
    if job.source() == source {
        if job == Job::DonkiCme {
            assert(source.jobs()[1] == job);
        } else {
            assert(source.jobs()[0] == job);
        }
    }
}

/// The polling interval that the settings give a source, in seconds.
pub open spec fn interval_of(config: AppConfig, source: Source) -> u64 {
    match source {
        Source::Iss => config.fetch_every_iss,
        Source::Osdr => config.fetch_every_osdr,
        Source::Apod => config.fetch_every_apod,
        Source::Neo => config.fetch_every_neo,
        Source::Donki => config.fetch_every_donki,
        Source::Spacex => config.fetch_every_spacex,
    }
}

/// The schedule of a source before its first run.
pub open spec fn idle(interval: u64) -> SourceScheduleState {
    SourceScheduleState { interval, held: false, last_outcome: None }
}

/// Whether a run of the source may begin: its guard is free.
pub open spec fn may_begin(states: Seq<SourceScheduleState>, source: Source) -> bool {
    !states[source.index()].held
}

/// The schedules after a run of the source was asked for: its guard taken if
/// it was free, and nothing changed if it was held.
pub open spec fn begun(states: Seq<SourceScheduleState>, source: Source) -> Seq<
    SourceScheduleState,
> {
    if may_begin(states, source) {
        states.update(
            source.index(),
            SourceScheduleState {
                interval: states[source.index()].interval,
                held: true,
                last_outcome: states[source.index()].last_outcome,
            },
        )
    } else {
        states
    }
}

/// The schedules after a run of the source ended: its guard free again, and
/// the outcome kept.
pub open spec fn ended(states: Seq<SourceScheduleState>, source: Source, outcome: RunOutcome) -> Seq<
    SourceScheduleState,
> {
    states.update(
        source.index(),
        SourceScheduleState {
            interval: states[source.index()].interval,
            held: false,
            last_outcome: Some(outcome),
        },
    )
}

/// The schedules of all sources, each with a guard of its own.
#[derive(Debug)]
pub struct Scheduler {
    iss: SourceScheduleState,
    osdr: SourceScheduleState,
    apod: SourceScheduleState,
    neo: SourceScheduleState,
    donki: SourceScheduleState,
    spacex: SourceScheduleState,
}

impl View for Scheduler {
    type V = Seq<SourceScheduleState>;

    closed spec fn view(&self) -> Seq<SourceScheduleState> {
        seq![self.iss, self.osdr, self.apod, self.neo, self.donki, self.spacex]
    }
}

impl Scheduler {
    /// The scheduler at startup: every source with the interval that the
    /// settings give it, its guard free, and no run behind it.
    pub fn new(config: &AppConfig) -> (scheduler: Self)
        ensures
            scheduler@.len() == SOURCES,
            forall|source: Source| #[trigger]
                scheduler@[source.index()] == idle(interval_of(*config, source)),
    {
        Scheduler {
            iss: idle_state(config.fetch_every_iss),
            osdr: idle_state(config.fetch_every_osdr),
            apod: idle_state(config.fetch_every_apod),
            neo: idle_state(config.fetch_every_neo),
            donki: idle_state(config.fetch_every_donki),
            spacex: idle_state(config.fetch_every_spacex),
        }
    }

    /// The sources whose loops are to be started: all of them, each once.
    pub fn start_all(&self) -> (sources: Vec<Source>)
        ensures
            sources@ == all_sources(),
    {
        let mut sources: Vec<Source> = Vec::new();
        sources.push(Source::Iss);
        sources.push(Source::Osdr);
        sources.push(Source::Apod);
        sources.push(Source::Neo);
        sources.push(Source::Donki);
        sources.push(Source::Spacex);
        assert(sources@ =~= all_sources());
        sources
    }

    /// The schedule of a source.
    pub fn state(&self, source: Source) -> (state: SourceScheduleState)
        ensures
            self@.len() == SOURCES,
            state == self@[source.index()],
    {
        match source {
            Source::Iss => self.iss,
            Source::Osdr => self.osdr,
            Source::Apod => self.apod,
            Source::Neo => self.neo,
            Source::Donki => self.donki,
            Source::Spacex => self.spacex,
        }
    }

    fn set_state(&mut self, source: Source, state: SourceScheduleState)
        ensures
            final(self)@ == old(self)@.update(source.index(), state),
    {
        match source {
            Source::Iss => {
                self.iss = state;
            },
            Source::Osdr => {
                self.osdr = state;
            },
            Source::Apod => {
                self.apod = state;
            },
            Source::Neo => {
                self.neo = state;
            },
            Source::Donki => {
                self.donki = state;
            },
            Source::Spacex => {
                self.spacex = state;
            },
        }
        assert(self@ =~= old(self)@.update(source.index(), state));
    }

    /// Asks for a run of the source, at a tick of its loop or at a trigger from
    /// outside. If the guard is free, it is taken and the run may begin with
    /// the coordinators handed out; if a run is in flight, nothing changes and
    /// the caller has to wait for it to end. The other sources play no part.
    pub fn begin_run(&mut self, source: Source) -> (jobs: Option<Vec<Job>>)
        ensures
            old(self)@.len() == SOURCES,
            final(self)@ == begun(old(self)@, source),
            match jobs {
                Some(list) => may_begin(old(self)@, source) && list@ == source.jobs(),
                None => !may_begin(old(self)@, source),
            },
    {
        let state = self.state(source);
        if state.held {
            None
        } else {
            self.set_state(
                source,
                SourceScheduleState {
                    interval: state.interval,
                    held: true,
                    last_outcome: state.last_outcome,
                },
            );
            Some(source.plan())
        }
    }

    /// Ends the run of the source: the guard is free again, whether the run
    /// succeeded or failed, and the outcome is kept. Returns the seconds to
    /// sleep before the next tick, which is the interval of the source in
    /// either case.
    pub fn end_run(&mut self, source: Source, outcome: RunOutcome) -> (sleep_secs: u64)
        ensures
            old(self)@.len() == SOURCES,
            final(self)@ == ended(old(self)@, source, outcome),
            sleep_secs == old(self)@[source.index()].interval,
    {
        let state = self.state(source);
        self.set_state(
            source,
            SourceScheduleState { interval: state.interval, held: false, last_outcome: Some(outcome) },
        );
        state.interval
    }
}

fn idle_state(interval: u64) -> (state: SourceScheduleState)
    ensures
        state == idle(interval),
{
    SourceScheduleState { interval, held: false, last_outcome: None }
}

/// The sources, in the order in which their loops are started.
pub open spec fn all_sources() -> Seq<Source> {
    seq![Source::Iss, Source::Osdr, Source::Apod, Source::Neo, Source::Donki, Source::Spacex]
}

/// What happens to the scheduler, with the time at which it happens.
pub enum Op {
    /// A run of the source is asked for.
    Begin { source: Source, at: nat },
    /// The run of the source ends.
    End { source: Source, at: nat, outcome: RunOutcome },
}

impl Op {
    pub open spec fn source(self) -> Source {
        match self {
            Op::Begin { source, at } => source,
            Op::End { source, at, outcome } => source,
        }
    }

    pub open spec fn at(self) -> nat {
        match self {
            Op::Begin { source, at } => at,
            Op::End { source, at, outcome } => at,
        }
    }
}

/// The schedules after one operation.
pub open spec fn apply(states: Seq<SourceScheduleState>, op: Op) -> Seq<SourceScheduleState> {
    match op {
        Op::Begin { source, at } => begun(states, source),
        Op::End { source, at, outcome } => ended(states, source, outcome),
    }
}

/// The schedules after the operations, one after the other.
pub open spec fn replay(states: Seq<SourceScheduleState>, ops: Seq<Op>) -> Seq<SourceScheduleState>
    decreases ops.len(),
{
    if ops.len() == 0 {
        states
    } else {
        apply(replay(states, ops.drop_last()), ops.last())
    }
}

/// Whether the `i`-th operation begins a run: it asks for one and finds the
/// guard free.
pub open spec fn starts_run(states: Seq<SourceScheduleState>, ops: Seq<Op>, i: int) -> bool {
    &&& 0 <= i < ops.len()
    &&& ops[i] is Begin
    &&& may_begin(replay(states, ops.take(i)), ops[i].source())
}

/// The times of the operations do not go back.
pub open spec fn in_order(ops: Seq<Op>) -> bool {
    forall|i: int, j: int| 0 <= i <= j < ops.len() ==> (#[trigger] ops[i]).at() <= (#[trigger] ops[j]).at()
}

/// Whether the `k`-th operation ends a run of the source.
pub open spec fn ends_run_of(ops: Seq<Op>, k: int, source: Source) -> bool {
    ops[k] is End && ops[k].source() == source
}

proof fn lemma_replay_len(states: Seq<SourceScheduleState>, ops: Seq<Op>)
    requires
        states.len() == SOURCES,
    ensures
        replay(states, ops).len() == SOURCES,
    decreases ops.len(),
{
    if ops.len() > 0 {
        lemma_replay_len(states, ops.drop_last());
    }
}

proof fn lemma_held_until_end(
    states: Seq<SourceScheduleState>,
    ops: Seq<Op>,
    first: int,
    upto: int,
)
    requires
        states.len() == SOURCES,
        starts_run(states, ops, first),
        first < upto <= ops.len(),
        forall|k: int| first < k < upto ==> !ends_run_of(ops, k, ops[first].source()),
    ensures
        replay(states, ops.take(upto))[ops[first].source().index()].held,
    decreases upto - first,
{
    let source = ops[first].source();
    let before = replay(states, ops.take(upto - 1));
    lemma_replay_len(states, ops.take(upto - 1));
    assert(ops.take(upto).drop_last() =~= ops.take(upto - 1));
    assert(ops.take(upto).last() == ops[upto - 1]);
    if upto == first + 1 {
        assert(begun(before, source)[source.index()].held);
    } else {
        lemma_held_until_end(states, ops, first, upto - 1);
        assert(!ends_run_of(ops, upto - 1, source));
    }
}

/// The place of the first operation at or after `from` that ends a run of the
/// source, or the number of operations where there is none.
pub open spec fn next_end(ops: Seq<Op>, from: int, source: Source) -> int
    decreases ops.len() - from,
{
    if from >= ops.len() {
        ops.len() as int
    } else if ends_run_of(ops, from, source) {
        from
    } else {
        next_end(ops, from + 1, source)
    }
}

/// The place at which the run that begins at `begin` ends.
pub open spec fn completion_of(ops: Seq<Op>, begin: int) -> int {
    next_end(ops, begin + 1, ops[begin].source())
}

proof fn lemma_next_end(ops: Seq<Op>, from: int, source: Source)
    requires
        0 <= from <= ops.len(),
    ensures
        from <= next_end(ops, from, source) <= ops.len(),
        next_end(ops, from, source) < ops.len() ==> ends_run_of(
            ops,
            next_end(ops, from, source),
            source,
        ),
        forall|k: int| from <= k < next_end(ops, from, source) ==> !ends_run_of(ops, k, source),
    decreases ops.len() - from,
{
    if from < ops.len() && !ends_run_of(ops, from, source) {
        lemma_next_end(ops, from + 1, source);
    }
}

/// Two runs of one source never overlap: the run that began first has ended
/// before the next run of the source begins, so the second begins no earlier
/// than the first was over. This holds whatever the other sources do and
/// however the runs end.
pub proof fn law_runs_never_overlap(
    states: Seq<SourceScheduleState>,
    ops: Seq<Op>,
    first: int,
    second: int,
)
    requires
        states.len() == SOURCES,
        in_order(ops),
        first < second,
        starts_run(states, ops, first),
        starts_run(states, ops, second),
        ops[first].source() == ops[second].source(),
    ensures
        first < completion_of(ops, first) < second,
        ends_run_of(ops, completion_of(ops, first), ops[first].source()),
        ops[completion_of(ops, first)].at() <= ops[second].at(),
{
    let source = ops[first].source();
    let done = completion_of(ops, first);
    lemma_next_end(ops, first + 1, source);
    if done >= second {
        lemma_held_until_end(states, ops, first, second);
    }
}

/// What one source does leaves the schedule of every other source as it was,
/// and so whether a run of the other may begin.
pub proof fn law_sources_independent(states: Seq<SourceScheduleState>, op: Op, other: Source)
    requires
        states.len() == SOURCES,
        op.source() != other,
    ensures
        apply(states, op)[other.index()] == states[other.index()],
        may_begin(apply(states, op), other) == may_begin(states, other),
{
}

/// A run that failed frees the guard as one that succeeded does: the next run
/// of the source may begin.
pub proof fn law_failure_frees_guard(
    states: Seq<SourceScheduleState>,
    source: Source,
    outcome: RunOutcome,
)
    requires
        states.len() == SOURCES,
    ensures
        may_begin(ended(states, source, outcome), source),
        ended(states, source, outcome)[source.index()].interval == states[source.index()].interval,
{
}

} // verus!
