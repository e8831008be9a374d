//! One logical request with bounded retries: the decisions of the retry protocol,
//! as a step function from the attempt counter and what the transport reported to
//! what is to be done next.

use vstd::prelude::*;
use vstd::arithmetic::power2::{
    lemma2_to64, lemma2_to64_rest, lemma_pow2_strictly_increases, lemma_pow2_unfold, pow2,
};
use crate::error::{
    invalid_json_error, lemma_throttled_kind, status_error, transport_error, ApiError,
    ApiErrorView, ErrorKind, TransportFailure, TransportFailureView,
};

verus! {

/// The largest retry budget whose longest delay still fits in 64 bits.
pub const MAX_RETRY_BUDGET: u32 = 62;

/// The status that asks the caller to slow down.
pub const TOO_MANY_REQUESTS: u16 = 429;

/// A GET request: where to, and with which query parameters, in order.
#[derive(Debug)]
pub struct Request {
    pub url: String,
    pub query: Vec<(String, String)>,
}

pub struct RequestView {
    pub url: Seq<char>,
    pub query: Seq<(Seq<char>, Seq<char>)>,
}

/// The parameters as pairs of texts.
pub open spec fn query_view(query: Seq<(String, String)>) -> Seq<(Seq<char>, Seq<char>)> {
    Seq::new(query.len(), |i: int| (query[i].0@, query[i].1@))
}

impl View for Request {
    type V = RequestView;

    open spec fn view(&self) -> RequestView {
        RequestView { url: self.url@, query: query_view(self.query@) }
    }
}

/// What the transport reports of one attempt.
#[derive(Debug)]
pub enum Event<T> {
    /// A response arrived with this status; `line` is the status as text.
    Status { code: u16, line: String },
    /// The body of a successful response was read as JSON.
    Body(T),
    /// The body of a successful response was no JSON; the text says why.
    BadBody(String),
    /// No response arrived.
    Failed(TransportFailure),
}

pub enum EventView<T> {
    Status { code: u16, line: Seq<char> },
    Body(T),
    BadBody(Seq<char>),
    Failed(TransportFailureView),
}

impl<T> View for Event<T> {
    type V = EventView<T>;

    open spec fn view(&self) -> EventView<T> {
        match self {
            Event::Status { code, line } => EventView::Status { code: *code, line: line@ },
            Event::Body(json) => EventView::Body(*json),
            Event::BadBody(reason) => EventView::BadBody(reason@),
            Event::Failed(failure) => EventView::Failed(failure@),
        }
    }
}

/// What the caller does next.
#[derive(Debug)]
pub enum Action<T> {
    /// Read the body of the response as JSON and report `Body` or `BadBody`.
    ReadBody,
    /// Sleep for so many seconds, then issue the request again.
    Retry { delay_secs: u64 },
    /// The request succeeded with this payload.
    Done(T),
    /// The request failed for good.
    Fail(ApiError),
}

pub enum ActionView<T> {
    ReadBody,
    Retry { delay_secs: nat },
    Done(T),
    Fail(ApiErrorView),
}

impl<T> View for Action<T> {
    type V = ActionView<T>;

    open spec fn view(&self) -> ActionView<T> {
        match self {
            Action::ReadBody => ActionView::ReadBody,
            Action::Retry { delay_secs } => ActionView::Retry { delay_secs: *delay_secs as nat },
            Action::Done(json) => ActionView::Done(*json),
            Action::Fail(e) => ActionView::Fail(e@),
        }
    }
}

/// A status in the 2xx range.
pub open spec fn is_success(code: u16) -> bool {
    200 <= code < 300
}

/// Seconds to wait after the `attempt`-th attempt was throttled.
pub open spec fn throttle_delay(attempt: nat) -> nat {
    pow2(attempt) * 2
}

/// Seconds to wait after the `attempt`-th attempt timed out.
pub open spec fn timeout_delay(attempt: nat) -> nat {
    pow2((attempt - 1) as nat)
}

/// The protocol: the attempt counter after the event, and what is to be done.
pub open spec fn step<T>(attempt: nat, max_retries: nat, event: EventView<T>) -> (
    nat,
    ActionView<T>,
) {
    match event {
        EventView::Status { code, line } => if is_success(code) {
            (attempt, ActionView::ReadBody)
        } else if code == TOO_MANY_REQUESTS && attempt <= max_retries {
            (attempt + 1, ActionView::Retry { delay_secs: throttle_delay(attempt) })
        } else {
            (attempt, ActionView::Fail(status_error(code, line)))
        },
        EventView::Body(json) => (attempt, ActionView::Done(json)),
        EventView::BadBody(reason) => (attempt, ActionView::Fail(invalid_json_error(reason))),
        EventView::Failed(failure) => if failure.timeout && attempt <= max_retries {
            (attempt + 1, ActionView::Retry { delay_secs: timeout_delay(attempt) })
        } else {
            (attempt, ActionView::Fail(transport_error(failure)))
        },
    }
}

fn two_to(e: u32) -> (p: u64)
    requires
        e <= 63,
    ensures
        p == pow2(e as nat),
{
    let mut p: u64 = 1;
    let mut i: u32 = 0;
    proof {
        lemma2_to64();
    }
    while i < e
        invariant
            i <= e <= 63,
            p == pow2(i as nat),
        decreases e - i,
    {
        proof {
            lemma2_to64();
            lemma_pow2_unfold((i + 1) as nat);
            lemma_pow2_strictly_increases((i + 1) as nat, 64);
        }
        p = p * 2;
        i = i + 1;
    }
    p
}

/// The settings of a fetcher, fixed when it is made.
#[derive(Debug, Clone, Copy)]
pub struct BaseClient {
    timeout_secs: u64,
    max_retries: u32,
}

/// One logical request in progress.
#[derive(Debug)]
pub struct Fetch {
    request: Request,
    attempt: u32,
    max_retries: u32,
}

impl BaseClient {
    #[verifier::type_invariant]
    spec fn budget_fits(self) -> bool {
        self.max_retries <= MAX_RETRY_BUDGET
    }

    /// The overall timeout of one attempt, in seconds.
    pub closed spec fn timeout(&self) -> u64 {
        self.timeout_secs
    }

    /// How often a request is retried at most.
    pub closed spec fn retries(&self) -> u32 {
        self.max_retries
    }

    /// A fetcher with an overall timeout and a retry budget.
    pub fn new(timeout_secs: u64, max_retries: u32) -> (client: Self)
        requires
            max_retries <= MAX_RETRY_BUDGET,
        ensures
            client.timeout() == timeout_secs,
            client.retries() == max_retries,
    {
        Self { timeout_secs, max_retries }
    }

    /// The overall timeout of one attempt, in seconds.
    pub fn timeout_secs(&self) -> (secs: u64)
        ensures
            secs == self.timeout(),
    {
        self.timeout_secs
    }

    /// How often a request is retried at most.
    pub fn max_retries(&self) -> (n: u32)
        ensures
            n == self.retries(),
            n <= MAX_RETRY_BUDGET,
    {
        proof {
            use_type_invariant(self);
        }
        self.max_retries
    }

    /// Starts a request for `url` without query parameters.
    pub fn get_json(&self, url: &str) -> (fetch: Fetch)
        ensures
            fetch.attempt() == 1,
            fetch.retries() == self.retries(),
            fetch.target()@ == (RequestView { url: url@, query: Seq::empty() }),
    {
        let request = Request { url: String::from_str(url), query: Vec::new() };
        assert(request@.query =~= Seq::empty());
        self.start(request)
    }

    /// Starts a request for `url` with the given query parameters.
    pub fn get_json_with_query(&self, url: &str, query: Vec<(String, String)>) -> (fetch: Fetch)
        ensures
            fetch.attempt() == 1,
            fetch.retries() == self.retries(),
            fetch.target()@ == (RequestView { url: url@, query: query_view(query@) }),
    {
        self.start(Request { url: String::from_str(url), query })
    }

    /// Starts the given request.
    pub fn start(&self, request: Request) -> (fetch: Fetch)
        ensures
            fetch.attempt() == 1,
            fetch.retries() == self.retries(),
            fetch.target() == request,
    {
        proof {
            use_type_invariant(self);
        }
        Fetch { request, attempt: 1, max_retries: self.max_retries }
    }
}

impl Fetch {
    #[verifier::type_invariant]
    spec fn within_budget(self) -> bool {
        &&& self.max_retries <= MAX_RETRY_BUDGET
        &&& 1 <= self.attempt <= self.max_retries + 1
    }

    /// The number of the attempt that is under way, counted from 1.
    pub closed spec fn attempt(&self) -> u32 {
        self.attempt
    }

    /// How often the request is retried at most.
    pub closed spec fn retries(&self) -> u32 {
        self.max_retries
    }

    /// The request that is being made.
    pub closed spec fn target(&self) -> Request {
        self.request
    }

    /// The request that is being made.
    pub fn request(&self) -> (request: &Request)
        ensures
            *request == self.target(),
    {
        &self.request
    }

    /// The number of the attempt that is under way, counted from 1.
    pub fn attempt_number(&self) -> (n: u32)
        ensures
            n == self.attempt(),
            1 <= n <= self.retries() + 1,
    {
        proof {
            use_type_invariant(self);
        }
        self.attempt
    }

    /// Takes what the transport reported of the attempt under way and says what
    /// to do next. A throttled or timed-out attempt is retried while the budget
    /// lasts; everything else ends the request.
    pub fn advance<T>(&mut self, event: Event<T>) -> (action: Action<T>)
        ensures
            final(self).target() == old(self).target(),
            final(self).retries() == old(self).retries(),
            (final(self).attempt() as nat, action@) == step(
                old(self).attempt() as nat,
                old(self).retries() as nat,
                event@,
            ),
    {
        proof {
            use_type_invariant(&*self);
        }
        match event {
            Event::Status { code, line } => {
                if 200 <= code && code < 300 {
                    Action::ReadBody
                } else if code == TOO_MANY_REQUESTS && self.attempt <= self.max_retries {
                    let power = two_to(self.attempt);
                    proof {
                        lemma2_to64_rest();
                        lemma_pow2_strictly_increases(self.attempt as nat, 63);
                    }
                    let delay_secs: u64 = power * 2;
                    self.attempt = self.attempt + 1;
                    Action::Retry { delay_secs }
                } else {
                    Action::Fail(ApiError::from_status(code, line.as_str()))
                }
            },
            Event::Body(json) => Action::Done(json),
            Event::BadBody(reason) => Action::Fail(ApiError::invalid_json(reason.as_str())),
            Event::Failed(failure) => {
                if failure.timeout && self.attempt <= self.max_retries {
                    let delay_secs = two_to(self.attempt - 1);
                    self.attempt = self.attempt + 1;
                    Action::Retry { delay_secs }
                } else {
                    Action::Fail(ApiError::from(failure))
                }
            },
        }
    }
}

/// What a run of the protocol came to: the delays it slept, in order, and how it
/// ended, if the events sufficed to end it.
pub struct Trace<T> {
    pub delays: Seq<nat>,
    pub outcome: Option<Result<T, ApiErrorView>>,
}

impl<T> Trace<T> {
    /// The number of attempts made: the first, and one after each delay.
    pub open spec fn attempts(self) -> nat {
        self.delays.len() + 1
    }
}

/// The protocol run over the events that the transport reports one after the
/// other, starting with the given attempt counter.
pub open spec fn run<T>(attempt: nat, max_retries: nat, events: Seq<EventView<T>>) -> Trace<T>
    decreases events.len(),
{
    if events.len() == 0 {
        Trace { delays: Seq::empty(), outcome: None }
    } else {
        let (next, action) = step(attempt, max_retries, events[0]);
        match action {
            ActionView::ReadBody => run(next, max_retries, events.skip(1)),
            ActionView::Retry { delay_secs } => {
                let rest = run(next, max_retries, events.skip(1));
                Trace { delays: seq![delay_secs] + rest.delays, outcome: rest.outcome }
            },
            ActionView::Done(json) => Trace { delays: Seq::empty(), outcome: Some(Ok(json)) },
            ActionView::Fail(e) => Trace { delays: Seq::empty(), outcome: Some(Err(e)) },
        }
    }
}

/// Every event reports the status 429.
pub open spec fn always_throttled<T>(events: Seq<EventView<T>>) -> bool {
    forall|i: int|
        0 <= i < events.len() ==> (#[trigger] events[i]) is Status && events[i]->code
            == TOO_MANY_REQUESTS
}

/// Every event reports a timeout of the transport.
pub open spec fn always_timed_out<T>(events: Seq<EventView<T>>) -> bool {
    forall|i: int|
        0 <= i < events.len() ==> (#[trigger] events[i]) is Failed && events[i]->Failed_0.timeout
}

/// Whatever the transport reports, a request is retried at most `max_retries`
/// times: it makes at most `max_retries + 1` attempts.
pub proof fn law_retry_bound<T>(max_retries: nat, events: Seq<EventView<T>>)
    ensures
        run(1, max_retries, events).delays.len() <= max_retries,
        run(1, max_retries, events).attempts() <= max_retries + 1,
{
    lemma_retries_left(1, max_retries, events);
}

proof fn lemma_retries_left<T>(attempt: nat, max_retries: nat, events: Seq<EventView<T>>)
    requires
        1 <= attempt <= max_retries + 1,
    ensures
        run(attempt, max_retries, events).delays.len() + attempt <= max_retries + 1,
    decreases events.len(),
{
    if events.len() > 0 {
        let (next, action) = step(attempt, max_retries, events[0]);
        match action {
            ActionView::ReadBody => {
                lemma_retries_left(next, max_retries, events.skip(1));
            },
            ActionView::Retry { delay_secs } => {
                lemma_retries_left(next, max_retries, events.skip(1));
            },
            _ => {},
        }
    }
}

/// A request that is throttled every time sleeps `2^k * 2` seconds after its
/// `k`-th attempt, makes `max_retries + 1` attempts in all, and then fails with
/// the error of the last response, which is of the kind `UpstreamThrottled`.
pub proof fn law_throttled_gives_up<T>(max_retries: nat, events: Seq<EventView<T>>)
    requires
        events.len() >= max_retries + 1,
        always_throttled(events),
    ensures
        ({
            let trace = run(1, max_retries, events);
            &&& trace.attempts() == max_retries + 1
            &&& forall|k: int|
                0 <= k < max_retries ==> #[trigger] trace.delays[k] == throttle_delay((1 + k) as nat)
            &&& trace.outcome == Some(
                Err::<T, ApiErrorView>(
                    status_error(TOO_MANY_REQUESTS, events[max_retries as int]->line),
                ),
            )
            &&& status_error(TOO_MANY_REQUESTS, events[max_retries as int]->line).kind()
                == ErrorKind::UpstreamThrottled
        }),
{
    lemma_throttled_from(1, max_retries, events);
}

proof fn lemma_throttled_from<T>(attempt: nat, max_retries: nat, events: Seq<EventView<T>>)
    requires
        1 <= attempt <= max_retries + 1,
        events.len() >= max_retries + 2 - attempt,
        always_throttled(events),
    ensures
        ({
            let trace = run(attempt, max_retries, events);
            let last = max_retries + 1 - attempt;
            &&& trace.delays.len() == last
            &&& forall|k: int|
                0 <= k < last ==> #[trigger] trace.delays[k] == throttle_delay((attempt + k) as nat)
            &&& trace.outcome == Some(
                Err::<T, ApiErrorView>(status_error(TOO_MANY_REQUESTS, events[last]->line)),
            )
            &&& status_error(TOO_MANY_REQUESTS, events[last]->line).kind()
                == ErrorKind::UpstreamThrottled
        }),
    decreases max_retries + 1 - attempt,
{
    lemma_throttled_kind(events[max_retries + 1 - attempt]->line);
    assert(events[0] is Status);
    if attempt <= max_retries {
        let rest = events.skip(1);
        assert forall|i: int| 0 <= i < rest.len() implies (#[trigger] rest[i]) is Status
            && rest[i]->code == TOO_MANY_REQUESTS by {
            assert(rest[i] == events[i + 1]);
        }
        lemma_throttled_from(attempt + 1, max_retries, rest);
        let trace = run(attempt, max_retries, events);
        let tail = run(attempt + 1, max_retries, rest);
        assert(trace.delays == seq![throttle_delay(attempt)] + tail.delays);
        assert(rest[max_retries - attempt] == events[max_retries + 1 - attempt]);
        assert forall|k: int| 0 <= k < max_retries + 1 - attempt implies #[trigger] trace.delays[k]
            == throttle_delay((attempt + k) as nat) by {
            if k > 0 {
                assert(trace.delays[k] == tail.delays[k - 1]);
            }
        }
    }
}

/// A request that times out every time sleeps 1, 2, 4, ... seconds, each delay
/// twice the one before, makes `max_retries + 1` attempts in all, and then fails
/// with an error of the kind `TransientNetwork`.
pub proof fn law_timeout_backoff_doubles<T>(max_retries: nat, events: Seq<EventView<T>>)
    requires
        events.len() >= max_retries + 1,
        always_timed_out(events),
    ensures
        ({
            let trace = run(1, max_retries, events);
            &&& trace.attempts() == max_retries + 1
            &&& max_retries > 0 ==> trace.delays[0] == 1
            &&& forall|k: int|
                0 <= k < max_retries - 1 ==> #[trigger] trace.delays[k + 1] == 2 * trace.delays[k]
            &&& trace.outcome == Some(
                Err::<T, ApiErrorView>(transport_error(events[max_retries as int]->Failed_0)),
            )
            &&& transport_error(events[max_retries as int]->Failed_0).kind()
                == ErrorKind::TransientNetwork
        }),
{
    lemma_timed_out_from(1, max_retries, events);
    let trace = run(1, max_retries, events);
    lemma2_to64();
    assert forall|k: int| 0 <= k < max_retries - 1 implies #[trigger] trace.delays[k + 1] == 2
        * trace.delays[k] by {
        assert(trace.delays[k] == timeout_delay((1 + k) as nat));
        lemma_pow2_unfold((k + 1) as nat);
    }
    if max_retries > 0 {
        assert(trace.delays[0] == timeout_delay(1));
    }
}

proof fn lemma_timed_out_from<T>(attempt: nat, max_retries: nat, events: Seq<EventView<T>>)
    requires
        1 <= attempt <= max_retries + 1,
        events.len() >= max_retries + 2 - attempt,
        always_timed_out(events),
    ensures
        ({
            let trace = run(attempt, max_retries, events);
            let last = max_retries + 1 - attempt;
            &&& trace.delays.len() == last
            &&& forall|k: int|
                0 <= k < last ==> #[trigger] trace.delays[k] == timeout_delay((attempt + k) as nat)
            &&& trace.outcome == Some(
                Err::<T, ApiErrorView>(transport_error(events[last]->Failed_0)),
            )
            &&& transport_error(events[last]->Failed_0).kind() == ErrorKind::TransientNetwork
        }),
    decreases max_retries + 1 - attempt,
{
    assert(events[0] is Failed);
    assert(events[max_retries + 1 - attempt] is Failed);
    if attempt <= max_retries {
        let rest = events.skip(1);
        assert forall|i: int| 0 <= i < rest.len() implies (#[trigger] rest[i]) is Failed
            && rest[i]->Failed_0.timeout by {
            assert(rest[i] == events[i + 1]);
        }
        lemma_timed_out_from(attempt + 1, max_retries, rest);
        let trace = run(attempt, max_retries, events);
        let tail = run(attempt + 1, max_retries, rest);
        assert(trace.delays == seq![timeout_delay(attempt)] + tail.delays);
        assert(rest[max_retries - attempt] == events[max_retries + 1 - attempt]);
        assert forall|k: int| 0 <= k < max_retries + 1 - attempt implies #[trigger] trace.delays[k]
            == timeout_delay((attempt + k) as nat) by {
            if k > 0 {
                assert(trace.delays[k] == tail.delays[k - 1]);
            }
        }
    }
}

} // verus!
