//! The resilient fetch state machine: follow redirects, absorb transient
//! server failures with a fixed backoff schedule, and stop on permanent
//! failures or when the shared attempt budget runs out.
//!
//! The machine makes every decision; the caller performs the actual GET,
//! classifies the response with [`FetchEvent::from_status`], and feeds it
//! back with [`fetch_step`].  One attempt counter covers redirect hops
//! and retries alike, so a long redirect chain alone can exhaust the
//! budget; the backoff schedule, in turn, advances only on retries.

use vstd::prelude::*;

use crate::errors::Error;

verus! {

/// The bound on fetch attempts within one call.
pub const MAX_ATTEMPTS: u64 = 10;

/// The identifying `User-Agent` header sent with every request.
pub const USER_AGENT: &'static str = "edgedb";

/// The fixed backoff schedule, indexed by how many retries happened
/// before: 5, 15, 30, then 60 seconds repeating.
pub open spec fn spec_retry_seconds(i: nat) -> u64 {
    if i == 0 {
        5
    } else if i == 1 {
        15
    } else if i == 2 {
        30
    } else {
        60
    }
}

/// The backoff wait before the retry with the given index.
pub fn retry_seconds(index: u64) -> (secs: u64)
    ensures
        secs == spec_retry_seconds(index as nat),
{
    if index == 0 {
        5
    } else if index == 1 {
        15
    } else if index == 2 {
        30
    } else {
        60
    }
}

/// What url's reference resolution yields for a base and a (possibly
/// relative) reference; nothing when the base is not an absolute URL or
/// the reference cannot be resolved against it.
pub uninterp spec fn resolved_reference(base: Seq<char>, reference: Seq<char>) -> Option<Seq<char>>;

/// Relies on `url::Url::parse` and `url::Url::join`: RFC 3986 reference
/// resolution of `reference` against the absolute base URL `base`.  An
/// absolute reference resolves to itself, a relative one is joined onto
/// the base.
#[verifier::external_body]
pub(crate) fn resolve_reference(base: &str, reference: &str) -> (r: Option<String>)
    ensures
        r matches Some(u) ==> resolved_reference(base@, reference@) == Some(u@),
        r is None ==> resolved_reference(base@, reference@) is None,
{
    match url::Url::parse(base) {
        Ok(b) => match b.join(reference) {
            Ok(u) => Some(String::from(u)),
            Err(_) => None,
        },
        Err(_) => None,
    }
}

/// One observed response, classified.
pub enum FetchEvent {
    /// A 2xx status.
    Success,
    /// A 3xx status with its `Location` header, if any.
    Redirect { permanent: bool, location: Option<String> },
    /// A 5xx status, or 429 (too many requests).
    Retryable,
    /// A 404 status.
    NotFoundStatus,
    /// Any other status.
    OtherFailure { status: u16 },
    /// The request itself failed at the transport level.
    TransportError,
}

/// The mathematical image of an event.
pub ghost enum EventModel {
    Success,
    Redirect { permanent: bool, location: Option<Seq<char>> },
    Retryable,
    NotFoundStatus,
    OtherFailure { status: u16 },
    TransportError,
}

impl View for FetchEvent {
    type V = EventModel;

    open spec fn view(&self) -> EventModel {
        match self {
            FetchEvent::Success => EventModel::Success,
            FetchEvent::Redirect { permanent, location } => EventModel::Redirect {
                permanent: *permanent,
                location: match location {
                    Some(l) => Some(l@),
                    None => None,
                },
            },
            FetchEvent::Retryable => EventModel::Retryable,
            FetchEvent::NotFoundStatus => EventModel::NotFoundStatus,
            FetchEvent::OtherFailure { status } => EventModel::OtherFailure { status: *status },
            FetchEvent::TransportError => EventModel::TransportError,
        }
    }
}

/// How one status code and `Location` header classify.
pub open spec fn spec_event_of_status(status: u16, location: Option<Seq<char>>) -> EventModel {
    if 200 <= status < 300 {
        EventModel::Success
    } else if 300 <= status < 400 {
        EventModel::Redirect { permanent: status == 301 || status == 308, location }
    } else if status == 404 {
        EventModel::NotFoundStatus
    } else if (500 <= status < 600) || status == 429 {
        EventModel::Retryable
    } else {
        EventModel::OtherFailure { status }
    }
}

impl FetchEvent {
    /// Classify a response by its status code and `Location` header:
    /// 2xx succeeds; 3xx redirects (301 and 308 permanently); 404 is the
    /// distinguished not-found; 5xx and 429 are transient; everything
    /// else fails outright.
    pub fn from_status(status: u16, location: Option<String>) -> (ev: FetchEvent)
        ensures
            ev@ == spec_event_of_status(
                status,
                match location {
                    Some(l) => Some(l@),
                    None => None,
                },
            ),
    {
        if 200 <= status && status < 300 {
            FetchEvent::Success
        } else if 300 <= status && status < 400 {
            FetchEvent::Redirect { permanent: status == 301 || status == 308, location }
        } else if status == 404 {
            FetchEvent::NotFoundStatus
        } else if (500 <= status && status < 600) || status == 429 {
            FetchEvent::Retryable
        } else {
            FetchEvent::OtherFailure { status }
        }
    }
}

/// The machine's state while a fetch is in progress.
pub struct FetchState {
    /// The URL the next request goes to.
    pub url: String,
    /// Responses consumed so far (redirect hops and retries alike).
    pub attempts: u64,
    /// Retries so far; indexes the backoff schedule.
    pub backoffs: u64,
}

pub ghost struct FetchStateModel {
    pub url: Seq<char>,
    pub attempts: nat,
    pub backoffs: nat,
}

impl FetchStateModel {
    /// The machine's invariant: every backoff consumed an attempt, so
    /// the backoff index never outruns the attempt counter.
    pub open spec fn wf(&self) -> bool {
        self.backoffs <= self.attempts
    }
}

impl View for FetchState {
    type V = FetchStateModel;

    open spec fn view(&self) -> FetchStateModel {
        FetchStateModel {
            url: self.url@,
            attempts: self.attempts as nat,
            backoffs: self.backoffs as nat,
        }
    }
}

pub open spec fn spec_begin(url: Seq<char>) -> FetchStateModel {
    FetchStateModel { url, attempts: 0, backoffs: 0 }
}

impl FetchState {
    /// The starting state for one fetch of `url`.
    pub fn begin(url: String) -> (st: FetchState)
        ensures
            st@ == spec_begin(url@),
    {
        FetchState { url, attempts: 0, backoffs: 0 }
    }
}

/// What the caller must do next.
pub enum FetchOutcome {
    /// Issue the next request to `state.url`, after sleeping `sleep`
    /// seconds if that is set.
    Next { state: FetchState, sleep: Option<u64> },
    /// The last response succeeded; its body is the result.
    Done { url: String },
    /// The fetch failed for good.
    Failed { error: Error },
}

pub ghost enum OutcomeModel {
    Next { state: FetchStateModel, sleep: Option<u64> },
    Done { url: Seq<char> },
    Failed { error: Error },
}

impl View for FetchOutcome {
    type V = OutcomeModel;

    open spec fn view(&self) -> OutcomeModel {
        match self {
            FetchOutcome::Next { state, sleep } => OutcomeModel::Next {
                state: state@,
                sleep: *sleep,
            },
            FetchOutcome::Done { url } => OutcomeModel::Done { url: url@ },
            FetchOutcome::Failed { error } => OutcomeModel::Failed { error: *error },
        }
    }
}

/// The transition relation of the fetch machine.  Success ends the call;
/// 404 and other failing statuses and transport errors fail it at once;
/// a redirect resolves its location against the current URL and follows
/// it without consuming a backoff step; a retryable status sleeps for
/// the next scheduled backoff and retries the same URL.  Redirects and
/// retries both consume the shared attempt budget, and exhausting it
/// fails the call.
pub open spec fn spec_fetch_step(st: FetchStateModel, ev: EventModel) -> OutcomeModel {
    match ev {
        EventModel::Success => OutcomeModel::Done { url: st.url },
        EventModel::NotFoundStatus => OutcomeModel::Failed { error: Error::NotFound },
        EventModel::OtherFailure { status } => OutcomeModel::Failed {
            error: Error::HttpFailure { status },
        },
        EventModel::TransportError => OutcomeModel::Failed { error: Error::HttpError },
        EventModel::Redirect { permanent, location } => match location {
            None => OutcomeModel::Failed { error: Error::MalformedRedirect },
            Some(loc) => match resolved_reference(st.url, loc) {
                None => OutcomeModel::Failed { error: Error::MalformedRedirect },
                Some(u) => if st.attempts + 1 >= MAX_ATTEMPTS {
                    OutcomeModel::Failed { error: Error::RetryBudgetExhausted }
                } else {
                    OutcomeModel::Next {
                        state: FetchStateModel {
                            url: u,
                            attempts: st.attempts + 1,
                            backoffs: st.backoffs,
                        },
                        sleep: None,
                    }
                },
            },
        },
        EventModel::Retryable => if st.attempts + 1 >= MAX_ATTEMPTS {
            OutcomeModel::Failed { error: Error::RetryBudgetExhausted }
        } else {
            OutcomeModel::Next {
                state: FetchStateModel {
                    url: st.url,
                    attempts: st.attempts + 1,
                    backoffs: st.backoffs + 1,
                },
                sleep: Some(spec_retry_seconds(st.backoffs)),
            }
        },
    }
}

/// Consume one classified response and decide what happens next.
pub fn fetch_step(state: FetchState, event: FetchEvent) -> (r: FetchOutcome)
    requires
        state@.wf(),
    ensures
        r@ == spec_fetch_step(state@, event@),
        r@ matches OutcomeModel::Next { state: s2, .. } ==> s2.wf(),
{
    match event {
        FetchEvent::Success => FetchOutcome::Done { url: state.url },
        FetchEvent::NotFoundStatus => FetchOutcome::Failed { error: Error::NotFound },
        FetchEvent::OtherFailure { status } => FetchOutcome::Failed {
            error: Error::HttpFailure { status },
        },
        FetchEvent::TransportError => FetchOutcome::Failed { error: Error::HttpError },
        FetchEvent::Redirect { permanent: _, location } => match location {
            None => FetchOutcome::Failed { error: Error::MalformedRedirect },
            Some(loc) => match resolve_reference(state.url.as_str(), loc.as_str()) {
                None => FetchOutcome::Failed { error: Error::MalformedRedirect },
                Some(u) => if state.attempts >= MAX_ATTEMPTS - 1 {
                    FetchOutcome::Failed { error: Error::RetryBudgetExhausted }
                } else {
                    FetchOutcome::Next {
                        state: FetchState {
                            url: u,
                            attempts: state.attempts + 1,
                            backoffs: state.backoffs,
                        },
                        sleep: None,
                    }
                },
            },
        },
        FetchEvent::Retryable => if state.attempts >= MAX_ATTEMPTS - 1 {
            FetchOutcome::Failed { error: Error::RetryBudgetExhausted }
        } else {
            let secs = retry_seconds(state.backoffs);
            FetchOutcome::Next {
                state: FetchState {
                    url: state.url,
                    attempts: state.attempts + 1,
                    backoffs: state.backoffs + 1,
                },
                sleep: Some(secs),
            }
        },
    }
}

// ---------------------------------------------------------------------
// Whole runs of the machine
// ---------------------------------------------------------------------
/// How a run of the machine ends.
pub ghost enum RunEnd {
    /// The events ran out with the machine still fetching.
    Pending(FetchStateModel),
    Done(Seq<char>),
    Failed(Error),
}

/// A whole run: its end, every backoff slept, and how many requests
/// (events) were consumed.
pub ghost struct RunModel {
    pub end: RunEnd,
    pub sleeps: Seq<u64>,
    pub requests: nat,
}

/// Fold the machine over a sequence of observed events.
pub open spec fn spec_run(st: FetchStateModel, evs: Seq<EventModel>) -> RunModel
    decreases evs.len(),
{
    if evs.len() == 0 {
        RunModel { end: RunEnd::Pending(st), sleeps: Seq::empty(), requests: 0 }
    } else {
        match spec_fetch_step(st, evs[0]) {
            OutcomeModel::Done { url } => RunModel {
                end: RunEnd::Done(url),
                sleeps: Seq::empty(),
                requests: 1,
            },
            OutcomeModel::Failed { error } => RunModel {
                end: RunEnd::Failed(error),
                sleeps: Seq::empty(),
                requests: 1,
            },
            OutcomeModel::Next { state, sleep } => {
                let rest = spec_run(state, evs.skip(1));
                RunModel {
                    end: rest.end,
                    sleeps: (match sleep {
                        Some(s) => seq![s],
                        None => Seq::<u64>::empty(),
                    }) + rest.sleeps,
                    requests: 1 + rest.requests,
                }
            },
        }
    }
}

proof fn lemma_retry_then_success(url: Seq<char>, k: nat, n: nat)
    requires
        k <= n,
        n < MAX_ATTEMPTS,
    ensures
        ({
            let st = FetchStateModel { url, attempts: k, backoffs: k };
            let evs = Seq::new((n - k) as nat, |i: int| EventModel::Retryable).push(
                EventModel::Success,
            );
            let r = spec_run(st, evs);
            &&& r.end == RunEnd::Done(url)
            &&& r.requests == n - k + 1
            &&& r.sleeps =~= Seq::new((n - k) as nat, |i: int| spec_retry_seconds((k + i) as nat))
        }),
    decreases n - k,
{
    let st = FetchStateModel { url, attempts: k, backoffs: k };
    let evs = Seq::new((n - k) as nat, |i: int| EventModel::Retryable).push(EventModel::Success);
    if k == n {
        assert(evs[0] == EventModel::Success);
    } else {
        assert(evs[0] == EventModel::Retryable);
        lemma_retry_then_success(url, k + 1, n);
        let st2 = FetchStateModel { url, attempts: k + 1, backoffs: k + 1 };
        let evs2 = Seq::new((n - k - 1) as nat, |i: int| EventModel::Retryable).push(
            EventModel::Success,
        );
        assert(evs.skip(1) =~= evs2);
        let rest = spec_run(st2, evs2);
        assert(spec_run(st, evs).sleeps =~= seq![spec_retry_seconds(k)] + rest.sleeps);
        assert(spec_run(st, evs).sleeps =~= Seq::new(
            (n - k) as nat,
            |i: int| spec_retry_seconds((k + i) as nat),
        ));
    }
}

/// Backoff then success: if the first `n` responses to a fetch are
/// transient failures and the next one succeeds, and `n` stays under the
/// attempt cap, the fetch succeeds at the original URL after exactly
/// `n + 1` requests, having slept the first `n` entries of the backoff
/// schedule, one per failed attempt.
pub proof fn lemma_backoff_then_success(url: Seq<char>, n: nat)
    requires
        n < MAX_ATTEMPTS,
    ensures
        ({
            let evs = Seq::new(n, |i: int| EventModel::Retryable).push(EventModel::Success);
            let r = spec_run(spec_begin(url), evs);
            &&& r.end == RunEnd::Done(url)
            &&& r.requests == n + 1
            &&& r.sleeps =~= Seq::new(n, |i: int| spec_retry_seconds(i as nat))
        }),
{
    lemma_retry_then_success(url, 0, n);
    assert(Seq::new(n, |i: int| spec_retry_seconds((0 + i) as nat)) =~= Seq::new(
        n,
        |i: int| spec_retry_seconds(i as nat),
    ));
}

proof fn lemma_retry_all(url: Seq<char>, k: nat)
    requires
        k < MAX_ATTEMPTS,
    ensures
        ({
            let st = FetchStateModel { url, attempts: k, backoffs: k };
            let evs = Seq::new((MAX_ATTEMPTS - k) as nat, |i: int| EventModel::Retryable);
            let r = spec_run(st, evs);
            &&& r.end == RunEnd::Failed(Error::RetryBudgetExhausted)
            &&& r.requests == MAX_ATTEMPTS - k
            &&& r.sleeps =~= Seq::new(
                (MAX_ATTEMPTS - 1 - k) as nat,
                |i: int| spec_retry_seconds((k + i) as nat),
            )
        }),
    decreases MAX_ATTEMPTS - k,
{
    let st = FetchStateModel { url, attempts: k, backoffs: k };
    let evs = Seq::new((MAX_ATTEMPTS - k) as nat, |i: int| EventModel::Retryable);
    assert(evs[0] == EventModel::Retryable);
    if k == MAX_ATTEMPTS - 1 {
        assert(spec_run(st, evs).sleeps =~= Seq::new(
            (MAX_ATTEMPTS - 1 - k) as nat,
            |i: int| spec_retry_seconds((k + i) as nat),
        ));
    } else {
        lemma_retry_all(url, k + 1);
        let st2 = FetchStateModel { url, attempts: k + 1, backoffs: k + 1 };
        let evs2 = Seq::new((MAX_ATTEMPTS - k - 1) as nat, |i: int| EventModel::Retryable);
        assert(evs.skip(1) =~= evs2);
        let rest = spec_run(st2, evs2);
        assert(spec_run(st, evs).sleeps =~= seq![spec_retry_seconds(k)] + rest.sleeps);
        assert(spec_run(st, evs).sleeps =~= Seq::new(
            (MAX_ATTEMPTS - 1 - k) as nat,
            |i: int| spec_retry_seconds((k + i) as nat),
        ));
    }
}

/// A persistently failing server exhausts the retry budget: feeding the
/// machine the cap's worth of transient failures fails the fetch with
/// `RetryBudgetExhausted` after exactly `MAX_ATTEMPTS` requests; the
/// budget allows one backoff sleep fewer than that.
pub proof fn lemma_retry_budget_exhausted(url: Seq<char>)
    ensures
        ({
            let evs = Seq::new(MAX_ATTEMPTS as nat, |i: int| EventModel::Retryable);
            let r = spec_run(spec_begin(url), evs);
            &&& r.end == RunEnd::Failed(Error::RetryBudgetExhausted)
            &&& r.requests == MAX_ATTEMPTS
            &&& r.sleeps =~= Seq::new(
                (MAX_ATTEMPTS - 1) as nat,
                |i: int| spec_retry_seconds(i as nat),
            )
        }),
{
    lemma_retry_all(url, 0);
    assert(Seq::new((MAX_ATTEMPTS - 1) as nat, |i: int| spec_retry_seconds((0 + i) as nat)) =~= Seq::new(
        (MAX_ATTEMPTS - 1) as nat,
        |i: int| spec_retry_seconds(i as nat),
    ));
}

/// Short of the cap, transient failures keep the machine fetching: it
/// neither succeeds nor fails while the budget lasts.
pub proof fn lemma_still_fetching(url: Seq<char>, n: nat)
    ensures
        n < MAX_ATTEMPTS ==> spec_run(
            spec_begin(url),
            Seq::new(n, |i: int| EventModel::Retryable),
        ).end == RunEnd::Pending(FetchStateModel { url, attempts: n, backoffs: n }),
{
    lemma_still_fetching_from(url, 0, n);
}

proof fn lemma_still_fetching_from(url: Seq<char>, k: nat, n: nat)
    requires
        k <= n,
    ensures
        n < MAX_ATTEMPTS ==> spec_run(
            FetchStateModel { url, attempts: k, backoffs: k },
            Seq::new((n - k) as nat, |i: int| EventModel::Retryable),
        ).end == RunEnd::Pending(FetchStateModel { url, attempts: n, backoffs: n }),
    decreases n - k,
{
    if n < MAX_ATTEMPTS && k < n {
        lemma_still_fetching_from(url, k + 1, n);
        let evs = Seq::new((n - k) as nat, |i: int| EventModel::Retryable);
        assert(evs[0] == EventModel::Retryable);
        assert(evs.skip(1) =~= Seq::new((n - k - 1) as nat, |i: int| EventModel::Retryable));
    }
}

} // verus!
