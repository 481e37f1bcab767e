use edgedb_pkg::errors::Error;
use edgedb_pkg::fetch::{fetch_step, retry_seconds, FetchEvent, FetchOutcome, FetchState};

#[derive(Debug, PartialEq)]
enum End {
    Done(String),
    Failed(Error),
    Pending(String),
}

/// Run the machine over a stub's responses, recording every backoff
/// sleep and the number of requests made.
fn drive(url: &str, events: Vec<FetchEvent>) -> (End, Vec<u64>, usize) {
    let mut state = FetchState::begin(String::from(url));
    let mut sleeps: Vec<u64> = Vec::new();
    let mut requests: usize = 0;
    for ev in events {
        requests += 1;
        match fetch_step(state, ev) {
            FetchOutcome::Next { state: next, sleep } => {
                if let Some(s) = sleep {
                    sleeps.push(s);
                }
                state = next;
            }
            FetchOutcome::Done { url } => return (End::Done(url), sleeps, requests),
            FetchOutcome::Failed { error } => return (End::Failed(error), sleeps, requests),
        }
    }
    (End::Pending(state.url), sleeps, requests)
}

#[test]
fn backoff_then_success() {
    // a stub that answers 503 for the first n requests, then 200
    let schedule = [5u64, 15, 30];
    for n in 0..=3usize {
        let mut events: Vec<FetchEvent> = Vec::new();
        for _ in 0..n {
            events.push(FetchEvent::Retryable);
        }
        events.push(FetchEvent::Success);
        let (end, sleeps, requests) = drive("https://host/index.json", events);
        assert_eq!(end, End::Done(String::from("https://host/index.json")));
        assert_eq!(requests, n + 1);
        assert_eq!(sleeps, schedule[..n].to_vec());
    }
}

#[test]
fn retry_budget_exhausted_after_ten_attempts() {
    // a stub that always answers 500
    let events: Vec<FetchEvent> = (0..20).map(|_| FetchEvent::Retryable).collect();
    let (end, sleeps, requests) = drive("https://host/x", events);
    assert_eq!(end, End::Failed(Error::RetryBudgetExhausted));
    assert_eq!(requests, 10);
    assert_eq!(sleeps, vec![5, 15, 30, 60, 60, 60, 60, 60, 60]);
}

#[test]
fn relative_redirect_resolves_against_current_url() {
    let events = vec![FetchEvent::Redirect {
        permanent: false,
        location: Some(String::from("/foo")),
    }];
    let (end, sleeps, requests) = drive("https://host/a/b", events);
    assert_eq!(end, End::Pending(String::from("https://host/foo")));
    assert_eq!(sleeps, Vec::<u64>::new());
    assert_eq!(requests, 1);
}

#[test]
fn dotless_relative_redirect() {
    let events = vec![FetchEvent::Redirect {
        permanent: true,
        location: Some(String::from("c")),
    }];
    let (end, _, _) = drive("https://host/a/b", events);
    assert_eq!(end, End::Pending(String::from("https://host/a/c")));
}

#[test]
fn absolute_redirect_replaces_url() {
    let events = vec![FetchEvent::Redirect {
        permanent: true,
        location: Some(String::from("https://mirror.example/pkg")),
    }];
    let (end, _, _) = drive("https://host/a/b", events);
    assert_eq!(end, End::Pending(String::from("https://mirror.example/pkg")));
}

#[test]
fn redirect_then_success_uses_new_url() {
    let events = vec![
        FetchEvent::Redirect { permanent: false, location: Some(String::from("/moved")) },
        FetchEvent::Success,
    ];
    let (end, sleeps, requests) = drive("https://host/start", events);
    assert_eq!(end, End::Done(String::from("https://host/moved")));
    assert_eq!(sleeps, Vec::<u64>::new());
    assert_eq!(requests, 2);
}

#[test]
fn redirect_without_location_is_malformed() {
    let events = vec![FetchEvent::Redirect { permanent: false, location: None }];
    let (end, _, _) = drive("https://host/a", events);
    assert_eq!(end, End::Failed(Error::MalformedRedirect));
}

#[test]
fn redirect_with_unresolvable_location_is_malformed() {
    let events = vec![FetchEvent::Redirect {
        permanent: false,
        location: Some(String::from("https://bad url with spaces")),
    }];
    let (end, _, _) = drive("https://host/a", events);
    assert_eq!(end, End::Failed(Error::MalformedRedirect));
}

#[test]
fn redirect_chain_consumes_attempt_budget() {
    let events: Vec<FetchEvent> = (0..15)
        .map(|_| FetchEvent::Redirect { permanent: false, location: Some(String::from("/loop")) })
        .collect();
    let (end, sleeps, requests) = drive("https://host/a", events);
    assert_eq!(end, End::Failed(Error::RetryBudgetExhausted));
    assert_eq!(requests, 10);
    assert_eq!(sleeps, Vec::<u64>::new());
}

#[test]
fn permanent_failures() {
    let (end, _, requests) = drive("https://h/x", vec![FetchEvent::NotFoundStatus]);
    assert_eq!(end, End::Failed(Error::NotFound));
    assert_eq!(requests, 1);

    let (end, _, _) = drive("https://h/x", vec![FetchEvent::OtherFailure { status: 418 }]);
    assert_eq!(end, End::Failed(Error::HttpFailure { status: 418 }));

    let (end, _, _) = drive("https://h/x", vec![FetchEvent::TransportError]);
    assert_eq!(end, End::Failed(Error::HttpError));
}

#[test]
fn status_classification() {
    assert!(matches!(FetchEvent::from_status(200, None), FetchEvent::Success));
    assert!(matches!(FetchEvent::from_status(204, None), FetchEvent::Success));
    match FetchEvent::from_status(301, Some(String::from("/x"))) {
        FetchEvent::Redirect { permanent, location } => {
            assert!(permanent);
            assert_eq!(location.as_deref(), Some("/x"));
        }
        other => panic!("wrong event: {:?}", status_name(&other)),
    }
    match FetchEvent::from_status(302, Some(String::from("/y"))) {
        FetchEvent::Redirect { permanent, .. } => assert!(!permanent),
        other => panic!("wrong event: {:?}", status_name(&other)),
    }
    match FetchEvent::from_status(308, None) {
        FetchEvent::Redirect { permanent, location } => {
            assert!(permanent);
            assert!(location.is_none());
        }
        other => panic!("wrong event: {:?}", status_name(&other)),
    }
    assert!(matches!(FetchEvent::from_status(404, None), FetchEvent::NotFoundStatus));
    assert!(matches!(FetchEvent::from_status(429, None), FetchEvent::Retryable));
    assert!(matches!(FetchEvent::from_status(500, None), FetchEvent::Retryable));
    assert!(matches!(FetchEvent::from_status(503, None), FetchEvent::Retryable));
    assert!(matches!(
        FetchEvent::from_status(418, None),
        FetchEvent::OtherFailure { status: 418 }
    ));
    assert!(matches!(
        FetchEvent::from_status(400, None),
        FetchEvent::OtherFailure { status: 400 }
    ));
}

fn status_name(ev: &FetchEvent) -> &'static str {
    match ev {
        FetchEvent::Success => "success",
        FetchEvent::Redirect { .. } => "redirect",
        FetchEvent::Retryable => "retryable",
        FetchEvent::NotFoundStatus => "not-found",
        FetchEvent::OtherFailure { .. } => "other-failure",
        FetchEvent::TransportError => "transport-error",
    }
}

#[test]
fn backoff_schedule() {
    assert_eq!(retry_seconds(0), 5);
    assert_eq!(retry_seconds(1), 15);
    assert_eq!(retry_seconds(2), 30);
    assert_eq!(retry_seconds(3), 60);
    assert_eq!(retry_seconds(4), 60);
    assert_eq!(retry_seconds(100), 60);
}
