use curlio::config::RequestConfig;
use curlio::error::ConfigError;
use curlio::fanout::{compose_all, FanIn};
use curlio::method::Method;
use curlio::outcome::{FailureKind, RequestOutcome, ResponseHead, SendFailure};

fn success(status: u16) -> RequestOutcome {
    RequestOutcome::Success(ResponseHead {
        status,
        reason: String::new(),
        headers: vec![("x".to_string(), status.to_string())],
        content_length: Some(status as u64),
    })
}

fn refused() -> RequestOutcome {
    RequestOutcome::Failure {
        failure: SendFailure { kind: FailureKind::Network, detail: "refused".to_string() },
        attempts: 1,
    }
}

#[test]
fn outcomes_leave_in_url_order() {
    let outcomes = vec![success(200), refused(), success(404)];
    let orders: Vec<Vec<usize>> = vec![
        vec![0, 1, 2],
        vec![0, 2, 1],
        vec![1, 0, 2],
        vec![1, 2, 0],
        vec![2, 0, 1],
        vec![2, 1, 0],
    ];
    for order in orders {
        let mut board = FanIn::new(3);
        for (seen, index) in order.iter().enumerate() {
            assert!(!board.is_complete());
            assert_eq!(board.clone().finish(), Err(board.clone()));
            assert!(board.record(*index, outcomes[*index].clone()));
            assert_eq!(board.slots.iter().filter(|s| s.is_some()).count(), seen + 1);
        }
        assert!(board.is_complete());
        assert_eq!(board.finish(), Ok(outcomes.clone()));
    }
}

#[test]
fn a_failure_does_not_stop_the_others() {
    let mut board = FanIn::new(2);
    assert!(board.record(1, refused()));
    assert!(!board.is_complete());
    assert!(board.record(0, success(200)));
    assert_eq!(board.finish(), Ok(vec![success(200), refused()]));
}

#[test]
fn stray_and_repeated_outcomes_are_ignored() {
    let mut board = FanIn::new(2);
    assert!(!board.record(2, success(200)));
    assert!(!board.record(usize::MAX, success(200)));
    assert!(board.record(0, success(200)));
    assert!(!board.record(0, success(500)));
    assert_eq!(board.slots, vec![Some(success(200)), None]);
    assert!(board.record(1, success(201)));
    assert_eq!(board.finish(), Ok(vec![success(200), success(201)]));
}

#[test]
fn no_request_is_complete_at_once() {
    let board = FanIn::new(0);
    assert!(board.is_complete());
    assert_eq!(board.finish(), Ok(vec![]));
}

#[test]
fn one_request_per_url() {
    let mut config = RequestConfig::new("http://a.test,http://b.test,http://c.test");
    config.method = "POST".to_string();
    config.headers = Some("{\"X-Trace\": \"1\"}".to_string());
    config.body = Some("data".to_string());
    let urls = vec!["http://a.test".to_string(), "http://b.test".to_string(), "http://c.test".to_string()];
    let requests = compose_all(&config, &urls).unwrap();
    assert_eq!(requests.len(), 3);
    for (request, url) in requests.iter().zip(urls.iter()) {
        assert_eq!(&request.url, url);
        assert_eq!(request.method, Method::Post);
        assert_eq!(request.headers.to_pairs(), vec![("X-Trace".to_string(), "1".to_string())]);
        assert_eq!(request.body, curlio::compose::Body::Raw("data".to_string()));
    }
    assert_eq!(compose_all(&config, &vec![]), Ok(vec![]));
    config.method = "TRACE".to_string();
    assert_eq!(compose_all(&config, &urls), Err(ConfigError::UnsupportedMethod));
}
